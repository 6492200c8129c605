use vstd::prelude::*;
use vstd::string::*;
use crate::ast::{AST, AstV, body_view, pairs_view};
use crate::error::{ErrorV, RiftError};
use crate::lexer::{Token, TokenKind, TokenV, is_digit, tokens_view};
use crate::text::{decimal, push_decimal, same_text};

verus! {

broadcast use vstd::std_specs::vec::group_vec_axioms;

/// What a parse yields from a position: a value and the position after it, or
/// an error message.
pub type Parsed<T> = Result<(T, int), Seq<char>>;

pub open spec fn has_value(ts: Seq<TokenV>, p: int, v: Seq<char>) -> bool {
    0 <= p < ts.len() && ts[p].value == v
}

pub open spec fn has_kind(ts: Seq<TokenV>, p: int, k: TokenKind) -> bool {
    0 <= p < ts.len() && ts[p].kind == k
}

/// A name: an identifier, or a keyword used as one (`call optimize`).
pub open spec fn has_name(ts: Seq<TokenV>, p: int) -> bool {
    has_kind(ts, p, TokenKind::Identifier) || has_kind(ts, p, TokenKind::Keyword)
}

pub open spec fn has_symbol(ts: Seq<TokenV>, p: int, v: Seq<char>) -> bool {
    has_kind(ts, p, TokenKind::Symbol) && ts[p].value == v
}

pub open spec fn digit_value(c: char) -> int {
    (c as int) - ('0' as int)
}

/// The value of a string of decimal digits.
pub open spec fn number_value(s: Seq<char>) -> int
    decreases s.len(),
{
    if s.len() == 0 {
        0
    } else {
        10 * number_value(s.drop_last()) + digit_value(s.last())
    }
}

/// A number token that is a whole number fitting in `i32`.
pub open spec fn is_int_literal(s: Seq<char>) -> bool {
    s.len() > 0 && (forall|i: int| 0 <= i < s.len() ==> is_digit(#[trigger] s[i])) && number_value(s)
        <= i32::MAX
}

/// An expression: a whole number, a string or a name.
pub open spec fn expr_spec(ts: Seq<TokenV>, p: int) -> Parsed<AstV> {
    if !(0 <= p < ts.len()) {
        Err("Expected expression"@)
    } else if ts[p].kind == TokenKind::Number {
        if is_int_literal(ts[p].value) {
            Ok((AstV::Number(number_value(ts[p].value) as i32), p + 1))
        } else {
            Err("Invalid number"@)
        }
    } else if ts[p].kind == TokenKind::String {
        Ok((AstV::Str(ts[p].value), p + 1))
    } else if ts[p].kind == TokenKind::Identifier {
        Ok((AstV::Identifier(ts[p].value), p + 1))
    } else {
        Err("Expected expression"@)
    }
}

/// The arguments of a call, up to the `;` or the end: expressions, each after
/// an optional `with`, separated by commas.
pub open spec fn args_spec(ts: Seq<TokenV>, p: int) -> Parsed<Seq<AstV>>
    decreases ts.len() - p,
{
    if p < 0 || p >= ts.len() || ts[p].value == ";"@ {
        Ok((seq![], p))
    } else {
        let q = if ts[p].value == "with"@ { p + 1 } else { p };
        match expr_spec(ts, q) {
            Err(e) => Err(e),
            Ok((e, r)) => if has_value(ts, r, ","@) {
                match args_spec(ts, r + 1) {
                    Err(m) => Err(m),
                    Ok((rest, u)) => Ok((seq![e] + rest, u)),
                }
            } else {
                Ok((seq![e], r))
            },
        }
    }
}

pub open spec fn is_config_key(t: TokenV) -> bool {
    t.kind == TokenKind::Identifier || t.kind == TokenKind::String
}

pub open spec fn is_config_value(t: TokenV) -> bool {
    t.kind == TokenKind::String || t.kind == TokenKind::Number || t.kind == TokenKind::Identifier
}

/// A deployment configuration up to its closing `}`: `key = value` entries,
/// each optionally followed by `,` or `;`.
pub open spec fn config_spec(ts: Seq<TokenV>, p: int) -> Parsed<Seq<(Seq<char>, Seq<char>)>>
    decreases ts.len() - p,
{
    if !(0 <= p < ts.len()) {
        Err("Expected '}' to close block"@)
    } else if ts[p].value == "}"@ {
        Ok((seq![], p + 1))
    } else if !is_config_key(ts[p]) {
        Err("Expected configuration key"@)
    } else if !has_symbol(ts, p + 1, "="@) {
        Err("Expected '=' after configuration key"@)
    } else if !(p + 2 < ts.len() && is_config_value(ts[p + 2])) {
        Err("Expected configuration value"@)
    } else {
        let next = if has_value(ts, p + 3, ","@) || has_value(ts, p + 3, ";"@) { p + 4 } else { p + 3 };
        match config_spec(ts, next) {
            Err(m) => Err(m),
            Ok((rest, u)) => Ok((seq![(ts[p].value, ts[p + 2].value)] + rest, u)),
        }
    }
}

/// The message for a token that starts no statement.
pub open spec fn unexpected_token(t: TokenV) -> Seq<char> {
    "Unexpected token: '"@ + t.value + "' at line "@ + decimal(t.line as nat) + ", column "@ + decimal(
        t.column as nat,
    )
}

/// A statement starting at `p`.
pub open spec fn stmt_spec(ts: Seq<TokenV>, p: int) -> Parsed<AstV>
    decreases ts.len() - p, 0int,
{
    if !(0 <= p < ts.len()) {
        Err("Unexpected end of input"@)
    } else {
        let v = ts[p].value;
        if v == "@rift"@ || v == "@task"@ {
            let is_rift = v == "@rift"@;
            if !has_name(ts, p + 1) {
                Err(if is_rift { "Expected rift name"@ } else { "Expected task name"@ })
            } else if !has_symbol(ts, p + 2, "{"@) {
                Err(if is_rift { "Expected '{' after rift name"@ } else { "Expected '{' after task name"@ })
            } else {
                match block_spec(ts, p + 3) {
                    Err(m) => Err(m),
                    Ok((b, q)) => Ok(
                        (if is_rift { AstV::Rift(ts[p + 1].value, b) } else { AstV::Task(ts[p + 1].value, b) }, q),
                    ),
                }
            }
        } else if v == "@fuse"@ {
            if !has_kind(ts, p + 1, TokenKind::String) {
                Err("Expected language string after @fuse"@)
            } else if !has_symbol(ts, p + 2, "{"@) {
                Err("Expected '{' after language"@)
            } else if !has_kind(ts, p + 3, TokenKind::String) {
                Err("Expected code string in fuse block"@)
            } else if !has_symbol(ts, p + 4, "}"@) {
                Err("Expected '}' after code"@)
            } else {
                Ok((AstV::Fuse(ts[p + 1].value, ts[p + 3].value), p + 5))
            }
        } else if v == "@target"@ {
            if !has_kind(ts, p + 1, TokenKind::String) {
                Err("Expected language string after @target"@)
            } else {
                Ok((AstV::Target(ts[p + 1].value), p + 2))
            }
        } else if v == "@deploy"@ {
            if !has_kind(ts, p + 1, TokenKind::String) {
                Err("Expected target string after @deploy"@)
            } else if !has_symbol(ts, p + 2, "{"@) {
                Err("Expected '{' after deploy target"@)
            } else {
                match config_spec(ts, p + 3) {
                    Err(m) => Err(m),
                    Ok((c, q)) => Ok((AstV::Deploy(ts[p + 1].value, c), q)),
                }
            }
        } else if v == "let"@ {
            if !has_name(ts, p + 1) {
                Err("Expected variable name after 'let'"@)
            } else if !has_symbol(ts, p + 2, "="@) {
                Err("Expected '=' after variable name"@)
            } else {
                match expr_spec(ts, p + 3) {
                    Err(m) => Err(m),
                    Ok((e, q)) => if !has_symbol(ts, q, ";"@) {
                        Err("Expected ';' after let statement"@)
                    } else {
                        Ok((AstV::Let(ts[p + 1].value, Box::new(e)), q + 1))
                    },
                }
            }
        } else if v == "call"@ {
            if !has_name(ts, p + 1) {
                Err("Expected function name after 'call'"@)
            } else {
                match args_spec(ts, p + 2) {
                    Err(m) => Err(m),
                    Ok((args, q)) => if !has_symbol(ts, q, ";"@) {
                        Err("Expected ';' after call statement"@)
                    } else {
                        Ok((AstV::Call(ts[p + 1].value, args), q + 1))
                    },
                }
            }
        } else if v == "if"@ || v == "while"@ {
            let is_if = v == "if"@;
            match expr_spec(ts, p + 1) {
                Err(m) => Err(m),
                Ok((c, q)) => if !has_symbol(ts, q, "{"@) {
                    Err(if is_if { "Expected '{' after if condition"@ } else { "Expected '{' after while condition"@ })
                } else {
                    match block_spec(ts, q + 1) {
                        Err(m) => Err(m),
                        Ok((b, r)) => if !is_if {
                            Ok((AstV::While(Box::new(c), b), r))
                        } else if !has_value(ts, r, "else"@) {
                            Ok((AstV::If(Box::new(c), b, seq![]), r))
                        } else if r <= p {
                            Err("Expected '}' to close block"@)
                        } else if !has_symbol(ts, r + 1, "{"@) {
                            Err("Expected '{' after 'else'"@)
                        } else {
                            match block_spec(ts, r + 2) {
                                Err(m) => Err(m),
                                Ok((e, u)) => Ok((AstV::If(Box::new(c), b, e), u)),
                            }
                        }
                    }
                },
            }
        } else {
            Err(unexpected_token(ts[p]))
        }
    }
}

/// The statements of a block up to its closing `}`; comments are skipped.
pub open spec fn block_spec(ts: Seq<TokenV>, p: int) -> Parsed<Seq<AstV>>
    decreases ts.len() - p, 1int,
{
    if !(0 <= p < ts.len()) {
        Err("Expected '}' to close block"@)
    } else if ts[p].value == "}"@ {
        Ok((seq![], p + 1))
    } else if ts[p].kind == TokenKind::Comment {
        block_spec(ts, p + 1)
    } else {
        match stmt_spec(ts, p) {
            Err(m) => Err(m),
            Ok((s, q)) => if q <= p || q > ts.len() {
                Err("Expected '}' to close block"@)
            } else {
                match block_spec(ts, q) {
                    Err(m) => Err(m),
                    Ok((rest, u)) => Ok((seq![s] + rest, u)),
                }
            },
        }
    }
}

/// The statements from `p` to the end; comments are skipped.
pub open spec fn program_spec(ts: Seq<TokenV>, p: int) -> Result<Seq<AstV>, Seq<char>>
    decreases ts.len() - p,
{
    if !(0 <= p < ts.len()) {
        Ok(seq![])
    } else if ts[p].kind == TokenKind::Comment {
        program_spec(ts, p + 1)
    } else {
        match stmt_spec(ts, p) {
            Err(m) => Err(m),
            Ok((s, q)) => if q <= p || q > ts.len() {
                Err("Unexpected end of input"@)
            } else {
                match program_spec(ts, q) {
                    Err(m) => Err(m),
                    Ok(rest) => Ok(seq![s] + rest),
                }
            },
        }
    }
}

fn perr(m: &str) -> (r: RiftError)
    ensures
        r@ == ErrorV::ParseError(m@),
{
    RiftError::ParseError(String::from_str(m))
}

fn is_kind(tokens: &Vec<Token>, p: usize, k: TokenKind) -> (r: bool)
    ensures
        r == has_kind(tokens_view(tokens@), p as int, k),
{
    p < tokens.len() && tokens[p].kind == k
}

fn is_name(tokens: &Vec<Token>, p: usize) -> (r: bool)
    ensures
        r == has_name(tokens_view(tokens@), p as int),
{
    is_kind(tokens, p, TokenKind::Identifier) || is_kind(tokens, p, TokenKind::Keyword)
}

fn is_value(tokens: &Vec<Token>, p: usize, v: &str) -> (r: bool)
    ensures
        r == has_value(tokens_view(tokens@), p as int, v@),
{
    p < tokens.len() && same_text(tokens[p].value.as_str(), v)
}

fn is_symbol(tokens: &Vec<Token>, p: usize, v: &str) -> (r: bool)
    ensures
        r == has_symbol(tokens_view(tokens@), p as int, v@),
{
    is_kind(tokens, p, TokenKind::Symbol) && same_text(tokens[p].value.as_str(), v)
}

/// The `i32` a number token stands for, if it is a whole number that fits.
fn int_literal(s: &str) -> (r: Option<i32>)
    ensures
        is_int_literal(s@) ==> r == Some(number_value(s@) as i32),
        !is_int_literal(s@) ==> r is None,
{
    let n = s.unicode_len();
    if n == 0 {
        return None;
    }
    let mut v: i32 = 0;
    let mut i: usize = 0;
    while i < n
        invariant
            n == s@.len(),
            i <= n,
            forall|j: int| 0 <= j < i ==> is_digit(#[trigger] s@[j]),
            v as int == number_value(s@.subrange(0, i as int)),
            0 <= v,
        decreases n - i,
    {
        let c = s.get_char(i);
        assert(s@.subrange(0, i + 1).drop_last() =~= s@.subrange(0, i as int));
        if !('0' <= c && c <= '9') {
            return None;
        }
        let d = (c as u32 - '0' as u32) as i32;
        if v > (i32::MAX - d) / 10 {
            proof {
                lemma_number_grows(s@, i as int + 1, n as int);
            }
            return None;
        }
        v = v * 10 + d;
        i = i + 1;
    }
    assert(s@.subrange(0, n as int) =~= s@);
    Some(v)
}

/// A longer run of digits has a value at least as large.
proof fn lemma_number_grows(s: Seq<char>, i: int, n: int)
    requires
        0 < i <= n == s.len(),
        forall|j: int| 0 <= j < i ==> is_digit(#[trigger] s[j]),
        number_value(s.subrange(0, i)) > i32::MAX,
    ensures
        !is_int_literal(s),
    decreases n - i,
{
    if i < n && is_digit(s[i]) {
        assert(s.subrange(0, i + 1).drop_last() =~= s.subrange(0, i));
        lemma_number_grows(s, i + 1, n);
    } else if i == n {
        assert(s.subrange(0, n) =~= s);
    }
}

fn parse_expression(tokens: &Vec<Token>, p: usize) -> (r: Result<(AST, usize), RiftError>)
    ensures
        r matches Ok((a, q)) ==> expr_spec(tokens_view(tokens@), p as int) == Parsed::<AstV>::Ok((a@, q as int)),
        r matches Err(e) ==> (expr_spec(tokens_view(tokens@), p as int) matches Err(m) && e@ == ErrorV::ParseError(m)),
{
    if p >= tokens.len() {
        return Err(perr("Expected expression"));
    }
    let t = &tokens[p];
    match t.kind {
        TokenKind::Number => match int_literal(t.value.as_str()) {
            Some(n) => Ok((AST::Number(n), p + 1)),
            None => Err(perr("Invalid number")),
        },
        TokenKind::String => Ok((AST::String(t.value.clone()), p + 1)),
        TokenKind::Identifier => Ok((AST::Identifier(t.value.clone()), p + 1)),
        _ => Err(perr("Expected expression")),
    }
}

fn parse_args(tokens: &Vec<Token>, p: usize) -> (r: Result<(Vec<AST>, usize), RiftError>)
    requires
        p <= tokens.len(),
    ensures
        r matches Ok((a, q)) ==> args_spec(tokens_view(tokens@), p as int) == Parsed::<Seq<AstV>>::Ok(
            (body_view(&a), q as int),
        ) && p <= q <= tokens.len(),
        r matches Err(e) ==> (args_spec(tokens_view(tokens@), p as int) matches Err(m) && e@ == ErrorV::ParseError(m)),
    decreases tokens.len() - p,
{
    let ghost ts = tokens_view(tokens@);
    if p >= tokens.len() || same_text(tokens[p].value.as_str(), ";") {
        let v: Vec<AST> = Vec::new();
        assert(body_view(&v) =~= seq![]);
        return Ok((v, p));
    }
    let q = if same_text(tokens[p].value.as_str(), "with") { p + 1 } else { p };
    let (e, r) = parse_expression(tokens, q)?;
    if is_value(tokens, r, ",") {
        let (rest, u) = parse_args(tokens, r + 1)?;
        let mut all: Vec<AST> = Vec::new();
        let ghost ev = e@;
        all.push(e);
        let mut rest = rest;
        let ghost rv = body_view(&rest);
        all.append(&mut rest);
        assert(body_view(&all) =~= seq![ev] + rv) by {
            assert forall|j: int| 0 < j < all.len() implies all@[j]@ == rv[j - 1] by {}
        }
        Ok((all, u))
    } else {
        let mut all: Vec<AST> = Vec::new();
        let ghost ev = e@;
        all.push(e);
        assert(body_view(&all) =~= seq![ev]);
        Ok((all, r))
    }
}

fn is_config_key_token(t: &Token) -> (r: bool)
    ensures
        r == is_config_key(t@),
{
    t.kind == TokenKind::Identifier || t.kind == TokenKind::String
}

fn is_config_value_token(t: &Token) -> (r: bool)
    ensures
        r == is_config_value(t@),
{
    t.kind == TokenKind::String || t.kind == TokenKind::Number || t.kind == TokenKind::Identifier
}

fn parse_config(tokens: &Vec<Token>, p: usize) -> (r: Result<(Vec<(String, String)>, usize), RiftError>)
    ensures
        r matches Ok((c, q)) ==> config_spec(tokens_view(tokens@), p as int) == Parsed::<
            Seq<(Seq<char>, Seq<char>)>,
        >::Ok((pairs_view(c@), q as int)) && p < q <= tokens.len(),
        r matches Err(e) ==> (config_spec(tokens_view(tokens@), p as int) matches Err(m) && e@ == ErrorV::ParseError(m)),
    decreases tokens.len() - p,
{
    let ghost ts = tokens_view(tokens@);
    if p >= tokens.len() {
        return Err(perr("Expected '}' to close block"));
    }
    if same_text(tokens[p].value.as_str(), "}") {
        let v: Vec<(String, String)> = Vec::new();
        assert(pairs_view(v@) =~= seq![]);
        return Ok((v, p + 1));
    }
    if !is_config_key_token(&tokens[p]) {
        return Err(perr("Expected configuration key"));
    }
    if !is_symbol(tokens, p + 1, "=") {
        return Err(perr("Expected '=' after configuration key"));
    }
    if !(p + 2 < tokens.len() && is_config_value_token(&tokens[p + 2])) {
        return Err(perr("Expected configuration value"));
    }
    let next = if is_value(tokens, p + 3, ",") || is_value(tokens, p + 3, ";") { p + 4 } else { p + 3 };
    let (rest, u) = parse_config(tokens, next)?;
    let mut all: Vec<(String, String)> = Vec::new();
    all.push((tokens[p].value.clone(), tokens[p + 2].value.clone()));
    let ghost first = pairs_view(all@);
    assert(first =~= seq![(ts[p as int].value, ts[p + 2].value)]);
    let ghost rv = pairs_view(rest@);
    let mut rest = rest;
    all.append(&mut rest);
    assert(pairs_view(all@) =~= first + rv);
    Ok((all, u))
}

fn unexpected_token_error(t: &Token) -> (r: RiftError)
    ensures
        r@ == ErrorV::ParseError(unexpected_token(t@)),
{
    let mut m = String::from_str("Unexpected token: '");
    m.append(t.value.as_str());
    m.append("' at line ");
    push_decimal(&mut m, t.line);
    m.append(", column ");
    push_decimal(&mut m, t.column);
    RiftError::ParseError(m)
}

fn prepend_statement(s: AST, rest: Vec<AST>) -> (r: Vec<AST>)
    ensures
        body_view(&r) == seq![s@] + body_view(&rest),
{
    let mut all: Vec<AST> = Vec::new();
    let ghost sv = s@;
    all.push(s);
    let ghost rv = body_view(&rest);
    let mut rest = rest;
    all.append(&mut rest);
    assert(body_view(&all) =~= seq![sv] + rv) by {
        assert forall|j: int| 0 < j < all.len() implies all@[j]@ == rv[j - 1] by {}
    }
    all
}

fn parse_statement(tokens: &Vec<Token>, p: usize) -> (r: Result<(AST, usize), RiftError>)
    ensures
        r matches Ok((a, q)) ==> stmt_spec(tokens_view(tokens@), p as int) == Parsed::<AstV>::Ok((a@, q as int))
            && p < q <= tokens.len(),
        r matches Err(e) ==> (stmt_spec(tokens_view(tokens@), p as int) matches Err(m) && e@ == ErrorV::ParseError(m)),
    decreases tokens.len() - p, 0int,
{
    let ghost ts = tokens_view(tokens@);
    if p >= tokens.len() {
        return Err(perr("Unexpected end of input"));
    }
    let v = tokens[p].value.as_str();
    if same_text(v, "@rift") || same_text(v, "@task") {
        let is_rift = same_text(v, "@rift");
        if !is_name(tokens, p + 1) {
            return Err(perr(if is_rift { "Expected rift name" } else { "Expected task name" }));
        }
        if !is_symbol(tokens, p + 2, "{") {
            return Err(perr(if is_rift { "Expected '{' after rift name" } else { "Expected '{' after task name" }));
        }
        let (b, q) = parse_block(tokens, p + 3)?;
        let name = tokens[p + 1].value.clone();
        if is_rift {
            Ok((AST::Rift(name, b), q))
        } else {
            Ok((AST::Task(name, b), q))
        }
    } else if same_text(v, "@fuse") {
        if !is_kind(tokens, p + 1, TokenKind::String) {
            return Err(perr("Expected language string after @fuse"));
        }
        if !is_symbol(tokens, p + 2, "{") {
            return Err(perr("Expected '{' after language"));
        }
        if !is_kind(tokens, p + 3, TokenKind::String) {
            return Err(perr("Expected code string in fuse block"));
        }
        if !is_symbol(tokens, p + 4, "}") {
            return Err(perr("Expected '}' after code"));
        }
        Ok((AST::Fuse(tokens[p + 1].value.clone(), tokens[p + 3].value.clone()), p + 5))
    } else if same_text(v, "@target") {
        if !is_kind(tokens, p + 1, TokenKind::String) {
            return Err(perr("Expected language string after @target"));
        }
        Ok((AST::Target(tokens[p + 1].value.clone()), p + 2))
    } else if same_text(v, "@deploy") {
        if !is_kind(tokens, p + 1, TokenKind::String) {
            return Err(perr("Expected target string after @deploy"));
        }
        if !is_symbol(tokens, p + 2, "{") {
            return Err(perr("Expected '{' after deploy target"));
        }
        let (c, q) = parse_config(tokens, p + 3)?;
        Ok((AST::Deploy(tokens[p + 1].value.clone(), c), q))
    } else if same_text(v, "let") {
        if !is_name(tokens, p + 1) {
            return Err(perr("Expected variable name after 'let'"));
        }
        if !is_symbol(tokens, p + 2, "=") {
            return Err(perr("Expected '=' after variable name"));
        }
        let (e, q) = parse_expression(tokens, p + 3)?;
        if !is_symbol(tokens, q, ";") {
            return Err(perr("Expected ';' after let statement"));
        }
        Ok((AST::Let(tokens[p + 1].value.clone(), Box::new(e)), q + 1))
    } else if same_text(v, "call") {
        if !is_name(tokens, p + 1) {
            return Err(perr("Expected function name after 'call'"));
        }
        let (args, q) = parse_args(tokens, p + 2)?;
        if !is_symbol(tokens, q, ";") {
            return Err(perr("Expected ';' after call statement"));
        }
        Ok((AST::Call(tokens[p + 1].value.clone(), args), q + 1))
    } else if same_text(v, "if") || same_text(v, "while") {
        let is_if = same_text(v, "if");
        let (c, q) = parse_expression(tokens, p + 1)?;
        if !is_symbol(tokens, q, "{") {
            return Err(perr(if is_if { "Expected '{' after if condition" } else { "Expected '{' after while condition" }));
        }
        let (b, r) = parse_block(tokens, q + 1)?;
        if !is_if {
            return Ok((AST::While(Box::new(c), b), r));
        }
        if !is_value(tokens, r, "else") {
            let none: Vec<AST> = Vec::new();
            assert(body_view(&none) =~= seq![]);
            return Ok((AST::If(Box::new(c), b, none), r));
        }
        if !is_symbol(tokens, r + 1, "{") {
            return Err(perr("Expected '{' after 'else'"));
        }
        let (e, u) = parse_block(tokens, r + 2)?;
        Ok((AST::If(Box::new(c), b, e), u))
    } else {
        Err(unexpected_token_error(&tokens[p]))
    }
}

fn parse_block(tokens: &Vec<Token>, p: usize) -> (r: Result<(Vec<AST>, usize), RiftError>)
    ensures
        r matches Ok((b, q)) ==> block_spec(tokens_view(tokens@), p as int) == Parsed::<Seq<AstV>>::Ok(
            (body_view(&b), q as int),
        ) && p < q <= tokens.len(),
        r matches Err(e) ==> (block_spec(tokens_view(tokens@), p as int) matches Err(m) && e@ == ErrorV::ParseError(m)),
    decreases tokens.len() - p, 1int,
{
    if p >= tokens.len() {
        return Err(perr("Expected '}' to close block"));
    }
    if same_text(tokens[p].value.as_str(), "}") {
        let v: Vec<AST> = Vec::new();
        assert(body_view(&v) =~= seq![]);
        return Ok((v, p + 1));
    }
    if tokens[p].kind == TokenKind::Comment {
        return parse_block(tokens, p + 1);
    }
    let (s, q) = parse_statement(tokens, p)?;
    let (rest, u) = parse_block(tokens, q)?;
    Ok((prepend_statement(s, rest), u))
}

fn parse_program(tokens: &Vec<Token>, p: usize) -> (r: Result<Vec<AST>, RiftError>)
    ensures
        r matches Ok(b) ==> program_spec(tokens_view(tokens@), p as int) == Ok::<Seq<AstV>, Seq<char>>(body_view(&b)),
        r matches Err(e) ==> (program_spec(tokens_view(tokens@), p as int) matches Err(m) && e@ == ErrorV::ParseError(m)),
    decreases tokens.len() - p,
{
    if p >= tokens.len() {
        let v: Vec<AST> = Vec::new();
        assert(body_view(&v) =~= seq![]);
        return Ok(v);
    }
    if tokens[p].kind == TokenKind::Comment {
        return parse_program(tokens, p + 1);
    }
    let (s, q) = parse_statement(tokens, p)?;
    let rest = parse_program(tokens, q)?;
    Ok(prepend_statement(s, rest))
}

/// The program the tokens spell: its statements in order, comments skipped;
/// or a `ParseError` with the message for the first thing out of place.
pub fn parse(tokens: &Vec<Token>) -> (r: Result<AST, RiftError>)
    ensures
        program_spec(tokens_view(tokens@), 0) matches Ok(b) ==> (r matches Ok(a) && a@ == AstV::Program(b)),
        program_spec(tokens_view(tokens@), 0) matches Err(m) ==> (r matches Err(e) && e@ == ErrorV::ParseError(m)),
{
    match parse_program(tokens, 0) {
        Ok(b) => Ok(AST::Program(b)),
        Err(e) => Err(e),
    }
}

} // verus!
