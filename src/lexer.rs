use vstd::prelude::*;
use vstd::string::*;
use crate::error::RiftError;
use crate::text::{
    alphabetic, alphanumeric, whitespace, is_alphabetic, is_alphanumeric, is_whitespace,
    push_char, push_decimal, decimal, same_text,
};

verus! {

/// One lexeme of the surface language, with the line and column where it starts.
#[derive(Debug, Clone, PartialEq)]
pub struct Token {
    pub kind: TokenKind,
    pub value: String,
    pub line: usize,
    pub column: usize,
}

#[derive(Debug, Clone, Copy, PartialEq, Eq, Structural)]
pub enum TokenKind {
    Keyword,
    Identifier,
    String,
    Number,
    Symbol,
    Comment,
}

/// A token as a mathematical value.
pub struct TokenV {
    pub kind: TokenKind,
    pub value: Seq<char>,
    pub line: int,
    pub column: int,
}

impl View for Token {
    type V = TokenV;

    open spec fn view(&self) -> TokenV {
        TokenV { kind: self.kind, value: self.value@, line: self.line as int, column: self.column as int }
    }
}

pub open spec fn tokens_view(ts: Seq<Token>) -> Seq<TokenV> {
    ts.map_values(|t: Token| t@)
}

/// The words that lex as `Keyword` rather than `Identifier`.
pub open spec fn keyword(w: Seq<char>) -> bool {
    ||| w == "@rift"@
    ||| w == "@fuse"@
    ||| w == "@task"@
    ||| w == "@target"@
    ||| w == "@deploy"@
    ||| w == "let"@
    ||| w == "call"@
    ||| w == "if"@
    ||| w == "else"@
    ||| w == "while"@
    ||| w == "with"@
    ||| w == "optimize"@
}

pub open spec fn is_digit(c: char) -> bool {
    '0' <= c && c <= '9'
}

pub open spec fn is_line_break(c: char) -> bool {
    c == '\n' || c == '\r'
}

pub open spec fn is_symbol(c: char) -> bool {
    c == '{' || c == '}' || c == ';' || c == '=' || c == ',' || c == '(' || c == ')'
}

pub open spec fn starts_word(c: char) -> bool {
    alphabetic(c) || c == '@' || c == '_'
}

/// The runs of characters that a single token extends over.
pub enum Run {
    /// The text of a `//` comment, up to the end of the line.
    CommentBody,
    /// Digits and dots after a leading digit.
    Number,
    /// Letters, digits and `_` after the first character of a word.
    Word,
}

pub open spec fn in_run(c: char, run: Run) -> bool {
    match run {
        Run::CommentBody => !is_line_break(c),
        Run::Number => is_digit(c) || c == '.',
        Run::Word => alphanumeric(c) || c == '_',
    }
}

/// The first position at or after `k` whose character does not belong to `run`.
pub open spec fn run_end(s: Seq<char>, k: int, run: Run) -> int
    decreases s.len() - k,
{
    if 0 <= k < s.len() && in_run(s[k], run) {
        run_end(s, k + 1, run)
    } else {
        k
    }
}

/// What an escape `\c` inside a string literal stands for.
pub open spec fn unescape(c: char) -> Seq<char> {
    if c == 'n' {
        seq!['\n']
    } else if c == 't' {
        seq!['\t']
    } else if c == 'r' {
        seq!['\r']
    } else if c == '\\' {
        seq!['\\']
    } else if c == '"' {
        seq!['"']
    } else {
        seq!['\\', c]
    }
}

/// The value of a string literal whose body starts at `k`, and the position just
/// after its closing quote (or the end of the input when the quote is missing).
pub open spec fn string_body(s: Seq<char>, k: int, escaped: bool) -> (Seq<char>, int)
    decreases s.len() - k,
{
    if k < 0 || k >= s.len() {
        (seq![], s.len() as int)
    } else if escaped {
        let rest = string_body(s, k + 1, false);
        (unescape(s[k]) + rest.0, rest.1)
    } else if s[k] == '\\' {
        string_body(s, k + 1, true)
    } else if s[k] == '"' {
        (seq![], k + 1)
    } else {
        let rest = string_body(s, k + 1, false);
        (seq![s[k]] + rest.0, rest.1)
    }
}

pub proof fn lemma_run_end(s: Seq<char>, k: int, run: Run)
    requires
        0 <= k <= s.len(),
    ensures
        k <= run_end(s, k, run) <= s.len(),
        forall|j: int| k <= j < run_end(s, k, run) ==> in_run(#[trigger] s[j], run),
        run_end(s, k, run) < s.len() ==> !in_run(s[run_end(s, k, run)], run),
    decreases s.len() - k,
{
    if k < s.len() && in_run(s[k], run) {
        lemma_run_end(s, k + 1, run);
    }
}

pub proof fn lemma_string_body(s: Seq<char>, k: int, escaped: bool)
    requires
        0 <= k,
    ensures
        k <= string_body(s, k, escaped).1 || k > s.len(),
        string_body(s, k, escaped).1 <= s.len(),
    decreases s.len() - k,
{
    if k < s.len() {
        if escaped || s[k] != '"' {
            lemma_string_body(s, k + 1, s[k] == '\\' && !escaped);
        }
    }
}

/// Puts `t` in front of the tokens of a successful rest; an error stays as it is.
pub open spec fn prepend(t: Seq<TokenV>, r: Result<Seq<TokenV>, (char, int, int)>) -> Result<
    Seq<TokenV>,
    (char, int, int),
> {
    match r {
        Ok(ts) => Ok(t + ts),
        Err(e) => Err(e),
    }
}

pub proof fn lemma_prepend_assoc(a: Seq<TokenV>, b: Seq<TokenV>, r: Result<Seq<TokenV>, (char, int, int)>)
    ensures
        prepend(a, prepend(b, r)) == prepend(a + b, r),
{
    if r is Ok {
        assert(a + (b + r->Ok_0) =~= (a + b) + r->Ok_0);
    }
}

/// The tokens of `s` from position `i` on, the lexer standing at `line` and
/// `column`; or the first unexpected character with its line and column.
pub open spec fn lex_from(s: Seq<char>, i: int, line: int, column: int) -> Result<
    Seq<TokenV>,
    (char, int, int),
>
    decreases s.len() - i,
{
    if i < 0 || i >= s.len() {
        Ok(seq![])
    } else {
        let c = s[i];
        if c == ' ' || c == '\t' {
            lex_from(s, i + 1, line, column + 1)
        } else if is_line_break(c) {
            lex_from(s, i + 1, line + 1, 1)
        } else if c == '/' && i + 1 < s.len() && s[i + 1] == '/' {
            let e = run_end(s, i + 2, Run::CommentBody);
            proof {
                lemma_run_end(s, i + 2, Run::CommentBody);
            }
            let t = TokenV { kind: TokenKind::Comment, value: s.subrange(i + 2, e), line, column: column + 2 };
            prepend(seq![t], lex_from(s, e, line, column + (e - i)))
        } else if is_symbol(c) {
            let t = TokenV { kind: TokenKind::Symbol, value: seq![c], line, column };
            prepend(seq![t], lex_from(s, i + 1, line, column + 1))
        } else if c == '"' {
            let b = string_body(s, i + 1, false);
            proof {
                lemma_string_body(s, i + 1, false);
            }
            let t = TokenV { kind: TokenKind::String, value: b.0, line, column };
            prepend(seq![t], lex_from(s, b.1, line, column + (b.1 - i)))
        } else if is_digit(c) {
            let e = run_end(s, i + 1, Run::Number);
            proof {
                lemma_run_end(s, i + 1, Run::Number);
            }
            let t = TokenV { kind: TokenKind::Number, value: s.subrange(i, e), line, column };
            prepend(seq![t], lex_from(s, e, line, column + (e - i)))
        } else if starts_word(c) {
            let e = run_end(s, i + 1, Run::Word);
            proof {
                lemma_run_end(s, i + 1, Run::Word);
            }
            let w = s.subrange(i, e);
            let kind = if keyword(w) { TokenKind::Keyword } else { TokenKind::Identifier };
            let t = TokenV { kind, value: w, line, column };
            prepend(seq![t], lex_from(s, e, line, column + (e - i)))
        } else {
            Err((c, line, column))
        }
    }
}

/// What `tokenize` yields for the text `s`: nothing for blank text, else the
/// tokens from the first line and column.
pub open spec fn tokens_of(s: Seq<char>) -> Result<Seq<TokenV>, (char, int, int)> {
    if forall|j: int| 0 <= j < s.len() ==> whitespace(#[trigger] s[j]) {
        Ok(seq![])
    } else {
        lex_from(s, 0, 1, 1)
    }
}

/// The message of the error for an unexpected character.
pub open spec fn unexpected_message(c: char, line: int, column: int) -> Seq<char> {
    "Unexpected character '"@ + seq![c] + "' at line "@ + decimal(line as nat) + ", column "@
        + decimal(column as nat)
}

/// Whether `word` is one of the language's keywords.
pub fn is_keyword(word: &str) -> (r: bool)
    ensures
        r == keyword(word@),
{
    same_text(word, "@rift") || same_text(word, "@fuse") || same_text(word, "@task")
        || same_text(word, "@target") || same_text(word, "@deploy") || same_text(word, "let")
        || same_text(word, "call") || same_text(word, "if") || same_text(word, "else")
        || same_text(word, "while") || same_text(word, "with") || same_text(word, "optimize")
}

fn in_run_exec(c: char, run: &Run) -> (r: bool)
    ensures
        r == in_run(c, *run),
{
    match run {
        Run::CommentBody => !(c == '\n' || c == '\r'),
        Run::Number => ('0' <= c && c <= '9') || c == '.',
        Run::Word => is_alphanumeric(c) || c == '_',
    }
}

/// The characters of `input` from `k` up to the end of `run`, and that end.
fn take_run(input: &str, n: usize, k: usize, run: Run) -> (r: (String, usize))
    requires
        n == input@.len(),
        k <= n,
    ensures
        r.1 == run_end(input@, k as int, run),
        r.0@ == input@.subrange(k as int, r.1 as int),
{
    let mut value = String::new();
    let mut j: usize = k;
    while j < n && in_run_exec(input.get_char(j), &run)
        invariant
            n == input@.len(),
            k <= j <= n,
            run_end(input@, j as int, run) == run_end(input@, k as int, run),
            value@ == input@.subrange(k as int, j as int),
        decreases n - j,
    {
        push_char(&mut value, input.get_char(j));
        j = j + 1;
        assert(value@ =~= input@.subrange(k as int, j as int));
    }
    (value, j)
}

/// The value of the string literal whose body starts at `k`, and the position
/// after it.
fn take_string(input: &str, n: usize, k: usize) -> (r: (String, usize))
    requires
        n == input@.len(),
        k <= n,
    ensures
        (r.0@, r.1 as int) == string_body(input@, k as int, false),
{
    let ghost s = input@;
    let mut value = String::new();
    let mut j: usize = k;
    let mut escaped = false;
    while j < n
        invariant
            n == s.len(),
            s == input@,
            k <= j <= n,
            string_body(s, k as int, false) == (value@ + string_body(s, j as int, escaped).0, string_body(
                s,
                j as int,
                escaped,
            ).1),
        decreases n - j,
    {
        let c = input.get_char(j);
        let ghost before = value@;
        if escaped {
            if c == 'n' {
                push_char(&mut value, '\n');
            } else if c == 't' {
                push_char(&mut value, '\t');
            } else if c == 'r' {
                push_char(&mut value, '\r');
            } else if c == '\\' {
                push_char(&mut value, '\\');
            } else if c == '"' {
                push_char(&mut value, '"');
            } else {
                push_char(&mut value, '\\');
                push_char(&mut value, c);
            }
            assert(value@ =~= before + unescape(c));
            assert(before + (unescape(c) + string_body(s, j + 1, false).0) =~= value@ + string_body(
                s,
                j + 1,
                false,
            ).0);
            escaped = false;
        } else if c == '\\' {
            escaped = true;
        } else if c == '"' {
            assert(value@ + seq![] =~= value@);
            return (value, j + 1);
        } else {
            push_char(&mut value, c);
            assert(before + (seq![c] + string_body(s, j + 1, false).0) =~= value@ + string_body(
                s,
                j + 1,
                false,
            ).0);
        }
        j = j + 1;
    }
    assert(value@ + seq![] =~= value@);
    (value, j)
}

/// The error for an unexpected character at `line` and `column`.
fn unexpected(c: char, line: usize, column: usize) -> (e: RiftError)
    ensures
        e is ParseError,
        e->ParseError_0@ == unexpected_message(c, line as int, column as int),
{
    let mut m = String::from_str("Unexpected character '");
    push_char(&mut m, c);
    m.append("' at line ");
    push_decimal(&mut m, line);
    m.append(", column ");
    push_decimal(&mut m, column);
    RiftError::ParseError(m)
}

/// Whether every character of `input` is white space.
fn is_blank(input: &str, n: usize) -> (r: bool)
    requires
        n == input@.len(),
    ensures
        r == forall|j: int| 0 <= j < input@.len() ==> whitespace(#[trigger] input@[j]),
{
    let mut i: usize = 0;
    while i < n
        invariant
            n == input@.len(),
            i <= n,
            forall|j: int| 0 <= j < i ==> whitespace(#[trigger] input@[j]),
        decreases n - i,
    {
        if !is_whitespace(input.get_char(i)) {
            return false;
        }
        i = i + 1;
    }
    true
}

/// Splits source text into tokens. Blank text has none; a character that starts
/// no token is a `ParseError` naming it with its line and column.
pub fn tokenize(input: &str) -> (r: Result<Vec<Token>, RiftError>)
    requires
        input@.len() < usize::MAX,
    ensures
        tokens_of(input@) is Ok ==> r is Ok && tokens_view(r->Ok_0@) == tokens_of(input@)->Ok_0,
        tokens_of(input@) is Err ==> r is Err && r->Err_0 is ParseError
            && r->Err_0->ParseError_0@ == unexpected_message(
            tokens_of(input@)->Err_0.0,
            tokens_of(input@)->Err_0.1,
            tokens_of(input@)->Err_0.2,
        ),
{
    let ghost s = input@;
    let n = input.unicode_len();
    if is_blank(input, n) {
        assert(tokens_view(Seq::<Token>::empty()) =~= seq![]);
        return Ok(Vec::new());
    }
    let mut tokens: Vec<Token> = Vec::new();
    let mut i: usize = 0;
    let mut line: usize = 1;
    let mut column: usize = 1;
    assert(tokens_view(tokens@) + Seq::<TokenV>::empty() =~= Seq::<TokenV>::empty());
    while i < n
        invariant
            n == s.len(),
            s == input@,
            n < usize::MAX,
            i <= n,
            1 <= line <= i + 1,
            1 <= column <= i + 1,
            tokens_of(s) == lex_from(s, 0, 1, 1),
            lex_from(s, 0, 1, 1) == prepend(tokens_view(tokens@), lex_from(s, i as int, line as int, column as int)),
        decreases n - i,
    {
        let c = input.get_char(i);
        let ghost prev = tokens_view(tokens@);
        if c == ' ' || c == '\t' {
            column = column + 1;
            i = i + 1;
        } else if c == '\n' || c == '\r' {
            line = line + 1;
            column = 1;
            i = i + 1;
        } else if c == '/' && i + 1 < n && input.get_char(i + 1) == '/' {
            let (value, e) = take_run(input, n, i + 2, Run::CommentBody);
            proof {
                lemma_run_end(s, i + 2, Run::CommentBody);
            }
            tokens.push(Token { kind: TokenKind::Comment, value, line, column: column + 2 });
            column = column + (e - i);
            i = e;
        } else if c == '{' || c == '}' || c == ';' || c == '=' || c == ',' || c == '(' || c == ')' {
            let mut value = String::new();
            push_char(&mut value, c);
            assert(value@ =~= seq![c]);
            tokens.push(Token { kind: TokenKind::Symbol, value, line, column });
            column = column + 1;
            i = i + 1;
        } else if c == '"' {
            let (value, e) = take_string(input, n, i + 1);
            proof {
                lemma_string_body(s, i + 1, false);
            }
            tokens.push(Token { kind: TokenKind::String, value, line, column });
            column = column + (e - i);
            i = e;
        } else if '0' <= c && c <= '9' {
            let (value, e) = take_run(input, n, i, Run::Number);
            proof {
                lemma_run_end(s, i + 1, Run::Number);
                assert(run_end(s, i as int, Run::Number) == run_end(s, i + 1, Run::Number));
            }
            tokens.push(Token { kind: TokenKind::Number, value, line, column });
            column = column + (e - i);
            i = e;
        } else if is_alphabetic(c) || c == '@' || c == '_' {
            let (rest, e) = take_run(input, n, i + 1, Run::Word);
            proof {
                lemma_run_end(s, i + 1, Run::Word);
            }
            let mut value = String::new();
            push_char(&mut value, c);
            value.append(rest.as_str());
            assert(value@ =~= s.subrange(i as int, e as int));
            let kind = if is_keyword(value.as_str()) { TokenKind::Keyword } else { TokenKind::Identifier };
            tokens.push(Token { kind, value, line, column });
            column = column + (e - i);
            i = e;
        } else {
            return Err(unexpected(c, line, column));
        }
        proof {
            if tokens@.len() > prev.len() {
                assert(tokens_view(tokens@) =~= prev + seq![tokens@.last()@]);
                lemma_prepend_assoc(prev, seq![tokens@.last()@], lex_from(s, i as int, line as int, column as int));
            } else {
                assert(tokens_view(tokens@) =~= prev);
            }
        }
    }
    assert(tokens_view(tokens@) + Seq::<TokenV>::empty() =~= tokens_view(tokens@));
    Ok(tokens)
}

} // verus!
