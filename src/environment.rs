use vstd::prelude::*;
use vstd::string::*;
use crate::ast::{AST, AstV, body_view, copy_ast};
use crate::digest::{content_hash, sha256_hex};
use crate::error::{ErrorV, RiftError};
use crate::table::{Table, deep_entries, lookup, lemma_deep_index_of};

verus! {

broadcast use vstd::std_specs::vec::group_vec_axioms;

impl DeepView for AST {
    type V = AstV;

    open spec fn deep_view(&self) -> AstV {
        self@
    }
}

pub proof fn lemma_body_deep(v: &Vec<AST>)
    ensures
        v.deep_view() == body_view(v),
{
    assert(v.deep_view() =~= body_view(v));
}

/// The state that one session's statements read and change.
pub struct Environment {
    pub variables: Table<AST>,
    pub rifts: Table<Vec<AST>>,
    pub tasks: Table<Vec<AST>>,
    pub artifact_cache: Table<String>,
    pub target_lang: Option<String>,
}

/// An environment as a mathematical value; each table lists its entries in the
/// order their names were first defined.
pub struct EnvV {
    pub variables: Seq<(Seq<char>, AstV)>,
    pub rifts: Seq<(Seq<char>, Seq<AstV>)>,
    pub tasks: Seq<(Seq<char>, Seq<AstV>)>,
    pub cache: Seq<(Seq<char>, Seq<char>)>,
    pub target: Option<Seq<char>>,
}

pub open spec fn empty_env() -> EnvV {
    EnvV { variables: seq![], rifts: seq![], tasks: seq![], cache: seq![], target: None }
}

pub open spec fn opt_view(o: Option<String>) -> Option<Seq<char>> {
    match o {
        Some(s) => Some(s@),
        None => None,
    }
}

impl View for Environment {
    type V = EnvV;

    open spec fn view(&self) -> EnvV {
        EnvV {
            variables: deep_entries(self.variables.keyed()),
            rifts: deep_entries(self.rifts.keyed()),
            tasks: deep_entries(self.tasks.keyed()),
            cache: deep_entries(self.artifact_cache.keyed()),
            target: opt_view(self.target_lang),
        }
    }
}

impl Environment {
    pub fn new() -> (r: Environment)
        ensures
            r@ == empty_env(),
    {
        let r = Environment {
            variables: Table::new(),
            rifts: Table::new(),
            tasks: Table::new(),
            artifact_cache: Table::new(),
            target_lang: None,
        };
        assert(r@.variables =~= empty_env().variables);
        assert(r@.rifts =~= empty_env().rifts);
        assert(r@.tasks =~= empty_env().tasks);
        assert(r@.cache =~= empty_env().cache);
        r
    }

    /// Forgets every rift, task, variable, cached artifact and the target language.
    pub fn clear(&mut self)
        ensures
            final(self)@ == empty_env(),
    {
        self.variables.clear();
        self.rifts.clear();
        self.tasks.clear();
        self.artifact_cache.clear();
        self.target_lang = None;
        assert(self@.variables =~= empty_env().variables);
        assert(self@.rifts =~= empty_env().rifts);
        assert(self@.tasks =~= empty_env().tasks);
        assert(self@.cache =~= empty_env().cache);
    }
}

/// The value of an expression: a literal stands for itself and a name for the
/// variable's value.
pub open spec fn eval_expr(e: AstV, env: EnvV) -> Result<AstV, ErrorV> {
    match e {
        AstV::Number(n) => Ok(AstV::Number(n)),
        AstV::Str(s) => Ok(AstV::Str(s)),
        AstV::Identifier(id) => match lookup(env.variables, id) {
            Some(v) => Ok(v),
            None => Err(ErrorV::VariableNotFound(id)),
        },
        _ => Err(ErrorV::UnsupportedOperation),
    }
}

/// The truth of a condition: only a number is one, true when it is not zero.
pub open spec fn eval_condition(c: AstV) -> Result<bool, ErrorV> {
    match c {
        AstV::Number(n) => Ok(n != 0),
        _ => Err(ErrorV::UnsupportedOperation),
    }
}

pub fn evaluate_expression(ast: &AST, env: &Environment) -> (r: Result<AST, RiftError>)
    ensures
        r matches Ok(v) ==> eval_expr(ast@, env@) == Ok::<AstV, ErrorV>(v@),
        r matches Err(e) ==> eval_expr(ast@, env@) == Err::<AstV, ErrorV>(e@),
{
    match ast {
        AST::Number(n) => Ok(AST::Number(*n)),
        AST::String(s) => Ok(AST::String(s.clone())),
        AST::Identifier(id) => {
            proof {
                lemma_deep_index_of(env.variables.keyed(), id@);
            }
            match env.variables.get(id.as_str()) {
                Some(v) => Ok(copy_ast(v)),
                None => Err(RiftError::VariableNotFound(id.clone())),
            }
        },
        _ => Err(RiftError::UnsupportedOperation),
    }
}

pub fn evaluate_condition(ast: &AST, env: &Environment) -> (r: Result<bool, RiftError>)
    ensures
        r matches Ok(b) ==> eval_condition(ast@) == Ok::<bool, ErrorV>(b),
        r matches Err(e) ==> eval_condition(ast@) == Err::<bool, ErrorV>(e@),
{
    match ast {
        AST::Number(n) => Ok(*n != 0),
        _ => Err(RiftError::UnsupportedOperation),
    }
}

/// The stand-in for compressing a deployment artifact: it keeps the text as it is.
pub fn compress_artifact(artifact: &str) -> (r: Result<String, RiftError>)
    ensures
        r matches Ok(s) && s@ == artifact@,
{
    Ok(String::from_str(artifact))
}

/// How a snippet appears in the deployment payload: its cached output when there
/// is one, else `language: code`.
pub open spec fn fuse_part(language: Seq<char>, code: Seq<char>, cache: Seq<(Seq<char>, Seq<char>)>) -> Seq<char> {
    match lookup(cache, sha256_hex(code)) {
        Some(out) => out,
        None => language + ": "@ + code,
    }
}

/// The parts contributed by the snippets of one body, in order.
pub open spec fn body_parts(body: Seq<AstV>, cache: Seq<(Seq<char>, Seq<char>)>) -> Seq<Seq<char>>
    decreases body.len(),
{
    if body.len() == 0 {
        seq![]
    } else {
        body_parts(body.drop_last(), cache) + match body.last() {
            AstV::Fuse(l, c) => seq![fuse_part(l, c, cache)],
            _ => seq![],
        }
    }
}

/// The parts contributed by all rifts, rift by rift in table order.
pub open spec fn rift_parts(rifts: Seq<(Seq<char>, Seq<AstV>)>, cache: Seq<(Seq<char>, Seq<char>)>) -> Seq<Seq<char>>
    decreases rifts.len(),
{
    if rifts.len() == 0 {
        seq![]
    } else {
        rift_parts(rifts.drop_last(), cache) + body_parts(rifts.last().1, cache)
    }
}

/// The parts separated by line breaks.
pub open spec fn join_lines(parts: Seq<Seq<char>>) -> Seq<char>
    decreases parts.len(),
{
    if parts.len() == 0 {
        seq![]
    } else if parts.len() == 1 {
        parts[0]
    } else {
        join_lines(parts.drop_last()) + "\n"@ + parts.last()
    }
}

/// The deployment payload of an environment.
pub open spec fn payload(env: EnvV) -> Seq<char> {
    join_lines(rift_parts(env.rifts, env.cache))
}

fn add_part(out: &mut String, parts: Ghost<Seq<Seq<char>>>, first: bool, part: &str)
    requires
        old(out)@ == join_lines(parts@),
        first == (parts@.len() == 0),
    ensures
        final(out)@ == join_lines(parts@.push(part@)),
{
    assert(parts@.push(part@).drop_last() =~= parts@);
    if !first {
        out.append("\n");
    }
    out.append(part);
}

/// Builds the deployment payload from every snippet of every rift.
pub fn compile_rift(env: &Environment) -> (r: String)
    ensures
        r@ == payload(env@),
{
    let ghost rifts = env@.rifts;
    let ghost cache = env@.cache;
    let mut out = String::new();
    let ghost mut parts: Seq<Seq<char>> = seq![];
    let mut first = true;
    let mut i: usize = 0;
    while i < env.rifts.entries.len()
        invariant
            first == (parts.len() == 0),
            rifts == env@.rifts,
            cache == env@.cache,
            i <= env.rifts.entries.len(),
            parts == rift_parts(rifts.subrange(0, i as int), cache),
            out@ == join_lines(parts),
        decreases env.rifts.entries.len() - i,
    {
        let body = &env.rifts.entries[i].1;
        proof {
            lemma_body_deep(body);
            assert(rifts[i as int].1 == body_view(body));
        }
        let mut j: usize = 0;
        let ghost start = parts;
        assert(body_view(body).subrange(0, 0) =~= seq![]);
        while j < body.len()
            invariant
                rifts == env@.rifts,
                cache == env@.cache,
                i < env.rifts.entries.len(),
                *body == env.rifts.entries@[i as int].1,
                rifts[i as int].1 == body_view(body),
                j <= body.len(),
                first == (parts.len() == 0),
                parts == start + body_parts(body_view(body).subrange(0, j as int), cache),
                out@ == join_lines(parts),
            decreases body.len() - j,
        {
            assert(body_view(body).subrange(0, j + 1).drop_last() =~= body_view(body).subrange(0, j as int));
            match &body[j] {
                AST::Fuse(lang, code) => {
                    let hash = content_hash(code.as_str());
                    proof {
                        lemma_deep_index_of(env.artifact_cache.keyed(), hash@);
                    }
                    match env.artifact_cache.get(hash.as_str()) {
                        Some(cached) => {
                            add_part(&mut out, Ghost(parts), first, cached.as_str());
                            first = false;
                            proof {
                                parts = parts.push(cached@);
                            }
                        },
                        None => {
                            let mut piece = String::from_str(lang.as_str());
                            piece.append(": ");
                            piece.append(code.as_str());
                            add_part(&mut out, Ghost(parts), first, piece.as_str());
                            first = false;
                            proof {
                                parts = parts.push(piece@);
                            }
                        },
                    }
                    assert(parts =~= start + body_parts(body_view(body).subrange(0, j + 1), cache));
                },
                _ => {
                    assert(parts =~= start + body_parts(body_view(body).subrange(0, j + 1), cache));
                },
            }
            j = j + 1;
        }
        proof {
            assert(body_view(body).subrange(0, j as int) =~= body_view(body));
            assert(rifts.subrange(0, i + 1).drop_last() =~= rifts.subrange(0, i as int));
        }
        i = i + 1;
    }
    assert(rifts.subrange(0, i as int) =~= rifts);
    out
}

} // verus!
