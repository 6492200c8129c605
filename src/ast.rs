use vstd::prelude::*;

verus! {

broadcast use vstd::std_specs::vec::group_vec_axioms;

/// The syntax tree that the parser hands to the engine.
#[derive(Debug)]
pub enum AST {
    Program(Vec<AST>),
    Rift(String, Vec<AST>),
    Fuse(String, String),
    Task(String, Vec<AST>),
    Target(String),
    /// A deployment selector and its configuration, as key and value pairs in
    /// the order they were written; a later pair overrides an earlier one.
    Deploy(String, Vec<(String, String)>),
    Let(String, Box<AST>),
    Call(String, Vec<AST>),
    If(Box<AST>, Vec<AST>, Vec<AST>),
    While(Box<AST>, Vec<AST>),
    Number(i32),
    String(String),
    Identifier(String),
}

/// A syntax tree as a mathematical value.
pub enum AstV {
    Program(Seq<AstV>),
    Rift(Seq<char>, Seq<AstV>),
    Fuse(Seq<char>, Seq<char>),
    Task(Seq<char>, Seq<AstV>),
    Target(Seq<char>),
    Deploy(Seq<char>, Seq<(Seq<char>, Seq<char>)>),
    Let(Seq<char>, Box<AstV>),
    Call(Seq<char>, Seq<AstV>),
    If(Box<AstV>, Seq<AstV>, Seq<AstV>),
    While(Box<AstV>, Seq<AstV>),
    Number(i32),
    Str(Seq<char>),
    Identifier(Seq<char>),
}

pub open spec fn pairs_view(c: Seq<(String, String)>) -> Seq<(Seq<char>, Seq<char>)> {
    c.map_values(|p: (String, String)| (p.0@, p.1@))
}

/// The views of a sequence of statements.
pub open spec fn body_view(v: &Vec<AST>) -> Seq<AstV>
    decreases v,
{
    Seq::new(v.len() as nat, |i: int| if 0 <= i < v.len() { ast_view(&v[i]) } else { AstV::Number(0) })
}

pub open spec fn ast_view(a: &AST) -> AstV
    decreases a,
{
    match a {
        AST::Program(v) => AstV::Program(body_view(v)),
        AST::Rift(n, v) => AstV::Rift(n@, body_view(v)),
        AST::Fuse(l, c) => AstV::Fuse(l@, c@),
        AST::Task(n, v) => AstV::Task(n@, body_view(v)),
        AST::Target(l) => AstV::Target(l@),
        AST::Deploy(t, c) => AstV::Deploy(t@, pairs_view(c@)),
        AST::Let(n, e) => AstV::Let(n@, Box::new(ast_view(e))),
        AST::Call(n, v) => AstV::Call(n@, body_view(v)),
        AST::If(c, t, e) => AstV::If(Box::new(ast_view(c)), body_view(t), body_view(e)),
        AST::While(c, v) => AstV::While(Box::new(ast_view(c)), body_view(v)),
        AST::Number(k) => AstV::Number(*k),
        AST::String(s) => AstV::Str(s@),
        AST::Identifier(s) => AstV::Identifier(s@),
    }
}

impl View for AST {
    type V = AstV;

    open spec fn view(&self) -> AstV {
        ast_view(self)
    }
}

/// A copy of a configuration list.
pub fn copy_pairs(c: &Vec<(String, String)>) -> (r: Vec<(String, String)>)
    ensures
        pairs_view(r@) == pairs_view(c@),
{
    let mut out: Vec<(String, String)> = Vec::new();
    let mut i: usize = 0;
    while i < c.len()
        invariant
            i <= c.len(),
            out.len() == i,
            forall|j: int| 0 <= j < i ==> out@[j].0@ == c@[j].0@ && out@[j].1@ == c@[j].1@,
        decreases c.len() - i,
    {
        out.push((c[i].0.clone(), c[i].1.clone()));
        i = i + 1;
    }
    assert(pairs_view(out@) =~= pairs_view(c@));
    out
}

/// A copy of a sequence of statements.
pub fn copy_body(v: &Vec<AST>) -> (r: Vec<AST>)
    ensures
        body_view(&r) == body_view(v),
    decreases v,
{
    let mut out: Vec<AST> = Vec::new();
    let mut i: usize = 0;
    while i < v.len()
        invariant
            i <= v.len(),
            out.len() == i,
            forall|j: int| 0 <= j < i ==> ast_view(&out[j]) == ast_view(&v[j]),
        decreases v.len() - i,
    {
        proof {
            assert(decreases_to!(*v => v[i as int]));
        }
        let c = copy_ast(&v[i]);
        out.push(c);
        i = i + 1;
    }
    assert(body_view(&out) =~= body_view(v));
    out
}

/// A copy of a syntax tree.
pub fn copy_ast(a: &AST) -> (r: AST)
    ensures
        r@ == a@,
    decreases a,
{
    match a {
        AST::Program(v) => AST::Program(copy_body(v)),
        AST::Rift(n, v) => AST::Rift(n.clone(), copy_body(v)),
        AST::Fuse(l, c) => AST::Fuse(l.clone(), c.clone()),
        AST::Task(n, v) => AST::Task(n.clone(), copy_body(v)),
        AST::Target(l) => AST::Target(l.clone()),
        AST::Deploy(t, c) => AST::Deploy(t.clone(), copy_pairs(c)),
        AST::Let(n, e) => AST::Let(n.clone(), Box::new(copy_ast(e))),
        AST::Call(n, v) => AST::Call(n.clone(), copy_body(v)),
        AST::If(c, t, e) => AST::If(Box::new(copy_ast(c)), copy_body(t), copy_body(e)),
        AST::While(c, v) => AST::While(Box::new(copy_ast(c)), copy_body(v)),
        AST::Number(k) => AST::Number(*k),
        AST::String(s) => AST::String(s.clone()),
        AST::Identifier(s) => AST::Identifier(s.clone()),
    }
}

} // verus!
