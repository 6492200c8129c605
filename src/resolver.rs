use vstd::prelude::*;
use vstd::string::*;
use crate::error::{ErrorV, RiftError};
use crate::text::same_text;

verus! {

broadcast use vstd::std_specs::vec::group_vec_axioms;

/// The languages whose syntax trees the engine can read.
#[derive(Debug, Clone, Copy, PartialEq, Eq, Structural)]
pub enum Grammar {
    Python,
    JavaScript,
    Go,
    Cpp,
    Java,
    Php,
}

pub open spec fn grammar_of(language: Seq<char>) -> Option<Grammar> {
    if language == "python"@ {
        Some(Grammar::Python)
    } else if language == "javascript"@ || language == "js"@ {
        Some(Grammar::JavaScript)
    } else if language == "go"@ {
        Some(Grammar::Go)
    } else if language == "cpp"@ {
        Some(Grammar::Cpp)
    } else if language == "java"@ {
        Some(Grammar::Java)
    } else if language == "php"@ {
        Some(Grammar::Php)
    } else {
        None
    }
}

/// The grammar registered for `language`, or `UnsupportedLanguage`.
pub fn grammar_for(language: &str) -> (r: Result<Grammar, RiftError>)
    ensures
        grammar_of(language@) matches Some(g) ==> r == Ok::<Grammar, RiftError>(g),
        grammar_of(language@) is None ==> (r matches Err(e) && e@ == ErrorV::UnsupportedLanguage(language@)),
{
    if same_text(language, "python") {
        Ok(Grammar::Python)
    } else if same_text(language, "javascript") || same_text(language, "js") {
        Ok(Grammar::JavaScript)
    } else if same_text(language, "go") {
        Ok(Grammar::Go)
    } else if same_text(language, "cpp") {
        Ok(Grammar::Cpp)
    } else if same_text(language, "java") {
        Ok(Grammar::Java)
    } else if same_text(language, "php") {
        Ok(Grammar::Php)
    } else {
        Err(RiftError::UnsupportedLanguage(String::from_str(language)))
    }
}

/// A node of a concrete syntax tree: its kind, the text of its `name` field
/// when it has one, and its children from left to right.
pub struct SyntaxNode {
    pub kind: String,
    pub name: Option<String>,
    pub children: Vec<SyntaxNode>,
}

pub open spec fn is_import_kind(kind: Seq<char>) -> bool {
    kind == "import_statement"@ || kind == "import_declaration"@
}

/// The name a node contributes itself: that of an import with a `name` field.
pub open spec fn own_import(n: &SyntaxNode) -> Seq<Seq<char>> {
    if is_import_kind(n.kind@) && n.name is Some {
        seq![n.name->Some_0@]
    } else {
        seq![]
    }
}

/// The imported names of a tree, in pre-order.
pub open spec fn imports_of(n: &SyntaxNode) -> Seq<Seq<char>>
    decreases n,
{
    own_import(n) + imports_in(&n.children, n.children.len() as int)
}

/// The imported names of the first `k` trees of `v`.
pub open spec fn imports_in(v: &Vec<SyntaxNode>, k: int) -> Seq<Seq<char>>
    decreases v, k,
{
    if k <= 0 || k > v.len() {
        seq![]
    } else {
        imports_in(v, k - 1) + imports_of(&v[k - 1])
    }
}

/// Appends the names that the imports of `node` bring in, in pre-order;
/// duplicates are kept.
pub fn traverse_node(node: &SyntaxNode, deps: &mut Vec<String>)
    ensures
        final(deps)@.map_values(|s: String| s@) == old(deps)@.map_values(|s: String| s@) + imports_of(node),
    decreases node,
{
    let ghost start = deps@.map_values(|s: String| s@);
    let is_import = same_text(node.kind.as_str(), "import_statement") || same_text(
        node.kind.as_str(),
        "import_declaration",
    );
    if is_import {
        match &node.name {
            Some(n) => {
                deps.push(n.clone());
            },
            None => {},
        }
    }
    assert(deps@.map_values(|s: String| s@) =~= start + own_import(node));
    let mut i: usize = 0;
    while i < node.children.len()
        invariant
            i <= node.children.len(),
            deps@.map_values(|s: String| s@) == start + own_import(node) + imports_in(&node.children, i as int),
        decreases node.children.len() - i,
    {
        proof {
            assert(decreases_to!(*node => node.children));
            assert(decreases_to!(node.children => node.children[i as int]));
        }
        let ghost before = deps@.map_values(|s: String| s@);
        traverse_node(&node.children[i], deps);
        assert(start + own_import(node) + imports_in(&node.children, i + 1) =~= before + imports_of(
            &node.children[i as int],
        ));
        i = i + 1;
    }
    assert(start + own_import(node) + imports_in(&node.children, i as int) =~= start + imports_of(node));
}

/// The names that a snippet imports, read from its syntax tree: the language
/// must have a grammar; the names come in pre-order, duplicates kept.
pub fn resolve_deps(language: &str, tree: &SyntaxNode) -> (r: Result<Vec<String>, RiftError>)
    ensures
        grammar_of(language@) is Some ==> (r matches Ok(d) && d@.map_values(|s: String| s@) == imports_of(tree)),
        grammar_of(language@) is None ==> (r matches Err(e) && e@ == ErrorV::UnsupportedLanguage(language@)),
{
    match grammar_for(language) {
        Ok(_) => {
            let mut deps: Vec<String> = Vec::new();
            assert(deps@.map_values(|s: String| s@) =~= seq![]);
            traverse_node(tree, &mut deps);
            assert(deps@.map_values(|s: String| s@) =~= imports_of(tree));
            Ok(deps)
        },
        Err(e) => Err(e),
    }
}

} // verus!
