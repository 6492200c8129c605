use vstd::prelude::*;
use vstd::string::*;
use crate::error::{ErrorV, RiftError};
use crate::text::{is_whitespace, occurs_at, same_text, whitespace};

verus! {

broadcast use vstd::std_specs::vec::group_vec_axioms;

/// The toolchains a snippet can run under.
#[derive(Debug, Clone, Copy, PartialEq, Eq, Structural)]
pub enum Toolchain {
    Python,
    Node,
    Go,
    Rust,
    Cpp,
    Java,
    Php,
}

pub open spec fn toolchain_of(language: Seq<char>) -> Option<Toolchain> {
    if language == "python"@ {
        Some(Toolchain::Python)
    } else if language == "javascript"@ || language == "js"@ {
        Some(Toolchain::Node)
    } else if language == "go"@ {
        Some(Toolchain::Go)
    } else if language == "rust"@ {
        Some(Toolchain::Rust)
    } else if language == "cpp"@ {
        Some(Toolchain::Cpp)
    } else if language == "java"@ {
        Some(Toolchain::Java)
    } else if language == "php"@ {
        Some(Toolchain::Php)
    } else {
        None
    }
}

// ---------------------------------------------------------------------------
// The class name of a Java snippet

/// The first position at or after `k` where `needle` starts in `hay`, or -1.
pub open spec fn find_from(hay: Seq<char>, needle: Seq<char>, k: int) -> int
    decreases hay.len() + 1 - k,
{
    if k < 0 || k + needle.len() > hay.len() {
        -1
    } else if occurs_at(hay, needle, k) {
        k
    } else {
        find_from(hay, needle, k + 1)
    }
}

/// The end of the line that starts at `k`: the next line break, or the end.
pub open spec fn line_end(s: Seq<char>, k: int) -> int
    decreases s.len() - k,
{
    if k < 0 || k >= s.len() || s[k] == '\n' {
        k
    } else {
        line_end(s, k + 1)
    }
}

/// The first line at or after `k` that contains `class`.
pub open spec fn class_line(s: Seq<char>, k: int) -> Option<Seq<char>>
    decreases s.len() + 1 - k,
{
    if k < 0 || k >= s.len() {
        None
    } else {
        let e = line_end(s, k);
        proof {
            lemma_line_end(s, k);
        }
        let line = s.subrange(k, e);
        if find_from(line, "class"@, 0) >= 0 {
            Some(line)
        } else {
            class_line(s, e + 1)
        }
    }
}

/// `s` without white space at either end.
pub open spec fn trim(s: Seq<char>) -> Seq<char>
    decreases s.len(),
{
    if s.len() > 0 && whitespace(s[0]) {
        trim(s.drop_first())
    } else if s.len() > 0 && whitespace(s.last()) {
        trim(s.drop_last())
    } else {
        s
    }
}

/// `k` when it is a position, else `n`.
pub open spec fn or_len(k: int, n: int) -> int {
    if k >= 0 { k } else { n }
}

/// The class a Java snippet declares: on the first line that mentions `class`,
/// the trimmed text after it, up to a `{` or a second `class`; `Main` when no
/// line mentions it.
pub open spec fn java_class(code: Seq<char>) -> Seq<char> {
    match class_line(code, 0) {
        None => "Main"@,
        Some(line) => {
            let after = line.subrange(find_from(line, "class"@, 0) + 5, line.len() as int);
            let a = or_len(find_from(after, "class"@, 0), after.len() as int);
            let b = or_len(find_from(after, "{"@, 0), after.len() as int);
            trim(after.subrange(0, if a < b { a } else { b }))
        },
    }
}

pub proof fn lemma_find_from(hay: Seq<char>, needle: Seq<char>, k: int)
    requires
        0 <= k,
    ensures
        find_from(hay, needle, k) == -1 || (k <= find_from(hay, needle, k) && find_from(hay, needle, k)
            + needle.len() <= hay.len() && occurs_at(hay, needle, find_from(hay, needle, k))),
    decreases hay.len() + 1 - k,
{
    if k + needle.len() <= hay.len() && !occurs_at(hay, needle, k) {
        lemma_find_from(hay, needle, k + 1);
    }
}

pub proof fn lemma_line_end(s: Seq<char>, k: int)
    requires
        0 <= k <= s.len(),
    ensures
        k <= line_end(s, k) <= s.len(),
    decreases s.len() - k,
{
    if k < s.len() && s[k] != '\n' {
        lemma_line_end(s, k + 1);
    }
}

/// The first position at or after `k` where `needle` starts in `hay`.
fn find_text(hay: &str, needle: &str, k: usize) -> (r: Option<usize>)
    requires
        k <= hay@.len(),
    ensures
        find_from(hay@, needle@, k as int) < 0 ==> r is None,
        find_from(hay@, needle@, k as int) >= 0 ==> r == Some(find_from(hay@, needle@, k as int) as usize),
{
    proof {
        lemma_find_from(hay@, needle@, k as int);
    }
    let n = hay.unicode_len();
    let m = needle.unicode_len();
    let mut i: usize = k;
    while i <= n && m <= n - i
        invariant
            n == hay@.len(),
            m == needle@.len(),
            k <= i,
            find_from(hay@, needle@, k as int) == find_from(hay@, needle@, i as int),
        decreases n - i + 1,
    {
        let mut j: usize = 0;
        let mut same = true;
        while j < m
            invariant
                n == hay@.len(),
                m == needle@.len(),
                i + m <= n,
                j <= m,
                same == forall|q: int| 0 <= q < j ==> hay@[i + q] == needle@[q],
            decreases m - j,
        {
            if hay.get_char(i + j) != needle.get_char(j) {
                same = false;
            }
            j = j + 1;
        }
        if same {
            assert(hay@.subrange(i as int, i + m) =~= needle@);
            return Some(i);
        }
        assert(!occurs_at(hay@, needle@, i as int)) by {
            if hay@.subrange(i as int, i + m) == needle@ {
                assert forall|q: int| 0 <= q < m implies hay@[i + q] == needle@[q] by {
                    assert(hay@.subrange(i as int, i + m)[q] == hay@[i + q]);
                }
            }
        }
        i = i + 1;
    }
    None
}

/// `s` without white space at either end.
fn trim_text(s: &str) -> (r: String)
    ensures
        r@ == trim(s@),
{
    let n = s.unicode_len();
    let mut a: usize = 0;
    let mut b: usize = n;
    assert(s@.subrange(0, n as int) =~= s@);
    while a < b && is_whitespace(s.get_char(a))
        invariant
            n == s@.len(),
            a <= b == n,
            trim(s@) == trim(s@.subrange(a as int, b as int)),
        decreases b - a,
    {
        assert(s@.subrange(a as int, b as int).drop_first() =~= s@.subrange(a + 1, b as int));
        a = a + 1;
    }
    while a < b && is_whitespace(s.get_char(b - 1))
        invariant
            n == s@.len(),
            a <= b <= n,
            a == b || !whitespace(s@[a as int]),
            trim(s@) == trim(s@.subrange(a as int, b as int)),
        decreases b - a,
    {
        assert(s@.subrange(a as int, b as int).drop_last() =~= s@.subrange(a as int, b - 1));
        b = b - 1;
    }
    String::from_str(s.substring_char(a, b))
}

/// The class name a Java snippet declares, as the java launcher needs it.
pub fn java_class_name(code: &str) -> (r: String)
    ensures
        r@ == java_class(code@),
{
    let n = code.unicode_len();
    let mut k: usize = 0;
    while k < n
        invariant
            n == code@.len(),
            k <= n,
            class_line(code@, 0) == class_line(code@, k as int),
        decreases n - k,
    {
        let mut e: usize = k;
        while e < n && code.get_char(e) != '\n'
            invariant
                n == code@.len(),
                k <= e <= n,
                line_end(code@, k as int) == line_end(code@, e as int),
            decreases n - e,
        {
            e = e + 1;
        }
        let line = code.substring_char(k, e);
        match find_text(line, "class", 0) {
            Some(p) => {
                proof {
                    lemma_find_from(line@, "class"@, 0);
                    reveal_strlit("class");
                }
                let after = line.substring_char(p + 5, line.unicode_len());
                let na = after.unicode_len();
                let a = match find_text(after, "class", 0) {
                    Some(x) => x,
                    None => na,
                };
                let b = match find_text(after, "{", 0) {
                    Some(x) => x,
                    None => na,
                };
                proof {
                    lemma_find_from(after@, "class"@, 0);
                    lemma_find_from(after@, "{"@, 0);
                }
                let cut = if a < b { a } else { b };
                return trim_text(after.substring_char(0, cut));
            },
            None => {},
        }
        k = if e < n { e + 1 } else { n };
    }
    String::from_str("Main")
}

// ---------------------------------------------------------------------------
// Execution plans

/// The steps that run one snippet: each command is a program and its arguments.
pub struct ExecutionPlan {
    /// Checks that the toolchain can be started.
    pub probe: Vec<String>,
    /// Installs each dependency: the dependency and its command.
    pub installs: Vec<(String, Vec<String>)>,
    /// The file that receives the snippet.
    pub source_file: String,
    pub compile: Option<Vec<String>>,
    pub run: Vec<String>,
    /// Files removed afterwards; failing to remove one is no error.
    pub cleanup: Vec<String>,
}

pub struct ExecutionPlanV {
    pub probe: Seq<Seq<char>>,
    pub installs: Seq<(Seq<char>, Seq<Seq<char>>)>,
    pub source_file: Seq<char>,
    pub compile: Option<Seq<Seq<char>>>,
    pub run: Seq<Seq<char>>,
    pub cleanup: Seq<Seq<char>>,
}

pub open spec fn argv_view(v: Seq<String>) -> Seq<Seq<char>> {
    v.map_values(|s: String| s@)
}

impl View for ExecutionPlan {
    type V = ExecutionPlanV;

    open spec fn view(&self) -> ExecutionPlanV {
        ExecutionPlanV {
            probe: argv_view(self.probe@),
            installs: self.installs@.map_values(|p: (String, Vec<String>)| (p.0@, argv_view(p.1@))),
            source_file: self.source_file@,
            compile: match self.compile {
                Some(c) => Some(argv_view(c@)),
                None => None,
            },
            run: argv_view(self.run@),
            cleanup: argv_view(self.cleanup@),
        }
    }
}

pub open spec fn probe_of(t: Toolchain) -> Seq<Seq<char>> {
    match t {
        Toolchain::Python => seq!["python3"@, "--version"@],
        Toolchain::Node => seq!["node"@, "--version"@],
        Toolchain::Go => seq!["go"@, "version"@],
        Toolchain::Rust => seq!["rustc"@, "--version"@],
        Toolchain::Cpp => seq!["g++"@, "--version"@],
        Toolchain::Java => seq!["java"@, "-version"@],
        Toolchain::Php => seq!["php"@, "--version"@],
    }
}

/// The package manager's command for one dependency; only python, javascript
/// and java snippets have dependencies installed.
pub open spec fn install_of(t: Toolchain, dep: Seq<char>) -> Option<Seq<Seq<char>>> {
    match t {
        Toolchain::Python => Some(seq!["pip3"@, "install"@, dep]),
        Toolchain::Node => Some(seq!["npm"@, "install"@, dep]),
        Toolchain::Java => Some(seq!["mvn"@, "dependency:get"@, "-Dartifact="@ + dep]),
        _ => None,
    }
}

pub open spec fn installs_of(t: Toolchain, deps: Seq<Seq<char>>) -> Seq<(Seq<char>, Seq<Seq<char>>)> {
    if install_of(t, ""@) is Some {
        deps.map_values(|d: Seq<char>| (d, install_of(t, d)->Some_0))
    } else {
        seq![]
    }
}

/// The plan for a snippet with content hash `hash`; files are named after the
/// hash, or after the class for java.
pub open spec fn plan_of(t: Toolchain, code: Seq<char>, hash: Seq<char>, deps: Seq<Seq<char>>) -> ExecutionPlanV {
    let installs = installs_of(t, deps);
    match t {
        Toolchain::Python => ExecutionPlanV {
            probe: probe_of(t),
            installs,
            source_file: hash,
            compile: None,
            run: seq!["python3"@, hash],
            cleanup: seq![hash],
        },
        Toolchain::Node => ExecutionPlanV {
            probe: probe_of(t),
            installs,
            source_file: hash,
            compile: None,
            run: seq!["node"@, hash],
            cleanup: seq![hash],
        },
        Toolchain::Go => ExecutionPlanV {
            probe: probe_of(t),
            installs,
            source_file: "temp_"@ + hash + ".go"@,
            compile: None,
            run: seq!["go"@, "run"@, "temp_"@ + hash + ".go"@],
            cleanup: seq!["temp_"@ + hash + ".go"@, hash],
        },
        Toolchain::Rust => ExecutionPlanV {
            probe: probe_of(t),
            installs,
            source_file: "temp_"@ + hash + ".rs"@,
            compile: Some(seq!["rustc"@, "temp_"@ + hash + ".rs"@, "-o"@, "temp_"@ + hash]),
            run: seq!["./temp_"@ + hash],
            cleanup: seq!["temp_"@ + hash + ".rs"@],
        },
        Toolchain::Cpp => ExecutionPlanV {
            probe: probe_of(t),
            installs,
            source_file: hash + ".cpp"@,
            compile: Some(seq!["g++"@, hash + ".cpp"@, "-o"@, hash]),
            run: seq!["./"@ + hash],
            cleanup: seq![hash + ".cpp"@, hash],
        },
        Toolchain::Java => ExecutionPlanV {
            probe: probe_of(t),
            installs,
            source_file: java_class(code) + ".java"@,
            compile: Some(seq!["javac"@, java_class(code) + ".java"@]),
            run: seq!["java"@, java_class(code)],
            cleanup: seq![java_class(code) + ".java"@, java_class(code) + ".class"@, hash],
        },
        Toolchain::Php => ExecutionPlanV {
            probe: probe_of(t),
            installs,
            source_file: hash,
            compile: None,
            run: seq!["php"@, hash],
            cleanup: seq![hash],
        },
    }
}

/// The plan for a snippet, or `UnsupportedLanguage`.
pub open spec fn execution_plan(language: Seq<char>, code: Seq<char>, hash: Seq<char>, deps: Seq<Seq<char>>) -> Result<
    ExecutionPlanV,
    ErrorV,
> {
    match toolchain_of(language) {
        Some(t) => Ok(plan_of(t, code, hash, deps)),
        None => Err(ErrorV::UnsupportedLanguage(language)),
    }
}

fn join2(a: &str, b: &str) -> (r: String)
    ensures
        r@ == a@ + b@,
{
    let mut r = String::from_str(a);
    r.append(b);
    r
}

fn join3(a: &str, b: &str, c: &str) -> (r: String)
    ensures
        r@ == a@ + b@ + c@,
{
    let mut r = String::from_str(a);
    r.append(b);
    r.append(c);
    r
}

fn argv1(a: &str) -> (r: Vec<String>)
    ensures
        argv_view(r@) == seq![a@],
{
    let r = vec![String::from_str(a)];
    assert(argv_view(r@) =~= seq![a@]);
    r
}

fn argv2(a: &str, b: &str) -> (r: Vec<String>)
    ensures
        argv_view(r@) == seq![a@, b@],
{
    let r = vec![String::from_str(a), String::from_str(b)];
    assert(argv_view(r@) =~= seq![a@, b@]);
    r
}

fn argv3(a: &str, b: &str, c: &str) -> (r: Vec<String>)
    ensures
        argv_view(r@) == seq![a@, b@, c@],
{
    let r = vec![String::from_str(a), String::from_str(b), String::from_str(c)];
    assert(argv_view(r@) =~= seq![a@, b@, c@]);
    r
}

fn argv4(a: &str, b: &str, c: &str, d: &str) -> (r: Vec<String>)
    ensures
        argv_view(r@) == seq![a@, b@, c@, d@],
{
    let r = vec![String::from_str(a), String::from_str(b), String::from_str(c), String::from_str(d)];
    assert(argv_view(r@) =~= seq![a@, b@, c@, d@]);
    r
}

fn toolchain_for(language: &str) -> (r: Option<Toolchain>)
    ensures
        r == toolchain_of(language@),
{
    if same_text(language, "python") {
        Some(Toolchain::Python)
    } else if same_text(language, "javascript") || same_text(language, "js") {
        Some(Toolchain::Node)
    } else if same_text(language, "go") {
        Some(Toolchain::Go)
    } else if same_text(language, "rust") {
        Some(Toolchain::Rust)
    } else if same_text(language, "cpp") {
        Some(Toolchain::Cpp)
    } else if same_text(language, "java") {
        Some(Toolchain::Java)
    } else if same_text(language, "php") {
        Some(Toolchain::Php)
    } else {
        None
    }
}

fn installs_for(t: Toolchain, deps: &Vec<String>) -> (r: Vec<(String, Vec<String>)>)
    ensures
        r@.map_values(|p: (String, Vec<String>)| (p.0@, argv_view(p.1@))) == installs_of(t, deps@.map_values(|s: String| s@)),
{
    let mut r: Vec<(String, Vec<String>)> = Vec::new();
    let ghost dv = deps@.map_values(|s: String| s@);
    if !(t == Toolchain::Python || t == Toolchain::Node || t == Toolchain::Java) {
        assert(r@.map_values(|p: (String, Vec<String>)| (p.0@, argv_view(p.1@))) =~= installs_of(t, dv));
        return r;
    }
    let mut i: usize = 0;
    while i < deps.len()
        invariant
            t == Toolchain::Python || t == Toolchain::Node || t == Toolchain::Java,
            dv == deps@.map_values(|s: String| s@),
            i <= deps.len(),
            r.len() == i,
            forall|j: int| 0 <= j < i ==> (#[trigger] r@[j]).0@ == dv[j] && argv_view(r@[j].1@) == install_of(t, dv[j])->Some_0,
        decreases deps.len() - i,
    {
        let d = &deps[i];
        let cmd = match t {
            Toolchain::Python => argv3("pip3", "install", d.as_str()),
            Toolchain::Node => argv3("npm", "install", d.as_str()),
            _ => argv3("mvn", "dependency:get", join2("-Dartifact=", d.as_str()).as_str()),
        };
        proof {
            assert(argv_view(cmd@) =~= install_of(t, dv[i as int])->Some_0);
        }
        r.push((d.clone(), cmd));
        i = i + 1;
    }
    assert(r@.map_values(|p: (String, Vec<String>)| (p.0@, argv_view(p.1@))) =~= installs_of(t, dv));
    r
}

/// Plans how to run a snippet: probe the toolchain, install the dependencies,
/// write the snippet to a file named after its hash, compile where the language
/// needs it, run it, and clean up.
pub fn plan_execution(language: &str, code: &str, hash: &str, deps: &Vec<String>) -> (r: Result<ExecutionPlan, RiftError>)
    ensures
        execution_plan(language@, code@, hash@, deps@.map_values(|s: String| s@)) matches Ok(p) ==> (r matches Ok(q) && q@ == p),
        execution_plan(language@, code@, hash@, deps@.map_values(|s: String| s@)) matches Err(e) ==> (r matches Err(x) && x@ == e),
{
    let t = match toolchain_for(language) {
        Some(t) => t,
        None => return Err(RiftError::UnsupportedLanguage(String::from_str(language))),
    };
    let installs = installs_for(t, deps);
    let plan = match t {
        Toolchain::Python => ExecutionPlan {
            probe: argv2("python3", "--version"),
            installs,
            source_file: String::from_str(hash),
            compile: None,
            run: argv2("python3", hash),
            cleanup: argv1(hash),
        },
        Toolchain::Node => ExecutionPlan {
            probe: argv2("node", "--version"),
            installs,
            source_file: String::from_str(hash),
            compile: None,
            run: argv2("node", hash),
            cleanup: argv1(hash),
        },
        Toolchain::Go => {
            let file = join3("temp_", hash, ".go");
            ExecutionPlan {
                probe: argv2("go", "version"),
                installs,
                source_file: String::from_str(file.as_str()),
                compile: None,
                run: argv3("go", "run", file.as_str()),
                cleanup: argv2(file.as_str(), hash),
            }
        },
        Toolchain::Rust => {
            let file = join3("temp_", hash, ".rs");
            let binary = join2("temp_", hash);
            ExecutionPlan {
                probe: argv2("rustc", "--version"),
                installs,
                source_file: String::from_str(file.as_str()),
                compile: Some(argv4("rustc", file.as_str(), "-o", binary.as_str())),
                run: argv1(join2("./temp_", hash).as_str()),
                cleanup: argv1(file.as_str()),
            }
        },
        Toolchain::Cpp => {
            let file = join2(hash, ".cpp");
            ExecutionPlan {
                probe: argv2("g++", "--version"),
                installs,
                source_file: String::from_str(file.as_str()),
                compile: Some(argv4("g++", file.as_str(), "-o", hash)),
                run: argv1(join2("./", hash).as_str()),
                cleanup: argv2(file.as_str(), hash),
            }
        },
        Toolchain::Java => {
            let class = java_class_name(code);
            let file = join2(class.as_str(), ".java");
            ExecutionPlan {
                probe: argv2("java", "-version"),
                installs,
                source_file: String::from_str(file.as_str()),
                compile: Some(argv2("javac", file.as_str())),
                run: argv2("java", class.as_str()),
                cleanup: argv3(file.as_str(), join2(class.as_str(), ".class").as_str(), hash),
            }
        },
        Toolchain::Php => ExecutionPlan {
            probe: argv2("php", "--version"),
            installs,
            source_file: String::from_str(hash),
            compile: None,
            run: argv2("php", hash),
            cleanup: argv1(hash),
        },
    };
    assert(plan@ == plan_of(t, code@, hash@, deps@.map_values(|s: String| s@)));
    Ok(plan)
}

/// The stage of a snippet's run at which something went wrong.
#[derive(Debug, Clone, Copy, PartialEq, Eq, Structural)]
pub enum Stage {
    Probe,
    Install,
    Compile,
    Run,
}

pub open spec fn stage_error_spec(language: Seq<char>, stage: Stage, detail: Seq<char>) -> ErrorV {
    match stage {
        Stage::Probe => ErrorV::ToolchainNotFound(language),
        Stage::Install => ErrorV::DependencyError { language, dependency: detail },
        Stage::Compile => ErrorV::ExecutionError { language, message: detail },
        Stage::Run => ErrorV::ExecutionError { language, message: detail },
    }
}

/// The error for a failure at `stage`: a missing toolchain, a dependency that
/// did not install (`detail` names it), or a failed compile or run (`detail`
/// holds what the process reported).
pub fn stage_error(language: &str, stage: Stage, detail: &str) -> (r: RiftError)
    ensures
        r@ == stage_error_spec(language@, stage, detail@),
{
    match stage {
        Stage::Probe => RiftError::ToolchainNotFound(String::from_str(language)),
        Stage::Install => RiftError::DependencyError {
            language: String::from_str(language),
            dependency: String::from_str(detail),
        },
        Stage::Compile | Stage::Run => RiftError::ExecutionError {
            language: String::from_str(language),
            message: String::from_str(detail),
        },
    }
}

} // verus!
