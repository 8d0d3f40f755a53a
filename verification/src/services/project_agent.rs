//! Project creation from a model's answer: language detection, project
//! scaffolding, dependency extraction and the build-and-repair loop.
use vstd::prelude::*;

use crate::parser::{language_of_extension, language_text};
use crate::path::{extension_of, lemma_extension_of_name, plain_path};
use crate::services::code_agent::stripped_of_fences;
use crate::text::{
    is_ascii_text, lowercase, char_is_alphanumeric, char_is_lowercase, concat, concat3, contains_seq, copy_range,
    count_char, count_char_exec, find_exec, find_from, is_alphanumeric, is_lowercase, is_prefix,
    join, join_with, lemma_count_char_le, lemma_lines_bounds, lemma_trim_len, lines, lines_of,
    replace_char, replace_char_exec, seq_views, split_on, str_contains, str_eq, string_from,
    string_views, to_chars, trim_chars, trim_end_char, trim_end_char_exec, trim_of, contains_string,
    starts_with,
};

verus! {

/// The most builds the repair loop makes; every failed build is followed by
/// a repair, and the code of each repair but the last is built again.
pub const MAX_FIX_ATTEMPTS: usize = 3;

/// Instructions for the model that repairs code that does not build.
pub const FIX_AGENT_PREAMBLE: &'static str = "You are a code fixing agent. You are given source code and compilation/build errors.
Your ONLY job is to fix the code so it compiles and runs successfully.

Rules:
- Output ONLY the complete fixed source code, nothing else
- Do NOT include markdown formatting (no ``` blocks)
- Fix all compilation errors reported
- Do not remove functionality — only fix errors
- If imports are missing, add them
- If types are wrong, correct them
- If a type or function is not found, it may have been renamed or removed in a newer version of the library — use the current/modern API
- Preserve the overall structure and intent of the code";

/// Instructions for the model that extracts a single source file.
pub const CODE_PREAMBLE: &'static str = "You are a code extraction agent. Output ONLY valid source code, nothing else.
Include all necessary imports. Remove markdown formatting, explanatory text, and citations.
Combine all code snippets into a single coherent, compilable file.
Do not output anything except code.";

/// Languages a generated project can be written in.
#[derive(Debug, Clone, Copy, PartialEq, Eq, Structural)]
pub enum ProjectLang {
    Rust,
    Python,
    JavaScript,
    TypeScript,
    Go,
    Java,
}

/// Name of a project language.
pub open spec fn project_lang_name(l: ProjectLang) -> Seq<char> {
    match l {
        ProjectLang::Rust => "rust"@,
        ProjectLang::Python => "python"@,
        ProjectLang::JavaScript => "javascript"@,
        ProjectLang::TypeScript => "typescript"@,
        ProjectLang::Go => "go"@,
        ProjectLang::Java => "java"@,
    }
}

/// Source file extension of a project language.
pub open spec fn project_lang_extension(l: ProjectLang) -> Seq<char> {
    match l {
        ProjectLang::Rust => "rs"@,
        ProjectLang::Python => "py"@,
        ProjectLang::JavaScript => "js"@,
        ProjectLang::TypeScript => "ts"@,
        ProjectLang::Go => "go"@,
        ProjectLang::Java => "java"@,
    }
}

impl ProjectLang {
    /// The language's name (`rust`, `python`, ...).
    pub fn name(&self) -> (r: &'static str)
        ensures
            r@ == project_lang_name(*self),
    {
        match self {
            ProjectLang::Rust => "rust",
            ProjectLang::Python => "python",
            ProjectLang::JavaScript => "javascript",
            ProjectLang::TypeScript => "typescript",
            ProjectLang::Go => "go",
            ProjectLang::Java => "java",
        }
    }

    /// The language's source file extension (`rs`, `py`, ...).
    pub fn extension(&self) -> (r: &'static str)
        ensures
            r@ == project_lang_extension(*self),
    {
        match self {
            ProjectLang::Rust => "rs",
            ProjectLang::Python => "py",
            ProjectLang::JavaScript => "js",
            ProjectLang::TypeScript => "ts",
            ProjectLang::Go => "go",
            ProjectLang::Java => "java",
        }
    }
}

/// Law of the scaffold languages: the path made of `main.` and a language's
/// source extension is a plain path with that extension, and the extension,
/// lower-cased as file detection does, is the one of the code language of
/// the same name; so detection finds that language for the path.
pub proof fn lemma_scaffold_extension_detected(l: ProjectLang)
    ensures
        plain_path("main."@ + project_lang_extension(l)),
        extension_of("main."@ + project_lang_extension(l)) == Some(project_lang_extension(l)),
        language_of_extension(lowercase(project_lang_extension(l))) matches Some(c) && language_text(
            c,
        ) == project_lang_name(l),
{
    reveal_strlit("main.");
    reveal_strlit("main");
    let e = project_lang_extension(l);
    let p = "main."@ + e;
    assert("main."@ =~= "main"@ + seq!['.']);
    assert(p =~= "main"@ + seq!['.'] + e);
    reveal_strlit("rs");
    reveal_strlit("py");
    reveal_strlit("js");
    reveal_strlit("mjs");
    reveal_strlit("cjs");
    reveal_strlit("jsx");
    reveal_strlit("ts");
    reveal_strlit("tsx");
    reveal_strlit("java");
    reveal_strlit("go");
    assert(!"main"@.contains('/'));
    assert(!e.contains('/') && !e.contains('.') && !e.contains('\\') && !e.contains(':'));
    lemma_extension_of_name("main"@, e);
    assert(!p.contains('\\') && !p.contains(':'));
    assert(is_ascii_text(e));
    assert(lowercase(e) =~= e);
    match l {
        ProjectLang::Rust => {},
        ProjectLang::Python => {
            assert(e[0] != "rs"@[0]);
        },
        ProjectLang::JavaScript => {
            assert(e[0] != "rs"@[0] && e[0] != "py"@[0]);
        },
        ProjectLang::TypeScript => {
            assert(e[0] != "rs"@[0] && e[0] != "py"@[0] && e[0] != "js"@[0]);
            assert(e.len() != "mjs"@.len() && e.len() != "cjs"@.len() && e.len() != "jsx"@.len());
        },
        ProjectLang::Go => {
            assert(e[0] != "rs"@[0] && e[0] != "py"@[0] && e[0] != "js"@[0] && e[0] != "ts"@[0]);
            assert(e.len() != "mjs"@.len() && e.len() != "cjs"@.len() && e.len() != "jsx"@.len()
                && e.len() != "tsx"@.len() && e.len() != "java"@.len());
        },
        ProjectLang::Java => {
            assert(e.len() != "rs"@.len() && e.len() != "py"@.len() && e.len() != "js"@.len()
                && e.len() != "mjs"@.len() && e.len() != "cjs"@.len() && e.len() != "jsx"@.len()
                && e.len() != "ts"@.len() && e.len() != "tsx"@.len());
        },
    }
}

// ---------------------------------------------------------------------------
// Language detection
// ---------------------------------------------------------------------------

/// Rust markers: `fn main()`, `use std::`, `let mut `, `impl `, `pub fn `.
pub open spec fn looks_like_rust(c: Seq<char>) -> bool {
    contains_seq(c, "fn main()"@) || contains_seq(c, "use std::"@) || contains_seq(c, "let mut "@)
        || contains_seq(c, "impl "@) || contains_seq(c, "pub fn "@)
}

/// Python markers: `def main():`, `import `, `from `, `print(`, `if __name__`.
pub open spec fn looks_like_python(c: Seq<char>) -> bool {
    contains_seq(c, "def main():"@) || contains_seq(c, "import "@) || contains_seq(c, "from "@)
        || contains_seq(c, "print("@) || contains_seq(c, "if __name__"@)
}

/// JavaScript markers: `function `, `const `, `require(`, `module.exports`, `console.log`.
pub open spec fn looks_like_javascript(c: Seq<char>) -> bool {
    contains_seq(c, "function "@) || contains_seq(c, "const "@) || contains_seq(c, "require("@)
        || contains_seq(c, "module.exports"@) || contains_seq(c, "console.log"@)
}

/// TypeScript markers: `interface `, `type `, `: string`, `: number`, `as `.
pub open spec fn looks_like_typescript(c: Seq<char>) -> bool {
    contains_seq(c, "interface "@) || contains_seq(c, "type "@) || contains_seq(c, ": string"@)
        || contains_seq(c, ": number"@) || contains_seq(c, "as "@)
}

/// Go markers: `func main()`, `package main`, `import "`, `fmt.`.
pub open spec fn looks_like_go(c: Seq<char>) -> bool {
    contains_seq(c, "func main()"@) || contains_seq(c, "package main"@) || contains_seq(
        c,
        "import \""@,
    ) || contains_seq(c, "fmt."@)
}

/// Java markers: `public class`, `System.out`, `public static void`, `import java.`.
pub open spec fn looks_like_java(c: Seq<char>) -> bool {
    contains_seq(c, "public class"@) || contains_seq(c, "System.out"@) || contains_seq(
        c,
        "public static void"@,
    ) || contains_seq(c, "import java."@)
}

/// The language whose markers the code shows first, checked in the order
/// Rust, Python, JavaScript, TypeScript, Go, Java; Rust by default.
pub open spec fn detected_language(c: Seq<char>) -> ProjectLang {
    if looks_like_rust(c) {
        ProjectLang::Rust
    } else if looks_like_python(c) {
        ProjectLang::Python
    } else if looks_like_javascript(c) {
        ProjectLang::JavaScript
    } else if looks_like_typescript(c) {
        ProjectLang::TypeScript
    } else if looks_like_go(c) {
        ProjectLang::Go
    } else if looks_like_java(c) {
        ProjectLang::Java
    } else {
        ProjectLang::Rust
    }
}

/// The marker substrings of each language's code, as the detection
/// documents them.
pub open spec fn code_markers(l: ProjectLang) -> Seq<Seq<char>> {
    match l {
        ProjectLang::Rust => seq!["fn main()"@, "use std::"@, "let mut "@, "impl "@, "pub fn "@],
        ProjectLang::Python => seq!["def main():"@, "import "@, "from "@, "print("@, "if __name__"@],
        ProjectLang::JavaScript => seq!["function "@, "const "@, "require("@, "module.exports"@, "console.log"@],
        ProjectLang::TypeScript => seq!["interface "@, "type "@, ": string"@, ": number"@, "as "@],
        ProjectLang::Go => seq!["func main()"@, "package main"@, "import \""@, "fmt."@],
        ProjectLang::Java => seq!["public class"@, "System.out"@, "public static void"@, "import java."@],
    }
}

/// The place of each language in the order in which detection checks them.
pub open spec fn detection_rank(l: ProjectLang) -> int {
    match l {
        ProjectLang::Rust => 0,
        ProjectLang::Python => 1,
        ProjectLang::JavaScript => 2,
        ProjectLang::TypeScript => 3,
        ProjectLang::Go => 4,
        ProjectLang::Java => 5,
    }
}

/// The code holds one of the markers of the language.
pub open spec fn has_marker_of(c: Seq<char>, l: ProjectLang) -> bool {
    exists|m: Seq<char>| code_markers(l).contains(m) && #[trigger] contains_seq(c, m)
}

spec fn looks_like_lang(l: ProjectLang, c: Seq<char>) -> bool {
    match l {
        ProjectLang::Rust => looks_like_rust(c),
        ProjectLang::Python => looks_like_python(c),
        ProjectLang::JavaScript => looks_like_javascript(c),
        ProjectLang::TypeScript => looks_like_typescript(c),
        ProjectLang::Go => looks_like_go(c),
        ProjectLang::Java => looks_like_java(c),
    }
}

proof fn lemma_looks_like_markers(c: Seq<char>, l: ProjectLang)
    ensures
        looks_like_lang(l, c) == has_marker_of(c, l),
{
    let ms = code_markers(l);
    if has_marker_of(c, l) {
        let m = choose|m: Seq<char>| ms.contains(m) && #[trigger] contains_seq(c, m);
        let i = choose|i: int| 0 <= i < ms.len() && ms[i] == m;
        if i == 0 {
            assert(contains_seq(c, ms[0]));
        }
        if i == 1 {
            assert(contains_seq(c, ms[1]));
        }
        if i == 2 {
            assert(contains_seq(c, ms[2]));
        }
        if i == 3 {
            assert(contains_seq(c, ms[3]));
        }
        if i == 4 {
            assert(contains_seq(c, ms[4]));
        }
    }
    if looks_like_lang(l, c) {
        if ms.len() > 0 && contains_seq(c, ms[0]) {
            assert(ms.contains(ms[0]));
        }
        if ms.len() > 1 && contains_seq(c, ms[1]) {
            assert(ms.contains(ms[1]));
        }
        if ms.len() > 2 && contains_seq(c, ms[2]) {
            assert(ms.contains(ms[2]));
        }
        if ms.len() > 3 && contains_seq(c, ms[3]) {
            assert(ms.contains(ms[3]));
        }
        if ms.len() > 4 && contains_seq(c, ms[4]) {
            assert(ms.contains(ms[4]));
        }
    }
}

/// Law of code language detection: code that holds a marker of a language,
/// and no marker of a language checked before it, is detected as that
/// language; code that holds no marker at all is taken for Rust.
pub proof fn lemma_markers_detected(c: Seq<char>, l: ProjectLang)
    ensures
        has_marker_of(c, l) && (forall|e: ProjectLang|
            detection_rank(e) < detection_rank(l) ==> !#[trigger] has_marker_of(c, e))
            ==> detected_language(c) == l,
        (forall|e: ProjectLang| !#[trigger] has_marker_of(c, e)) ==> detected_language(c)
            == ProjectLang::Rust,
{
    lemma_looks_like_markers(c, ProjectLang::Rust);
    lemma_looks_like_markers(c, ProjectLang::Python);
    lemma_looks_like_markers(c, ProjectLang::JavaScript);
    lemma_looks_like_markers(c, ProjectLang::TypeScript);
    lemma_looks_like_markers(c, ProjectLang::Go);
    lemma_looks_like_markers(c, ProjectLang::Java);
    if has_marker_of(c, l) && (forall|e: ProjectLang|
        detection_rank(e) < detection_rank(l) ==> !#[trigger] has_marker_of(c, e)) {
        assert(detection_rank(ProjectLang::Rust) < detection_rank(l) ==> !has_marker_of(c, ProjectLang::Rust));
        assert(detection_rank(ProjectLang::Python) < detection_rank(l) ==> !has_marker_of(c, ProjectLang::Python));
        assert(detection_rank(ProjectLang::JavaScript) < detection_rank(l) ==> !has_marker_of(c, ProjectLang::JavaScript));
        assert(detection_rank(ProjectLang::TypeScript) < detection_rank(l) ==> !has_marker_of(c, ProjectLang::TypeScript));
        assert(detection_rank(ProjectLang::Go) < detection_rank(l) ==> !has_marker_of(c, ProjectLang::Go));
    }
    if forall|e: ProjectLang| !#[trigger] has_marker_of(c, e) {
        assert(!has_marker_of(c, ProjectLang::Rust));
        assert(!has_marker_of(c, ProjectLang::Python));
        assert(!has_marker_of(c, ProjectLang::JavaScript));
        assert(!has_marker_of(c, ProjectLang::TypeScript));
        assert(!has_marker_of(c, ProjectLang::Go));
        assert(!has_marker_of(c, ProjectLang::Java));
    }
}

/// Detects the language of code from marker substrings.
pub fn detect_language_from_code(code: &str) -> (r: ProjectLang)
    ensures
        r == detected_language(code@),
{
    if str_contains(code, "fn main()") || str_contains(code, "use std::") || str_contains(
        code,
        "let mut ",
    ) || str_contains(code, "impl ") || str_contains(code, "pub fn ") {
        ProjectLang::Rust
    } else if str_contains(code, "def main():") || str_contains(code, "import ") || str_contains(
        code,
        "from ",
    ) || str_contains(code, "print(") || str_contains(code, "if __name__") {
        ProjectLang::Python
    } else if str_contains(code, "function ") || str_contains(code, "const ") || str_contains(
        code,
        "require(",
    ) || str_contains(code, "module.exports") || str_contains(code, "console.log") {
        ProjectLang::JavaScript
    } else if str_contains(code, "interface ") || str_contains(code, "type ") || str_contains(
        code,
        ": string",
    ) || str_contains(code, ": number") || str_contains(code, "as ") {
        ProjectLang::TypeScript
    } else if str_contains(code, "func main()") || str_contains(code, "package main")
        || str_contains(code, "import \"") || str_contains(code, "fmt.") {
        ProjectLang::Go
    } else if str_contains(code, "public class") || str_contains(code, "System.out")
        || str_contains(code, "public static void") || str_contains(code, "import java.") {
        ProjectLang::Java
    } else {
        ProjectLang::Rust
    }
}

// ---------------------------------------------------------------------------
// Scaffolding
// ---------------------------------------------------------------------------

/// The project (and Java class) name used for a generated project.
pub open spec fn project_name_for(lang: ProjectLang) -> Seq<char> {
    match lang {
        ProjectLang::Java => "Main"@,
        _ => "generated_project"@,
    }
}

/// The name of a generated project: `Main` for Java (the class and file
/// name), `generated_project` otherwise.
pub fn extract_project_name(code: &str, lang: ProjectLang) -> (r: String)
    ensures
        r@ == project_name_for(lang),
{
    match lang {
        ProjectLang::Java => String::from_str("Main"),
        _ => String::from_str("generated_project"),
    }
}

/// One file of a generated project: its path relative to the project
/// directory, and its contents.
#[derive(Debug, Clone)]
pub struct ProjectFile {
    pub path: String,
    pub contents: String,
}

/// Model of a project file.
pub struct ProjectFileModel {
    pub path: Seq<char>,
    pub contents: Seq<char>,
}

impl View for ProjectFile {
    type V = ProjectFileModel;

    open spec fn view(&self) -> ProjectFileModel {
        ProjectFileModel { path: self.path@, contents: self.contents@ }
    }
}

/// Models of project files.
pub open spec fn project_file_views(v: Seq<ProjectFile>) -> Seq<ProjectFileModel> {
    v.map_values(|f: ProjectFile| f@)
}

/// One dependency line of a manifest: `name = "*"`.
pub open spec fn dependency_line(d: Seq<char>) -> Seq<char> {
    d + " = \"*\""@
}

/// The `Cargo.toml` of a generated Rust project for the code.
pub open spec fn cargo_manifest_of(code: Seq<char>) -> Seq<char> {
    "[package]\nname = \""@ + project_name_for(ProjectLang::Rust)
        + "\"\nversion = \"0.1.0\"\nedition = \"2021\"\n\n[dependencies]\n"@ + join_with(
        rust_deps_of(code).map_values(|d: Seq<char>| dependency_line(d)),
        seq!['\n'],
    ) + "\n"@
}

/// The files of a generated project, in the order they are written; the
/// last one holds the code.
pub open spec fn scaffold_of(lang: ProjectLang, code: Seq<char>) -> Seq<ProjectFileModel> {
    match lang {
        ProjectLang::Rust => seq![
            ProjectFileModel { path: "Cargo.toml"@, contents: cargo_manifest_of(code) },
            ProjectFileModel { path: "src/main.rs"@, contents: code },
        ],
        ProjectLang::Python => seq![ProjectFileModel { path: "main.py"@, contents: code }],
        ProjectLang::JavaScript => seq![
            ProjectFileModel {
                path: "package.json"@,
                contents: "{\"name\":\""@ + project_name_for(lang)
                    + "\",\"version\":\"1.0.0\",\"main\":\"index.js\"}"@,
            },
            ProjectFileModel { path: "index.js"@, contents: code },
        ],
        ProjectLang::TypeScript => seq![
            ProjectFileModel { path: "tsconfig.json"@, contents: TSCONFIG@ },
            ProjectFileModel { path: "index.ts"@, contents: code },
        ],
        ProjectLang::Go => seq![
            ProjectFileModel {
                path: "go.mod"@,
                contents: "module "@ + project_name_for(lang) + "\n\ngo 1.21\n"@,
            },
            ProjectFileModel { path: "main.go"@, contents: code },
        ],
        ProjectLang::Java => seq![
            ProjectFileModel { path: project_name_for(lang) + ".java"@, contents: code },
        ],
    }
}

/// Compiler settings of a generated TypeScript project.
pub const TSCONFIG: &'static str = "{\"compilerOptions\":{\"target\":\"es2020\",\"module\":\"commonjs\",\"strict\":true,\"outDir\":\"./dist\"}}";

/// The `Cargo.toml` of a generated Rust project: its dependencies are the
/// crates that the code uses.
pub fn cargo_manifest(code: &str) -> (r: String)
    requires
        code@.len() <= isize::MAX,
    ensures
        r@ == cargo_manifest_of(code@),
{
    let deps = extract_rust_deps(code);
    let mut lines_v: Vec<String> = Vec::new();
    let mut i: usize = 0;
    while i < deps.len()
        invariant
            i <= deps@.len(),
            string_views(lines_v@) == string_views(deps@).take(i as int).map_values(
                |d: Seq<char>| dependency_line(d),
            ),
        decreases deps@.len() - i,
    {
        let ghost before = string_views(lines_v@);
        lines_v.push(concat(deps[i].as_str(), " = \"*\""));
        i = i + 1;
        proof {
            let dv = string_views(deps@);
            assert(dv[i - 1] == deps@[i - 1]@);
            assert(string_views(lines_v@) =~= before.push(dependency_line(dv[i - 1])));
            assert(dv.take(i as int).map_values(|d: Seq<char>| dependency_line(d)) =~= dv.take(
                i - 1,
            ).map_values(|d: Seq<char>| dependency_line(d)).push(dependency_line(dv[i - 1])));
        }
    }
    proof {
        assert(string_views(deps@).take(deps@.len() as int) =~= string_views(deps@));
    }
    let sep = string_from(vec!['\n'].as_slice());
    let body = join(&lines_v, sep.as_str());
    proof {
        assert(sep@ =~= seq!['\n']);
    }
    let head = concat3(
        "[package]\nname = \"",
        "generated_project",
        "\"\nversion = \"0.1.0\"\nedition = \"2021\"\n\n[dependencies]\n",
    );
    concat3(head.as_str(), body.as_str(), "\n")
}

/// The files of a generated project for code in a language, in the order
/// they are written; the last one holds the code.
pub fn scaffold_files(lang: ProjectLang, code: &str) -> (r: Vec<ProjectFile>)
    requires
        code@.len() <= isize::MAX,
    ensures
        project_file_views(r@) == scaffold_of(lang, code@),
        r@.len() >= 1,
{
    let mut files: Vec<ProjectFile> = Vec::new();
    match lang {
        ProjectLang::Rust => {
            files.push(ProjectFile { path: String::from_str("Cargo.toml"), contents: cargo_manifest(code) });
            files.push(ProjectFile { path: String::from_str("src/main.rs"), contents: String::from_str(code) });
        },
        ProjectLang::Python => {
            files.push(ProjectFile { path: String::from_str("main.py"), contents: String::from_str(code) });
        },
        ProjectLang::JavaScript => {
            let manifest = concat3(
                "{\"name\":\"",
                "generated_project",
                "\",\"version\":\"1.0.0\",\"main\":\"index.js\"}",
            );
            files.push(ProjectFile { path: String::from_str("package.json"), contents: manifest });
            files.push(ProjectFile { path: String::from_str("index.js"), contents: String::from_str(code) });
        },
        ProjectLang::TypeScript => {
            files.push(ProjectFile { path: String::from_str("tsconfig.json"), contents: String::from_str(TSCONFIG) });
            files.push(ProjectFile { path: String::from_str("index.ts"), contents: String::from_str(code) });
        },
        ProjectLang::Go => {
            let module = concat3("module ", "generated_project", "\n\ngo 1.21\n");
            files.push(ProjectFile { path: String::from_str("go.mod"), contents: module });
            files.push(ProjectFile { path: String::from_str("main.go"), contents: String::from_str(code) });
        },
        ProjectLang::Java => {
            files.push(ProjectFile { path: concat("Main", ".java"), contents: String::from_str(code) });
        },
    }
    proof {
        assert(project_file_views(files@) =~= scaffold_of(lang, code@));
    }
    files
}

/// The build or check command of a language and its arguments.
pub open spec fn build_command_of(lang: ProjectLang) -> (Seq<char>, Seq<Seq<char>>) {
    match lang {
        ProjectLang::Rust => ("cargo"@, seq!["check"@]),
        ProjectLang::Python => ("python3"@, seq!["-m"@, "py_compile"@, "main.py"@]),
        ProjectLang::JavaScript => ("node"@, seq!["--check"@, "index.js"@]),
        ProjectLang::TypeScript => ("npx"@, seq!["tsc"@, "--noEmit"@]),
        ProjectLang::Go => ("go"@, seq!["build"@, "."@]),
        ProjectLang::Java => ("javac"@, seq!["Main.java"@]),
    }
}

/// The command that builds or checks a generated project, with its arguments.
pub fn build_command(lang: ProjectLang) -> (r: (String, Vec<String>))
    ensures
        (r.0@, string_views(r.1@)) == build_command_of(lang),
{
    let mut args: Vec<String> = Vec::new();
    let cmd = match lang {
        ProjectLang::Rust => {
            args.push(String::from_str("check"));
            String::from_str("cargo")
        },
        ProjectLang::Python => {
            args.push(String::from_str("-m"));
            args.push(String::from_str("py_compile"));
            args.push(String::from_str("main.py"));
            String::from_str("python3")
        },
        ProjectLang::JavaScript => {
            args.push(String::from_str("--check"));
            args.push(String::from_str("index.js"));
            String::from_str("node")
        },
        ProjectLang::TypeScript => {
            args.push(String::from_str("tsc"));
            args.push(String::from_str("--noEmit"));
            String::from_str("npx")
        },
        ProjectLang::Go => {
            args.push(String::from_str("build"));
            args.push(String::from_str("."));
            String::from_str("go")
        },
        ProjectLang::Java => {
            args.push(String::from_str("Main.java"));
            String::from_str("javac")
        },
    };
    proof {
        assert(string_views(args@) =~= build_command_of(lang).1);
    }
    (cmd, args)
}

/// Removes markdown code fences from a model's answer (see the code agent).
pub fn strip_markdown_fences(text: &str) -> (r: String)
    ensures
        r@ == stripped_of_fences(text@),
{
    crate::services::code_agent::strip_markdown_fences(text)
}

// ---------------------------------------------------------------------------
// Dependency extraction
// ---------------------------------------------------------------------------

/// Names that a path can start with but that are no dependency: the
/// standard crates `std`, `core` and `alloc`, and the path keywords `self`,
/// `super` and `crate`.
pub open spec fn is_std_crate(n: Seq<char>) -> bool {
    n == "std"@ || n == "core"@ || n == "alloc"@ || n == "self"@ || n == "super"@ || n == "crate"@
}

/// A plausible crate name: not empty, not one of the names that are no
/// dependency, made of alphanumeric chars and `_`, and starting with a
/// lowercase char.
pub open spec fn is_valid_crate(n: Seq<char>) -> bool {
    &&& n.len() > 0
    &&& !is_std_crate(n)
    &&& forall|i: int| 0 <= i < n.len() ==> char_is_alphanumeric(#[trigger] n[i]) || n[i] == '_'
    &&& char_is_lowercase(n[0])
}

/// Chars that separate words when scanning code for paths.
pub open spec fn is_word_sep(c: char) -> bool {
    !char_is_alphanumeric(c) && c != '_' && c != ':'
}

/// The words of `rest`, the first one continuing `cur`.
pub open spec fn words_from(cur: Seq<char>, rest: Seq<char>) -> Seq<Seq<char>>
    decreases rest.len(),
{
    if rest.len() == 0 {
        seq![cur]
    } else if is_word_sep(rest[0]) {
        seq![cur] + words_from(seq![], rest.drop_first())
    } else {
        words_from(cur.push(rest[0]), rest.drop_first())
    }
}

/// The pieces of a line between word separators (std's `str::split` with a
/// char predicate).
pub open spec fn words_of(s: Seq<char>) -> Seq<Seq<char>> {
    words_from(seq![], s)
}

/// The crate part of a path word: what comes before its first `::`.
pub open spec fn path_head(w: Seq<char>) -> Option<Seq<char>> {
    let i = find_from(w, seq![':', ':'], 0);
    if i < 0 {
        None
    } else {
        Some(w.subrange(0, i))
    }
}

/// The crate named by a `use` line.
pub open spec fn use_crate_name(t: Seq<char>) -> Seq<char> {
    trim_end_char(trim_of(split_on(t.subrange("use "@.len() as int, t.len() as int), seq![':', ':'])[0]), ';')
}

/// Adds a crate name if it is valid and new.
pub open spec fn add_dep(deps: Seq<Seq<char>>, n: Seq<char>) -> Seq<Seq<char>> {
    if is_valid_crate(n) && !deps.contains(n) {
        deps.push(n)
    } else {
        deps
    }
}

/// Adds the crate parts of the path words, in order.
pub open spec fn add_word_deps(deps: Seq<Seq<char>>, words: Seq<Seq<char>>) -> Seq<Seq<char>>
    decreases words.len(),
{
    if words.len() == 0 {
        deps
    } else {
        let d = add_word_deps(deps, words.drop_last());
        match path_head(words.last()) {
            Some(h) => add_dep(d, h),
            None => d,
        }
    }
}

/// The state of the dependency scan: crates found so far, whether a
/// multi-line `use { ... }` block is open, and its brace depth.
pub struct DepsState {
    pub deps: Seq<Seq<char>>,
    pub in_block: bool,
    pub depth: int,
}

/// The effect of one line on the dependency scan.
pub open spec fn deps_line(st: DepsState, line: Seq<char>) -> DepsState {
    let t = trim_of(line);
    let delta = count_char(t, '{') as int - count_char(t, '}') as int;
    if is_prefix("use "@, t) {
        DepsState { deps: add_dep(st.deps, use_crate_name(t)), in_block: delta > 0, depth: delta }
    } else if st.in_block {
        DepsState { deps: st.deps, in_block: st.depth + delta > 0, depth: st.depth + delta }
    } else {
        DepsState { deps: add_word_deps(st.deps, words_of(t)), in_block: false, depth: st.depth }
    }
}

/// The dependency scan after the first `k` lines.
pub open spec fn deps_lines(ls: Seq<Seq<char>>, k: int) -> DepsState
    decreases k,
{
    if k <= 0 {
        DepsState { deps: seq![], in_block: false, depth: 0 }
    } else {
        deps_line(deps_lines(ls, k - 1), ls[k - 1])
    }
}

/// The crates that Rust code uses, in order of first use, with `_` written
/// as `-`: crates of `use` lines (skipping the inside of multi-line `use`
/// blocks) and crate parts of `crate::path` words on other lines.
pub open spec fn rust_deps_of(code: Seq<char>) -> Seq<Seq<char>> {
    deps_lines(lines_of(code), lines_of(code).len() as int).deps.map_values(
        |d: Seq<char>| replace_char(d, '_', "-"@),
    )
}

fn is_std_crate_exec(n: &str) -> (r: bool)
    ensures
        r == is_std_crate(n@),
{
    str_eq(n, "std") || str_eq(n, "core") || str_eq(n, "alloc") || str_eq(n, "self") || str_eq(
        n,
        "super",
    ) || str_eq(n, "crate")
}

fn is_valid_crate_exec(n: &[char]) -> (r: bool)
    ensures
        r == is_valid_crate(n@),
{
    if n.len() == 0 {
        return false;
    }
    let s = string_from(n);
    if is_std_crate_exec(s.as_str()) {
        return false;
    }
    let mut i: usize = 0;
    while i < n.len()
        invariant
            i <= n@.len(),
            forall|j: int| 0 <= j < i ==> char_is_alphanumeric(#[trigger] n@[j]) || n@[j] == '_',
        decreases n@.len() - i,
    {
        if !(is_alphanumeric(n[i]) || n[i] == '_') {
            return false;
        }
        i = i + 1;
    }
    is_lowercase(n[0])
}

fn add_dep_exec(deps: &mut Vec<String>, n: &[char])
    ensures
        string_views(final(deps)@) == add_dep(string_views(old(deps)@), n@),
{
    if is_valid_crate_exec(n) && !contains_string(deps, n) {
        let ghost before = string_views(deps@);
        deps.push(string_from(n));
        proof {
            assert(string_views(deps@) =~= before.push(n@));
        }
    }
}

fn words_exec(s: &[char]) -> (r: Vec<Vec<char>>)
    ensures
        seq_views(r@) == words_of(s@),
{
    let mut out: Vec<Vec<char>> = Vec::new();
    let mut cur: Vec<char> = Vec::new();
    let mut i: usize = 0;
    proof {
        assert(s@.subrange(0, s@.len() as int) =~= s@);
        assert(seq_views(out@) + words_from(cur@, s@) =~= words_of(s@));
    }
    while i < s.len()
        invariant
            i <= s@.len(),
            seq_views(out@) + words_from(cur@, s@.subrange(i as int, s@.len() as int)) == words_of(s@),
        decreases s@.len() - i,
    {
        let ghost rest = s@.subrange(i as int, s@.len() as int);
        proof {
            assert(rest[0] == s@[i as int]);
            assert(rest.drop_first() =~= s@.subrange(i + 1, s@.len() as int));
        }
        let c = s[i];
        if !is_alphanumeric(c) && c != '_' && c != ':' {
            let ghost before = seq_views(out@);
            let ghost cv = cur@;
            out.push(cur);
            cur = Vec::new();
            proof {
                assert(seq_views(out@) =~= before.push(cv));
                assert(before + (seq![cv] + words_from(seq![], rest.drop_first())) =~= seq_views(out@)
                    + words_from(cur@, rest.drop_first()));
            }
        } else {
            cur.push(c);
        }
        i = i + 1;
    }
    proof {
        assert(s@.subrange(i as int, s@.len() as int) =~= Seq::<char>::empty());
    }
    let ghost before = seq_views(out@);
    let ghost cv = cur@;
    out.push(cur);
    proof {
        assert(seq_views(out@) =~= before + seq![cv]);
    }
    out
}

fn add_word_deps_exec(deps: &mut Vec<String>, t: &[char])
    ensures
        string_views(final(deps)@) == add_word_deps(string_views(old(deps)@), words_of(t@)),
{
    let words = words_exec(t);
    let ghost ws = seq_views(words@);
    let ghost d0 = string_views(deps@);
    let sep = vec![':', ':'];
    proof {
        assert(sep@ =~= seq![':', ':']);
        assert(ws.take(0) =~= Seq::<Seq<char>>::empty());
    }
    let mut i: usize = 0;
    while i < words.len()
        invariant
            sep@ == seq![':', ':'],
            ws == seq_views(words@),
            i <= words@.len(),
            string_views(deps@) == add_word_deps(d0, ws.take(i as int)),
        decreases words@.len() - i,
    {
        proof {
            assert(ws[i as int] == words@[i as int]@);
            assert(ws.take(i + 1).drop_last() =~= ws.take(i as int));
            assert(ws.take(i + 1).last() == ws[i as int]);
        }
        let w = &words[i];
        match find_exec(w.as_slice(), sep.as_slice(), 0) {
            Some(k) => {
                proof {
                    crate::text::lemma_find_from_range(w@, sep@, 0);
                }
                let head = copy_range(w.as_slice(), 0, k);
                add_dep_exec(deps, head.as_slice());
            },
            None => {},
        }
        i = i + 1;
    }
    proof {
        assert(ws.take(words@.len() as int) =~= ws);
    }
}

fn use_crate_name_exec(t: &[char]) -> (r: Vec<char>)
    requires
        is_prefix("use "@, t@),
    ensures
        r@ == use_crate_name(t@),
{
    let prefix = to_chars("use ");
    let rest = copy_range(t, prefix.len(), t.len());
    let sep = vec![':', ':'];
    proof {
        assert(sep@ =~= seq![':', ':']);
    }
    let first = match find_exec(rest.as_slice(), sep.as_slice(), 0) {
        Some(k) => {
            proof {
                crate::text::lemma_find_from_range(rest@, sep@, 0);
            }
            copy_range(rest.as_slice(), 0, k)
        },
        None => copy_range(rest.as_slice(), 0, rest.len()),
    };
    proof {
        assert(rest@.subrange(0, rest@.len() as int) =~= rest@);
        assert(first@ == split_on(rest@, seq![':', ':'])[0]);
    }
    let trimmed = trim_chars(first.as_slice());
    trim_end_char_exec(trimmed.as_slice(), ';')
}

/// The crates that Rust code uses, in order of first use, with `_` written
/// as `-`: the crate of each `use` line (the inside of a multi-line
/// `use { ... }` block is skipped) and the crate part of each `crate::path`
/// word on other lines; `std`, `core`, `alloc`, `self`, `super`, `crate`
/// and names that do not look like crates are left out.
pub fn extract_rust_deps(code: &str) -> (r: Vec<String>)
    requires
        code@.len() <= isize::MAX,
    ensures
        string_views(r@) == rust_deps_of(code@),
{
    let ls = lines(code);
    let ghost lv = seq_views(ls@);
    proof {
        lemma_lines_bounds(code@);
    }
    let use_kw = to_chars("use ");
    let mut deps: Vec<String> = Vec::new();
    let mut in_block = false;
    let mut depth: i128 = 0;
    let mut i: usize = 0;
    proof {
        assert(string_views(deps@) =~= Seq::<Seq<char>>::empty());
    }
    while i < ls.len()
        invariant
            lv == seq_views(ls@),
            lv == lines_of(code@),
            lv.len() <= code@.len() + 1,
            code@.len() <= isize::MAX,
            forall|k: int| 0 <= k < lv.len() ==> (#[trigger] lv[k]).len() <= code@.len(),
            use_kw@ == "use "@,
            i <= ls@.len(),
            -(i as int) * (isize::MAX as int) <= depth <= (i as int) * (isize::MAX as int),
            string_views(deps@) == deps_lines(lv, i as int).deps,
            in_block == deps_lines(lv, i as int).in_block,
            depth as int == deps_lines(lv, i as int).depth,
        decreases ls@.len() - i,
    {
        proof {
            assert(lv[i as int] == ls@[i as int]@);
        }
        let t = trim_chars(ls[i].as_slice());
        let opens = count_char_exec(t.as_slice(), '{');
        let closes = count_char_exec(t.as_slice(), '}');
        proof {
            lemma_trim_len(lv[i as int]);
            lemma_count_char_le(t@, '{');
            lemma_count_char_le(t@, '}');
            assert(i < lv.len());
            let ghost m = isize::MAX as int;
            assert((i as int) * m + m == (i as int + 1) * m) by (nonlinear_arith);
            assert((i as int + 1) * m <= (m + 1) * m) by (nonlinear_arith)
                requires
                    i as int + 1 <= m + 1,
                    m >= 0,
            ;
            assert((m + 1) * m <= 0x8000_0000_0000_0000 * 0x7fff_ffff_ffff_ffff) by (nonlinear_arith)
                requires
                    0 <= m <= 0x7fff_ffff_ffff_ffff,
            ;
        }
        let delta: i128 = opens as i128 - closes as i128;
        if starts_with(t.as_slice(), use_kw.as_slice()) {
            let name = use_crate_name_exec(t.as_slice());
            add_dep_exec(&mut deps, name.as_slice());
            depth = delta;
            in_block = depth > 0;
        } else if in_block {
            depth = depth + delta;
            if depth <= 0 {
                in_block = false;
            }
        } else {
            add_word_deps_exec(&mut deps, t.as_slice());
        }
        i = i + 1;
    }
    proof {
        assert(lv.len() == ls@.len());
    }
    let ghost raw = string_views(deps@);
    let dash = to_chars("-");
    let mut out: Vec<String> = Vec::new();
    let mut j: usize = 0;
    while j < deps.len()
        invariant
            raw == string_views(deps@),
            dash@ == "-"@,
            j <= deps@.len(),
            string_views(out@) == raw.take(j as int).map_values(|d: Seq<char>| replace_char(d, '_', "-"@)),
        decreases deps@.len() - j,
    {
        let ghost before = string_views(out@);
        let d = to_chars(deps[j].as_str());
        let replaced = replace_char_exec(d.as_slice(), '_', dash.as_slice());
        out.push(string_from(replaced.as_slice()));
        j = j + 1;
        proof {
            assert(raw[j - 1] == deps@[j - 1]@);
            assert(string_views(out@) =~= before.push(replace_char(raw[j - 1], '_', "-"@)));
            assert(raw.take(j as int).map_values(|d: Seq<char>| replace_char(d, '_', "-"@))
                =~= raw.take(j - 1).map_values(|d: Seq<char>| replace_char(d, '_', "-"@)).push(
                replace_char(raw[j - 1], '_', "-"@),
            ));
        }
    }
    proof {
        assert(raw.take(deps@.len() as int) =~= raw);
    }
    out
}

// ---------------------------------------------------------------------------
// Build and repair loop
// ---------------------------------------------------------------------------

/// The request that asks the extraction model for one source file.
pub fn project_extraction_prompt(llm_response: &str) -> (r: String)
    ensures
        r@ == "Extract the clean, runnable code from this text. Output a single file with all code combined:\n\n"@
            + llm_response@,
{
    concat(
        "Extract the clean, runnable code from this text. Output a single file with all code combined:\n\n",
        llm_response,
    )
}

/// Code that holds nothing to build: empty after trimming, or the no-code marker.
pub open spec fn is_missing_code(code: Seq<char>) -> bool {
    trim_of(code).len() == 0 || trim_of(code) == crate::services::code_agent::NO_CODE_MARKER@
}

/// Whether extracted code holds nothing to build.
pub fn no_code_found(code: &str) -> (r: bool)
    ensures
        r == is_missing_code(code@),
{
    !crate::services::code_agent::should_save_code(code)
}

/// What a build reported.
#[derive(Debug, Clone)]
pub enum BuildOutcome {
    Succeeded,
    /// The build failed with this output on standard error.
    Failed(String),
}

/// What the loop does next.
#[derive(Debug, Clone)]
pub enum BuildStep {
    /// The project builds.
    Done,
    /// The repair rounds are used up; the project stays as it is.
    GiveUp,
    /// Ask the repair model with this request.
    Repair(String),
}

/// The repair request for code that failed to build with the errors: the
/// code, then the errors, then the instruction to output only the corrected
/// code. The language does not enter it.
pub open spec fn fix_prompt_of(lang: ProjectLang, errors: Seq<char>, code: Seq<char>) -> Seq<char> {
    "\nThe following code has build errors. Fix them.\n\nCode:\n"@ + code + "\n\nBuild errors:\n"@
        + errors + "\n\nOutput ONLY the corrected source code.\n"@
}

/// The repair request for code that failed to build with the errors.
pub fn fix_prompt(lang: ProjectLang, errors: &str, code: &str) -> (r: String)
    ensures
        r@ == fix_prompt_of(lang, errors@, code@),
{
    let a = concat3("\nThe following code has build errors. Fix them.\n\nCode:\n", code, "\n\nBuild errors:\n");
    concat3(a.as_str(), errors, "\n\nOutput ONLY the corrected source code.\n")
}

/// Whether the loop asks for a repair after build number `attempt`
/// (counted from 1): whenever one of the `MAX_FIX_ATTEMPTS` builds failed.
pub open spec fn asks_repair(attempt: int, failed: bool) -> bool {
    failed && attempt <= MAX_FIX_ATTEMPTS
}

/// Whether the repaired code of round `attempt` is built again: only while
/// builds are left, so the code of the last repair is kept unbuilt.
pub open spec fn builds_again_of(attempt: int) -> bool {
    attempt < MAX_FIX_ATTEMPTS
}

/// The next step after build number `attempt` (counted from 1): stop when it
/// succeeded, ask for a repair of the current code when it failed, and give
/// up on a failure past the last round.
pub fn next_build_step(attempt: usize, lang: ProjectLang, current_code: &str, outcome: &BuildOutcome) -> (r:
    BuildStep)
    ensures
        (r is Repair) == asks_repair(attempt as int, outcome is Failed),
        outcome is Succeeded ==> r is Done,
        outcome matches BuildOutcome::Failed(e) ==> (if attempt > MAX_FIX_ATTEMPTS {
            r is GiveUp
        } else {
            r matches BuildStep::Repair(p) && p@ == fix_prompt_of(lang, e@, current_code@)
        }),
{
    match outcome {
        BuildOutcome::Succeeded => BuildStep::Done,
        BuildOutcome::Failed(errors) => {
            if attempt > MAX_FIX_ATTEMPTS {
                BuildStep::GiveUp
            } else {
                BuildStep::Repair(fix_prompt(lang, errors.as_str(), current_code))
            }
        },
    }
}

/// Whether the code that the repair after build number `attempt` wrote is
/// built again.
pub fn builds_again(attempt: usize) -> (r: bool)
    ensures
        r == builds_again_of(attempt as int),
{
    attempt < MAX_FIX_ATTEMPTS
}

/// How many builds the loop makes from build number `attempt` on, when the
/// builds fail as `failures` says: one more after each repair that is built
/// again, none after the loop stops.
pub open spec fn builds_made(failures: Seq<bool>, attempt: int) -> nat
    decreases failures.len(),
{
    if failures.len() == 0 {
        0
    } else if asks_repair(attempt, failures[0]) && builds_again_of(attempt) {
        1 + builds_made(failures.drop_first(), attempt + 1)
    } else {
        1
    }
}

/// How many repairs the loop asks for from build number `attempt` on, when
/// the builds fail as `failures` says.
pub open spec fn repairs_made(failures: Seq<bool>, attempt: int) -> nat
    decreases failures.len(),
{
    if failures.len() == 0 || !asks_repair(attempt, failures[0]) {
        0
    } else if builds_again_of(attempt) {
        1 + repairs_made(failures.drop_first(), attempt + 1)
    } else {
        1
    }
}

proof fn lemma_rounds_from(failures: Seq<bool>, attempt: int)
    requires
        1 <= attempt <= MAX_FIX_ATTEMPTS,
    ensures
        builds_made(failures, attempt) <= MAX_FIX_ATTEMPTS + 1 - attempt,
        repairs_made(failures, attempt) <= MAX_FIX_ATTEMPTS + 1 - attempt,
        repairs_made(failures, attempt) <= builds_made(failures, attempt),
        (forall|i: int| 0 <= i < failures.len() ==> #[trigger] failures[i]) && failures.len()
            >= MAX_FIX_ATTEMPTS + 1 - attempt ==> builds_made(failures, attempt) == MAX_FIX_ATTEMPTS
            + 1 - attempt && repairs_made(failures, attempt) == MAX_FIX_ATTEMPTS + 1 - attempt,
    decreases failures.len(),
{
    if failures.len() > 0 && asks_repair(attempt, failures[0]) && builds_again_of(attempt) {
        lemma_rounds_from(failures.drop_first(), attempt + 1);
        if forall|i: int| 0 <= i < failures.len() ==> #[trigger] failures[i] {
            assert forall|i: int| 0 <= i < failures.drop_first().len() implies #[trigger] failures.drop_first()[i] by {
                assert(failures[i + 1]);
            }
        }
    }
}

/// Law of the build loop: whatever the builds report, the loop builds at
/// most `MAX_FIX_ATTEMPTS` times and asks for at most `MAX_FIX_ATTEMPTS`
/// repairs, each after a failed build; when every build fails, it builds
/// and repairs exactly `MAX_FIX_ATTEMPTS` times.
pub proof fn lemma_build_loop_bounded(failures: Seq<bool>)
    ensures
        builds_made(failures, 1) <= MAX_FIX_ATTEMPTS,
        repairs_made(failures, 1) <= MAX_FIX_ATTEMPTS,
        repairs_made(failures, 1) <= builds_made(failures, 1),
        (forall|i: int| 0 <= i < failures.len() ==> #[trigger] failures[i]) && failures.len()
            >= MAX_FIX_ATTEMPTS ==> builds_made(failures, 1) == MAX_FIX_ATTEMPTS && repairs_made(
            failures,
            1,
        ) == MAX_FIX_ATTEMPTS,
{
    lemma_rounds_from(failures, 1);
}

/// The first ten lines of the build errors, indented for display.
pub open spec fn error_preview_of(errors: Seq<char>) -> Seq<char> {
    let ls = lines_of(errors);
    let first = if ls.len() <= 10 {
        ls
    } else {
        ls.take(10)
    };
    replace_char(join_with(first, seq!['\n']), '\n', "\n  "@)
}

/// The first ten lines of the build errors, indented for display.
pub fn error_preview(errors: &str) -> (r: String)
    ensures
        r@ == error_preview_of(errors@),
{
    let ls = lines(errors);
    let ghost lv = seq_views(ls@);
    let mut first: Vec<String> = Vec::new();
    let mut i: usize = 0;
    while i < ls.len() && i < 10
        invariant
            lv == seq_views(ls@),
            i <= ls@.len(),
            i <= 10,
            string_views(first@) == lv.take(i as int),
        decreases 10 - i,
    {
        let ghost before = string_views(first@);
        first.push(string_from(ls[i].as_slice()));
        i = i + 1;
        proof {
            assert(lv[i - 1] == ls@[i - 1]@);
            assert(string_views(first@) =~= before.push(lv[i - 1]));
            assert(lv.take(i as int) =~= lv.take(i - 1).push(lv[i - 1]));
        }
    }
    proof {
        if ls@.len() <= 10 {
            assert(lv =~= lv.take(i as int));
        } else {
            assert(i == 10);
        }
        assert(lv == lines_of(errors@));
        assert(string_views(first@) == (if lv.len() <= 10 {
            lv
        } else {
            lv.take(10)
        }));
    }
    let nl = string_from(vec!['\n'].as_slice());
    let joined = join(&first, nl.as_str());
    let jc = to_chars(joined.as_str());
    let indent = to_chars("\n  ");
    let replaced = replace_char_exec(jc.as_slice(), '\n', indent.as_slice());
    proof {
        assert(nl@ =~= seq!['\n']);
        assert(joined@ == join_with(string_views(first@), seq!['\n']));
        assert(jc@ == joined@);
    }
    string_from(replaced.as_slice())
}

/// Crate names each listed once, each a plausible crate name.
pub open spec fn deps_sound(d: Seq<Seq<char>>) -> bool {
    d.no_duplicates() && forall|i: int| 0 <= i < d.len() ==> #[trigger] is_valid_crate(d[i])
}

proof fn lemma_add_dep_sound(d: Seq<Seq<char>>, n: Seq<char>)
    requires
        deps_sound(d),
    ensures
        deps_sound(add_dep(d, n)),
{
    if is_valid_crate(n) && !d.contains(n) {
        let e = d.push(n);
        assert forall|i: int, j: int| 0 <= i < e.len() && 0 <= j < e.len() && i != j implies e[i]
            != e[j] by {
            if i == d.len() as int {
                assert(d[j] == e[j]);
            } else if j == d.len() as int {
                assert(d[i] == e[i]);
            }
        }
        assert forall|i: int| 0 <= i < e.len() implies #[trigger] is_valid_crate(e[i]) by {
            if i < d.len() {
                assert(e[i] == d[i]);
            }
        }
    }
}

proof fn lemma_add_word_deps_sound(d: Seq<Seq<char>>, words: Seq<Seq<char>>)
    requires
        deps_sound(d),
    ensures
        deps_sound(add_word_deps(d, words)),
    decreases words.len(),
{
    if words.len() > 0 {
        lemma_add_word_deps_sound(d, words.drop_last());
        match path_head(words.last()) {
            Some(h) => lemma_add_dep_sound(add_word_deps(d, words.drop_last()), h),
            None => {},
        }
    }
}

proof fn lemma_deps_lines_sound(ls: Seq<Seq<char>>, k: int)
    ensures
        deps_sound(deps_lines(ls, k).deps),
    decreases k,
{
    if k > 0 {
        lemma_deps_lines_sound(ls, k - 1);
        let st = deps_lines(ls, k - 1);
        let t = trim_of(ls[k - 1]);
        if is_prefix("use "@, t) {
            lemma_add_dep_sound(st.deps, use_crate_name(t));
        } else if !st.in_block {
            lemma_add_word_deps_sound(st.deps, words_of(t));
        }
    }
}

/// Law of dependency extraction: the crates found in Rust code are each
/// listed once, and each is a plausible crate name (not `std`, `core`,
/// `alloc`, `self`, `super` or `crate`, lowercase first); the dependencies are these names with
/// `_` written as `-`.
pub proof fn lemma_rust_deps_sound(code: Seq<char>)
    ensures
        deps_sound(deps_lines(lines_of(code), lines_of(code).len() as int).deps),
        rust_deps_of(code) == deps_lines(lines_of(code), lines_of(code).len() as int).deps.map_values(
            |d: Seq<char>| replace_char(d, '_', "-"@),
        ),
{
    lemma_deps_lines_sound(lines_of(code), lines_of(code).len() as int);
}

} // verus!
