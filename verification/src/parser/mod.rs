//! Source-language detection and syntax-tree based code entity extraction.
use vstd::prelude::*;

use crate::path::{extension_of, path_extension, plain_path};
use crate::text::{contains_seq, lowercase, to_lowercase, str_eq};

pub mod entity;
pub mod queries;
pub mod tree_sitter_parser;

verus! {

/// Programming languages whose source files are parsed into entities.
#[derive(Debug, Clone, Copy, PartialEq, Eq, Structural)]
pub enum CodeLanguage {
    Rust,
    Python,
    JavaScript,
    TypeScript,
    Java,
    Go,
    C,
    Cpp,
}

/// Display text of a language.
pub open spec fn language_text(l: CodeLanguage) -> Seq<char> {
    match l {
        CodeLanguage::Rust => "rust"@,
        CodeLanguage::Python => "python"@,
        CodeLanguage::JavaScript => "javascript"@,
        CodeLanguage::TypeScript => "typescript"@,
        CodeLanguage::Java => "java"@,
        CodeLanguage::Go => "go"@,
        CodeLanguage::C => "c"@,
        CodeLanguage::Cpp => "cpp"@,
    }
}

impl CodeLanguage {
    /// The lower-case display text of the language (`rust`, `cpp`, ...).
    pub fn as_str(&self) -> (r: &'static str)
        ensures
            r@ == language_text(*self),
    {
        match self {
            CodeLanguage::Rust => "rust",
            CodeLanguage::Python => "python",
            CodeLanguage::JavaScript => "javascript",
            CodeLanguage::TypeScript => "typescript",
            CodeLanguage::Java => "java",
            CodeLanguage::Go => "go",
            CodeLanguage::C => "c",
            CodeLanguage::Cpp => "cpp",
        }
    }
}

/// The language of a lower-case file extension.
pub open spec fn language_of_extension(e: Seq<char>) -> Option<CodeLanguage> {
    if e == "rs"@ {
        Some(CodeLanguage::Rust)
    } else if e == "py"@ {
        Some(CodeLanguage::Python)
    } else if e == "js"@ || e == "mjs"@ || e == "cjs"@ || e == "jsx"@ {
        Some(CodeLanguage::JavaScript)
    } else if e == "ts"@ || e == "tsx"@ {
        Some(CodeLanguage::TypeScript)
    } else if e == "java"@ {
        Some(CodeLanguage::Java)
    } else if e == "go"@ {
        Some(CodeLanguage::Go)
    } else if e == "c"@ || e == "h"@ {
        Some(CodeLanguage::C)
    } else if e == "cpp"@ || e == "cc"@ || e == "cxx"@ || e == "hpp"@ || e == "hxx"@ {
        Some(CodeLanguage::Cpp)
    } else {
        None
    }
}

/// The lower-case file extensions of each language's source files.
pub open spec fn source_extensions(l: CodeLanguage) -> Seq<Seq<char>> {
    match l {
        CodeLanguage::Rust => seq!["rs"@],
        CodeLanguage::Python => seq!["py"@],
        CodeLanguage::JavaScript => seq!["js"@, "mjs"@, "cjs"@, "jsx"@],
        CodeLanguage::TypeScript => seq!["ts"@, "tsx"@],
        CodeLanguage::Java => seq!["java"@],
        CodeLanguage::Go => seq!["go"@],
        CodeLanguage::C => seq!["c"@, "h"@],
        CodeLanguage::Cpp => seq!["cpp"@, "cc"@, "cxx"@, "hpp"@, "hxx"@],
    }
}

/// Law of the extension table: each extension of a language's source files
/// gives that language, and an extension gives a language only when it is
/// one of that language's source extensions.
pub proof fn lemma_extension_table(l: CodeLanguage, e: Seq<char>)
    ensures
        source_extensions(l).contains(e) ==> language_of_extension(e) == Some(l),
        language_of_extension(e) == Some(l) ==> source_extensions(l).contains(e),
{
    reveal_strlit("rs");
    reveal_strlit("py");
    reveal_strlit("js");
    reveal_strlit("mjs");
    reveal_strlit("cjs");
    reveal_strlit("jsx");
    reveal_strlit("ts");
    reveal_strlit("tsx");
    reveal_strlit("java");
    reveal_strlit("go");
    reveal_strlit("c");
    reveal_strlit("h");
    reveal_strlit("cpp");
    reveal_strlit("cc");
    reveal_strlit("cxx");
    reveal_strlit("hpp");
    reveal_strlit("hxx");
    if source_extensions(l).contains(e) {
        let ex = source_extensions(l);
        let i = choose|i: int| 0 <= i < ex.len() && ex[i] == e;
        if i == 0 {
            assert(e == ex[0]);
        } else if i == 1 {
            assert(e == ex[1]);
        } else if i == 2 {
            assert(e == ex[2]);
        } else if i == 3 {
            assert(e == ex[3]);
        } else {
            assert(e == ex[4]);
        }
        assert(e.len() == 1 ==> e[0] == 'c' || e[0] == 'h');
        assert(e.len() >= 2 ==> e[0] == ex[i][0] && e[1] == ex[i][1]);
    }
    if language_of_extension(e) == Some(l) {
        assert(source_extensions(l).contains(e)) by {
            let ex = source_extensions(l);
            if e == "rs"@ { assert(ex[0] == e); }
            else if e == "py"@ { assert(ex[0] == e); }
            else if e == "js"@ { assert(ex[0] == e); }
            else if e == "mjs"@ { assert(ex[1] == e); }
            else if e == "cjs"@ { assert(ex[2] == e); }
            else if e == "jsx"@ { assert(ex[3] == e); }
            else if e == "ts"@ { assert(ex[0] == e); }
            else if e == "tsx"@ { assert(ex[1] == e); }
            else if e == "java"@ { assert(ex[0] == e); }
            else if e == "go"@ { assert(ex[0] == e); }
            else if e == "c"@ { assert(ex[0] == e); }
            else if e == "h"@ { assert(ex[1] == e); }
            else if e == "cpp"@ { assert(ex[0] == e); }
            else if e == "cc"@ { assert(ex[1] == e); }
            else if e == "cxx"@ { assert(ex[2] == e); }
            else if e == "hpp"@ { assert(ex[3] == e); }
            else if e == "hxx"@ { assert(ex[4] == e); }
        }
    }
}

/// The language of a file extension, compared after lowercasing it.
pub fn language_for_extension(ext: &str) -> (r: Option<CodeLanguage>)
    ensures
        r == language_of_extension(lowercase(ext@)),
{
    let low = to_lowercase(ext);
    let e = low.as_str();
    if str_eq(e, "rs") {
        Some(CodeLanguage::Rust)
    } else if str_eq(e, "py") {
        Some(CodeLanguage::Python)
    } else if str_eq(e, "js") || str_eq(e, "mjs") || str_eq(e, "cjs") || str_eq(e, "jsx") {
        Some(CodeLanguage::JavaScript)
    } else if str_eq(e, "ts") || str_eq(e, "tsx") {
        Some(CodeLanguage::TypeScript)
    } else if str_eq(e, "java") {
        Some(CodeLanguage::Java)
    } else if str_eq(e, "go") {
        Some(CodeLanguage::Go)
    } else if str_eq(e, "c") || str_eq(e, "h") {
        Some(CodeLanguage::C)
    } else if str_eq(e, "cpp") || str_eq(e, "cc") || str_eq(e, "cxx") || str_eq(e, "hpp")
        || str_eq(e, "hxx") {
        Some(CodeLanguage::Cpp)
    } else {
        None
    }
}

/// The language of a source file, from its extension.
///
/// A path without a dot has no language; otherwise the language is the one
/// of the (lower-cased) extension that the platform reads off the path.
pub fn detect_language(file_path: &str) -> (r: Option<CodeLanguage>)
    ensures
        plain_path(file_path@) ==> r == match extension_of(file_path@) {
            Some(e) => language_of_extension(lowercase(e)),
            None => None,
        },
        !file_path@.contains('.') ==> r is None,
        r is Some ==> exists|e: Seq<char>|
            contains_seq(file_path@, seq!['.'] + e) && r == language_of_extension(
                #[trigger] lowercase(e),
            ),
{
    match path_extension(file_path) {
        Some(ext) => language_for_extension(ext.as_str()),
        None => None,
    }
}

} // verus!
