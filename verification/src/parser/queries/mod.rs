//! Per-language syntax-tree queries naming the captures that the entity
//! extractor reads (`*.name`, `*.def`, `call.*`, `import.*`, ...).
use vstd::prelude::*;

use super::CodeLanguage;

pub mod c_cpp;
pub mod go;
pub mod java;
pub mod javascript;
pub mod python;
pub mod rust;
pub mod typescript;

verus! {

/// The query text used for a language.
pub open spec fn query_text(lang: CodeLanguage) -> &'static str {
    match lang {
        CodeLanguage::Rust => rust::QUERY,
        CodeLanguage::Python => python::QUERY,
        CodeLanguage::JavaScript => javascript::QUERY,
        CodeLanguage::TypeScript => typescript::QUERY,
        CodeLanguage::Java => java::QUERY,
        CodeLanguage::Go => go::QUERY,
        CodeLanguage::C => c_cpp::C_QUERY,
        CodeLanguage::Cpp => c_cpp::CPP_QUERY,
    }
}

/// The syntax-tree query for a language; C and C++ have queries of their own.
pub fn get_query_for_language(lang: CodeLanguage) -> (r: &'static str)
    ensures
        r == query_text(lang),
{
    match lang {
        CodeLanguage::Rust => rust::QUERY,
        CodeLanguage::Python => python::QUERY,
        CodeLanguage::JavaScript => javascript::QUERY,
        CodeLanguage::TypeScript => typescript::QUERY,
        CodeLanguage::Java => java::QUERY,
        CodeLanguage::Go => go::QUERY,
        CodeLanguage::C => c_cpp::C_QUERY,
        CodeLanguage::Cpp => c_cpp::CPP_QUERY,
    }
}

} // verus!
