//! The languages that the editor tells apart, and how a file's name decides
//! between them.

use crate::strings::{ascii_lowercase, lowercase_is};
use std::path::PathBuf;
use vstd::prelude::*;

verus! {

#[verifier::external_type_specification]
#[verifier::external_body]
pub struct ExPathBuf(std::path::PathBuf);

/// The language of a document.
#[derive(Debug, Clone, Copy, PartialEq, Eq, Structural)]
pub enum LanguageId {
    Cpp,
    Python,
    Hlsl,
    Markdown,
    PlainText,
}

/// The language that files with the extension `ext` are written in, upper
/// and lower case taken alike.
pub open spec fn language_of_extension(ext: Seq<char>) -> LanguageId {
    let ext = ascii_lowercase(ext);
    if ext == "cc"@ || ext == "cpp"@ || ext == "cxx"@ || ext == "h"@ || ext == "hpp"@ || ext
        == "hh"@ {
        LanguageId::Cpp
    } else if ext == "py"@ {
        LanguageId::Python
    } else if ext == "hlsl"@ || ext == "hlsli"@ || ext == "fx"@ {
        LanguageId::Hlsl
    } else if ext == "md"@ || ext == "markdown"@ {
        LanguageId::Markdown
    } else {
        LanguageId::PlainText
    }
}

/// `Path::extension` and `OsStr::to_str`: the part of the file name behind its last
/// dot, where the path has a file name with such a part and that part is
/// valid Unicode. How a path divides into its parts depends on the platform.
#[verifier::external_body]
fn path_extension(path: &PathBuf) -> (ext: Option<String>) {
    path.extension().and_then(|ext| ext.to_str()).map(|ext| ext.to_string())
}

/// `PathBuf::clone`.
#[verifier::external_body]
pub(crate) fn path_clone(path: &PathBuf) -> (copy: PathBuf)
    ensures
        copy == *path,
{
    path.clone()
}

impl LanguageId {
    /// Whether a grammar exists for this language.
    pub open spec fn has_grammar(self) -> bool {
        self == LanguageId::Cpp || self == LanguageId::Python || self == LanguageId::Hlsl
    }

    /// The language of files with the extension `ext`.
    pub fn from_extension(ext: &str) -> (language: Self)
        ensures
            language == language_of_extension(ext@),
    {
        if lowercase_is(ext, "cc") || lowercase_is(ext, "cpp") || lowercase_is(ext, "cxx")
            || lowercase_is(ext, "h") || lowercase_is(ext, "hpp") || lowercase_is(ext, "hh") {
            Self::Cpp
        } else if lowercase_is(ext, "py") {
            Self::Python
        } else if lowercase_is(ext, "hlsl") || lowercase_is(ext, "hlsli") || lowercase_is(
            ext,
            "fx",
        ) {
            Self::Hlsl
        } else if lowercase_is(ext, "md") || lowercase_is(ext, "markdown") {
            Self::Markdown
        } else {
            Self::PlainText
        }
    }

    /// The language of the file at `path`, told by the extension of its
    /// name. Without a path or without an extension it is plain text.
    pub fn from_path(path: Option<&PathBuf>) -> (language: Self)
        ensures
            path is None ==> language == LanguageId::PlainText,
    {
        match path {
            None => Self::PlainText,
            Some(path) => match path_extension(path) {
                None => Self::PlainText,
                Some(ext) => Self::from_extension(ext.as_str()),
            },
        }
    }
}

} // verus!
