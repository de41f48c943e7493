//! A document: an editor with the path and the encoding of the file that its
//! text belongs to. Reading and writing the file is left to the caller, who
//! hands in the bytes that were read and takes the bytes to write.

use crate::editor::Editor;
use crate::encoding::{
    decode_bytes, decoded_bytes, encode_text, encoded_text, uses_decoder, uses_encoder,
    TextEncoding, TextEncodingHint,
};
use crate::language::path_clone;
use crate::model::EditorModel;
use crate::rope::{rope_len_chars, rope_len_lines, rope_slice_string};
use crate::text::{byte_len, line_count, visible_len};
use std::path::PathBuf;
use vstd::prelude::*;
use vstd::string::*;

verus! {

#[verifier::external_type_specification]
#[verifier::external_body]
pub struct ExIoError(std::io::Error);

/// What can go wrong between a document and its file.
#[derive(Debug)]
pub enum EditorError {
    /// The file at `path` could not be read or written.
    Io { path: PathBuf, source: std::io::Error },
    /// The document belongs to no file.
    MissingPath,
}

/// The greatest number of characters that one of the first `lines` lines of
/// `text` shows.
pub open spec fn widest_line(text: Seq<char>, lines: nat) -> nat
    decreases lines,
{
    if lines == 0 {
        0
    } else {
        let width = visible_len(text, (lines - 1) as nat);
        let before = widest_line(text, (lines - 1) as nat);
        if width > before {
            width
        } else {
            before
        }
    }
}

/// The greatest number of characters that a line of `text` shows.
pub open spec fn max_line_width(text: Seq<char>) -> nat {
    widest_line(text, line_count(text))
}

/// The text of one file in an editor.
#[derive(Debug)]
pub struct Document {
    pub path: Option<PathBuf>,
    pub encoding: TextEncoding,
    pub max_line_chars: usize,
    pub editor: Editor,
}

impl Clone for Document {
    fn clone(&self) -> (copy: Self)
        ensures
            copy.path == self.path,
            copy.encoding == self.encoding,
            copy.max_line_chars == self.max_line_chars,
            copy.editor@ == self.editor@,
            copy.editor.wf() == self.editor.wf(),
    {
        Document {
            path: match &self.path {
                Some(path) => Some(path_clone(path)),
                None => None,
            },
            encoding: self.encoding,
            max_line_chars: self.max_line_chars,
            editor: self.editor.clone(),
        }
    }
}

/// The greatest number of characters that a line of the editor's text shows.
fn widest_line_of(editor: &Editor) -> (width: usize)
    requires
        editor.wf(),
    ensures
        width == max_line_width(editor@.text),
{
    let lines = rope_len_lines(editor.rope());
    let mut width: usize = 0;
    let mut line: usize = 0;
    while line < lines
        invariant
            line <= lines,
            editor.wf(),
            lines == line_count(editor@.text),
            width == widest_line(editor@.text, line as nat),
        decreases lines - line,
    {
        let shown = editor.line_visible_len(line);
        if shown > width {
            width = shown;
        }
        line += 1;
    }
    width
}

impl Document {
    /// A document without a file and without text.
    pub fn empty() -> (doc: Self)
        ensures
            doc.path is None,
            doc.encoding == TextEncoding::Utf8,
            doc.max_line_chars == 0,
            doc.editor.wf(),
            doc.editor@ == EditorModel::new(Seq::empty()),
    {
        Self { path: None, encoding: TextEncoding::Utf8, max_line_chars: 0, editor: Editor::empty() }
    }

    /// The document of the file at `path`, made from the bytes that were
    /// read from it. The encoding is found out from the bytes.
    pub fn load(path: PathBuf, bytes: &[u8]) -> (doc: Self)
        requires
            uses_decoder(bytes@, TextEncodingHint::Auto) ==> bytes@.len() <= usize::MAX / 8,
        ensures
            doc.path == Some(path),
            doc.encoding == decoded_bytes(bytes@, TextEncodingHint::Auto).1,
            doc.max_line_chars == max_line_width(decoded_bytes(bytes@, TextEncodingHint::Auto).0),
            doc.editor.wf(),
            doc.editor@ == EditorModel::new(decoded_bytes(bytes@, TextEncodingHint::Auto).0),
    {
        Self::load_with_encoding(path, bytes, TextEncodingHint::Auto)
    }

    /// The document of the file at `path`, made from the bytes that were
    /// read from it, decoded under `encoding_hint`.
    pub fn load_with_encoding(path: PathBuf, bytes: &[u8], encoding_hint: TextEncodingHint) -> (doc:
        Self)
        requires
            uses_decoder(bytes@, encoding_hint) ==> bytes@.len() <= usize::MAX / 8,
        ensures
            doc.path == Some(path),
            doc.encoding == decoded_bytes(bytes@, encoding_hint).1,
            doc.max_line_chars == max_line_width(decoded_bytes(bytes@, encoding_hint).0),
            doc.editor.wf(),
            doc.editor@ == EditorModel::new(decoded_bytes(bytes@, encoding_hint).0),
    {
        let (text, encoding) = decode_bytes(bytes, encoding_hint);
        let editor = Editor::from_text(text.as_str());
        let max_line_chars = widest_line_of(&editor);
        Self { path: Some(path), encoding, max_line_chars, editor }
    }

    /// The bytes to write to the document's file: its text in its encoding.
    /// A document without a file has nothing to write.
    pub fn save(&self) -> (r: Result<Vec<u8>, EditorError>)
        requires
            uses_encoder(self.encoding) ==> byte_len(self.editor@.text) <= usize::MAX / 8,
        ensures
            self.path is None ==> r matches Err(EditorError::MissingPath),
            self.path is Some ==> (r matches Ok(bytes) && bytes@ == encoded_text(
                self.editor@.text,
                self.encoding,
            )),
    {
        if self.path.is_none() {
            return Err(EditorError::MissingPath);
        }
        let rope = self.editor.rope();
        let text = rope_slice_string(rope, 0, rope_len_chars(rope));
        assert(text@ =~= self.editor@.text);
        Ok(encode_text(text.as_str(), self.encoding))
    }
}

} // verus!
