//! The editing core of a small code editor: a character-indexed text buffer
//! with selection tracking and reversible history, a byte codec for the
//! supported text encodings, and incremental syntax highlighting.

pub mod chars;
pub mod chunks;
pub mod codec;
pub mod debounce;
pub mod document;
pub mod editor;
pub mod encoding;
pub mod grammar;
pub mod highlight;
pub mod indent;
pub mod language;
pub mod model;
pub mod rope;
pub mod selection;
pub mod strings;
pub mod syntax;
pub mod text;

pub use document::{Document, EditorError};
pub use editor::Editor;
pub use encoding::{decode_bytes, encode_text, TextEncoding, TextEncodingHint};
pub use highlight::{HighlightSpan, HighlightTag};
pub use language::LanguageId;
pub use model::{EditorEdit, EditorPoint};
pub use selection::Selection;
pub use syntax::{SyntaxError, SyntaxState};
