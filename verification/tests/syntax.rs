use rustide::debounce::{burst_is_over, react, Arrival, ProjectEvent};
use rustide::editor::Editor;
use rustide::grammar::Grammar;
use rustide::highlight::{
    spans_from_captures, tag_from_capture_name, Capture, HighlightSpan, HighlightTag,
};
use rustide::language::LanguageId;
use rustide::syntax::{language_grammar, query_source, SyntaxError, SyntaxState};
use std::path::PathBuf;

fn capture(name: &str, start_byte: usize, end_byte: usize) -> Capture {
    Capture { name: name.to_string(), start_byte, end_byte }
}

fn span(start: usize, end: usize, tag: HighlightTag) -> HighlightSpan {
    HighlightSpan { byte_range: start..end, tag }
}

#[test]
fn language_from_extension() {
    assert_eq!(LanguageId::from_extension("cpp"), LanguageId::Cpp);
    assert_eq!(LanguageId::from_extension("CC"), LanguageId::Cpp);
    assert_eq!(LanguageId::from_extension("cxx"), LanguageId::Cpp);
    assert_eq!(LanguageId::from_extension("h"), LanguageId::Cpp);
    assert_eq!(LanguageId::from_extension("Hpp"), LanguageId::Cpp);
    assert_eq!(LanguageId::from_extension("hh"), LanguageId::Cpp);
    assert_eq!(LanguageId::from_extension("py"), LanguageId::Python);
    assert_eq!(LanguageId::from_extension("hlsl"), LanguageId::Hlsl);
    assert_eq!(LanguageId::from_extension("HLSLI"), LanguageId::Hlsl);
    assert_eq!(LanguageId::from_extension("fx"), LanguageId::Hlsl);
    assert_eq!(LanguageId::from_extension("md"), LanguageId::Markdown);
    assert_eq!(LanguageId::from_extension("MarkDown"), LanguageId::Markdown);
    assert_eq!(LanguageId::from_extension("txt"), LanguageId::PlainText);
    assert_eq!(LanguageId::from_extension(""), LanguageId::PlainText);
    assert_eq!(LanguageId::from_extension("cp"), LanguageId::PlainText);
    assert_eq!(LanguageId::from_extension("cppx"), LanguageId::PlainText);
}

#[test]
fn language_from_path() {
    assert_eq!(LanguageId::from_path(None), LanguageId::PlainText);
    let path = |s: &str| PathBuf::from(s);
    assert_eq!(LanguageId::from_path(Some(&path("src/main.CPP"))), LanguageId::Cpp);
    assert_eq!(LanguageId::from_path(Some(&path("tool.py"))), LanguageId::Python);
    assert_eq!(LanguageId::from_path(Some(&path("shaders/blur.fx"))), LanguageId::Hlsl);
    assert_eq!(LanguageId::from_path(Some(&path("README.md"))), LanguageId::Markdown);
    assert_eq!(LanguageId::from_path(Some(&path("Makefile"))), LanguageId::PlainText);
    assert_eq!(LanguageId::from_path(Some(&path(".py"))), LanguageId::PlainText);
}

#[test]
fn tags_of_capture_names() {
    assert_eq!(tag_from_capture_name("comment"), Some(HighlightTag::Comment));
    assert_eq!(tag_from_capture_name("string"), Some(HighlightTag::String));
    assert_eq!(tag_from_capture_name("number"), Some(HighlightTag::Number));
    assert_eq!(tag_from_capture_name("keyword"), Some(HighlightTag::Keyword));
    assert_eq!(tag_from_capture_name("type"), Some(HighlightTag::Type));
    assert_eq!(tag_from_capture_name("function"), Some(HighlightTag::Function));
    assert_eq!(tag_from_capture_name("constant"), Some(HighlightTag::Constant));
    assert_eq!(tag_from_capture_name("variable"), Some(HighlightTag::Variable));
    assert_eq!(tag_from_capture_name("property"), Some(HighlightTag::Property));
    assert_eq!(tag_from_capture_name("field"), Some(HighlightTag::Property));
    assert_eq!(tag_from_capture_name("operator"), Some(HighlightTag::Operator));
    assert_eq!(tag_from_capture_name("punctuation"), Some(HighlightTag::Punctuation));
    assert_eq!(tag_from_capture_name("constructor"), Some(HighlightTag::Type));
    assert_eq!(tag_from_capture_name("escape"), Some(HighlightTag::String));
    assert_eq!(tag_from_capture_name("embedded"), Some(HighlightTag::String));
    assert_eq!(tag_from_capture_name("function.method"), Some(HighlightTag::Function));
    assert_eq!(tag_from_capture_name("@keyword.control.flow"), Some(HighlightTag::Keyword));
    assert_eq!(tag_from_capture_name("@@type."), Some(HighlightTag::Type));
    assert_eq!(tag_from_capture_name("label"), None);
    assert_eq!(tag_from_capture_name(""), None);
    assert_eq!(tag_from_capture_name(".comment"), None);
    assert_eq!(tag_from_capture_name("comments"), None);
    assert_eq!(tag_from_capture_name("Comment"), None);
}

#[test]
fn spans_are_clipped_to_the_window() {
    let captures = vec![
        capture("comment", 0, 10),
        capture("string", 25, 60),
        capture("keyword", 12, 15),
    ];
    let spans = spans_from_captures(&captures, 5..30);
    assert_eq!(
        spans,
        vec![
            span(5, 10, HighlightTag::Comment),
            span(12, 15, HighlightTag::Keyword),
            span(25, 30, HighlightTag::String),
        ]
    );
    for s in &spans {
        assert!(5 <= s.byte_range.start && s.byte_range.end <= 30);
    }
}

#[test]
fn spans_outside_the_window_and_unknown_names_are_dropped() {
    let captures = vec![
        capture("comment", 0, 5),
        capture("comment", 30, 40),
        capture("label", 10, 12),
        capture("number", 7, 7),
        capture("number", 9, 8),
        capture("type", 29, 31),
    ];
    assert_eq!(spans_from_captures(&captures, 5..30), vec![span(29, 30, HighlightTag::Type)]);
    assert_eq!(spans_from_captures(&captures, 30..5), vec![]);
    assert_eq!(spans_from_captures(&Vec::new(), 0..100), vec![]);
}

#[test]
fn spans_are_sorted_by_start_then_end_and_keep_capture_order() {
    let captures = vec![
        capture("function", 4, 9),
        capture("variable", 4, 6),
        capture("type", 0, 20),
        capture("property", 4, 6),
        capture("keyword", 0, 3),
        capture("constant", 4, 9),
    ];
    assert_eq!(
        spans_from_captures(&captures, 0..100),
        vec![
            span(0, 3, HighlightTag::Keyword),
            span(0, 20, HighlightTag::Type),
            span(4, 6, HighlightTag::Variable),
            span(4, 6, HighlightTag::Property),
            span(4, 9, HighlightTag::Function),
            span(4, 9, HighlightTag::Constant),
        ]
    );
}

#[test]
fn grammars_of_languages() {
    assert_eq!(language_grammar(LanguageId::Cpp), Some(Grammar::Cpp));
    assert_eq!(language_grammar(LanguageId::Python), Some(Grammar::Python));
    assert_eq!(language_grammar(LanguageId::Hlsl), Some(Grammar::Hlsl));
    assert_eq!(language_grammar(LanguageId::Markdown), None);
    assert_eq!(language_grammar(LanguageId::PlainText), None);
}

#[test]
fn query_sources() {
    let cpp = query_source(Grammar::Cpp, Some("(identifier) @variable"));
    assert!(cpp.starts_with("(identifier) @variable\n\n(comment) @comment\n"));
    assert!(cpp.ends_with("(preproc_directive) @keyword\n"));
    assert_eq!(query_source(Grammar::Python, Some("(x) @y")), "(x) @y");
    assert_eq!(query_source(Grammar::Python, None), "");
    let hlsl = query_source(Grammar::Hlsl, Some("ignored"));
    assert!(hlsl.starts_with("\n(comment) @comment\n"));
    assert!(hlsl.ends_with("(field_identifier) @property\n"));
}

#[test]
fn plain_text_has_no_spans() {
    let editor = Editor::from_text("int x = 1;");
    for language in [LanguageId::PlainText, LanguageId::Markdown] {
        let mut state = match SyntaxState::new(language) {
            Ok(state) => state,
            Err(error) => panic!("{:?}", error),
        };
        assert_eq!(state.language(), language);
        assert!(state.set_text(editor.rope()).is_ok());
        assert!(state.ensure_parsed(editor.rope()).is_ok());
        assert!(!state.reparse_due(1_000_000));
        assert!(matches!(state.highlight_spans(editor.rope(), 0..10), Ok(ref s) if s.is_empty()));
    }
}

#[test]
fn no_tree_gives_no_spans() {
    let editor = Editor::from_text("x = 1");
    let mut state = match SyntaxState::new(LanguageId::Python) {
        Ok(state) => state,
        Err(error) => panic!("{:?}", error),
    };
    assert!(matches!(state.highlight_spans(editor.rope(), 0..5), Ok(ref s) if s.is_empty()));
}

#[test]
fn install_tree_without_a_tree_is_a_parse_failure() {
    let mut state = match SyntaxState::new(LanguageId::Cpp) {
        Ok(state) => state,
        Err(error) => panic!("{:?}", error),
    };
    assert!(matches!(state.install_tree(None), Err(SyntaxError::ParseFailed)));
}

#[test]
fn python_highlights() {
    let source = "# note\ndef f(x):\n    return \"s\" + 1\n";
    let editor = Editor::from_text(source);
    let mut state = match SyntaxState::new(LanguageId::Python) {
        Ok(state) => state,
        Err(error) => panic!("{:?}", error),
    };
    assert!(state.set_text(editor.rope()).is_ok());
    let spans = match state.highlight_spans(editor.rope(), 0..source.len()) {
        Ok(spans) => spans,
        Err(error) => panic!("{:?}", error),
    };
    assert!(spans.contains(&span(0, 6, HighlightTag::Comment)));
    assert!(spans.contains(&span(7, 10, HighlightTag::Keyword)));
    assert!(spans.contains(&span(11, 12, HighlightTag::Function)));
    assert!(spans.contains(&span(28, 31, HighlightTag::String)));
    assert!(spans.contains(&span(34, 35, HighlightTag::Number)));
    for pair in spans.windows(2) {
        let a = (pair[0].byte_range.start, pair[0].byte_range.end);
        let b = (pair[1].byte_range.start, pair[1].byte_range.end);
        assert!(a <= b);
    }
}

#[test]
fn highlights_stay_within_the_window() {
    let source = "# a long comment line\nx = 12345\n";
    let editor = Editor::from_text(source);
    let mut state = match SyntaxState::new(LanguageId::Python) {
        Ok(state) => state,
        Err(error) => panic!("{:?}", error),
    };
    assert!(state.set_text(editor.rope()).is_ok());
    let spans = match state.highlight_spans(editor.rope(), 5..28) {
        Ok(spans) => spans,
        Err(error) => panic!("{:?}", error),
    };
    assert!(spans.contains(&span(5, 21, HighlightTag::Comment)));
    assert!(spans.contains(&span(26, 28, HighlightTag::Number)));
    for s in &spans {
        assert!(5 <= s.byte_range.start && s.byte_range.start < s.byte_range.end);
        assert!(s.byte_range.end <= 28);
    }
}

#[test]
fn cpp_highlights() {
    let source = "// c\nint main() { return 42; }\nclass A {};\n";
    let editor = Editor::from_text(source);
    let mut state = match SyntaxState::new(LanguageId::Cpp) {
        Ok(state) => state,
        Err(error) => panic!("{:?}", error),
    };
    assert!(state.set_text(editor.rope()).is_ok());
    let spans = match state.highlight_spans(editor.rope(), 0..source.len()) {
        Ok(spans) => spans,
        Err(error) => panic!("{:?}", error),
    };
    assert!(spans.contains(&span(0, 4, HighlightTag::Comment)));
    assert!(spans.contains(&span(25, 27, HighlightTag::Number)));
    assert!(spans.contains(&span(31, 36, HighlightTag::Keyword)), "{:?}", spans);
}

#[test]
fn hlsl_highlights() {
    let source = "// c\nint main() { return 42; }\n";
    let editor = Editor::from_text(source);
    let mut state = match SyntaxState::new(LanguageId::Hlsl) {
        Ok(state) => state,
        Err(error) => panic!("{:?}", error),
    };
    assert!(state.set_text(editor.rope()).is_ok());
    let spans = match state.highlight_spans(editor.rope(), 0..source.len()) {
        Ok(spans) => spans,
        Err(error) => panic!("{:?}", error),
    };
    assert!(spans.contains(&span(0, 4, HighlightTag::Comment)), "{:?}", spans);
    assert!(spans.contains(&span(5, 8, HighlightTag::Type)), "{:?}", spans);
    assert!(spans.contains(&span(9, 13, HighlightTag::Function)), "{:?}", spans);
    assert!(spans.contains(&span(25, 27, HighlightTag::Number)), "{:?}", spans);
}

#[test]
fn queued_edits_are_parsed_in_after_the_debounce_interval() {
    let mut editor = Editor::from_text("x = 1\n");
    let mut state = match SyntaxState::new(LanguageId::Python) {
        Ok(state) => state,
        Err(error) => panic!("{:?}", error),
    };
    assert!(state.set_text(editor.rope()).is_ok());
    assert!(!state.reparse_due(u128::MAX));

    editor.set_cursor(0, false);
    editor.insert_text("# c\n");
    let edit = match editor.take_last_edit() {
        Some(edit) => edit,
        None => panic!("no edit"),
    };
    state.queue_edit(edit);
    assert!(!state.reparse_due(0));
    assert!(!state.reparse_due(39));
    assert!(state.reparse_due(40));

    // Within the interval nothing is parsed: the tree is the shifted old one.
    assert!(state.ensure_parsed(editor.rope()).is_ok());
    assert!(state.reparse_due(40));

    let started = std::time::Instant::now();
    while started.elapsed() < std::time::Duration::from_millis(60) {
        std::hint::spin_loop();
    }
    let spans = match state.highlight_spans(editor.rope(), 0..10) {
        Ok(spans) => spans,
        Err(error) => panic!("{:?}", error),
    };
    assert!(!state.reparse_due(u128::MAX));
    assert!(spans.contains(&span(0, 3, HighlightTag::Comment)));
    assert!(spans.contains(&span(8, 9, HighlightTag::Number)));
}

#[test]
fn large_text_is_read_across_chunks() {
    let mut source = String::new();
    for i in 0..4000 {
        source.push_str(&format!("v{} = {}  # é\n", i, i));
    }
    let editor = Editor::from_text(&source);
    let mut state = match SyntaxState::new(LanguageId::Python) {
        Ok(state) => state,
        Err(error) => panic!("{:?}", error),
    };
    assert!(state.set_text(editor.rope()).is_ok());
    let from = source.len() - "v3999 = 3999  # é\n".len();
    let spans = match state.highlight_spans(editor.rope(), from..source.len()) {
        Ok(spans) => spans,
        Err(error) => panic!("{:?}", error),
    };
    assert!(spans.contains(&span(from + 8, from + 12, HighlightTag::Number)));
    assert!(spans.contains(&span(from + 14, from + 18, HighlightTag::Comment)));
}

#[test]
fn notifications_are_debounced() {
    let r = react(Arrival::Event(ProjectEvent::Changed));
    assert!(r.restart && !r.stop && r.forward.is_none());
    let r = react(Arrival::Event(ProjectEvent::Error("gone".to_string())));
    assert!(!r.restart && !r.stop);
    assert!(matches!(r.forward, Some(ProjectEvent::Error(ref reason)) if reason == "gone"));
    let r = react(Arrival::Timeout);
    assert!(!r.restart && !r.stop && r.forward.is_none());
    let r = react(Arrival::Disconnected);
    assert!(!r.restart && r.stop && r.forward.is_none());
    assert!(!burst_is_over(None, 0));
    assert!(!burst_is_over(Some(249), 250));
    assert!(burst_is_over(Some(250), 250));
    assert!(burst_is_over(Some(1000), 250));
}

#[test]
fn an_empty_or_reversed_window_has_no_spans() {
    let source = "# note\nx = 1\n";
    let editor = Editor::from_text(source);
    let mut state = match SyntaxState::new(LanguageId::Python) {
        Ok(state) => state,
        Err(error) => panic!("{:?}", error),
    };
    assert!(state.set_text(editor.rope()).is_ok());
    assert!(matches!(state.highlight_spans(editor.rope(), 0..6), Ok(ref s) if s.len() == 1));
    assert!(matches!(state.highlight_spans(editor.rope(), 9..3), Ok(ref s) if s.is_empty()));
    assert!(matches!(state.highlight_spans(editor.rope(), 4..4), Ok(ref s) if s.is_empty()));
    assert!(matches!(state.highlight_spans(editor.rope(), 0..0), Ok(ref s) if s.is_empty()));
    // The window of the next call is its own, not one that an earlier call left.
    let spans = match state.highlight_spans(editor.rope(), 7..source.len()) {
        Ok(spans) => spans,
        Err(error) => panic!("{:?}", error),
    };
    assert!(!spans.iter().any(|s| s.tag == HighlightTag::Comment));
    assert!(spans.contains(&span(11, 12, HighlightTag::Number)));
}
