use openloom::markdown::{parse_inline_markdown, render_markdown_line, SpanStyle, StyledSpan};
use openloom::wrap::{wrap_text, wrap_text_bytes};

fn spans(v: &[StyledSpan]) -> Vec<(String, SpanStyle)> {
    v.iter().map(|s| (s.text.clone(), s.style)).collect()
}

fn inline(text: &str) -> Vec<(String, SpanStyle)> {
    let mut out = Vec::new();
    let chars: Vec<char> = text.chars().collect();
    parse_inline_markdown(&chars, &mut out);
    spans(&out)
}

fn s(t: &str, st: SpanStyle) -> (String, SpanStyle) {
    (t.to_string(), st)
}

#[test]
fn inline_bold_and_code() {
    assert_eq!(
        inline("a **b** c `d` e"),
        vec![
            s("a ", SpanStyle::Text),
            s("b", SpanStyle::Bold),
            s(" c ", SpanStyle::Text),
            s("d", SpanStyle::Code),
            s(" e", SpanStyle::Text)
        ]
    );
}

#[test]
fn inline_unclosed_marker_is_text() {
    assert_eq!(inline("x **y"), vec![s("x ", SpanStyle::Text), s("**y", SpanStyle::Text)]);
    assert_eq!(inline("`open"), vec![s("`open", SpanStyle::Text)]);
    assert_eq!(inline(""), vec![]);
}

#[test]
fn inline_bold_wins_tie_and_code_before_bold() {
    assert_eq!(inline("`**x**`"), vec![s("**x**", SpanStyle::Code)]);
    assert_eq!(inline("**`x`**"), vec![s("`x`", SpanStyle::Bold)]);
}

#[test]
fn headings_and_lists() {
    let indent = s("    ", SpanStyle::Indent);
    assert_eq!(spans(&render_markdown_line("## Title")), vec![indent.clone(), s("Title", SpanStyle::Heading)]);
    assert_eq!(spans(&render_markdown_line("  # Top")), vec![indent.clone(), s("Top", SpanStyle::Heading)]);
    assert_eq!(
        spans(&render_markdown_line("- item **b**")),
        vec![indent.clone(), s("\u{2022} ", SpanStyle::Accent), s("item ", SpanStyle::Text), s("b", SpanStyle::Bold)]
    );
    assert_eq!(
        spans(&render_markdown_line("12. twelve")),
        vec![indent.clone(), s("12. ", SpanStyle::Accent), s("twelve", SpanStyle::Text)]
    );
    assert_eq!(spans(&render_markdown_line("12.x")), vec![indent, s("12.x", SpanStyle::Text)]);
}

#[test]
fn tables() {
    let indent = s("    ", SpanStyle::Indent);
    assert_eq!(spans(&render_markdown_line("|---|:-:|")), vec![indent.clone(), s("|---|:-:|", SpanStyle::Dim)]);
    assert_eq!(
        spans(&render_markdown_line("|a|b|")),
        vec![
            indent,
            s("|", SpanStyle::Dim),
            s("|", SpanStyle::Dim),
            s("a", SpanStyle::Text),
            s("|", SpanStyle::Dim),
            s("b", SpanStyle::Text),
            s("|", SpanStyle::Dim)
        ]
    );
}

#[test]
fn plain_line_keeps_leading_space() {
    assert_eq!(
        spans(&render_markdown_line("  plain")),
        vec![s("    ", SpanStyle::Indent), s("  plain", SpanStyle::Text)]
    );
}

#[test]
fn wrap_short_text_is_one_line() {
    assert_eq!(wrap_text("hello world", 40), vec!["hello world".to_string()]);
}

#[test]
fn wrap_breaks_after_spaces() {
    let text = "aaaa bbbb cccc dddd eeee ffff gggg";
    assert_eq!(
        wrap_text(text, 10),
        vec!["aaaa bbbb cccc dddd".to_string(), "eeee ffff gggg".to_string()]
    );
}

#[test]
fn wrap_counts_display_width() {
    let text = "中文中文中文 中文中文中文 中文";
    let lines = wrap_text(text, 20);
    assert_eq!(lines, vec!["中文中文中文".to_string(), "中文中文中文 中文".to_string()]);
}

#[test]
fn byte_wrap_by_paragraphs() {
    assert_eq!(
        wrap_text_bytes("one two three\n\nfour", 5),
        vec!["one two three".to_string(), String::new(), "four".to_string()]
    );
    let long = "word ".repeat(6);
    assert_eq!(
        wrap_text_bytes(long.trim_end(), 20),
        vec!["word word word word".to_string(), "word word".to_string()]
    );
}
