use nuzzle::markdown::{code_fg_color, heading_color, link_color, render, MdStyle};

fn bold_only(s: &MdStyle) -> bool {
    s.bold && !s.italic && !s.underlined
}

fn italic_only(s: &MdStyle) -> bool {
    s.italic && !s.bold && !s.underlined
}

#[test]
fn test_bullet_with_bold_and_link() {
    let input = "  \u{2022}   **Waymo** is recalling robotaxis. [Read more](https://example.com)";
    let text = render(input);
    assert_eq!(text.lines.len(), 1, "should be one line");
    let spans = &text.lines[0].spans;
    assert!(spans.len() >= 5, "expected at least 5 spans, got {}", spans.len());
    assert!(spans[0].content.contains('\u{2022}'), "first span should be bullet, got: {:?}", spans[0].content);
    assert_eq!(spans[2].content, "Waymo");
    assert!(bold_only(&spans[2].style));
    let last = &spans[spans.len() - 1];
    assert!(last.content.contains("Read more"), "last span should be link, got: {:?}", last.content);
    assert_eq!(last.style.fg, Some(link_color()));
}

#[test]
fn test_plain_bold() {
    let input = "Hello **world**!";
    let text = render(input);
    let spans = &text.lines[0].spans;
    assert!(spans.iter().any(|s| s.content == "world" && bold_only(&s.style)));
}

#[test]
fn test_plain_link() {
    let input = "Click [here](https://example.com) now";
    let text = render(input);
    let spans = &text.lines[0].spans;
    assert!(spans.iter().any(|s| s.content.contains("here") && s.style.fg == Some(link_color())));
}

#[test]
fn test_fenced_code_block() {
    let input = "Some text\n```\nlet x = 1;\nprintln!(\"{}\", x);\n```\nMore text";
    let text = render(input);
    assert_eq!(text.lines.len(), 5);
    assert!(text.lines[0].spans[0].content.contains("Some text"));
    assert!(text.lines[1].spans[0].content.contains("let x = 1"));
    assert_eq!(text.lines[1].spans[0].style.fg, Some(code_fg_color()));
    assert!(text.lines[4].spans[0].content.contains("More text"));
}

#[test]
fn test_fenced_code_with_lang() {
    let input = "```rust\nfn main() {}\n```";
    let text = render(input);
    assert_eq!(text.lines.len(), 1);
    assert!(text.lines[0].spans[0].content.contains("fn main()"));
    assert_eq!(text.lines[0].spans[0].style.fg, Some(code_fg_color()));
}

#[test]
fn test_blockquote_no_space() {
    let input = ">quoted text";
    let text = render(input);
    assert!(text.lines[0].spans.iter().any(|s| s.content.contains("quoted")));
}

#[test]
fn test_triple_asterisk_bold_italic() {
    let input = "***bold italic***";
    let text = render(input);
    assert_eq!(text.lines.len(), 1);
    let spans = &text.lines[0].spans;
    assert!(spans.iter().any(|s| s.content == "bold italic" && s.style.bold && s.style.italic));
}

#[test]
fn test_italic() {
    let input = "some *italic* text";
    let text = render(input);
    let spans = &text.lines[0].spans;
    assert!(spans.iter().any(|s| s.content == "italic" && italic_only(&s.style)));
}

#[test]
fn test_escaped_asterisk() {
    let input = r"literal \*star\* here";
    let text = render(input);
    let content: String = text.lines[0].spans.iter().map(|s| s.content.as_str()).collect();
    assert!(content.contains("*star*"), "expected literal asterisks, got: {:?}", content);
}

#[test]
fn test_double_backtick_code() {
    let input = "use ``std::fmt`` here";
    let text = render(input);
    let spans = &text.lines[0].spans;
    assert!(spans.iter().any(|s| s.content == "std::fmt" && s.style.fg == Some(code_fg_color())));
}

#[test]
fn test_heading_without_space() {
    let input = "#Title";
    let text = render(input);
    let spans = &text.lines[0].spans;
    assert!(spans[0].style.bold);
    assert_eq!(spans[0].style.fg, Some(heading_color()));
}

#[test]
fn test_indented_code_block() {
    let input = "    indented code";
    let text = render(input);
    assert_eq!(text.lines[0].spans[0].style.fg, Some(code_fg_color()));
}

#[test]
fn test_lone_asterisk_passes_through() {
    let input = "text * more text";
    let text = render(input);
    let content: String = text.lines[0].spans.iter().map(|s| s.content.as_str()).collect();
    assert!(content.contains('*'), "lone * should pass through");
}

#[test]
fn test_unclosed_bold_outputs_literal() {
    let input = "text **unclosed";
    let text = render(input);
    let content: String = text.lines[0].spans.iter().map(|s| s.content.as_str()).collect();
    assert!(content.contains("**"), "unclosed ** should render as literal");
}

#[test]
fn plain_text_is_one_plain_span() {
    let text = render("just words");
    assert_eq!(text.lines.len(), 1);
    assert_eq!(text.lines[0].spans.len(), 1);
    assert_eq!(text.lines[0].spans[0].content, "just words");
    assert!(!text.lines[0].spans[0].style.bold);
    assert_eq!(text.lines[0].spans[0].style.fg, None);
}

#[test]
fn renders_line_for_line_without_fences() {
    let text = render("# Title\n\nsome *text*\n- item\n1. first");
    assert_eq!(text.lines.len(), 5);
    assert_eq!(text.lines[1].spans[0].content, " ");
}

#[test]
fn closing_fence_leaves_a_blank_line_before_more_text() {
    let text = render("```\ncode\n```\nafter");
    assert_eq!(text.lines.len(), 3);
    assert_eq!(text.lines[1].spans[0].content, " ");
    assert_eq!(text.lines[2].spans[0].content, "after");
}
