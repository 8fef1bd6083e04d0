use termaup::markdown::{render_events, render_markdown, MdColor, MdEvent, MdLine};

fn line_text(l: &MdLine) -> String {
    l.spans.iter().map(|s| s.text.as_str()).collect()
}

fn any_span_contains(lines: &[MdLine], needle: &str) -> bool {
    lines.iter().any(|l| l.spans.iter().any(|s| s.text.contains(needle)))
}

#[test]
fn test_render_heading() {
    let lines = render_markdown("# Hello World");
    assert!(!lines.is_empty());
    let first = &lines[0];
    assert!(!first.spans.is_empty());
    let text = line_text(first);
    assert!(text.contains("Hello World"));
}

#[test]
fn test_render_bold_italic() {
    let lines = render_markdown("**bold** and *italic*");
    assert!(!lines.is_empty());
}

#[test]
fn test_render_code_block() {
    let lines = render_markdown("```\nlet x = 1;\n```");
    assert!(any_span_contains(&lines, "┌"));
}

#[test]
fn test_render_list() {
    let lines = render_markdown("- item one\n- item two\n");
    assert!(any_span_contains(&lines, "•"));
}

#[test]
fn test_render_horizontal_rule() {
    let lines = render_markdown("---");
    assert!(any_span_contains(&lines, "─"));
}

#[test]
fn test_render_inline_code() {
    let lines = render_markdown("Use `foo()` here");
    assert!(any_span_contains(&lines, "foo()"));
}

#[test]
fn test_render_empty() {
    let lines = render_markdown("");
    assert!(lines.is_empty());
}

#[test]
fn test_render_complex_markdown() {
    let md = "\
# Heading 1

## Heading 2

Some text with **bold** and *italic*.

- Item one
- Item two

1. First
2. Second

`inline code`

```
code block
```

---

[link](https://example.com)
";
    let lines = render_markdown(md);
    assert!(lines.len() > 10, "complex markdown should produce many lines, got {}", lines.len());
}

#[test]
fn heading_is_bold_blue_and_followed_by_a_blank_line() {
    let lines = render_markdown("# Title");
    assert_eq!(lines.len(), 2);
    assert_eq!(line_text(&lines[0]), "Title");
    assert_eq!(lines[0].spans[0].style.fg, Some(MdColor::Blue));
    assert!(lines[0].spans[0].style.bold);
    assert!(lines[1].spans.is_empty());
}

#[test]
fn strong_text_inherits_and_adds_bold() {
    let lines = render_markdown("a **b** c");
    let spans = &lines[0].spans;
    assert_eq!(spans.len(), 3);
    assert!(!spans[0].style.bold);
    assert!(spans[1].style.bold);
    assert_eq!(spans[1].text, "b");
    assert!(!spans[2].style.bold);
}

#[test]
fn ordered_list_counts_from_its_start() {
    let lines = render_markdown("3. a\n4. b\n");
    let texts: Vec<String> = lines.iter().map(line_text).collect();
    assert_eq!(texts[0], "  3. a");
    assert_eq!(texts[1], "  4. b");
}

#[test]
fn code_block_lines_are_framed() {
    let events = vec![
        MdEvent::StartCodeBlock,
        MdEvent::Text("one\ntwo\n".to_string()),
        MdEvent::EndCodeBlock,
    ];
    let lines = render_events(&events);
    let texts: Vec<String> = lines.iter().map(line_text).collect();
    assert_eq!(
        texts,
        vec![
            "  ┌───────────────────────".to_string(),
            "  │ one".to_string(),
            "  │ two".to_string(),
            "  └───────────────────────".to_string(),
            String::new(),
        ]
    );
    assert_eq!(lines[1].spans[0].style.fg, Some(MdColor::Green));
}

#[test]
fn inline_code_is_padded_on_a_dark_background() {
    let lines = render_events(&vec![MdEvent::Code("x".to_string())]);
    assert_eq!(lines.len(), 1);
    assert_eq!(lines[0].spans[0].text, " x ");
    assert_eq!(lines[0].spans[0].style.fg, Some(MdColor::Yellow));
    assert_eq!(lines[0].spans[0].style.bg, Some(MdColor::Rgb(40, 40, 40)));
}

#[test]
fn no_events_give_no_lines() {
    assert!(render_events(&vec![]).is_empty());
    assert!(render_events(&vec![MdEvent::Other, MdEvent::EndStrong]).is_empty());
}
