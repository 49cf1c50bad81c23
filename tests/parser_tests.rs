use simplified_asciidoc::blocks::{Blocks, Breaks, ParentBlock};
use simplified_asciidoc::inlines::{get_class_from_role, Inlines};
use simplified_asciidoc::parse::{to_html, Parser};

fn lines(ls: &[&str]) -> Vec<String> {
    ls.iter().map(|l| l.to_string()).collect()
}

#[test]
fn test_parse_heading() {
    let mut p = Parser::new();
    for heading_level in vec![1, 2, 3, 4, 5, 6] {
        let line = format!("{} This is a heading", "=".repeat(heading_level));
        p.parse_line(&line);
        assert_eq!(p.current_block().unwrap(), Blocks::Heading(heading_level));
    }
}

#[test]
fn test_parse_newline() {
    let mut p = Parser::new();
    let line = "\n";
    p.parse_line(line);
    assert!(p.current_block().is_none());
}

#[test]
fn test_parse_lists() {
    let mut p = Parser::new();
    let line = ". My Item";
    p.parse_line(line);
    assert_eq!(p.current_block().unwrap(), Blocks::ListItem);
    assert_eq!(p.current_parent_block().unwrap(), ParentBlock::OrderedList);

    let line = "* My Item";
    p.parse_line(line);
    assert_eq!(p.current_block().unwrap(), Blocks::ListItem);
    assert_eq!(p.current_parent_block().unwrap(), ParentBlock::UnorderedList);
}

#[test]
fn handle_bracketed_lines() {
    let mut p = Parser::new();
    let line = "[role=\"something\"]";
    p.parse_line(line);
    assert_eq!(*p.current_class().unwrap(), "something");

    let line = "[quote]";
    p.parse_line(line);
    assert_eq!(p.current_parent_block().unwrap(), ParentBlock::Quote);

    let line = "[verse]";
    p.parse_line(line);
    assert_eq!(p.current_parent_block().unwrap(), ParentBlock::Verse);
}

#[test]
fn parse_inline_text() {
    let mut p = Parser::new();
    let line = "This is just a line of text. We have an incomplete".to_string();
    assert_eq!(
        "This is just a line of text. We have an incomplete".to_string(),
        p.parse_inline(line)
    )
}

#[test]
fn parse_inline_complete_tags() {
    let mut p = Parser::new();
    let line = "We have an _italic_ part in here".to_string();
    assert_eq!(
        "We have an <em>italic</em> part in here".to_string(),
        p.parse_inline(line)
    );

    let line = "We have a *bold* part in here".to_string();
    assert_eq!(
        "We have a <strong>bold</strong> part in here".to_string(),
        p.parse_inline(line)
    );

    let line = "We have a `code` part in here".to_string();
    assert_eq!(
        "We have a <code>code</code> part in here".to_string(),
        p.parse_inline(line)
    );

    // The footnote macro replaces `.footnote[...]`, dot included.
    let line = "We have a footnote.footnote[Some text.]".to_string();
    assert_eq!(
        "We have a footnote<span data-type=\"footnote\">Some text.</span>".to_string(),
        p.parse_inline(line)
    );
}

#[test]
fn headings_at_top_level_render_alone() {
    for n in 1..=6usize {
        let line = format!("{} text", "=".repeat(n));
        let html = to_html(&lines(&[&line]));
        assert_eq!(html, format!("<h{}>text</h{}>", n, n));
    }
}

#[test]
fn heading_level_is_capped_at_six() {
    let mut p = Parser::new();
    p.parse_line("======== Deep");
    assert_eq!(p.current_block(), Some(Blocks::Heading(6)));
}

#[test]
fn blank_line_closes_block_and_resets_state() {
    let mut p = Parser::new();
    p.parse_line("[role=\"x\"]");
    p.parse_line("* item *open");
    p.parse_line("");
    assert_eq!(p.markup().as_str(), "<ul class=\"x\"><li>item *open</li></ul>");
    assert!(p.current_block().is_none());
    assert!(p.current_parent_block().is_none());
    assert!(p.current_class().is_none());
    p.parse_line("plain");
    p.parse_line("   ");
    assert_eq!(
        p.markup().as_str(),
        "<ul class=\"x\"><li>item *open</li></ul><p>plain</p>"
    );
}

#[test]
fn list_continuation_stays_in_first_item() {
    let html = to_html(&lines(&["* first", "continued text", "* second"]));
    assert_eq!(html, "<ul><li>firstcontinued text</li><li>second</li></ul>");
    assert_eq!(html.matches("<li>").count(), 2);
}

#[test]
fn ordered_list_items() {
    let html = to_html(&lines(&[". one", ". two", ""]));
    assert_eq!(html, "<ol><li>one</li><li>two</li></ol>");
}

#[test]
fn star_inside_paragraph_continues_it() {
    let html = to_html(&lines(&["text", "* not an item", ""]));
    assert_eq!(html, "<p>text* not an item</p>");
}

#[test]
fn inline_spans_as_whole_line() {
    let mut p = Parser::new();
    assert_eq!(p.parse_inline("*bold*".to_string()), "<strong>bold</strong>");
    assert_eq!(p.parse_inline("_italic_".to_string()), "<em>italic</em>");
    assert_eq!(p.parse_inline("`code`".to_string()), "<code>code</code>");
}

#[test]
fn footnote_macro() {
    let mut p = Parser::new();
    assert_eq!(
        p.parse_inline("word.footnote[note text]".to_string()),
        "word<span data-type=\"footnote\">note text</span>"
    );
}

#[test]
fn unterminated_span_is_literal() {
    let mut p = Parser::new();
    assert_eq!(p.parse_inline("a *b c".to_string()), "a *b c");
    assert_eq!(p.parse_inline("x.footnote[open".to_string()), "x.footnote[open");
}

#[test]
fn distinct_kinds_nest() {
    let mut p = Parser::new();
    assert_eq!(
        p.parse_inline("*bold _it_ more*".to_string()),
        "<strong>bold <em>it</em> more</strong>"
    );
}

#[test]
fn escaped_delimiter_is_text() {
    let mut p = Parser::new();
    assert_eq!(p.parse_inline("\\*not bold*".to_string()), "*not bold*");
    assert_eq!(p.parse_inline("*a \\* b*".to_string()), "<strong>a * b</strong>");
}

#[test]
fn convert_complete_tags_leaves_nothing_open() {
    let (html, open) = Inlines::convert_complete_tags("`x` and *y".to_string());
    assert_eq!(html, "<code>x</code> and *y");
    assert_eq!(open, Inlines::Text);
}

#[test]
fn continuation_keeps_blocks() {
    let mut p = Parser::new();
    p.parse_line("first line");
    let parent = p.current_parent_block();
    let block = p.current_block();
    p.parse_line("more text");
    assert_eq!(p.current_parent_block(), parent);
    assert_eq!(p.current_block(), block);
    p.parse_line("more text");
    assert_eq!(p.current_parent_block(), parent);
    assert_eq!(p.current_block(), block);
    assert_eq!(p.markup().as_str(), "<p>first linemore textmore text");
}

#[test]
fn end_to_end_document() {
    let html = to_html(&lines(&["=== Title", "", "Some *bold* text.", ""]));
    assert_eq!(html, "<h3>Title</h3><p>Some <strong>bold</strong> text.</p>");
}

#[test]
fn role_on_new_list() {
    let html = to_html(&lines(&["[role=\"warning\"]", "* Item", ""]));
    assert_eq!(html, "<ul class=\"warning\"><li>Item</li></ul>");
}

#[test]
fn end_of_input_closes_open_block() {
    let html = to_html(&lines(&["== Heading", "para"]));
    assert_eq!(html, "<h2>Heading</h2><p>para</p>");
}

#[test]
fn breaks_carry_their_class() {
    let html = to_html(&lines(&["'''", "", ">>>"]));
    assert_eq!(
        html,
        "<div class=\"section_break\"></div><div class=\"page_break\"></div>"
    );
}

#[test]
fn aside_and_pre_hold_paragraphs() {
    assert_eq!(to_html(&lines(&["****", "note", ""])), "<aside><p>note</p></aside>");
    assert_eq!(to_html(&lines(&["----", "code", ""])), "<pre><p>code</p></pre>");
    assert_eq!(
        to_html(&lines(&["[quote]", "said", ""])),
        "<blockquote><p>said</p></blockquote>"
    );
}

#[test]
fn unknown_bracket_line_is_reported() {
    let mut p = Parser::new();
    p.parse_line("[unknown]");
    p.parse_line("[x");
    assert_eq!(p.warnings().len(), 2);
    assert_eq!(p.warnings()[0], "[unknown]");
    assert!(p.current_block().is_none());
    assert_eq!(p.markup().as_str(), "");
}

#[test]
fn malformed_role_sets_no_class() {
    let mut p = Parser::new();
    p.parse_line("[role=\"a\"]");
    p.parse_line("[role=broken]");
    assert!(p.current_class().is_none());
}

#[test]
fn role_capture_takes_the_value() {
    assert_eq!(get_class_from_role("[role=\"note\"]"), Some("note".to_string()));
    assert_eq!(
        get_class_from_role("x [role=\"a\"] [role=\"b\"]"),
        Some("a".to_string())
    );
    assert_eq!(get_class_from_role("[role=\"a\"b\"]"), Some("a\"b".to_string()));
    assert_eq!(get_class_from_role("[role=\"a"), None);
}

#[test]
fn parent_block_tags() {
    let all = [
        (ParentBlock::Section, "section"),
        (ParentBlock::OpenBlock, "div"),
        (ParentBlock::Aside, "aside"),
        (ParentBlock::Paragraph, "p"),
        (ParentBlock::OrderedList, "ol"),
        (ParentBlock::UnorderedList, "ul"),
        (ParentBlock::DefinitionList, "dl"),
        (ParentBlock::Quote, "blockquote"),
        (ParentBlock::Verse, "pre"),
        (ParentBlock::Pre, "pre"),
    ];
    for (b, t) in all.iter() {
        assert_eq!(b.tag(), *t);
    }
}

#[test]
fn leaf_block_tags() {
    assert_eq!(Blocks::Heading(4).tag(), "h4");
    assert_eq!(Blocks::Paragraph.tag(), "p");
    assert_eq!(Blocks::ListItem.tag(), "li");
    assert_eq!(Blocks::DefinitionTerm.tag(), "dt");
    assert_eq!(Blocks::DefinitionDesc.tag(), "dd");
    assert_eq!(Blocks::Break.tag(), "div");
    assert_eq!(Breaks::Section.class(), "section_break");
    assert_eq!(Breaks::Page.class(), "page_break");
}

#[test]
fn inline_tags() {
    assert_eq!(Inlines::Text.tag(), None);
    assert_eq!(Inlines::Bold.open_tag(), Some("<strong>".to_string()));
    assert_eq!(Inlines::Bold.close_tag(), Some("</strong>".to_string()));
    assert_eq!(Inlines::Italic.close_tag(), Some("</em>".to_string()));
    assert_eq!(Inlines::Code.open_tag(), Some("<code>".to_string()));
    assert_eq!(
        Inlines::Footnote.open_tag(),
        Some("<span data-type=\"footnote\">".to_string())
    );
    assert_eq!(Inlines::Footnote.close_tag(), Some("</span>".to_string()));
    let link = Inlines::Link("https://x.org".to_string());
    assert_eq!(link.tag(), Some("a href=\"https://x.org\"".to_string()));
    assert_eq!(link.open_tag(), Some("<a href=\"https://x.org\">".to_string()));
    assert_eq!(link.close_tag(), Some("</a>".to_string()));
}

#[test]
fn bare_and_bracketed_links() {
    let mut p = Parser::new();
    assert_eq!(
        p.parse_inline("see https://x.org now".to_string()),
        "see <a href=\"https://x.org\">https://x.org</a> now"
    );
    assert_eq!(
        p.parse_inline("https://x.org[the site] here".to_string()),
        "<a href=\"https://x.org\">the site</a> here"
    );
    assert_eq!(
        p.parse_inline("go to http://x.org/a_b_c".to_string()),
        "go to <a href=\"http://x.org/a_b_c\">http://x.org/a_b_c</a>"
    );
}

#[test]
fn default_parser_is_fresh() {
    let mut p = Parser::default();
    assert!(p.current_block().is_none());
    assert!(p.current_parent_block().is_none());
    p.finish();
    assert_eq!(p.markup().as_str(), "");
}

#[test]
fn unicode_whitespace_line_is_blank() {
    let mut p = Parser::new();
    p.parse_line("x");
    p.parse_line("\u{a0}\u{3000} \u{b}");
    assert_eq!(p.markup().as_str(), "<p>x</p>");
    assert!(p.current_block().is_none());
    assert!(p.current_parent_block().is_none());
}

#[test]
fn unicode_whitespace_separates_words() {
    let html = to_html(&lines(&["=\u{2003}a\u{a0}b"]));
    assert_eq!(html, "<h1>a b</h1>");
}
