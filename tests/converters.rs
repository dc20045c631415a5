use pulldown_cmark as cm;
use pullup::convert::{convert, ConvertText, Stage};
use pullup::images::ConvertImages;
use pullup::markdown::{
    Alignment, CodeBlockKind, Event as MdEvent, HeadingLevel, LinkType as MdLinkType,
    ParserEvent, Tag as MdTag,
};
use pullup::typst::{
    self, Bookmarks, CodeBlockDisplay, Event as TypstEvent, QuoteQuotes, QuoteType,
    TableCellAlignment, TableOfContents, Tag as TypstTag,
};
use ParserEvent::{Markdown, Typst};

fn tag(t: cm::Tag) -> MdTag {
    match t {
        cm::Tag::Paragraph => MdTag::Paragraph,
        cm::Tag::Heading(l, id, classes) => MdTag::Heading(
            match l {
                cm::HeadingLevel::H1 => HeadingLevel::H1,
                cm::HeadingLevel::H2 => HeadingLevel::H2,
                cm::HeadingLevel::H3 => HeadingLevel::H3,
                cm::HeadingLevel::H4 => HeadingLevel::H4,
                cm::HeadingLevel::H5 => HeadingLevel::H5,
                cm::HeadingLevel::H6 => HeadingLevel::H6,
            },
            id.map(|s| s.to_string()),
            classes.iter().map(|s| s.to_string()).collect(),
        ),
        cm::Tag::BlockQuote => MdTag::BlockQuote,
        cm::Tag::CodeBlock(cm::CodeBlockKind::Indented) => MdTag::CodeBlock(CodeBlockKind::Indented),
        cm::Tag::CodeBlock(cm::CodeBlockKind::Fenced(f)) => {
            MdTag::CodeBlock(CodeBlockKind::Fenced(f.to_string()))
        }
        cm::Tag::List(n) => MdTag::List(n),
        cm::Tag::Item => MdTag::Item,
        cm::Tag::FootnoteDefinition(s) => MdTag::FootnoteDefinition(s.to_string()),
        cm::Tag::Table(a) => MdTag::Table(
            a.iter()
                .map(|a| match a {
                    cm::Alignment::None => Alignment::Unset,
                    cm::Alignment::Left => Alignment::Left,
                    cm::Alignment::Center => Alignment::Center,
                    cm::Alignment::Right => Alignment::Right,
                })
                .collect(),
        ),
        cm::Tag::TableHead => MdTag::TableHead,
        cm::Tag::TableRow => MdTag::TableRow,
        cm::Tag::TableCell => MdTag::TableCell,
        cm::Tag::Emphasis => MdTag::Emphasis,
        cm::Tag::Strong => MdTag::Strong,
        cm::Tag::Strikethrough => MdTag::Strikethrough,
        cm::Tag::Link(k, u, t) => MdTag::Link(link_type(k), u.to_string(), t.to_string()),
        cm::Tag::Image(k, u, t) => MdTag::Image(link_type(k), u.to_string(), t.to_string()),
    }
}

fn link_type(k: cm::LinkType) -> MdLinkType {
    match k {
        cm::LinkType::Inline => MdLinkType::Inline,
        cm::LinkType::Reference => MdLinkType::Reference,
        cm::LinkType::ReferenceUnknown => MdLinkType::ReferenceUnknown,
        cm::LinkType::Collapsed => MdLinkType::Collapsed,
        cm::LinkType::CollapsedUnknown => MdLinkType::CollapsedUnknown,
        cm::LinkType::Shortcut => MdLinkType::Shortcut,
        cm::LinkType::ShortcutUnknown => MdLinkType::ShortcutUnknown,
        cm::LinkType::Autolink => MdLinkType::Autolink,
        cm::LinkType::Email => MdLinkType::Email,
    }
}

fn event(e: cm::Event) -> ParserEvent {
    Markdown(match e {
        cm::Event::Start(t) => MdEvent::Start(tag(t)),
        cm::Event::End(t) => MdEvent::End(tag(t)),
        cm::Event::Text(s) => MdEvent::Text(s.to_string()),
        cm::Event::Code(s) => MdEvent::Code(s.to_string()),
        cm::Event::Html(s) => MdEvent::Html(s.to_string()),
        cm::Event::FootnoteReference(s) => MdEvent::FootnoteReference(s.to_string()),
        cm::Event::SoftBreak => MdEvent::SoftBreak,
        cm::Event::HardBreak => MdEvent::HardBreak,
        cm::Event::Rule => MdEvent::Rule,
        cm::Event::TaskListMarker(b) => MdEvent::TaskListMarker(b),
    })
}

fn parse(md: &str) -> Vec<ParserEvent> {
    cm::Parser::new(md).map(event).collect()
}

fn parse_tables(md: &str) -> Vec<ParserEvent> {
    cm::Parser::new_ext(md, cm::Options::ENABLE_TABLES).map(event).collect()
}

fn mtext(s: &str) -> ParserEvent {
    Markdown(MdEvent::Text(s.into()))
}

fn ttext(s: &str) -> ParserEvent {
    Typst(TypstEvent::Text(s.into()))
}

fn heading(n: u8) -> TypstTag {
    TypstTag::Heading(n, TableOfContents::Include, Bookmarks::Include)
}

fn md_heading(l: HeadingLevel) -> MdTag {
    MdTag::Heading(l, None, vec![])
}

fn quote() -> TypstTag {
    TypstTag::Quote(QuoteType::Block, QuoteQuotes::Auto, None)
}

fn is_image(e: &ParserEvent) -> bool {
    matches!(e, Typst(TypstEvent::FunctionCall(_, f, _)) if f == "image")
}

#[test]
fn convert_headings() {
    let md = "\
# Greetings

## This is **rad**!
";
    assert_eq!(
        convert(Stage::Headings, parse(md)),
        vec![
            Typst(TypstEvent::Start(heading(1))),
            mtext("Greetings"),
            Typst(TypstEvent::End(heading(1))),
            Typst(TypstEvent::Start(heading(2))),
            mtext("This is "),
            Markdown(MdEvent::Start(MdTag::Strong)),
            mtext("rad"),
            Markdown(MdEvent::End(MdTag::Strong)),
            mtext("!"),
            Typst(TypstEvent::End(heading(2))),
        ]
    );
}

#[test]
fn typst_inline() {
    let md = "\
Cool [beans](https://example.com)
";
    let link = TypstTag::Link(typst::LinkType::Content, "https://example.com".into());
    assert_eq!(
        convert(Stage::Links, parse(md)),
        vec![
            Markdown(MdEvent::Start(MdTag::Paragraph)),
            mtext("Cool "),
            Typst(TypstEvent::Start(link.clone())),
            mtext("beans"),
            Typst(TypstEvent::End(link)),
            Markdown(MdEvent::End(MdTag::Paragraph)),
        ]
    );
}

#[test]
fn auto() {
    let md = "\
Cool <https://example.com>
";
    let link = TypstTag::Link(typst::LinkType::Autolink, "https://example.com".into());
    assert_eq!(
        convert(Stage::Links, parse(md)),
        vec![
            Markdown(MdEvent::Start(MdTag::Paragraph)),
            mtext("Cool "),
            Typst(TypstEvent::Start(link.clone())),
            mtext("https://example.com"),
            Typst(TypstEvent::End(link)),
            Markdown(MdEvent::End(MdTag::Paragraph)),
        ]
    );
}

#[test]
fn email() {
    let md = "\
Who are <you@example.com>
";
    let link = TypstTag::Link(typst::LinkType::Url, "mailto:you@example.com".into());
    assert_eq!(
        convert(Stage::Links, parse(md)),
        vec![
            Markdown(MdEvent::Start(MdTag::Paragraph)),
            mtext("Who are "),
            Typst(TypstEvent::Start(link.clone())),
            mtext("you@example.com"),
            Typst(TypstEvent::End(link)),
            Markdown(MdEvent::End(MdTag::Paragraph)),
        ]
    );
}

#[test]
fn reference_links_are_dropped() {
    let md = "\
See [it][r].

[r]: https://example.com
";
    let out = convert(Stage::Links, parse(md));
    assert!(!out
        .iter()
        .any(|e| matches!(e, Markdown(MdEvent::Start(MdTag::Link(..))) | Typst(TypstEvent::Start(TypstTag::Link(..))))));
    assert!(out.contains(&mtext("it")));
}

#[test]
fn convert_strong() {
    let md = "\
## **Foo**

I **love** cake!
";
    assert_eq!(
        convert(Stage::Strong, parse(md)),
        vec![
            Markdown(MdEvent::Start(md_heading(HeadingLevel::H2))),
            Typst(TypstEvent::Start(TypstTag::Strong)),
            mtext("Foo"),
            Typst(TypstEvent::End(TypstTag::Strong)),
            Markdown(MdEvent::End(md_heading(HeadingLevel::H2))),
            Markdown(MdEvent::Start(MdTag::Paragraph)),
            mtext("I "),
            Typst(TypstEvent::Start(TypstTag::Strong)),
            mtext("love"),
            Typst(TypstEvent::End(TypstTag::Strong)),
            mtext(" cake!"),
            Markdown(MdEvent::End(MdTag::Paragraph)),
        ]
    );
}

#[test]
fn convert_emphasis() {
    let md = "\
## _Foo_

I *love* cake!
";
    assert_eq!(
        convert(Stage::Emphasis, parse(md)),
        vec![
            Markdown(MdEvent::Start(md_heading(HeadingLevel::H2))),
            Typst(TypstEvent::Start(TypstTag::Emphasis)),
            mtext("Foo"),
            Typst(TypstEvent::End(TypstTag::Emphasis)),
            Markdown(MdEvent::End(md_heading(HeadingLevel::H2))),
            Markdown(MdEvent::Start(MdTag::Paragraph)),
            mtext("I "),
            Typst(TypstEvent::Start(TypstTag::Emphasis)),
            mtext("love"),
            Typst(TypstEvent::End(TypstTag::Emphasis)),
            mtext(" cake!"),
            Markdown(MdEvent::End(MdTag::Paragraph)),
        ]
    );
}

#[test]
fn typst_inline_code() {
    let md = "\
foo `bar` baz
";
    assert_eq!(
        convert(Stage::Code, parse(md)),
        vec![
            Markdown(MdEvent::Start(MdTag::Paragraph)),
            mtext("foo "),
            Typst(TypstEvent::Code("bar".into())),
            mtext(" baz"),
            Markdown(MdEvent::End(MdTag::Paragraph)),
        ]
    );
}

#[test]
fn block_indent() {
    let md = "\
whatever

    code 1
    code 2
";
    let block = TypstTag::CodeBlock(None, CodeBlockDisplay::Block);
    assert_eq!(
        convert(Stage::Code, parse(md)),
        vec![
            Markdown(MdEvent::Start(MdTag::Paragraph)),
            mtext("whatever"),
            Markdown(MdEvent::End(MdTag::Paragraph)),
            Typst(TypstEvent::Start(block.clone())),
            mtext("code 1\n"),
            mtext("code 2\n"),
            Typst(TypstEvent::End(block)),
        ]
    );
}

#[test]
fn block() {
    let md = "\
```
blah
```
";
    let block = TypstTag::CodeBlock(None, CodeBlockDisplay::Block);
    assert_eq!(
        convert(Stage::Code, parse(md)),
        vec![
            Typst(TypstEvent::Start(block.clone())),
            mtext("blah\n"),
            Typst(TypstEvent::End(block)),
        ]
    );
}

#[test]
fn block_with_fence() {
    let md = "\
```foo
blah
```
";
    let block = TypstTag::CodeBlock(Some("foo".into()), CodeBlockDisplay::Block);
    assert_eq!(
        convert(Stage::Code, parse(md)),
        vec![
            Typst(TypstEvent::Start(block.clone())),
            mtext("blah\n"),
            Typst(TypstEvent::End(block)),
        ]
    );
}

#[test]
fn convert_text() {
    let md = "\
foo

bar

baz
";
    assert_eq!(
        ConvertText::new(parse(md)).into_events(),
        vec![
            Markdown(MdEvent::Start(MdTag::Paragraph)),
            ttext("foo"),
            Markdown(MdEvent::End(MdTag::Paragraph)),
            Markdown(MdEvent::Start(MdTag::Paragraph)),
            ttext("bar"),
            Markdown(MdEvent::End(MdTag::Paragraph)),
            Markdown(MdEvent::Start(MdTag::Paragraph)),
            ttext("baz"),
            Markdown(MdEvent::End(MdTag::Paragraph)),
        ]
    );
}

#[test]
fn text_drops_bracket_math_outside_code() {
    let events = vec![
        mtext("  \\[x^2\\] "),
        mtext("kept"),
        Markdown(MdEvent::Start(MdTag::CodeBlock(CodeBlockKind::Indented))),
        mtext("\\[in code\\]"),
        Markdown(MdEvent::End(MdTag::CodeBlock(CodeBlockKind::Indented))),
    ];
    assert_eq!(
        ConvertText::new(events).into_events(),
        vec![
            ttext("kept"),
            Markdown(MdEvent::Start(MdTag::CodeBlock(CodeBlockKind::Indented))),
            ttext("\\[in code\\]"),
            Markdown(MdEvent::End(MdTag::CodeBlock(CodeBlockKind::Indented))),
        ]
    );
}

#[test]
fn soft() {
    let md = "\
foo
bar
";
    assert_eq!(
        convert(Stage::SoftBreaks, parse(md)),
        vec![
            Markdown(MdEvent::Start(MdTag::Paragraph)),
            mtext("foo"),
            ttext(" "),
            mtext("bar"),
            Markdown(MdEvent::End(MdTag::Paragraph)),
        ]
    );
}

#[test]
fn hard() {
    let md = "foo  \nbar\n";
    assert_eq!(
        convert(Stage::HardBreaks, parse(md)),
        vec![
            Markdown(MdEvent::Start(MdTag::Paragraph)),
            mtext("foo"),
            Typst(TypstEvent::Linebreak),
            mtext("bar"),
            Markdown(MdEvent::End(MdTag::Paragraph)),
        ]
    );
}

#[test]
fn convert_paragraphs() {
    let md = "\
foo

bar

baz
";
    assert_eq!(
        convert(Stage::Paragraphs, parse(md)),
        vec![
            Typst(TypstEvent::Start(TypstTag::Paragraph)),
            mtext("foo"),
            Typst(TypstEvent::End(TypstTag::Paragraph)),
            Typst(TypstEvent::Start(TypstTag::Paragraph)),
            mtext("bar"),
            Typst(TypstEvent::End(TypstTag::Paragraph)),
            Typst(TypstEvent::Start(TypstTag::Paragraph)),
            mtext("baz"),
            Typst(TypstEvent::End(TypstTag::Paragraph)),
        ]
    );
}

fn item(text: &str) -> Vec<ParserEvent> {
    vec![
        Typst(TypstEvent::Start(TypstTag::Item)),
        mtext(text),
        Typst(TypstEvent::End(TypstTag::Item)),
    ]
}

#[test]
fn bullet() {
    let md = "\
* dogs
* are
* cool
";
    let list = TypstTag::BulletList(None, false);
    let mut expected = vec![Typst(TypstEvent::Start(list.clone()))];
    expected.extend(item("dogs"));
    expected.extend(item("are"));
    expected.extend(item("cool"));
    expected.push(Typst(TypstEvent::End(list)));
    assert_eq!(convert(Stage::Lists, parse(md)), expected);
}

#[test]
fn numbered() {
    let md = "\
1. cats are _too_
2. birds are ok
";
    let list = TypstTag::NumberedList(1, None, false);
    let mut expected = vec![
        Typst(TypstEvent::Start(list.clone())),
        Typst(TypstEvent::Start(TypstTag::Item)),
        mtext("cats are "),
        Markdown(MdEvent::Start(MdTag::Emphasis)),
        mtext("too"),
        Markdown(MdEvent::End(MdTag::Emphasis)),
        Typst(TypstEvent::End(TypstTag::Item)),
    ];
    expected.extend(item("birds are ok"));
    expected.push(Typst(TypstEvent::End(list)));
    assert_eq!(convert(Stage::Lists, parse(md)), expected);
}

#[test]
fn numbered_custom_start() {
    let md = "\
6. foo
1. bar
";
    let list = TypstTag::NumberedList(6, None, false);
    let mut expected = vec![Typst(TypstEvent::Start(list.clone()))];
    expected.extend(item("foo"));
    expected.extend(item("bar"));
    expected.push(Typst(TypstEvent::End(list)));
    assert_eq!(convert(Stage::Lists, parse(md)), expected);
}

#[test]
fn multiple_lines() {
    let md = "\
* multiple
  lines
";
    let list = TypstTag::BulletList(None, false);
    assert_eq!(
        convert(Stage::Lists, parse(md)),
        vec![
            Typst(TypstEvent::Start(list.clone())),
            Typst(TypstEvent::Start(TypstTag::Item)),
            mtext("multiple"),
            Markdown(MdEvent::SoftBreak),
            mtext("lines"),
            Typst(TypstEvent::End(TypstTag::Item)),
            Typst(TypstEvent::End(list)),
        ]
    );
}

#[test]
fn backslashes_in_backticks() {
    let md = r###"before `\` after"###;
    assert_eq!(
        ConvertText::new(parse(md)).into_events(),
        vec![
            Markdown(MdEvent::Start(MdTag::Paragraph)),
            ttext("before "),
            Markdown(MdEvent::Code(r#"\"#.into())),
            ttext(" after"),
            Markdown(MdEvent::End(MdTag::Paragraph)),
        ]
    );
}

#[test]
fn simple_blockquote() {
    let md = "> test";
    assert_eq!(
        convert(Stage::BlockQuotes, parse(md)),
        vec![
            Typst(TypstEvent::Start(quote())),
            Markdown(MdEvent::Start(MdTag::Paragraph)),
            mtext("test"),
            Markdown(MdEvent::End(MdTag::Paragraph)),
            Typst(TypstEvent::End(quote())),
        ]
    );
}

#[test]
fn complex_blockquote() {
    let md = "> one\n> two\n> three";
    assert_eq!(
        convert(Stage::BlockQuotes, parse(md)),
        vec![
            Typst(TypstEvent::Start(quote())),
            Markdown(MdEvent::Start(MdTag::Paragraph)),
            mtext("one"),
            Markdown(MdEvent::SoftBreak),
            mtext("two"),
            Markdown(MdEvent::SoftBreak),
            mtext("three"),
            Markdown(MdEvent::End(MdTag::Paragraph)),
            Typst(TypstEvent::End(quote())),
        ]
    );
}

#[test]
fn convert_image() {
    let md = "\


![](./images/infeed/image2.png)
";
    let events = ConvertImages::new(parse(md)).into_events();
    let pos = events.iter().position(is_image);
    assert!(pos.is_some(), "Should find image function call");
    let after = &events[pos.unwrap() + 1..];
    assert!(
        !after.iter().any(|e| matches!(e, Markdown(MdEvent::Text(t)) if t.is_empty())),
        "Alt text after image should be skipped"
    );
}

#[test]
fn convert_image_without_prefix() {
    let md = "![alt text](images/test.png)";
    let events = ConvertImages::new(parse(md)).into_events();
    let image_call = events.iter().find(|e| is_image(e));
    assert!(image_call.is_some(), "Should find image function call");
    if let Some(Typst(TypstEvent::FunctionCall(_, _, args))) = image_call {
        assert_eq!(args[0].as_str(), "\"images/test.png\"");
    }
}

#[test]
fn convert_image_skips_alt_text() {
    let md = "![This is alt text](image.png)";
    let events = ConvertImages::new(parse(md)).into_events();
    assert!(!events.contains(&mtext("This is alt text")), "Alt text should be skipped");
    assert!(events.iter().any(is_image), "Should find image function call");
}

#[test]
fn convert_image_in_paragraph_closes_paragraph() {
    let md = "Some text ![alt text](image.png) more text";
    let events = ConvertImages::new(convert(Stage::Paragraphs, parse(md))).into_events();
    assert!(events.iter().any(is_image), "Should find image function call");
}

fn cells(texts: &[&str]) -> Vec<ParserEvent> {
    let mut v = Vec::new();
    for t in texts {
        v.push(Typst(TypstEvent::Start(TypstTag::TableCell)));
        v.push(mtext(t));
        v.push(Typst(TypstEvent::End(TypstTag::TableCell)));
    }
    v
}

fn table_events(alignment: Vec<TableCellAlignment>) -> Vec<ParserEvent> {
    let mut v = vec![
        Typst(TypstEvent::Start(TypstTag::Table(alignment.clone()))),
        Typst(TypstEvent::Start(TypstTag::TableHead)),
    ];
    v.extend(cells(&["Header1", "Header2"]));
    v.push(Typst(TypstEvent::End(TypstTag::TableHead)));
    v.push(Typst(TypstEvent::Start(TypstTag::TableRow)));
    v.extend(cells(&["Cell1", "Cell2"]));
    v.push(Typst(TypstEvent::End(TypstTag::TableRow)));
    v.push(Typst(TypstEvent::End(TypstTag::Table(alignment))));
    v
}

#[test]
fn simple_table() {
    let md = "\
| Header1 | Header2 |
|---------|---------|
| Cell1   | Cell2   |
";
    assert_eq!(
        convert(Stage::Tables, parse_tables(md)),
        table_events(vec![TableCellAlignment::Unset, TableCellAlignment::Unset])
    );
}

#[test]
fn table_with_alignment() {
    let md = "\
| Header1 | Header2 |
|:--------|:-------:|
| Cell1   | Cell2   |
";
    assert_eq!(
        convert(Stage::Tables, parse_tables(md)),
        table_events(vec![TableCellAlignment::Left, TableCellAlignment::Center])
    );
}

// ---------------------------------------------------------------------------
// Whole pipelines.
// ---------------------------------------------------------------------------

use pullup::markup::{push_markup, TypstMarkup};
use pullup::merge::MergeConsecutiveParagraphs;

fn typst_only(events: Vec<ParserEvent>) -> Vec<TypstEvent> {
    events
        .into_iter()
        .filter_map(|e| match e {
            Typst(te) => Some(te),
            _ => None,
        })
        .collect()
}

fn markup(events: Vec<ParserEvent>) -> String {
    TypstMarkup::new(typst_only(events)).into_string()
}

fn prose_pipeline(events: Vec<ParserEvent>) -> Vec<ParserEvent> {
    let e = convert(Stage::Paragraphs, events);
    let e = convert(Stage::SoftBreaks, e);
    let e = convert(Stage::HardBreaks, e);
    let e = ConvertText::new(e).into_events();
    ConvertImages::new(e).into_events()
}

fn merged_pipeline(md: &str) -> String {
    markup(MergeConsecutiveParagraphs::new(prose_pipeline(parse(md))).into_events())
}

const ACK: &str = "Ack消息的重发逻辑：  

标记为需要ack的消息发出后，接收方需要在100ms内进行消息的ack回复，如果发送方在100ms内未接收到ack消息，发送方需要自动重发当前消息，消息的消息序列号保持不变；持续重试3次后，如果无法送达，作丢弃处理	";

#[test]
fn test_image_after_text_in_same_paragraph() {
    let md = "\
整体交互流程图

![整体交互流程图](./images/infeed/image2.png)
";
    let events = ConvertImages::new(
        ConvertText::new(convert(Stage::Paragraphs, parse(md))).into_events(),
    )
    .into_events();
    let mut found_paragraph_start = false;
    let mut found_text = false;
    let mut found_paragraph_end_before_image = false;
    let mut found_image = false;
    for event in &events {
        match event {
            Typst(TypstEvent::Start(TypstTag::Paragraph)) if !found_paragraph_start => {
                found_paragraph_start = true;
            }
            Typst(TypstEvent::Text(_)) if found_paragraph_start && !found_text => {
                found_text = true;
            }
            Typst(TypstEvent::End(TypstTag::Paragraph)) if found_text && !found_image => {
                found_paragraph_end_before_image = true;
            }
            e if is_image(e) => {
                found_image = true;
            }
            _ => {}
        }
    }
    assert!(found_paragraph_start, "Should find paragraph start");
    assert!(found_text, "Should find text");
    assert!(found_paragraph_end_before_image, "Paragraph should be closed before image");
    assert!(found_image, "Should find image function call");

    let output = markup(events);
    assert!(output.contains("#par()[整体交互流程图]"), "Should have paragraph with text");
    assert!(output.contains("#image(\"images/infeed/image2.png\")"), "Should have image");
    assert!(
        !output.contains("#par()[整体交互流程图#linebreak()"),
        "Should not have linebreak before closing paragraph"
    );
}

#[test]
fn test_image_in_table_cell() {
    let md = "| Header1 | Header2 |
|---------|---------|
| Cell1   | ![Image](./test.png) |
";
    let events = ConvertImages::new(
        ConvertText::new(convert(Stage::Paragraphs, convert(Stage::Tables, parse_tables(md))))
            .into_events(),
    )
    .into_events();
    let output = markup(events);
    assert!(output.contains("#table"), "Should have table");
    assert!(output.contains("#image"), "Should have image");
}

#[test]
fn test_standalone_image_no_empty_paragraph() {
    let md = "![image](./images/spx/image1.png)";
    let events = ConvertText::new(
        ConvertImages::new(convert(Stage::Paragraphs, parse(md))).into_events(),
    )
    .into_events();
    let output = markup(events);
    assert!(!output.contains("#par()[]"), "Should not have empty paragraph. Got: {}", output);
    assert!(
        output.contains("#image(\"images/spx/image1.png\")"),
        "Should have image. Got: {}",
        output
    );
    assert_eq!(output, "#image(\"images/spx/image1.png\")\n", "Output should be just image");
}

#[test]
fn test_paragraph_merge_all_scenarios() {
    let output1 = markup(prose_pipeline(parse(ACK)));
    assert_eq!(
        output1.matches("#par()[").count(),
        2,
        "Without MergeConsecutiveParagraphs, should have 2 paragraphs"
    );

    let output2 = merged_pipeline(ACK);
    assert_eq!(
        output2.matches("#par()[").count(),
        1,
        "With MergeConsecutiveParagraphs, should have 1 paragraph"
    );
    assert!(
        !output2.contains("#par()[标记为需要ack的消息发出后"),
        "Content should not be wrapped in an extra #par()[]"
    );

    let e = convert(Stage::Paragraphs, parse(ACK));
    let e = convert(Stage::SoftBreaks, e);
    let e = convert(Stage::HardBreaks, e);
    let e = ConvertImages::new(e).into_events();
    let e = ConvertText::new(e).into_events();
    let output3 = markup(MergeConsecutiveParagraphs::new(e).into_events());
    assert_eq!(
        output3.matches("#par()[").count(),
        1,
        "With MergeConsecutiveParagraphs in different order, should have 1 paragraph"
    );
}

#[test]
fn example_how_to_use_merge_consecutive_paragraphs() {
    let output = merged_pipeline(ACK);
    assert_eq!(output.matches("#par()[").count(), 1, "Should have exactly one paragraph. Got: {}", output);
    assert!(
        !output.contains("#par()[标记为需要ack的消息发出后"),
        "Content should not be wrapped in an extra paragraph. Got: {}",
        output
    );
}

#[test]
fn test_paragraph_with_linebreak_and_content() {
    let md = "Ack消息的重发逻辑：  



标记为需要ack的消息发出后，接收方需要在100ms内进行消息的ack回复，如果发送方在100ms内未接收到ack消息，发送方需要自动重发当前消息，消息的消息序列号保持不变；持续重试3次后，如果无法送达，作丢弃处理	";
    let output = merged_pipeline(md);
    assert!(
        !output.contains("#par()[标记为需要ack的消息发出后"),
        "Content should not be wrapped in an extra #par()[]"
    );
    assert!(output.contains("#par()[Ack消息的重发逻辑："), "Should have paragraph with title");
    assert!(
        output.contains("标记为需要ack的消息发出后，接收方需要在100ms内进行消息的ack回复"),
        "Should contain the expected content"
    );
    let par_count = output.matches("#par()[").count();
    assert_eq!(par_count, 1, "Should have exactly one #par()[], but found {}", par_count);
}

#[test]
fn test_multiple_paragraphs_should_merge() {
    let md = "返回码定义：
0表示验证成功
其他状态表示失败，连接需要被断开";
    let e = convert(Stage::Headings, parse(md));
    let e = convert(Stage::Paragraphs, e);
    let e = convert(Stage::SoftBreaks, e);
    let e = convert(Stage::HardBreaks, e);
    let e = ConvertText::new(e).into_events();
    let e = ConvertImages::new(e).into_events();
    let e = convert(Stage::Links, e);
    let output = markup(MergeConsecutiveParagraphs::new(e).into_events());
    let par_count = output.matches("#par()[").count();
    assert!(
        !output.contains("#par()[0表示验证成功"),
        "Should not have separate paragraph for '0表示验证成功'. Output:\n{}",
        output
    );
    assert!(
        !output.contains("#par()[其他状态表示失败"),
        "Should not have separate paragraph for '其他状态表示失败'. Output:\n{}",
        output
    );
    assert!(
        output.contains("#par()[返回码定义："),
        "Should have paragraph with '返回码定义：'. Output:\n{}",
        output
    );
    assert_eq!(par_count, 1, "Should have exactly ONE paragraph, but found {}. Output:\n{}", par_count, output);
}

#[test]
fn test_user_scenario_multiple_paragraphs() {
    let md = "对于未部署 PLC 的小件快手台，Vendor 无法通过 TCP 协议将图片信息推送给 WCS，此时需要通过该接口进行推送

请求路径：/api/ops/sort/upload_pic_with_detail

请求方式：POST

请求参数";
    let output = merged_pipeline(md);
    let par_count = output.matches("#par()[").count();
    assert_eq!(par_count, 1, "Should have exactly ONE paragraph, but found {}. Output:\n{}", par_count, output);
    assert!(!output.contains("#par()[请求路径"), "Should not have separate paragraph for '请求路径'. Output:\n{}", output);
    assert!(!output.contains("#par()[请求方式"), "Should not have separate paragraph for '请求方式'. Output:\n{}", output);
    assert!(!output.contains("#par()[请求参数"), "Should not have separate paragraph for '请求参数'. Output:\n{}", output);
    assert!(output.contains("对于未部署 PLC"), "Should contain first line. Output:\n{}", output);
    assert!(output.contains("请求路径：/api/ops/sort/upload"), "Should contain second line. Output:\n{}", output);
    assert!(output.contains("请求方式：POST"), "Should contain third line. Output:\n{}", output);
    assert!(output.contains("请求参数"), "Should contain fourth line. Output:\n{}", output);
}

// ---------------------------------------------------------------------------
// Scenarios and edge cases.
// ---------------------------------------------------------------------------

#[test]
fn table_cells_wait_for_their_row() {
    let unset = TableCellAlignment::Unset;
    let input = vec![
        TypstEvent::Start(TypstTag::Table(vec![unset, unset])),
        TypstEvent::Start(TypstTag::TableRow),
        TypstEvent::Start(TypstTag::TableCell),
        TypstEvent::Text("A".into()),
        TypstEvent::End(TypstTag::TableCell),
        TypstEvent::Start(TypstTag::TableCell),
        TypstEvent::Text("B".into()),
        TypstEvent::End(TypstTag::TableCell),
        TypstEvent::End(TypstTag::TableRow),
        TypstEvent::End(TypstTag::Table(vec![unset, unset])),
    ];
    let mut m = TypstMarkup::new(input);
    let fragments: Vec<String> = std::iter::from_fn(|| m.next()).collect();
    // Nothing of a cell comes out before its row closes.
    assert_eq!(fragments[1..8].concat(), "");
    assert_eq!(fragments.concat(), "#table(\n  columns: 2,\n  [A], [B],\n)\n");
}

#[test]
fn image_alone_in_paragraph_has_no_paragraph() {
    let output = markup(prose_pipeline(parse("![](p)")));
    assert_eq!(output, "#image(\"p\")\n");
    assert!(!output.contains("#par()["));
}

#[test]
fn image_after_prose_closes_paragraph() {
    let output = markup(prose_pipeline(parse("prose ![](p)")));
    assert_eq!(output, "#par()[prose ]\n#image(\"p\")\n");
}

#[test]
fn heading_label_resolves_before_and_after_heading() {
    let h = heading(1);
    let link = TypstTag::Link(typst::LinkType::Content, "#My Heading".into());
    let heading_events = vec![
        TypstEvent::Start(h.clone()),
        TypstEvent::Text("My Heading".into()),
        TypstEvent::End(h),
    ];
    let link_events = vec![
        TypstEvent::Start(TypstTag::Paragraph),
        TypstEvent::Start(link.clone()),
        TypstEvent::Text("go".into()),
        TypstEvent::End(link),
        TypstEvent::End(TypstTag::Paragraph),
    ];
    let after = TypstMarkup::new([heading_events.clone(), link_events.clone()].concat()).into_string();
    let before = TypstMarkup::new([link_events, heading_events].concat()).into_string();
    for out in [&after, &before] {
        assert!(out.contains("= My Heading <my-heading>\n"), "{}", out);
        assert!(out.contains("#link(<my-heading>)[go]"), "{}", out);
    }
}

#[test]
fn paragraphs_split_by_line_break_merge_into_one() {
    let output = merged_pipeline("first\n\nsecond");
    assert_eq!(output.matches("#par()[").count(), 1);
    assert_eq!(output, "#par()[first#linebreak()\nsecond]\n");
}

#[test]
fn merge_keeps_paragraphs_around_a_heading() {
    let e = convert(Stage::Headings, parse("one\n\n# Title\n\ntwo"));
    let output = merged_pipeline_events(e);
    assert_eq!(output.matches("#par()[").count(), 2, "{}", output);
}

fn merged_pipeline_events(events: Vec<ParserEvent>) -> String {
    markup(MergeConsecutiveParagraphs::new(prose_pipeline(events)).into_events())
}

#[test]
fn alignment_words() {
    let a = vec![
        TableCellAlignment::Left,
        TableCellAlignment::Center,
        TableCellAlignment::Right,
        TableCellAlignment::Unset,
    ];
    assert_eq!(
        pullup::markup::table_markup(&a),
        "#table(\n  columns: 4, align: (left, center, right, start),\n"
    );
    assert_eq!(
        pullup::markup::table_markup(&vec![TableCellAlignment::Unset; 12]),
        "#table(\n  columns: 12,\n"
    );
}

#[test]
fn code_block_text_is_not_escaped_and_nested_fences_grow() {
    let b = TypstTag::CodeBlock(Some("rs".into()), CodeBlockDisplay::Block);
    let input = vec![
        TypstEvent::Start(b.clone()),
        TypstEvent::Start(b.clone()),
        TypstEvent::Text("a_*#".into()),
        TypstEvent::End(b.clone()),
        TypstEvent::End(b),
        TypstEvent::Text("a_*#".into()),
    ];
    let mut s = String::from("old");
    push_markup(&mut s, input);
    assert_eq!(s, "old``````rs\n```````rs\na_*#```````\n``````\na \\_\\*\\#");
}

#[test]
fn escaped_cell_stars_are_not_doubled() {
    let input = vec![
        TypstEvent::Start(TypstTag::Table(vec![TableCellAlignment::Unset])),
        TypstEvent::Start(TypstTag::TableRow),
        TypstEvent::Start(TypstTag::TableCell),
        TypstEvent::Text("a*b".into()),
        TypstEvent::Raw(" c*d".into()),
        TypstEvent::End(TypstTag::TableCell),
        TypstEvent::End(TypstTag::TableRow),
        TypstEvent::End(TypstTag::Table(vec![TableCellAlignment::Unset])),
    ];
    assert_eq!(
        TypstMarkup::new(input).into_string(),
        "#table(\n  columns: 1,\n  [a\\*b c\\*d],\n)\n"
    );
}

#[test]
fn nested_markup_is_balanced() {
    let input = vec![
        TypstEvent::Start(TypstTag::Paragraph),
        TypstEvent::Start(TypstTag::Strong),
        TypstEvent::Start(TypstTag::Emphasis),
        TypstEvent::Text("x".into()),
        TypstEvent::End(TypstTag::Emphasis),
        TypstEvent::End(TypstTag::Strong),
        TypstEvent::Start(TypstTag::Quote(QuoteType::Inline, QuoteQuotes::Auto, None)),
        TypstEvent::Text("y".into()),
        TypstEvent::End(TypstTag::Quote(QuoteType::Inline, QuoteQuotes::Auto, None)),
        TypstEvent::End(TypstTag::Paragraph),
    ];
    let out = TypstMarkup::new(input).into_string();
    assert_eq!(out.matches('[').count(), out.matches(']').count());
    assert_eq!(out.matches('(').count(), out.matches(')').count());
    assert_eq!(out, "#par()[#strong[#emph[x]]#quote(block: false, quotes: auto,)[y]]\n");
}

#[test]
fn unfinished_row_is_flushed_at_the_end() {
    let input = vec![
        TypstEvent::Start(TypstTag::Table(vec![TableCellAlignment::Unset])),
        TypstEvent::Start(TypstTag::TableRow),
        TypstEvent::Start(TypstTag::TableCell),
        TypstEvent::Text("A".into()),
        TypstEvent::End(TypstTag::TableCell),
        TypstEvent::Start(TypstTag::TableCell),
        TypstEvent::End(TypstTag::TableCell),
    ];
    assert_eq!(TypstMarkup::new(input).into_string(), "#table(\n  columns: 1,\n[A], []");
}

#[test]
fn cell_line_breaks_and_comments_are_escaped() {
    assert_eq!(pullup::markup::cell_markup_of("  a<br>b<br/>c<br />d // e  "), "[a\\\nb\\\nc\\\nd \\/\\/ e]");
    assert_eq!(pullup::markup::cell_markup_of("   "), "[]");
}

#[test]
fn labels_fold_case_and_collapse_separators() {
    assert_eq!(pullup::text::generate_label_id("  Hello,   World -- Again "), "hello-world-again");
    assert_eq!(pullup::text::generate_label_id("a.b"), "a-b");
    assert_eq!(pullup::text::generate_label_id("snake_case! Über"), "snake-case-über");
    assert_eq!(pullup::text::generate_label_id("附录五-分拣机"), "附录五-分拣机");
    assert_eq!(pullup::text::collapse_separators("--a---b--"), "a-b");
    assert_eq!(pullup::text::generate_label_id(""), "");
}

#[test]
fn link_targets() {
    assert_eq!(pullup::link::process_link_url("/#Some Anchor"), "<some-anchor>");
    assert_eq!(pullup::link::process_link_url("..#Top"), "<top>");
    assert_eq!(pullup::link::process_link_url("./#"), "<>");
    assert_eq!(pullup::link::process_link_url("notes.markdown"), "notes.markdown");
    let mut labels = pullup::link::LabelTable::new();
    labels.insert("Intro".to_string(), "custom".to_string());
    assert_eq!(pullup::link::process_link_url_impl("#Intro", Some(&labels)), "<custom>");
    assert_eq!(pullup::link::process_link_url_impl("#intro", None), "<intro>");
}

#[test]
fn raw_and_escape() {
    assert_eq!(pullup::markup::raw_markup("a\"b\\c"), "#raw(\"a\\\"b\\\\c\")");
    assert_eq!(pullup::text::typst_escape("$#<>*_`@x"), "\\$\\#\\<\\>\\* \\_\\`\\@x");
    assert_eq!(pullup::text::trim_whitespace("\u{3000} x \t"), "x");
}

#[test]
fn show_let_set_and_calls() {
    let input = vec![
        TypstEvent::Start(TypstTag::Show(
            typst::ShowType::ShowSet,
            "heading".into(),
            Some(("text".into(), "size".into(), "12pt".into())),
            None,
        )),
        TypstEvent::End(TypstTag::Show(
            typst::ShowType::ShowSet,
            "heading".into(),
            Some(("text".into(), "size".into(), "12pt".into())),
            None,
        )),
        TypstEvent::Let("x".into(), "1".into()),
        TypstEvent::SetRule("text".into(), "font".into(), "\"A\"".into()),
        TypstEvent::DocumentSet("title".into(), "\"T\"".into()),
        TypstEvent::DocumentFunctionCall(vec!["a".into(), "b".into()]),
        TypstEvent::FunctionCall(Some("m".into()), "f".into(), vec!["1".into()]),
        TypstEvent::Parbreak,
        TypstEvent::PageBreak,
    ];
    assert_eq!(
        TypstMarkup::new(input).into_string(),
        "#show heading: set text(size:12pt)\n#let x = 1\n#set text(font: \"A\")\n#set document(title: \"T\")\n#document(a, b)\n#m.f(1)\n#parbreak()\n#pagebreak()\n"
    );
}

#[test]
fn lists_and_items() {
    let b = TypstTag::BulletList(None, false);
    let n = TypstTag::NumberedList(3, None, false);
    let input = vec![
        TypstEvent::Start(b.clone()),
        TypstEvent::Start(TypstTag::Item),
        TypstEvent::Text("a".into()),
        TypstEvent::End(TypstTag::Item),
        TypstEvent::End(b),
        TypstEvent::Start(n.clone()),
        TypstEvent::Start(TypstTag::Item),
        TypstEvent::Text("b".into()),
        TypstEvent::End(TypstTag::Item),
        TypstEvent::End(n),
    ];
    assert_eq!(TypstMarkup::new(input).into_string(), "- a\n+ b\n");
}

#[test]
fn test_table_with_anchor_link_and_paragraph() {
    let md = "## 消息头

| 位置 | 字段 | 类型 | 长度 | 说明 |
| :---- | :---- | :---- | :---- | :---- |
| 1 | MAGIC | UINT16 | 2 | 报文开始标识符 固定值：0x53,0x50 |
| 2 | 消息序列号 | UINT32 | 4 | 消息序列号，用于消息跟踪、调试，需要保证单个连接在4小时内序列号不重复 |
| 3 | 协议版本号 | UByte | 1 | 当前通讯协议版本号 |
| 4 | 机器类型 | UByte | 1 | 查看[分拣机机器类型表](#附录五-分拣机机器类型表) |
| 5 | 消息指令 | UINT16 | 2 | 消息指令，查看6.3章节 |
| 6 | 消息体长度 | UINT16 | 2 | 消息体payload长度 |
| 7 | 是否需要ACK | UByte | 1 | 该条消息是否需要ack |
| 8 | Reserved字段 | Byte[] | 8 | 保留字段，统一填充0x00 |
| 9 | 校验位 | Byte | 1 | 除了校验位外所有字节(消息头+消息体)的异或结果 |

Ack消息的重发逻辑：  

标记为需要ack的消息发出后，接收方需要在100ms内进行消息的ack回复，如果发送方在100ms内未接收到ack消息，发送方需要自动重发当前消息，消息的消息序列号保持不变；持续重试3次后，如果无法送达，作丢弃处理";
    let e = convert(Stage::Tables, parse_tables(md));
    let e = convert(Stage::Headings, e);
    let e = convert(Stage::Paragraphs, e);
    let e = convert(Stage::SoftBreaks, e);
    let e = convert(Stage::HardBreaks, e);
    let e = ConvertText::new(e).into_events();
    let e = ConvertImages::new(e).into_events();
    let e = convert(Stage::Links, e);
    let output = markup(MergeConsecutiveParagraphs::new(e).into_events());
    assert!(
        output.contains("#link(<附录五-分拣机机器类型表>)"),
        "Anchor link should use <label> syntax, not string. Output:\n{}",
        output
    );
    assert!(
        !output.contains("#link(\"#附录五-分拣机机器类型表\")"),
        "Anchor link should NOT use string syntax. Output:\n{}",
        output
    );
    assert!(
        !output.contains("#par()[标记为需要ack的消息发出后"),
        "Should not have separate paragraph for content after linebreak. Output:\n{}",
        output
    );
    assert!(
        output.contains("#par()[Ack消息的重发逻辑："),
        "Should have paragraph with title. Output:\n{}",
        output
    );
}

#[test]
fn inline_markup_stays_in_one_paragraph() {
    let out = pullup::pipeline::render_markdown_events(parse("a *b* c *d*"));
    assert_eq!(out, Some("#par()[a #emph[b] c #emph[d]]\n".to_string()));
}

#[test]
fn whole_pipeline_renders_headings_and_prose() {
    let out = pullup::pipeline::render_markdown_events(parse_tables(
        "# Title\n\nHello **world**, see [here](#Title).\n\n> quoted\n",
    ));
    assert_eq!(
        out,
        Some(
            "= Title <title>\n#par()[Hello #strong[world], see #link(<title>)[here].]\n#quote(block: true, quotes: auto,)[#par()[quoted]\n]\n"
                .to_string()
        )
    );
}

#[test]
fn malformed_stream_is_rejected() {
    let events = vec![
        TypstEvent::Start(TypstTag::Emphasis),
        TypstEvent::End(TypstTag::Strong),
    ];
    assert!(!pullup::check::check_events(&events));
    let item_outside_list = vec![TypstEvent::Start(TypstTag::Item)];
    assert!(!pullup::check::check_events(&item_outside_list));
    let ok = vec![
        TypstEvent::Start(TypstTag::Paragraph),
        TypstEvent::Text("x".into()),
        TypstEvent::FunctionCall(None, "image".into(), vec!["\"p\"".into()]),
        TypstEvent::End(TypstTag::Paragraph),
    ];
    assert!(pullup::check::check_events(&ok));
}

#[test]
fn inline_code_stays_in_its_cell() {
    let input = vec![
        TypstEvent::Start(TypstTag::Table(vec![TableCellAlignment::Unset])),
        TypstEvent::Start(TypstTag::TableRow),
        TypstEvent::Start(TypstTag::TableCell),
        TypstEvent::Code("x".into()),
        TypstEvent::End(TypstTag::TableCell),
        TypstEvent::End(TypstTag::TableRow),
        TypstEvent::End(TypstTag::Table(vec![TableCellAlignment::Unset])),
    ];
    assert_eq!(
        TypstMarkup::new(input).into_string(),
        "#table(\n  columns: 1,\n  [#raw(\"x\")],\n)\n"
    );
}

#[test]
fn image_splits_paragraph_and_reopens_it() {
    let img = MdTag::Image(MdLinkType::Inline, "p".into(), "".into());
    let input = vec![
        Typst(TypstEvent::Start(TypstTag::Paragraph)),
        ttext("a"),
        Markdown(MdEvent::Start(img.clone())),
        mtext("alt"),
        Markdown(MdEvent::End(img)),
        ttext("b"),
        Typst(TypstEvent::End(TypstTag::Paragraph)),
    ];
    assert_eq!(
        ConvertImages::new(input).into_events(),
        vec![
            Typst(TypstEvent::Start(TypstTag::Paragraph)),
            ttext("a"),
            Typst(TypstEvent::End(TypstTag::Paragraph)),
            Typst(TypstEvent::FunctionCall(None, "image".into(), vec!["\"p\"".into()])),
            Typst(TypstEvent::Start(TypstTag::Paragraph)),
            ttext("b"),
            Typst(TypstEvent::End(TypstTag::Paragraph)),
        ]
    );
}

#[test]
fn two_images_and_alt_text_with_breaks() {
    let md = "![one *x*\ny](./a.png) ![two](b.png)\n\ntext";
    let out = prose_pipeline(parse(md));
    let calls: Vec<_> = out.iter().filter(|e| is_image(e)).collect();
    assert_eq!(calls.len(), 2);
    assert!(!out.iter().any(|e| matches!(e, Typst(TypstEvent::Text(t)) if t == "one " || t == "y" || t == "x" || t == "two")));
    assert!(!out.iter().any(|e| matches!(e, Markdown(MdEvent::Start(MdTag::Image(..))) | Markdown(MdEvent::End(MdTag::Image(..))))));
    assert_eq!(
        markup(out),
        "#image(\"a.png\")\n#par()[ ]\n#image(\"b.png\")\n#par()[text]\n"
    );
}

#[test]
fn text_outside_paragraphs_passes_through_images() {
    let input = vec![mtext("a"), ttext("b"), Markdown(MdEvent::SoftBreak)];
    assert_eq!(ConvertImages::new(input.clone()).into_events(), input);
}

#[test]
fn empty_paragraph_passes_the_image_converter() {
    let input = vec![
        Typst(TypstEvent::Start(TypstTag::Paragraph)),
        Typst(TypstEvent::End(TypstTag::Paragraph)),
        ttext("x"),
    ];
    assert_eq!(ConvertImages::new(input.clone()).into_events(), input);
}

#[test]
fn paragraph_of_dropped_math_stays_empty() {
    let events = vec![
        Markdown(MdEvent::Start(MdTag::Paragraph)),
        mtext("\\[x^2\\]"),
        Markdown(MdEvent::End(MdTag::Paragraph)),
    ];
    assert_eq!(markup(prose_pipeline(events)), "#par()[]\n");
}
