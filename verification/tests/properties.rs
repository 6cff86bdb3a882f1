use prettify_cmark::event::{MdEvent, MdTag};
use prettify_cmark::{prettify, PrettyDisplay, PrettyPrinter};

fn assert_idempotent(source: &str) {
    let once = prettify(source);
    let twice = prettify(&once);
    assert_eq!(twice, once);
}

#[test]
fn idempotent_on_paragraphs() {
    assert_idempotent("Lorem ipsum\ndolor sit");
    assert_idempotent("Lorem ipsum\n\n\n\nDolor sit");
}

#[test]
fn idempotent_on_emphasis_and_code() {
    assert_idempotent("Lorem _ipsum_ dolor __sit__ `amet`");
}

#[test]
fn idempotent_on_lists_and_quotes() {
    assert_idempotent("- > Foo\n  >\n  > Bar\n- Baz\n- Quux");
    assert_idempotent("1. Foo\n\n   Bar\n2. Baz\n3. Quux");
    assert_idempotent("# Foo\nLorem ipsum\n\nBar\n---\n\nDolor sit amet");
}

#[test]
fn blank_lines_collapse_to_one() {
    assert_eq!(prettify("Lorem\n\n\n\n\nIpsum"), "Lorem\n\nIpsum");
}

#[test]
fn no_trailing_break_after_final_blocks() {
    let output = prettify("> - Foo");
    assert!(!output.ends_with('\n'));
    assert!(!output.ends_with(' '));
    assert_eq!(output, "> - Foo");
}

#[test]
fn ordinals_renumber_from_declared_start() {
    assert_eq!(prettify("3. Foo\n1. Bar\n7. Baz"), "3. Foo\n\n4. Bar\n\n5. Baz");
}

#[test]
fn pretty_display_renders_the_document() {
    let output = PrettyDisplay("Lorem __ipsum__ dolor `sit` amet!").to_string();
    assert_eq!(output, "Lorem **ipsum** dolor `sit` amet!");
}

#[test]
fn printer_prefixes_continuation_lines() {
    let events = vec![
        MdEvent::Start(MdTag::Paragraph),
        MdEvent::Text(String::from("Lorem ")),
        MdEvent::Start(MdTag::Emphasis),
        MdEvent::Text(String::from("ipsum")),
        MdEvent::End(MdTag::Emphasis),
        MdEvent::Text(String::from("!")),
        MdEvent::End(MdTag::Paragraph),
        MdEvent::Start(MdTag::Paragraph),
        MdEvent::Text(String::from("Dolor ")),
        MdEvent::Start(MdTag::InlineCode),
        MdEvent::Text(String::from("sit")),
        MdEvent::End(MdTag::InlineCode),
        MdEvent::Text(String::from(".")),
        MdEvent::End(MdTag::Paragraph),
    ];
    let mut printer = PrettyPrinter::new_with_prefix(String::new(), "/// ");
    printer.push_events(&events).unwrap();
    assert_eq!(printer.into_inner(), "Lorem *ipsum*!\n/// \n/// Dolor `sit`.");
}

#[test]
fn default_printer_starts_empty() {
    let mut printer = PrettyPrinter::default();
    printer
        .push_events(&vec![
            MdEvent::Start(MdTag::Heading(2)),
            MdEvent::Text(String::from("Title")),
            MdEvent::End(MdTag::Heading(2)),
        ])
        .unwrap();
    assert_eq!(printer.into_inner(), "## Title");
}

#[test]
fn strong_spelling_is_normalised_eventwise() {
    let mut printer = PrettyPrinter::default();
    printer
        .push_events(&vec![
            MdEvent::Start(MdTag::Paragraph),
            MdEvent::Start(MdTag::Strong),
            MdEvent::Text(String::from("bold")),
            MdEvent::End(MdTag::Strong),
            MdEvent::End(MdTag::Paragraph),
        ])
        .unwrap();
    assert_eq!(printer.into_inner(), "**bold**");
}

#[test]
fn trailing_closes_emit_nothing() {
    let mut printer = PrettyPrinter::default();
    printer
        .push_events(&vec![
            MdEvent::Start(MdTag::BlockQuote),
            MdEvent::Start(MdTag::List(None)),
            MdEvent::Start(MdTag::Item),
            MdEvent::Text(String::from("Foo")),
            MdEvent::End(MdTag::Item),
            MdEvent::End(MdTag::List(None)),
            MdEvent::End(MdTag::BlockQuote),
        ])
        .unwrap();
    assert_eq!(printer.into_inner(), "> - Foo");
}

#[test]
fn link_title_quoted_only_when_present() {
    let mut printer = PrettyPrinter::default();
    printer
        .push_events(&vec![
            MdEvent::Start(MdTag::Paragraph),
            MdEvent::Start(MdTag::Link(String::from("a.com"), String::new())),
            MdEvent::Text(String::from("a")),
            MdEvent::End(MdTag::Link(String::from("a.com"), String::new())),
            MdEvent::Start(MdTag::Link(String::from("b.com"), String::from("t"))),
            MdEvent::Text(String::from("b")),
            MdEvent::End(MdTag::Link(String::from("b.com"), String::from("t"))),
            MdEvent::End(MdTag::Paragraph),
        ])
        .unwrap();
    assert_eq!(printer.into_inner(), "[a](a.com)[b](b.com \"t\")");
}

#[test]
fn unsupported_events_are_ignored() {
    let mut printer = PrettyPrinter::default();
    printer
        .push_events(&vec![
            MdEvent::Start(MdTag::Table),
            MdEvent::Start(MdTag::TableHead),
            MdEvent::RawBlockMarkup(String::from("<div>block</div>")),
            MdEvent::FootnoteReference(String::from("note")),
            MdEvent::End(MdTag::TableHead),
            MdEvent::End(MdTag::Table),
        ])
        .unwrap();
    assert_eq!(printer.into_inner(), "");
}

#[test]
fn deferred_space_dropped_before_break() {
    let mut printer = PrettyPrinter::default();
    printer
        .push_events(&vec![
            MdEvent::Start(MdTag::Heading(1)),
            MdEvent::End(MdTag::Heading(1)),
            MdEvent::Start(MdTag::Paragraph),
            MdEvent::Text(String::from("Lorem")),
            MdEvent::End(MdTag::Paragraph),
        ])
        .unwrap();
    assert_eq!(printer.into_inner(), "#\n\nLorem");
}
