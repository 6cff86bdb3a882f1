//! Pretty-printing for CommonMark documents.
//!
//! The crate re-serialises a parsed document's event stream into a canonical
//! textual form: markers are unified, blank lines between blocks are
//! normalised to exactly one, and nested block context (lists, quotes) is
//! re-indented consistently.

use vstd::prelude::*;

pub mod event;
pub mod laws;
pub mod printer;
pub mod writer;

pub use printer::PrettyPrinter;

use event::{MdEvent, MdTag};
use printer::{initial_printer, run_events};
use vstd::seq::Seq;

verus! {

#[verifier::external_type_specification]
#[verifier::external_body]
pub struct ExEvent<'a>(pulldown_cmark::Event<'a>);

#[verifier::external_type_specification]
#[verifier::external_body]
pub struct ExTag<'a>(pulldown_cmark::Tag<'a>);

/// The event stream that the external parser derives from a document.
/// Parsing is a pure function of the source text, so the stream has a name;
/// nothing further is assumed about it.
pub uninterp spec fn parsed_events(source: Seq<char>) -> Seq<MdEvent>;

/// Relies on `pulldown_cmark::Parser`: iterating it yields the document's
/// event stream, determined by the source text alone.
#[verifier::external_body]
fn parse_document(source: &str) -> (events: Vec<MdEvent>)
    ensures
        events@ == parsed_events(source@),
{
    let mut events: Vec<MdEvent> = Vec::new();
    for ev in pulldown_cmark::Parser::new(source) {
        events.push(convert_event(ev));
    }
    events
}

/// Relies on `pulldown_cmark::Event`'s variants: each is carried over one to
/// one, its text taken out of the borrowed form.
#[verifier::external_body]
fn convert_event(ev: pulldown_cmark::Event) -> MdEvent {
    match ev {
        pulldown_cmark::Event::Start(t) => MdEvent::Start(convert_tag(t)),
        pulldown_cmark::Event::End(t) => MdEvent::End(convert_tag(t)),
        pulldown_cmark::Event::Text(t) => MdEvent::Text(t.into_owned()),
        pulldown_cmark::Event::Html(t) => MdEvent::RawBlockMarkup(t.into_owned()),
        pulldown_cmark::Event::InlineHtml(t) => MdEvent::RawInlineMarkup(t.into_owned()),
        pulldown_cmark::Event::FootnoteReference(t) => MdEvent::FootnoteReference(t.into_owned()),
        pulldown_cmark::Event::SoftBreak => MdEvent::SoftBreak,
        pulldown_cmark::Event::HardBreak => MdEvent::HardBreak,
    }
}

/// Relies on `pulldown_cmark::Tag`'s data-carrying variants: each is carried
/// over one to one, moving its fields.
#[verifier::external_body]
fn convert_tag(t: pulldown_cmark::Tag) -> MdTag {
    match t {
        pulldown_cmark::Tag::Header(level) => MdTag::Heading(level as u32),
        pulldown_cmark::Tag::CodeBlock(info) => MdTag::CodeBlock(info.into_owned()),
        pulldown_cmark::Tag::List(start) => MdTag::List(start),
        pulldown_cmark::Tag::Link(url, title) => MdTag::Link(url.into_owned(), title.into_owned()),
        pulldown_cmark::Tag::Image(url, title) => MdTag::Image(url.into_owned(), title.into_owned()),
        pulldown_cmark::Tag::FootnoteDefinition(_) => MdTag::FootnoteDefinition,
        pulldown_cmark::Tag::Table(_) => MdTag::Table,
        other => convert_plain_tag(other),
    }
}

/// Relies on `pulldown_cmark::Tag`'s dataless variants: each is carried over
/// one to one. The caller has already converted every data-carrying variant,
/// so the last arm is never reached.
#[verifier::external_body]
fn convert_plain_tag(t: pulldown_cmark::Tag) -> MdTag {
    match t {
        pulldown_cmark::Tag::Paragraph => MdTag::Paragraph,
        pulldown_cmark::Tag::Rule => MdTag::Rule,
        pulldown_cmark::Tag::BlockQuote => MdTag::BlockQuote,
        pulldown_cmark::Tag::Item => MdTag::Item,
        pulldown_cmark::Tag::Emphasis => MdTag::Emphasis,
        pulldown_cmark::Tag::Strong => MdTag::Strong,
        pulldown_cmark::Tag::Code => MdTag::InlineCode,
        pulldown_cmark::Tag::TableHead => MdTag::TableHead,
        pulldown_cmark::Tag::TableRow => MdTag::TableRow,
        pulldown_cmark::Tag::TableCell => MdTag::TableCell,
        _ => MdTag::Paragraph,
    }
}

/// The canonical rendering of an event stream, from a fresh printer with an
/// empty sink and no line prefix.
pub open spec fn pretty_of(evs: Seq<MdEvent>) -> Seq<char> {
    run_events(initial_printer(Seq::empty(), Seq::empty()), evs).writer.output.written
}

/// Parses a CommonMark document and returns it as a pretty printed string.
pub fn prettify(source: &str) -> (output: String)
    ensures
        output@ == pretty_of(parsed_events(source@)),
{
    let events = parse_document(source);
    let mut printer = PrettyPrinter::new(String::new());
    let _ = printer.push_events(&events);
    printer.into_inner()
}

/// Wrapper that renders the wrapped document when its text is asked for.
pub struct PrettyDisplay<'a>(pub &'a str);

impl<'a> PrettyDisplay<'a> {
    /// The wrapped document, pretty printed.
    pub fn to_string(&self) -> (output: String)
        ensures
            output@ == pretty_of(parsed_events(self.0@)),
    {
        prettify(self.0)
    }
}

} // verus!
