//! The event vocabulary the printer consumes: one unit of the parsed
//! document stream per event, with start and end boundaries for every
//! structural construct.

use vstd::prelude::*;

verus! {

/// The kind of structural construct a `Start`/`End` pair delimits.
#[derive(Debug, PartialEq, Eq)]
pub enum MdTag {
    Paragraph,
    Rule,
    /// A heading; the field is its level.
    Heading(u32),
    BlockQuote,
    /// A fenced code block; the field is the fence's info string.
    CodeBlock(String),
    /// A list; `Some(n)` is an ordered list whose first item uses ordinal `n`,
    /// `None` an unordered one.
    List(Option<usize>),
    Item,
    Emphasis,
    Strong,
    InlineCode,
    /// A link: destination, then title.
    Link(String, String),
    /// An image: destination, then title.
    Image(String, String),
    /// Recognised but rendered as nothing.
    FootnoteDefinition,
    /// Recognised but rendered as nothing.
    Table,
    /// Recognised but rendered as nothing.
    TableHead,
    /// Recognised but rendered as nothing.
    TableRow,
    /// Recognised but rendered as nothing.
    TableCell,
}

/// One unit of the parsed document stream.
#[derive(Debug, PartialEq, Eq)]
pub enum MdEvent {
    Start(MdTag),
    End(MdTag),
    /// Literal text; embedded line feeds are re-wrapped under the current
    /// indentation.
    Text(String),
    /// Raw inline markup, passed through verbatim.
    RawInlineMarkup(String),
    /// Raw block markup, recognised but rendered as nothing.
    RawBlockMarkup(String),
    /// Recognised but rendered as nothing.
    FootnoteReference(String),
    SoftBreak,
    HardBreak,
}

} // verus!
