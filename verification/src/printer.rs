//! The event-to-text state machine: each pushed event is translated into
//! zero or more writer calls, with a single piece of printer-level state —
//! the deferred "blank line needed before the next block" flag.

use vstd::prelude::*;

use crate::event::{MdEvent, MdTag};
use crate::writer::{Frame, OutputModel, WriteFailure, Writer, WriterModel};

verus! {

/// Model of the printer: the writer's model plus the deferred-break flag.
#[verifier::ext_equal]
pub struct PrinterModel {
    pub writer: WriterModel,
    pub needs_break: bool,
}

/// The printer a constructor returns: given sink contents, given prefix,
/// no open contexts, no deferred whitespace, no deferred break.
pub open spec fn initial_printer(written: Seq<char>, prefix: Seq<char>) -> PrinterModel {
    PrinterModel {
        writer: WriterModel {
            prefix: prefix,
            frames: Seq::empty(),
            output: OutputModel { written: written, pending: Seq::empty() },
        },
        needs_break: false,
    }
}

/// A sequence of `n` hash marks.
pub open spec fn hashes(n: nat) -> Seq<char> {
    Seq::new(n, |i: int| '#')
}

/// The decimal digit `d` as a character.
pub open spec fn digit_char(d: nat) -> char {
    if d == 0 {
        '0'
    } else if d == 1 {
        '1'
    } else if d == 2 {
        '2'
    } else if d == 3 {
        '3'
    } else if d == 4 {
        '4'
    } else if d == 5 {
        '5'
    } else if d == 6 {
        '6'
    } else if d == 7 {
        '7'
    } else if d == 8 {
        '8'
    } else {
        '9'
    }
}

/// The decimal rendering of `n`, most significant digit first.
pub open spec fn dec_of(n: nat) -> Seq<char>
    decreases n,
{
    if n < 10 {
        seq![digit_char(n)]
    } else {
        dec_of(n / 10) + seq![digit_char(n % 10)]
    }
}

/// The ordinal the context carries after rendering an item: one more,
/// held at the type's maximum rather than overflowing.
pub open spec fn next_ordinal(i: usize) -> usize {
    if i == usize::MAX {
        i
    } else {
        (i + 1) as usize
    }
}

/// Resolving the deferred break: one physical blank line, each of its two
/// line starts freshly indented, and the flag cleared either way.
pub open spec fn flush_break_spec(p: PrinterModel) -> PrinterModel {
    if p.needs_break {
        PrinterModel {
            writer: p.writer.hard_break().indent().hard_break().indent(),
            needs_break: false,
        }
    } else {
        PrinterModel { writer: p.writer, needs_break: false }
    }
}

/// The effect of literal text on the writer, one character at a time: a line
/// feed becomes a hard break, a fresh indent line and an empty literal write
/// (which materialises the indent even on a line with no text); any other
/// character is written.
pub open spec fn text_chars(w: WriterModel, s: Seq<char>) -> WriterModel
    decreases s.len(),
{
    if s.len() == 0 {
        w
    } else if s[0] == '\n' {
        text_chars(w.hard_break().indent().write(Seq::empty()), s.drop_first())
    } else {
        text_chars(w.write(seq![s[0]]), s.drop_first())
    }
}

/// An item start mutates the innermost context: it is popped, inspected, and
/// a replacement pushed. A bullet item emits `-`, an ordered item its current
/// ordinal and a dot, each followed by a deferred space; the ordinal is
/// renumbered. A popped context of any other shape is discarded without
/// output: a defensive no-op for input no well-formed stream produces.
pub open spec fn item_step(p: PrinterModel) -> PrinterModel {
    if p.writer.frames.len() == 0 {
        p
    } else {
        let f = p.writer.frames.last();
        let q = PrinterModel { writer: p.writer.pop(), needs_break: p.needs_break };
        match f {
            Frame::ListItem(None) => {
                let r = flush_break_spec(q);
                PrinterModel {
                    writer: r.writer.write("-"@).defer_space().push(Frame::ListItem(None)),
                    needs_break: false,
                }
            },
            Frame::ListItem(Some(i)) => {
                let r = flush_break_spec(q);
                PrinterModel {
                    writer: r.writer.write(dec_of(i as nat)).write("."@).defer_space().push(
                        Frame::ListItem(Some(next_ordinal(i))),
                    ),
                    needs_break: false,
                }
            },
            Frame::BlockQuote => q,
        }
    }
}

/// The closing of a link or image: `](destination)`, with the title quoted
/// after the destination only when it is non-empty.
pub open spec fn close_link(w: WriterModel, url: Seq<char>, title: Seq<char>) -> WriterModel {
    let w2 = w.write("]("@).write(url);
    if title.len() == 0 {
        w2.write(")"@)
    } else {
        w2.write(" \""@).write(title).write("\")"@)
    }
}

/// The effect of a `Start` event.
pub open spec fn start_step(p: PrinterModel, tag: MdTag) -> PrinterModel {
    match tag {
        MdTag::Paragraph => flush_break_spec(p),
        MdTag::Rule => {
            let q = flush_break_spec(p);
            PrinterModel { writer: q.writer.write("---"@), needs_break: false }
        },
        MdTag::Heading(level) => {
            let q = flush_break_spec(p);
            PrinterModel {
                writer: q.writer.write(hashes(level as nat)).defer_space(),
                needs_break: false,
            }
        },
        MdTag::BlockQuote => {
            let q = flush_break_spec(p);
            PrinterModel {
                writer: q.writer.write(">"@).defer_space().push(Frame::BlockQuote),
                needs_break: false,
            }
        },
        MdTag::CodeBlock(info) => {
            let q = flush_break_spec(p);
            PrinterModel {
                writer: q.writer.write("```"@).write(info@).hard_break().indent(),
                needs_break: false,
            }
        },
        MdTag::List(start) => {
            let q = flush_break_spec(p);
            PrinterModel { writer: q.writer.push(Frame::ListItem(start)), needs_break: false }
        },
        MdTag::Item => item_step(p),
        MdTag::Emphasis => PrinterModel { writer: p.writer.write("*"@), needs_break: p.needs_break },
        MdTag::Strong => PrinterModel { writer: p.writer.write("**"@), needs_break: p.needs_break },
        MdTag::InlineCode => PrinterModel {
            writer: p.writer.write("`"@),
            needs_break: p.needs_break,
        },
        MdTag::Link(_, _) => PrinterModel {
            writer: p.writer.write("["@),
            needs_break: p.needs_break,
        },
        MdTag::Image(_, _) => PrinterModel {
            writer: p.writer.write("!["@),
            needs_break: p.needs_break,
        },
        MdTag::FootnoteDefinition => p,
        MdTag::Table => p,
        MdTag::TableHead => p,
        MdTag::TableRow => p,
        MdTag::TableCell => p,
    }
}

/// The effect of an `End` event. Closing a block emits no break itself: it
/// only raises the deferred-break flag, resolved at the next block start, so
/// a trailing close never leaves a trailing blank line.
pub open spec fn end_step(p: PrinterModel, tag: MdTag) -> PrinterModel {
    match tag {
        MdTag::Paragraph => PrinterModel { writer: p.writer, needs_break: true },
        MdTag::Rule => PrinterModel { writer: p.writer, needs_break: true },
        MdTag::Heading(_) => PrinterModel { writer: p.writer, needs_break: true },
        MdTag::Item => PrinterModel { writer: p.writer, needs_break: true },
        MdTag::List(_) => PrinterModel { writer: p.writer.pop(), needs_break: true },
        MdTag::BlockQuote => PrinterModel { writer: p.writer.pop(), needs_break: true },
        MdTag::CodeBlock(_) => PrinterModel { writer: p.writer.write("```"@), needs_break: true },
        MdTag::Emphasis => PrinterModel { writer: p.writer.write("*"@), needs_break: p.needs_break },
        MdTag::Strong => PrinterModel { writer: p.writer.write("**"@), needs_break: p.needs_break },
        MdTag::InlineCode => PrinterModel {
            writer: p.writer.write("`"@),
            needs_break: p.needs_break,
        },
        MdTag::Link(url, title) => PrinterModel {
            writer: close_link(p.writer, url@, title@),
            needs_break: p.needs_break,
        },
        MdTag::Image(url, title) => PrinterModel {
            writer: close_link(p.writer, url@, title@),
            needs_break: p.needs_break,
        },
        MdTag::FootnoteDefinition => p,
        MdTag::Table => p,
        MdTag::TableHead => p,
        MdTag::TableRow => p,
        MdTag::TableCell => p,
    }
}

/// The transition function of the printer: the full effect of one event.
pub open spec fn push_event_spec(p: PrinterModel, ev: MdEvent) -> PrinterModel {
    match ev {
        MdEvent::Start(tag) => start_step(p, tag),
        MdEvent::End(tag) => end_step(p, tag),
        MdEvent::Text(t) => PrinterModel {
            writer: text_chars(p.writer.write(Seq::empty()), t@),
            needs_break: p.needs_break,
        },
        MdEvent::RawInlineMarkup(t) => PrinterModel {
            writer: p.writer.write(t@),
            needs_break: p.needs_break,
        },
        MdEvent::RawBlockMarkup(_) => p,
        MdEvent::FootnoteReference(_) => p,
        MdEvent::SoftBreak => PrinterModel {
            writer: p.writer.soft_break(),
            needs_break: p.needs_break,
        },
        MdEvent::HardBreak => PrinterModel {
            writer: p.writer.write("\\"@).hard_break().indent(),
            needs_break: p.needs_break,
        },
    }
}

/// The effect of a whole event sequence, first event first.
pub open spec fn run_events(p: PrinterModel, evs: Seq<MdEvent>) -> PrinterModel
    decreases evs.len(),
{
    if evs.len() == 0 {
        p
    } else {
        run_events(push_event_spec(p, evs[0]), evs.drop_first())
    }
}

/// The decimal digit `d` as a string slice.
fn digit_str(d: usize) -> (s: &'static str)
    requires
        d < 10,
    ensures
        s@ == seq![digit_char(d as nat)],
{
    proof {
        reveal_strlit("0");
        reveal_strlit("1");
        reveal_strlit("2");
        reveal_strlit("3");
        reveal_strlit("4");
        reveal_strlit("5");
        reveal_strlit("6");
        reveal_strlit("7");
        reveal_strlit("8");
        reveal_strlit("9");
    }
    let s: &'static str = match d {
        0 => "0",
        1 => "1",
        2 => "2",
        3 => "3",
        4 => "4",
        5 => "5",
        6 => "6",
        7 => "7",
        8 => "8",
        _ => "9",
    };
    proof {
        assert(s@ =~= seq![digit_char(d as nat)]);
    }
    s
}

/// The decimal rendering of `n` as a fresh string.
fn dec_string(n: usize) -> (s: String)
    ensures
        s@ == dec_of(n as nat),
    decreases n,
{
    if n < 10 {
        let mut s = String::new();
        s.append(digit_str(n));
        proof {
            assert(s@ =~= dec_of(n as nat));
        }
        s
    } else {
        let mut s = dec_string(n / 10);
        s.append(digit_str(n % 10));
        proof {
            assert(s@ =~= dec_of(n as nat));
        }
        s
    }
}

/// MdEvent-driven pretty printer for CommonMark documents.
///
/// The printer is driven by pushing events into it; the canonical rendering
/// accumulates in the sink it wraps.
pub struct PrettyPrinter {
    writer: Writer,
    needs_break: bool,
}

impl View for PrettyPrinter {
    type V = PrinterModel;

    closed spec fn view(&self) -> PrinterModel {
        PrinterModel { writer: self.writer@, needs_break: self.needs_break }
    }
}

impl PrettyPrinter {
    /// A new pretty printer that appends to the given sink.
    pub fn new(write: String) -> (p: PrettyPrinter)
        ensures
            p@ == initial_printer(write@, Seq::empty()),
    {
        let p = PrettyPrinter::new_with_prefix(write, "");
        proof {
            reveal_strlit("");
            assert(""@ =~= Seq::<char>::empty());
        }
        p
    }

    /// A new pretty printer whose every produced line begins with `prefix`.
    pub fn new_with_prefix(write: String, prefix: &str) -> (p: PrettyPrinter)
        ensures
            p@ == initial_printer(write@, prefix@),
    {
        PrettyPrinter { writer: Writer::new(write, prefix.to_owned()), needs_break: false }
    }

    /// Resolve a deferred break: exactly one blank line, correctly prefixed
    /// and indented even while blank, before the block that is about to open.
    fn flush_break(&mut self) -> (r: Result<(), WriteFailure>)
        ensures
            final(self)@ == flush_break_spec(old(self)@),
            r is Ok,
    {
        if self.needs_break {
            self.writer.write_hard_break()?;
            self.writer.write_indent()?;
            self.writer.write_hard_break()?;
            self.writer.write_indent()?;
        }
        self.needs_break = false;
        Ok(())
    }

    /// Push a single event into the printer.
    pub fn push_event(&mut self, event: &MdEvent) -> (r: Result<(), WriteFailure>)
        ensures
            final(self)@ == push_event_spec(old(self)@, *event),
            r is Ok,
    {
        match event {
            MdEvent::Start(tag) => match tag {
                MdTag::Paragraph => {
                    self.flush_break()?;
                },
                MdTag::Rule => {
                    self.flush_break()?;
                    self.writer.write_text("---")?;
                },
                MdTag::Heading(level) => {
                    self.flush_break()?;
                    let lv: u32 = *level;
                    let mut marks = String::new();
                    proof {
                        assert(marks@ =~= hashes(0));
                    }
                    let mut k: u32 = 0;
                    while k < lv
                        invariant
                            k <= lv,
                            marks@ == hashes(k as nat),
                        decreases lv - k,
                    {
                        marks.append("#");
                        proof {
                            reveal_strlit("#");
                            assert(marks@ =~= hashes(k as nat + 1));
                        }
                        k += 1;
                    }
                    self.writer.write_text(marks.as_str())?;
                    self.writer.write_non_breaking_space()?;
                },
                MdTag::BlockQuote => {
                    self.flush_break()?;
                    self.writer.write_text(">")?;
                    self.writer.write_non_breaking_space()?;
                    self.writer.push_frame(Frame::BlockQuote);
                },
                MdTag::CodeBlock(info) => {
                    self.flush_break()?;
                    self.writer.write_text("```")?;
                    self.writer.write_text(info.as_str())?;
                    self.writer.write_hard_break()?;
                    self.writer.write_indent()?;
                },
                MdTag::List(start) => {
                    self.flush_break()?;
                    self.writer.push_frame(Frame::ListItem(*start));
                },
                MdTag::Item => {
                    match self.writer.pop_frame() {
                        Some(Frame::ListItem(None)) => {
                            self.flush_break()?;
                            self.writer.write_text("-")?;
                            self.writer.write_non_breaking_space()?;
                            self.writer.push_frame(Frame::ListItem(None));
                        },
                        Some(Frame::ListItem(Some(index))) => {
                            self.flush_break()?;
                            let num = dec_string(index);
                            self.writer.write_text(num.as_str())?;
                            self.writer.write_text(".")?;
                            self.writer.write_non_breaking_space()?;
                            let next: usize = if index == usize::MAX {
                                index
                            } else {
                                index + 1
                            };
                            self.writer.push_frame(Frame::ListItem(Some(next)));
                        },
                        Some(Frame::BlockQuote) => {},
                        None => {},
                    }
                },
                MdTag::Emphasis => {
                    self.writer.write_text("*")?;
                },
                MdTag::Strong => {
                    self.writer.write_text("**")?;
                },
                MdTag::InlineCode => {
                    self.writer.write_text("`")?;
                },
                MdTag::Link(_, _) => {
                    self.writer.write_text("[")?;
                },
                MdTag::Image(_, _) => {
                    self.writer.write_text("![")?;
                },
                MdTag::FootnoteDefinition => {},
                MdTag::Table => {},
                MdTag::TableHead => {},
                MdTag::TableRow => {},
                MdTag::TableCell => {},
            },
            MdEvent::End(tag) => match tag {
                MdTag::Paragraph => {
                    self.needs_break = true;
                },
                MdTag::Rule => {
                    self.needs_break = true;
                },
                MdTag::Heading(_) => {
                    self.needs_break = true;
                },
                MdTag::Item => {
                    self.needs_break = true;
                },
                MdTag::List(_) => {
                    let _ = self.writer.pop_frame();
                    self.needs_break = true;
                },
                MdTag::BlockQuote => {
                    let _ = self.writer.pop_frame();
                    self.needs_break = true;
                },
                MdTag::CodeBlock(_) => {
                    self.writer.write_text("```")?;
                    self.needs_break = true;
                },
                MdTag::Emphasis => {
                    self.writer.write_text("*")?;
                },
                MdTag::Strong => {
                    self.writer.write_text("**")?;
                },
                MdTag::InlineCode => {
                    self.writer.write_text("`")?;
                },
                MdTag::Link(url, title) => {
                    self.close_link(url.as_str(), title.as_str())?;
                },
                MdTag::Image(url, title) => {
                    self.close_link(url.as_str(), title.as_str())?;
                },
                MdTag::FootnoteDefinition => {},
                MdTag::Table => {},
                MdTag::TableHead => {},
                MdTag::TableRow => {},
                MdTag::TableCell => {},
            },
            MdEvent::Text(t) => {
                let s: &str = t.as_str();
                proof {
                    reveal_strlit("");
                    assert(""@ =~= Seq::<char>::empty());
                }
                self.writer.write_text("")?;
                let ghost tstart = self.writer@;
                proof {
                    assert(s@.skip(0) =~= s@);
                }
                let n = s.unicode_len();
                let mut i: usize = 0;
                while i < n
                    invariant
                        i <= n,
                        n as nat == s@.len(),
                        self.needs_break == old(self).needs_break,
                        text_chars(tstart, s@) == text_chars(self.writer@, s@.skip(i as int)),
                    decreases n - i,
                {
                    let ghost pre = self.writer@;
                    let c = s.get_char(i);
                    if c == '\n' {
                        self.writer.write_hard_break()?;
                        self.writer.write_indent()?;
                        proof {
                            reveal_strlit("");
                            assert(""@ =~= Seq::<char>::empty());
                        }
                        self.writer.write_text("")?;
                    } else {
                        let piece = s.substring_char(i, i + 1);
                        proof {
                            assert(piece@ =~= seq![s@[i as int]]);
                        }
                        self.writer.write_text(piece)?;
                    }
                    proof {
                        assert(s@.skip(i as int).drop_first() =~= s@.skip(i as int + 1));
                    }
                    i += 1;
                }
                proof {
                    assert(s@.skip(n as int) =~= Seq::<char>::empty());
                }
            },
            MdEvent::RawInlineMarkup(t) => {
                self.writer.write_text(t.as_str())?;
            },
            MdEvent::RawBlockMarkup(_) => {},
            MdEvent::FootnoteReference(_) => {},
            MdEvent::SoftBreak => {
                self.writer.write_soft_break()?;
            },
            MdEvent::HardBreak => {
                self.writer.write_text("\\")?;
                self.writer.write_hard_break()?;
                self.writer.write_indent()?;
            },
        }
        Ok(())
    }

    /// The shared closing of links and images.
    fn close_link(&mut self, url: &str, title: &str) -> (r: Result<(), WriteFailure>)
        ensures
            final(self)@ == (PrinterModel {
                writer: close_link(old(self)@.writer, url@, title@),
                needs_break: old(self)@.needs_break,
            }),
            r is Ok,
    {
        self.writer.write_text("](")?;
        self.writer.write_text(url)?;
        if title.is_empty() {
            self.writer.write_text(")")?;
        } else {
            self.writer.write_text(" \"")?;
            self.writer.write_text(title)?;
            self.writer.write_text("\")")?;
        }
        Ok(())
    }

    /// Push a series of events into the printer, first event first.
    pub fn push_events(&mut self, events: &Vec<MdEvent>) -> (r: Result<(), WriteFailure>)
        ensures
            final(self)@ == run_events(old(self)@, events@),
            r is Ok,
    {
        proof {
            assert(events@.skip(0) =~= events@);
        }
        let n = events.len();
        let mut i: usize = 0;
        while i < n
            invariant
                i <= n,
                n == events@.len(),
                run_events(old(self)@, events@) == run_events(self@, events@.skip(i as int)),
            decreases n - i,
        {
            self.push_event(&events[i])?;
            proof {
                assert(events@.skip(i as int).drop_first() =~= events@.skip(i as int + 1));
            }
            i += 1;
        }
        proof {
            assert(events@.skip(n as int) =~= Seq::<MdEvent>::empty());
        }
        Ok(())
    }

    /// Unwrap the printer, returning the accumulated output.
    pub fn into_inner(self) -> (r: String)
        ensures
            r@ == self@.writer.output.written,
    {
        self.writer.into_inner()
    }
}

impl Default for PrettyPrinter {
    /// A printer over an empty sink, with no line prefix.
    fn default() -> (p: PrettyPrinter)
        ensures
            p@ == initial_printer(Seq::empty(), Seq::empty()),
    {
        PrettyPrinter::new(String::new())
    }
}

} // verus!
