//! The nested-context writer: an in-memory text sink together with a stack of
//! open block contexts and a buffer of deferred space characters.
//!
//! Space characters requested through [`Writer::write_non_breaking_space`] are
//! withheld until the next literal write and silently dropped by any line
//! break, which is what keeps block and line boundaries free of trailing
//! whitespace.

use vstd::prelude::*;

verus! {

/// One level of currently-open block nesting.
///
/// `ListItem(None)` is an unordered (bullet) list; `ListItem(Some(n))` is an
/// ordered list whose next item renders with ordinal `n`; `BlockQuote` carries
/// no data.
#[derive(Clone, Copy, Debug, PartialEq, Eq)]
pub enum Frame {
    ListItem(Option<usize>),
    BlockQuote,
}

/// A sequence of `n` space characters.
pub open spec fn spaces(n: nat) -> Seq<char> {
    Seq::new(n, |i: int| ' ')
}

/// Model of the output sink: the text written so far and the deferred
/// whitespace that the next literal write will materialise.
#[verifier::ext_equal]
pub struct OutputModel {
    pub written: Seq<char>,
    pub pending: Seq<char>,
}

impl OutputModel {
    /// A literal write first materialises the deferred whitespace, then the text.
    pub open spec fn write(self, t: Seq<char>) -> OutputModel {
        OutputModel { written: self.written + self.pending + t, pending: Seq::empty() }
    }

    /// A hard break drops the deferred whitespace and starts a new line.
    pub open spec fn hard_break(self) -> OutputModel {
        OutputModel { written: self.written + seq!['\n'], pending: Seq::empty() }
    }

    /// A soft break drops the deferred whitespace and joins the lines with one space.
    pub open spec fn soft_break(self) -> OutputModel {
        OutputModel { written: self.written + seq![' '], pending: Seq::empty() }
    }

    /// A non-breaking space is deferred, not written.
    pub open spec fn defer_space(self) -> OutputModel {
        OutputModel { written: self.written, pending: self.pending + seq![' '] }
    }

    /// Raw output, bypassing the deferred whitespace (used for the line prefix).
    pub open spec fn raw(self, t: Seq<char>) -> OutputModel {
        OutputModel { written: self.written + t, pending: self.pending }
    }
}

/// The indentation contribution of one block context: a quote marker writes
/// `>` at once and defers one space; a list item only defers spaces sized to
/// align continuation lines under its marker.
pub open spec fn frame_step(o: OutputModel, f: Frame) -> OutputModel {
    match f {
        Frame::ListItem(None) => OutputModel { written: o.written, pending: o.pending + spaces(2) },
        Frame::ListItem(Some(i)) => OutputModel {
            written: o.written,
            pending: o.pending + spaces((i as nat) / 10 + 3),
        },
        Frame::BlockQuote => o.write(">"@).defer_space(),
    }
}

/// The contexts contribute their indentation in outer-to-inner order.
pub open spec fn indent_frames(o: OutputModel, frames: Seq<Frame>) -> OutputModel
    decreases frames.len(),
{
    if frames.len() == 0 {
        o
    } else {
        indent_frames(frame_step(o, frames[0]), frames.drop_first())
    }
}

/// Model of the whole writer: fixed line prefix, context stack, output sink.
#[verifier::ext_equal]
pub struct WriterModel {
    pub prefix: Seq<char>,
    pub frames: Seq<Frame>,
    pub output: OutputModel,
}

impl WriterModel {
    pub open spec fn write(self, t: Seq<char>) -> WriterModel {
        WriterModel { output: self.output.write(t), ..self }
    }

    pub open spec fn hard_break(self) -> WriterModel {
        WriterModel { output: self.output.hard_break(), ..self }
    }

    pub open spec fn soft_break(self) -> WriterModel {
        WriterModel { output: self.output.soft_break(), ..self }
    }

    pub open spec fn defer_space(self) -> WriterModel {
        WriterModel { output: self.output.defer_space(), ..self }
    }

    pub open spec fn push(self, f: Frame) -> WriterModel {
        WriterModel { frames: self.frames.push(f), ..self }
    }

    pub open spec fn pop(self) -> WriterModel {
        if self.frames.len() == 0 {
            self
        } else {
            WriterModel { frames: self.frames.drop_last(), ..self }
        }
    }

    /// A fresh indent line: the fixed prefix first, then every open context's
    /// contribution, outermost first.
    pub open spec fn indent(self) -> WriterModel {
        WriterModel { output: indent_frames(self.output.raw(self.prefix), self.frames), ..self }
    }
}

/// The one failure kind: the output sink cannot accept more text. The
/// in-memory sink used here never raises it.
#[derive(Clone, Copy, Debug, PartialEq, Eq)]
pub struct WriteFailure;

/// The output sink with its deferred-whitespace bookkeeping. The deferred
/// spaces are held as the very characters waiting to be written.
pub struct Output {
    inner: String,
    pending: String,
}

impl View for Output {
    type V = OutputModel;

    closed spec fn view(&self) -> OutputModel {
        OutputModel { written: self.inner@, pending: self.pending@ }
    }
}

impl Output {
    /// Write literal text, materialising any deferred whitespace first.
    pub fn write_text(&mut self, text: &str) -> (r: Result<(), WriteFailure>)
        ensures
            final(self)@ == old(self)@.write(text@),
            r is Ok,
    {
        let mut p = String::new();
        core::mem::swap(&mut p, &mut self.pending);
        self.inner.append(p.as_str());
        self.inner.append(text);
        Ok(())
    }

    /// End the current line, dropping any deferred whitespace.
    pub fn write_hard_break(&mut self) -> (r: Result<(), WriteFailure>)
        ensures
            final(self)@ == old(self)@.hard_break(),
            r is Ok,
    {
        self.pending = String::new();
        self.inner.append("\n");
        proof {
            reveal_strlit("\n");
            assert(final(self)@ =~= old(self)@.hard_break());
        }
        Ok(())
    }

    /// Replace an in-paragraph line break with a single space.
    pub fn write_soft_break(&mut self) -> (r: Result<(), WriteFailure>)
        ensures
            final(self)@ == old(self)@.soft_break(),
            r is Ok,
    {
        self.pending = String::new();
        self.inner.append(" ");
        proof {
            reveal_strlit(" ");
            assert(final(self)@ =~= old(self)@.soft_break());
        }
        Ok(())
    }
}

/// The indentation writer: owns the sink, the fixed line prefix and the stack
/// of open block contexts.
pub struct Writer {
    prefix: String,
    frames: Vec<Frame>,
    output: Output,
}

impl View for Writer {
    type V = WriterModel;

    closed spec fn view(&self) -> WriterModel {
        WriterModel { prefix: self.prefix@, frames: self.frames@, output: self.output@ }
    }
}

impl Writer {
    /// A writer around a sink, with a prefix applied to every produced line.
    pub fn new(output: String, prefix: String) -> (w: Writer)
        ensures
            w@ == (WriterModel {
                prefix: prefix@,
                frames: Seq::empty(),
                output: OutputModel { written: output@, pending: Seq::empty() },
            }),
    {
        let w = Writer {
            prefix,
            frames: Vec::new(),
            output: Output { inner: output, pending: String::new() },
        };
        proof {
            assert(w@ =~= (WriterModel {
                prefix: w.prefix@,
                frames: Seq::empty(),
                output: OutputModel { written: w.output.inner@, pending: Seq::empty() },
            }));
        }
        w
    }

    /// Open one more block context.
    pub fn push_frame(&mut self, frame: Frame)
        ensures
            final(self)@ == old(self)@.push(frame),
    {
        self.frames.push(frame);
    }

    /// Close the innermost block context, handing it back.
    pub fn pop_frame(&mut self) -> (r: Option<Frame>)
        ensures
            final(self)@ == old(self)@.pop(),
            r == (if old(self)@.frames.len() == 0 {
                None::<Frame>
            } else {
                Some(old(self)@.frames.last())
            }),
    {
        let r = self.frames.pop();
        proof {
            assert(final(self)@ =~= old(self)@.pop());
        }
        r
    }

    /// Write literal text, materialising any deferred whitespace first.
    pub fn write_text(&mut self, text: &str) -> (r: Result<(), WriteFailure>)
        ensures
            final(self)@ == old(self)@.write(text@),
            r is Ok,
    {
        self.output.write_text(text)
    }

    /// End the current line, dropping any deferred whitespace.
    pub fn write_hard_break(&mut self) -> (r: Result<(), WriteFailure>)
        ensures
            final(self)@ == old(self)@.hard_break(),
            r is Ok,
    {
        self.output.write_hard_break()
    }

    /// Replace an in-paragraph line break with a single space.
    pub fn write_soft_break(&mut self) -> (r: Result<(), WriteFailure>)
        ensures
            final(self)@ == old(self)@.soft_break(),
            r is Ok,
    {
        self.output.write_soft_break()
    }

    /// Request one space that is dropped if a break comes before more text.
    pub fn write_non_breaking_space(&mut self) -> (r: Result<(), WriteFailure>)
        ensures
            final(self)@ == old(self)@.defer_space(),
            r is Ok,
    {
        self.output.pending.append(" ");
        proof {
            reveal_strlit(" ");
            assert(final(self)@ =~= old(self)@.defer_space());
        }
        Ok(())
    }

    /// Begin a fresh line: the fixed prefix, then each open context's
    /// contribution, outermost first.
    pub fn write_indent(&mut self) -> (r: Result<(), WriteFailure>)
        ensures
            final(self)@ == old(self)@.indent(),
            r is Ok,
    {
        self.output.inner.append(self.prefix.as_str());
        proof {
            assert(self@.output =~= old(self)@.output.raw(old(self)@.prefix));
        }
        let ghost start = self@.output;
        proof {
            assert(self.frames@.skip(0) =~= self.frames@);
        }
        let n = self.frames.len();
        let mut idx: usize = 0;
        while idx < n
            invariant
                idx <= n,
                n == self.frames@.len(),
                self.frames@ == old(self)@.frames,
                self.prefix@ == old(self)@.prefix,
                indent_frames(start, self.frames@) == indent_frames(
                    self@.output,
                    self.frames@.skip(idx as int),
                ),
            decreases n - idx,
        {
            let ghost pre = self@.output;
            let ghost fs = self.frames@.skip(idx as int);
            let f = self.frames[idx];
            match f {
                Frame::ListItem(None) => {
                    self.output.pending.append("  ");
                    proof {
                        reveal_strlit("  ");
                        assert(self@.output =~= frame_step(pre, f));
                    }
                },
                Frame::ListItem(Some(index)) => {
                    let width = index / 10 + 3;
                    let mut j: usize = 0;
                    while j < width
                        invariant
                            j <= width,
                            self.frames@ == old(self)@.frames,
                            self.prefix@ == old(self)@.prefix,
                            self@.output == (OutputModel {
                                written: pre.written,
                                pending: pre.pending + spaces(j as nat),
                            }),
                        decreases width - j,
                    {
                        self.output.pending.append(" ");
                        proof {
                            reveal_strlit(" ");
                            assert(pre.pending + spaces(j as nat) + " "@ =~= pre.pending + spaces(
                                j as nat + 1,
                            ));
                            assert(self@.output =~= (OutputModel {
                                written: pre.written,
                                pending: pre.pending + spaces(j as nat + 1),
                            }));
                        }
                        j += 1;
                    }
                    proof {
                        assert(self@.output =~= frame_step(pre, f));
                    }
                },
                Frame::BlockQuote => {
                    let _ = self.output.write_text(">");
                    self.output.pending.append(" ");
                    proof {
                        reveal_strlit(" ");
                        assert(self@.output =~= frame_step(pre, f));
                    }
                },
            }
            proof {
                assert(fs[0] == f);
                assert(fs.drop_first() =~= self.frames@.skip(idx as int + 1));
                assert(indent_frames(pre, fs) == indent_frames(self@.output, fs.drop_first()));
            }
            idx += 1;
        }
        proof {
            assert(self.frames@.skip(n as int) =~= Seq::<Frame>::empty());
            assert(indent_frames(self@.output, Seq::<Frame>::empty()) == self@.output);
            assert(final(self)@ =~= old(self)@.indent());
        }
        Ok(())
    }

    /// Hand the sink back; deferred whitespace that was never followed by
    /// text is discarded.
    pub fn into_inner(self) -> (r: String)
        ensures
            r@ == self@.output.written,
    {
        self.output.inner
    }
}

} // verus!
