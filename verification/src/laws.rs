//! Laws of the printer, stated over its model and proved once and for all:
//! marker normalisation, blank-line normalisation, the absence of trailing
//! breaks, ordinal renumbering and indentation alignment.

use vstd::prelude::*;

use crate::event::{MdEvent, MdTag};
use crate::printer::{
    dec_of, flush_break_spec, push_event_spec, run_events, text_chars, PrinterModel,
};
use crate::writer::{frame_step, indent_frames, spaces, Frame, OutputModel, WriterModel};

verus! {

/// Literal text free of line feeds is appended verbatim, after the deferred
/// whitespace, and leaves nothing deferred.
pub proof fn lemma_text_chars_plain(w: WriterModel, s: Seq<char>)
    requires
        w.output.pending == Seq::<char>::empty(),
        forall|i: int| 0 <= i < s.len() ==> s[i] != '\n',
    ensures
        text_chars(w, s) == (WriterModel {
            output: OutputModel {
                written: w.output.written + s,
                pending: Seq::<char>::empty(),
            },
            ..w
        }),
    decreases s.len(),
{
    if s.len() == 0 {
        assert(w.output.written + s =~= w.output.written);
        assert(text_chars(w, s) =~~= (WriterModel {
            output: OutputModel {
                written: w.output.written + s,
                pending: Seq::<char>::empty(),
            },
            ..w
        }));
    } else {
        let w1 = w.write(seq![s[0]]);
        assert(w1.output.written =~= w.output.written + seq![s[0]]);
        lemma_text_chars_plain(w1, s.drop_first());
        assert(w.output.written + seq![s[0]] + s.drop_first() =~= w.output.written + s);
    }
}

/// Marker normalisation, strong emphasis: whatever spelling the source used,
/// a strong span renders as its text between double-asterisk markers.
pub proof fn lemma_strong_markers(p: PrinterModel, t: String)
    requires
        forall|i: int| 0 <= i < t@.len() ==> t@[i] != '\n',
    ensures
        run_events(
            p,
            seq![
                MdEvent::Start(MdTag::Strong),
                MdEvent::Text(t),
                MdEvent::End(MdTag::Strong),
            ],
        ).writer.output.written == p.writer.output.written + p.writer.output.pending + "**"@ + t@
            + "**"@,
{
    let evs = seq![MdEvent::Start(MdTag::Strong), MdEvent::Text(t), MdEvent::End(MdTag::Strong)];
    let p1 = push_event_spec(p, evs[0]);
    let p2 = push_event_spec(p1, evs[1]);
    let p3 = push_event_spec(p2, evs[2]);
    assert(p1.writer.output.pending =~= Seq::<char>::empty());
    assert(p1.writer.write(Seq::empty()).output.written =~= p.writer.output.written
        + p.writer.output.pending + "**"@);
    lemma_text_chars_plain(p1.writer.write(Seq::empty()), t@);
    assert(p3.writer.output.written =~= p.writer.output.written + p.writer.output.pending + "**"@
        + t@ + "**"@);
    let e1 = evs.drop_first();
    let e2 = e1.drop_first();
    assert(e1[0] == evs[1]);
    assert(e2[0] == evs[2]);
    assert(e2.drop_first() =~= Seq::<MdEvent>::empty());
    assert(run_events(p, evs) == run_events(p1, e1));
    assert(run_events(p1, e1) == run_events(p2, e2));
    assert(run_events(p2, e2) == run_events(p3, Seq::<MdEvent>::empty()));
    assert(run_events(p, evs) == p3);
}

/// Marker normalisation, emphasis: whatever spelling the source used, an
/// emphasised span renders as its text between single-asterisk markers.
pub proof fn lemma_emphasis_markers(p: PrinterModel, t: String)
    requires
        forall|i: int| 0 <= i < t@.len() ==> t@[i] != '\n',
    ensures
        run_events(
            p,
            seq![
                MdEvent::Start(MdTag::Emphasis),
                MdEvent::Text(t),
                MdEvent::End(MdTag::Emphasis),
            ],
        ).writer.output.written == p.writer.output.written + p.writer.output.pending + "*"@ + t@
            + "*"@,
{
    let evs = seq![
        MdEvent::Start(MdTag::Emphasis),
        MdEvent::Text(t),
        MdEvent::End(MdTag::Emphasis),
    ];
    let p1 = push_event_spec(p, evs[0]);
    let p2 = push_event_spec(p1, evs[1]);
    let p3 = push_event_spec(p2, evs[2]);
    assert(p1.writer.output.pending =~= Seq::<char>::empty());
    assert(p1.writer.write(Seq::empty()).output.written =~= p.writer.output.written
        + p.writer.output.pending + "*"@);
    lemma_text_chars_plain(p1.writer.write(Seq::empty()), t@);
    assert(p3.writer.output.written =~= p.writer.output.written + p.writer.output.pending + "*"@
        + t@ + "*"@);
    let e1 = evs.drop_first();
    let e2 = e1.drop_first();
    assert(e1[0] == evs[1]);
    assert(e2[0] == evs[2]);
    assert(e2.drop_first() =~= Seq::<MdEvent>::empty());
    assert(run_events(p, evs) == run_events(p1, e1));
    assert(run_events(p1, e1) == run_events(p2, e2));
    assert(run_events(p2, e2) == run_events(p3, Seq::<MdEvent>::empty()));
    assert(run_events(p, evs) == p3);
}

/// Blank-line normalisation: however many blocks closed before it, the
/// deferred break is a single flag, and the next top-level block start
/// resolves it as exactly one blank line (two line feeds, each line carrying
/// the fixed prefix).
pub proof fn lemma_block_separation(p: PrinterModel)
    requires
        p.needs_break,
        p.writer.frames.len() == 0,
    ensures
        push_event_spec(p, MdEvent::Start(MdTag::Paragraph)).writer.output.written
            == p.writer.output.written + seq!['\n'] + p.writer.prefix + seq!['\n']
            + p.writer.prefix,
        push_event_spec(p, MdEvent::Start(MdTag::Paragraph)).writer.output.pending
            == Seq::<char>::empty(),
        !push_event_spec(p, MdEvent::Start(MdTag::Paragraph)).needs_break,
{
    let q = push_event_spec(p, MdEvent::Start(MdTag::Paragraph));
    assert(q.writer.output.written =~= p.writer.output.written + seq!['\n'] + p.writer.prefix
        + seq!['\n'] + p.writer.prefix);
}

/// No trailing break, one step: closing a paragraph, rule, heading, item,
/// list or quote writes nothing at all — it only raises the deferred-break
/// flag, resolved by the next block start and never at end of input.
pub proof fn lemma_block_close_emits_nothing(p: PrinterModel, tag: MdTag)
    requires
        tag is Paragraph || tag is Rule || tag is Heading || tag is Item || tag is List
            || tag is BlockQuote,
    ensures
        push_event_spec(p, MdEvent::End(tag)).writer.output == p.writer.output,
        push_event_spec(p, MdEvent::End(tag)).needs_break,
{
}

/// No trailing break, in sequence: a run of such closing events at the end
/// of the input leaves the output exactly as it was — in particular the
/// output never ends with a blank line on their account.
pub proof fn lemma_trailing_closes(p: PrinterModel, evs: Seq<MdEvent>)
    requires
        forall|i: int|
            0 <= i < evs.len() ==> (#[trigger] evs[i] matches MdEvent::End(tag) && (tag is Paragraph
                || tag is Rule || tag is Heading || tag is Item || tag is List
                || tag is BlockQuote)),
    ensures
        run_events(p, evs).writer.output == p.writer.output,
    decreases evs.len(),
{
    if evs.len() > 0 {
        let tag = evs[0]->End_0;
        lemma_block_close_emits_nothing(p, tag);
        lemma_trailing_closes(push_event_spec(p, evs[0]), evs.drop_first());
    }
}

/// Ordinal renumbering: an item start in an ordered-list context emits the
/// context's current ordinal followed by a dot and one deferred space, and
/// leaves the context carrying the next ordinal, whatever ordinals the input
/// encoded.
pub proof fn lemma_ordinal_renumbering(p: PrinterModel, n: usize)
    requires
        p.writer.frames.len() > 0,
        p.writer.frames.last() == Frame::ListItem(Some(n)),
        n < usize::MAX,
    ensures
        ({
            let q = push_event_spec(p, MdEvent::Start(MdTag::Item));
            let r = flush_break_spec(
                PrinterModel { writer: p.writer.pop(), needs_break: p.needs_break },
            );
            &&& q.writer.frames == p.writer.frames.drop_last().push(
                Frame::ListItem(Some((n + 1) as usize)),
            )
            &&& q.writer.output.written == r.writer.output.written + r.writer.output.pending
                + dec_of(n as nat) + "."@
            &&& q.writer.output.pending == seq![' ']
            &&& !q.needs_break
        }),
{
    let q = push_event_spec(p, MdEvent::Start(MdTag::Item));
    let r = flush_break_spec(PrinterModel { writer: p.writer.pop(), needs_break: p.needs_break });
    assert(q.writer.output.written =~= r.writer.output.written + r.writer.output.pending + dec_of(
        n as nat,
    ) + "."@);
    assert(q.writer.output.pending =~= seq![' ']);
}

/// The indentation width one context contributes to continuation lines.
pub open spec fn frame_width(f: Frame) -> nat {
    match f {
        Frame::ListItem(None) => 2,
        Frame::ListItem(Some(i)) => (i as nat) / 10 + 3,
        Frame::BlockQuote => 1,
    }
}

/// The summed contribution of a stack of contexts, outermost first.
pub open spec fn frames_width(frames: Seq<Frame>) -> nat
    decreases frames.len(),
{
    if frames.len() == 0 {
        0
    } else {
        frame_width(frames[0]) + frames_width(frames.drop_first())
    }
}

proof fn lemma_indent_frames_no_quote(o: OutputModel, frames: Seq<Frame>)
    requires
        forall|i: int| 0 <= i < frames.len() ==> !(#[trigger] frames[i] is BlockQuote),
    ensures
        indent_frames(o, frames).written == o.written,
        indent_frames(o, frames).pending == o.pending + spaces(frames_width(frames)),
    decreases frames.len(),
{
    if frames.len() == 0 {
        assert(o.pending + spaces(0) =~= o.pending);
    } else {
        let o1 = frame_step(o, frames[0]);
        assert(o1.written == o.written);
        assert(o1.pending =~= o.pending + spaces(frame_width(frames[0])));
        lemma_indent_frames_no_quote(o1, frames.drop_first());
        assert(o.pending + spaces(frame_width(frames[0])) + spaces(
            frames_width(frames.drop_first()),
        ) =~= o.pending + spaces(frames_width(frames)));
    }
}

/// Indentation alignment: on a fresh line inside list contexts only, the
/// writer first emits the fixed prefix, then defers whitespace whose width is
/// the sum of every open context's contribution, composed outermost first.
pub proof fn lemma_indent_alignment(w: WriterModel)
    requires
        forall|i: int| 0 <= i < w.frames.len() ==> !(#[trigger] w.frames[i] is BlockQuote),
    ensures
        w.indent().output.written == w.output.written + w.prefix,
        w.indent().output.pending == w.output.pending + spaces(frames_width(w.frames)),
{
    lemma_indent_frames_no_quote(w.output.raw(w.prefix), w.frames);
}

/// Indentation composes in outer-to-inner order: the contribution of a
/// stack split anywhere is the contribution of the outer part, then that of
/// the inner part applied to the result.
pub proof fn lemma_indent_composition(o: OutputModel, outer: Seq<Frame>, inner: Seq<Frame>)
    ensures
        indent_frames(o, outer + inner) == indent_frames(indent_frames(o, outer), inner),
    decreases outer.len(),
{
    if outer.len() == 0 {
        assert(outer + inner =~= inner);
    } else {
        let o1 = frame_step(o, outer[0]);
        assert((outer + inner).drop_first() =~= outer.drop_first() + inner);
        lemma_indent_composition(o1, outer.drop_first(), inner);
    }
}

/// For ordinals below twenty — every ordinal a list that started at one and
/// renumbers sequentially reaches before its twentieth item — the deferred
/// width equals the visual width of the rendered marker `n. ` itself.
pub proof fn lemma_marker_width(n: usize)
    requires
        n < 20,
    ensures
        frame_width(Frame::ListItem(Some(n))) == dec_of(n as nat).len() + 2,
{
    if n < 10 {
        assert(dec_of(n as nat).len() == 1);
    } else {
        assert(dec_of(n as nat) == dec_of((n as nat) / 10) + seq![
            crate::printer::digit_char((n as nat) % 10),
        ]);
        assert(dec_of((n as nat) / 10).len() == 1);
    }
}

} // verus!
