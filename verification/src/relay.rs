//! Stream relay: the decision logic of the task that forwards one worker
//! output stream as log events. A stream arrives as a finite sequence of
//! line reads, each either a decoded line or a malformed one; every decoded
//! line becomes one log event tagged with its channel, and a malformed line
//! is skipped without ending the relay.

use vstd::prelude::*;
use crate::events::{line_event, line_text, Channel, Event, EventModel};

verus! {

/// The outcome of reading one line from a worker stream.
pub enum LineRead {
    /// A line that decoded successfully.
    Line(String),
    /// A line whose bytes did not decode; it carries no text.
    Malformed,
}

/// The mathematical model of a [`LineRead`].
pub enum LineReadModel {
    Line(Seq<char>),
    Malformed,
}

impl DeepView for LineRead {
    type V = LineReadModel;

    open spec fn deep_view(&self) -> LineReadModel {
        match self {
            LineRead::Line(text) => LineReadModel::Line(text@),
            LineRead::Malformed => LineReadModel::Malformed,
        }
    }
}

/// The events one line read contributes: one log event for a decoded line,
/// none for a malformed one.
pub open spec fn read_events(channel: Channel, read: LineReadModel) -> Seq<EventModel> {
    match read {
        LineReadModel::Line(text) => seq![EventModel::Log(line_text(channel, text))],
        LineReadModel::Malformed => Seq::empty(),
    }
}

/// The log events one relay emits for a stream: one event per decoded line,
/// in stream order, each carrying that line's delivered text; malformed
/// lines contribute nothing.
pub open spec fn relay_model(channel: Channel, reads: Seq<LineReadModel>) -> Seq<EventModel>
    decreases reads.len(),
{
    if reads.len() == 0 {
        Seq::empty()
    } else {
        read_events(channel, reads.first()) + relay_model(channel, reads.drop_first())
    }
}

/// Extending a stream by one read appends that read's events.
pub proof fn lemma_relay_model_push(channel: Channel, reads: Seq<LineReadModel>, read: LineReadModel)
    ensures
        relay_model(channel, reads.push(read)) == relay_model(channel, reads) + read_events(
            channel,
            read,
        ),
    decreases reads.len(),
{
    if reads.len() == 0 {
        assert(reads.push(read).first() == read);
        assert(reads =~= Seq::<LineReadModel>::empty());
        assert(reads.push(read).drop_first() =~= reads);
        assert(relay_model(channel, reads.push(read)) =~= relay_model(channel, reads)
            + read_events(channel, read));
    } else {
        assert(reads.push(read).first() == reads.first());
        assert(reads.push(read).drop_first() =~= reads.drop_first().push(read));
        lemma_relay_model_push(channel, reads.drop_first(), read);
        assert(relay_model(channel, reads.push(read)) =~= relay_model(channel, reads)
            + read_events(channel, read));
    }
}

/// The relay of a concatenation is the concatenation of the relays.
pub proof fn lemma_relay_model_concat(
    channel: Channel,
    front: Seq<LineReadModel>,
    back: Seq<LineReadModel>,
)
    ensures
        relay_model(channel, front + back) == relay_model(channel, front) + relay_model(
            channel,
            back,
        ),
    decreases front.len(),
{
    if front.len() == 0 {
        assert(front + back =~= back);
        assert(relay_model(channel, front + back) =~= relay_model(channel, front) + relay_model(
            channel,
            back,
        ));
    } else {
        assert((front + back).drop_first() =~= front.drop_first() + back);
        lemma_relay_model_concat(channel, front.drop_first(), back);
        assert(relay_model(channel, front + back) =~= relay_model(channel, front) + relay_model(
            channel,
            back,
        ));
    }
}

/// Law: a malformed line is skipped without ending the relay — the stream
/// around it is delivered exactly as it would be with the bad line absent,
/// so every valid line after it still arrives.
pub proof fn lemma_malformed_line_skipped(
    channel: Channel,
    before: Seq<LineReadModel>,
    after: Seq<LineReadModel>,
)
    ensures
        relay_model(channel, before + seq![LineReadModel::Malformed] + after) == relay_model(
            channel,
            before + after,
        ),
{
    lemma_relay_model_concat(channel, before + seq![LineReadModel::Malformed], after);
    lemma_relay_model_push(channel, before, LineReadModel::Malformed);
    assert(before + seq![LineReadModel::Malformed] =~= before.push(LineReadModel::Malformed));
    lemma_relay_model_concat(channel, before, after);
    assert(relay_model(channel, before) + read_events(channel, LineReadModel::Malformed)
        =~= relay_model(channel, before));
}

/// Law: a stream of only decoded lines is delivered in full — one event per
/// line, in stream order, stdout lines unchanged and stderr lines behind the
/// error marker.
pub proof fn lemma_clean_stream_delivered(channel: Channel, reads: Seq<LineReadModel>)
    requires
        forall|i: int| 0 <= i < reads.len() ==> reads[i] is Line,
    ensures
        relay_model(channel, reads).len() == reads.len(),
        forall|i: int|
            0 <= i < reads.len() ==> relay_model(channel, reads)[i] == EventModel::Log(
                line_text(channel, reads[i]->Line_0),
            ),
    decreases reads.len(),
{
    if reads.len() > 0 {
        assert(reads.first() is Line);
        lemma_clean_stream_delivered(channel, reads.drop_first());
        assert forall|i: int| 0 <= i < reads.len() implies relay_model(channel, reads)[i]
            == EventModel::Log(line_text(channel, reads[i]->Line_0)) by {
            if i > 0 {
                assert(relay_model(channel, reads)[i] == relay_model(
                    channel,
                    reads.drop_first(),
                )[i - 1]);
                assert(reads.drop_first()[i - 1] == reads[i]);
            }
        }
    }
}

/// A relay emits nothing but log events, whatever the stream held.
pub proof fn lemma_relay_only_logs(channel: Channel, reads: Seq<LineReadModel>)
    ensures
        forall|i: int|
            0 <= i < relay_model(channel, reads).len() ==> relay_model(channel, reads)[i] is Log,
    decreases reads.len(),
{
    if reads.len() > 0 {
        lemma_relay_only_logs(channel, reads.drop_first());
        assert forall|i: int| 0 <= i < relay_model(channel, reads).len() implies relay_model(
            channel,
            reads,
        )[i] is Log by {
            let head = read_events(channel, reads.first());
            if i >= head.len() {
                assert(relay_model(channel, reads)[i] == relay_model(channel, reads.drop_first())[
                    i - head.len()]);
            }
        }
    }
}

/// Relays one whole stream: the events for `reads`, in order.
pub fn relay_events(channel: Channel, reads: &Vec<LineRead>) -> (r: Vec<Event>)
    ensures
        r.deep_view() == relay_model(channel, reads.deep_view()),
{
    let mut events: Vec<Event> = Vec::new();
    let mut i: usize = 0;
    proof {
        assert(reads.deep_view().take(0) =~= Seq::<LineReadModel>::empty());
    }
    while i < reads.len()
        invariant
            i <= reads@.len(),
            reads.deep_view().len() == reads@.len(),
            events.deep_view() == relay_model(channel, reads.deep_view().take(i as int)),
        decreases reads@.len() - i,
    {
        let ghost prefix = reads.deep_view().take(i as int);
        match &reads[i] {
            LineRead::Line(text) => {
                events.push(line_event(channel, text.clone()));
            },
            LineRead::Malformed => {},
        }
        proof {
            lemma_relay_model_push(channel, prefix, reads.deep_view()[i as int]);
            assert(reads.deep_view().take(i + 1) =~= prefix.push(reads.deep_view()[i as int]));
            assert(events.deep_view() =~= relay_model(channel, reads.deep_view().take(i + 1)));
        }
        i = i + 1;
    }
    proof {
        assert(reads.deep_view().take(reads@.len() as int) =~= reads.deep_view());
    }
    events
}

} // verus!
