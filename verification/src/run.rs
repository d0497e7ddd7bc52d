//! The event sequence of one whole run. A run either fails at the spawn —
//! one diagnostic log event, nothing else — or spawns, relays both streams
//! concurrently, and closes with the single completion event once the
//! process has exited and both streams have drained.

use vstd::prelude::*;
use crate::events::{
    completion_event, spawn_failure_event, spawn_failure_text, stderr_prefix, Channel, Event,
    EventModel,
};
use crate::interleave::{
    channel_events, interleave, lemma_interleaving_faithful, lemma_interleaving_only_logs,
    valid_schedule,
};
use crate::relay::{
    lemma_clean_stream_delivered, lemma_relay_only_logs, relay_events, relay_model, LineRead,
    LineReadModel,
};

verus! {

/// The outcome of one spawn attempt.
pub enum SpawnOutcome {
    /// The operating system created the child process.
    Spawned,
    /// The operating system refused; the description of the refusal.
    Failed(String),
}

/// The mathematical model of a [`SpawnOutcome`].
pub enum SpawnOutcomeModel {
    Spawned,
    Failed(Seq<char>),
}

impl DeepView for SpawnOutcome {
    type V = SpawnOutcomeModel;

    open spec fn deep_view(&self) -> SpawnOutcomeModel {
        match self {
            SpawnOutcome::Spawned => SpawnOutcomeModel::Spawned,
            SpawnOutcome::Failed(error) => SpawnOutcomeModel::Failed(error@),
        }
    }
}

/// A tagged emission sequence with the tags dropped: what the sink actually
/// receives.
pub open spec fn untagged(emitted: Seq<(Channel, EventModel)>) -> Seq<EventModel>
    decreases emitted.len(),
{
    if emitted.len() == 0 {
        Seq::empty()
    } else {
        seq![emitted.first().1] + untagged(emitted.drop_first())
    }
}

/// Dropping tags keeps length and order.
pub proof fn lemma_untagged_elts(emitted: Seq<(Channel, EventModel)>)
    ensures
        untagged(emitted).len() == emitted.len(),
        forall|i: int| 0 <= i < emitted.len() ==> untagged(emitted)[i] == emitted[i].1,
    decreases emitted.len(),
{
    if emitted.len() > 0 {
        lemma_untagged_elts(emitted.drop_first());
        assert forall|i: int| 0 <= i < emitted.len() implies untagged(emitted)[i]
            == emitted[i].1 by {
            if i > 0 {
                assert(untagged(emitted)[i] == untagged(emitted.drop_first())[i - 1]);
                assert(emitted.drop_first()[i - 1] == emitted[i]);
            }
        }
    }
}

/// The events the sink receives from one run, in arrival order. A failed
/// spawn contributes the single diagnostic event. A successful spawn
/// contributes both relays' events, interleaved by the schedule under which
/// they reached the sink, and then the completion event.
pub open spec fn run_model(
    outcome: SpawnOutcomeModel,
    interpreter: Seq<char>,
    workdir: Seq<char>,
    out_reads: Seq<LineReadModel>,
    err_reads: Seq<LineReadModel>,
    sched: Seq<Channel>,
) -> Seq<EventModel> {
    match outcome {
        SpawnOutcomeModel::Failed(error) => seq![
            EventModel::Log(spawn_failure_text(error, interpreter, workdir)),
        ],
        SpawnOutcomeModel::Spawned => untagged(
            interleave(
                sched,
                relay_model(Channel::Stdout, out_reads),
                relay_model(Channel::Stderr, err_reads),
            ),
        ).push(EventModel::Complete),
    }
}

/// The decision taken right after the spawn attempt: a refusal is surfaced
/// to the sink as one diagnostic log event instead of being dropped; a
/// created process needs no event of its own.
pub fn spawn_outcome_event(outcome: &SpawnOutcome, interpreter: &String, workdir: &String) -> (r:
    Option<Event>)
    ensures
        outcome.deep_view() is Failed ==> r is Some && r->0.deep_view() == EventModel::Log(
            spawn_failure_text(outcome.deep_view()->Failed_0, interpreter@, workdir@),
        ),
        outcome.deep_view() is Spawned ==> r is None,
{
    match outcome {
        SpawnOutcome::Spawned => None,
        SpawnOutcome::Failed(error) => Some(spawn_failure_event(error, interpreter, workdir)),
    }
}

/// A copy of an event with the same model.
fn copy_event(e: &Event) -> (r: Event)
    ensures
        r.deep_view() == e.deep_view(),
{
    match e {
        Event::Log(text) => Event::Log(text.clone()),
        Event::Complete => Event::Complete,
    }
}

/// Merges the two relays' events in the order a schedule delivered them.
/// A schedule step whose channel has no events left delivers nothing, so no
/// event is ever duplicated or invented.
pub fn merge_events(sched: &Vec<Channel>, out_events: &Vec<Event>, err_events: &Vec<Event>) -> (r:
    Vec<Event>)
    ensures
        r.deep_view() == untagged(
            interleave(sched@, out_events.deep_view(), err_events.deep_view()),
        ),
{
    let ghost outm = out_events.deep_view();
    let ghost errm = err_events.deep_view();
    let mut events: Vec<Event> = Vec::new();
    let mut oi: usize = 0;
    let mut ei: usize = 0;
    let mut k: usize = 0;
    proof {
        assert(sched@.skip(0) =~= sched@);
        assert(outm.skip(0) =~= outm);
        assert(errm.skip(0) =~= errm);
    }
    while k < sched.len()
        invariant
            k <= sched@.len(),
            oi <= outm.len(),
            ei <= errm.len(),
            outm == out_events.deep_view(),
            errm == err_events.deep_view(),
            outm.len() == out_events@.len(),
            errm.len() == err_events@.len(),
            untagged(interleave(sched@, outm, errm)) == events.deep_view() + untagged(
                interleave(sched@.skip(k as int), outm.skip(oi as int), errm.skip(ei as int)),
            ),
        decreases sched@.len() - k,
    {
        let ghost rest_sched = sched@.skip(k as int);
        let ghost rest_out = outm.skip(oi as int);
        let ghost rest_err = errm.skip(ei as int);
        proof {
            assert(rest_sched.len() > 0);
            assert(rest_sched.first() == sched@[k as int]);
            assert(rest_sched.drop_first() =~= sched@.skip(k as int + 1));
        }
        match sched[k] {
            Channel::Stdout => {
                if oi < out_events.len() {
                    let ghost prev = events.deep_view();
                    events.push(copy_event(&out_events[oi]));
                    proof {
                        assert(events.deep_view() =~= prev.push(outm[oi as int]));
                        assert(rest_out.first() == outm[oi as int]);
                        assert(rest_out.drop_first() =~= outm.skip(oi as int + 1));
                        let head = seq![(Channel::Stdout, rest_out.first())];
                        let tail = interleave(
                            rest_sched.drop_first(),
                            rest_out.drop_first(),
                            rest_err,
                        );
                        assert(interleave(rest_sched, rest_out, rest_err) == head + tail);
                        assert((head + tail).first() == (Channel::Stdout, rest_out.first()));
                        assert((head + tail).drop_first() =~= tail);
                        assert(untagged(interleave(rest_sched, rest_out, rest_err)) == seq![
                            rest_out.first(),
                        ] + untagged(tail));
                        assert(prev.push(rest_out.first()) + untagged(tail) =~= prev + (seq![
                            rest_out.first(),
                        ] + untagged(tail)));
                        assert(events.deep_view() + untagged(tail) =~= untagged(
                            interleave(sched@, outm, errm),
                        ));
                    }
                    oi = oi + 1;
                } else {
                    proof {
                        assert(rest_out.len() == 0);
                        assert(interleave(rest_sched, rest_out, rest_err) == interleave(
                            rest_sched.drop_first(),
                            rest_out,
                            rest_err,
                        ));
                    }
                }
            },
            Channel::Stderr => {
                if ei < err_events.len() {
                    let ghost prev = events.deep_view();
                    events.push(copy_event(&err_events[ei]));
                    proof {
                        assert(events.deep_view() =~= prev.push(errm[ei as int]));
                        assert(rest_err.first() == errm[ei as int]);
                        assert(rest_err.drop_first() =~= errm.skip(ei as int + 1));
                        let head = seq![(Channel::Stderr, rest_err.first())];
                        let tail = interleave(
                            rest_sched.drop_first(),
                            rest_out,
                            rest_err.drop_first(),
                        );
                        assert(interleave(rest_sched, rest_out, rest_err) == head + tail);
                        assert((head + tail).first() == (Channel::Stderr, rest_err.first()));
                        assert((head + tail).drop_first() =~= tail);
                        assert(untagged(interleave(rest_sched, rest_out, rest_err)) == seq![
                            rest_err.first(),
                        ] + untagged(tail));
                        assert(prev.push(rest_err.first()) + untagged(tail) =~= prev + (seq![
                            rest_err.first(),
                        ] + untagged(tail)));
                        assert(events.deep_view() + untagged(tail) =~= untagged(
                            interleave(sched@, outm, errm),
                        ));
                    }
                    ei = ei + 1;
                } else {
                    proof {
                        assert(rest_err.len() == 0);
                        assert(interleave(rest_sched, rest_out, rest_err) == interleave(
                            rest_sched.drop_first(),
                            rest_out,
                            rest_err,
                        ));
                    }
                }
            },
        }
        k = k + 1;
    }
    proof {
        assert(sched@.skip(sched@.len() as int).len() == 0);
        assert(untagged(
            interleave(
                sched@.skip(sched@.len() as int),
                outm.skip(oi as int),
                errm.skip(ei as int),
            ),
        ) =~= Seq::<EventModel>::empty());
        assert(events.deep_view() =~= untagged(interleave(sched@, outm, errm)));
    }
    events
}

/// The full event sequence of one run, in arrival order: the diagnostic
/// event alone when the spawn failed, otherwise both relays' events in
/// schedule order closed by the completion event.
pub fn run_events(
    outcome: &SpawnOutcome,
    interpreter: &String,
    workdir: &String,
    out_reads: &Vec<LineRead>,
    err_reads: &Vec<LineRead>,
    sched: &Vec<Channel>,
) -> (r: Vec<Event>)
    ensures
        r.deep_view() == run_model(
            outcome.deep_view(),
            interpreter@,
            workdir@,
            out_reads.deep_view(),
            err_reads.deep_view(),
            sched@,
        ),
{
    match outcome {
        SpawnOutcome::Failed(error) => {
            let mut events: Vec<Event> = Vec::new();
            events.push(spawn_failure_event(error, interpreter, workdir));
            proof {
                assert(events.deep_view() =~= run_model(
                    outcome.deep_view(),
                    interpreter@,
                    workdir@,
                    out_reads.deep_view(),
                    err_reads.deep_view(),
                    sched@,
                ));
            }
            events
        },
        SpawnOutcome::Spawned => {
            let out_events = relay_events(Channel::Stdout, out_reads);
            let err_events = relay_events(Channel::Stderr, err_reads);
            let mut events = merge_events(sched, &out_events, &err_events);
            events.push(completion_event());
            proof {
                assert(events.deep_view() =~= run_model(
                    outcome.deep_view(),
                    interpreter@,
                    workdir@,
                    out_reads.deep_view(),
                    err_reads.deep_view(),
                    sched@,
                ));
            }
            events
        },
    }
}

/// Law: the completion event of a spawned run comes strictly after every log
/// event of that run, whatever the streams held — it is the last event, it
/// occurs exactly once, and everything before it is a log event.
pub proof fn lemma_completion_strictly_last(
    interpreter: Seq<char>,
    workdir: Seq<char>,
    out_reads: Seq<LineReadModel>,
    err_reads: Seq<LineReadModel>,
    sched: Seq<Channel>,
)
    ensures
        run_model(SpawnOutcomeModel::Spawned, interpreter, workdir, out_reads, err_reads, sched)
            .len() >= 1,
        run_model(SpawnOutcomeModel::Spawned, interpreter, workdir, out_reads, err_reads, sched)
            .last() == EventModel::Complete,
        forall|i: int|
            0 <= i < run_model(
                SpawnOutcomeModel::Spawned,
                interpreter,
                workdir,
                out_reads,
                err_reads,
                sched,
            ).len() - 1 ==> run_model(
                SpawnOutcomeModel::Spawned,
                interpreter,
                workdir,
                out_reads,
                err_reads,
                sched,
            )[i] is Log,
{
    let out_events = relay_model(Channel::Stdout, out_reads);
    let err_events = relay_model(Channel::Stderr, err_reads);
    lemma_relay_only_logs(Channel::Stdout, out_reads);
    lemma_relay_only_logs(Channel::Stderr, err_reads);
    lemma_interleaving_only_logs(sched, out_events, err_events);
    lemma_untagged_elts(interleave(sched, out_events, err_events));
    let run = run_model(
        SpawnOutcomeModel::Spawned,
        interpreter,
        workdir,
        out_reads,
        err_reads,
        sched,
    );
    assert forall|i: int| 0 <= i < run.len() - 1 implies run[i] is Log by {
        assert(run[i] == untagged(interleave(sched, out_events, err_events))[i]);
        assert(untagged(interleave(sched, out_events, err_events))[i] == interleave(
            sched,
            out_events,
            err_events,
        )[i].1);
    }
}

/// Law: a spawned worker that writes only well-formed lines is delivered in
/// full. Under any interleaving of the two relays the sink receives one log
/// event per stdout line, carrying the line unchanged, and one per stderr
/// line, carrying the line behind the error marker, each channel in its
/// original order; after all of them comes the single completion event, and
/// nothing else.
pub proof fn lemma_run_delivers_streams(
    interpreter: Seq<char>,
    workdir: Seq<char>,
    out_reads: Seq<LineReadModel>,
    err_reads: Seq<LineReadModel>,
    sched: Seq<Channel>,
)
    requires
        forall|i: int| 0 <= i < out_reads.len() ==> out_reads[i] is Line,
        forall|i: int| 0 <= i < err_reads.len() ==> err_reads[i] is Line,
        valid_schedule(
            sched,
            relay_model(Channel::Stdout, out_reads),
            relay_model(Channel::Stderr, err_reads),
        ),
    ensures
        run_model(
            SpawnOutcomeModel::Spawned,
            interpreter,
            workdir,
            out_reads,
            err_reads,
            sched,
        ).len() == out_reads.len() + err_reads.len() + 1,
        run_model(SpawnOutcomeModel::Spawned, interpreter, workdir, out_reads, err_reads, sched)
            .last() == EventModel::Complete,
        forall|i: int|
            0 <= i < out_reads.len() + err_reads.len() ==> run_model(
                SpawnOutcomeModel::Spawned,
                interpreter,
                workdir,
                out_reads,
                err_reads,
                sched,
            )[i] is Log,
        channel_events(
            interleave(
                sched,
                relay_model(Channel::Stdout, out_reads),
                relay_model(Channel::Stderr, err_reads),
            ),
            Channel::Stdout,
        ) == relay_model(Channel::Stdout, out_reads),
        channel_events(
            interleave(
                sched,
                relay_model(Channel::Stdout, out_reads),
                relay_model(Channel::Stderr, err_reads),
            ),
            Channel::Stderr,
        ) == relay_model(Channel::Stderr, err_reads),
        relay_model(Channel::Stdout, out_reads).len() == out_reads.len(),
        forall|i: int|
            0 <= i < out_reads.len() ==> relay_model(Channel::Stdout, out_reads)[i]
                == EventModel::Log(out_reads[i]->Line_0),
        relay_model(Channel::Stderr, err_reads).len() == err_reads.len(),
        forall|i: int|
            0 <= i < err_reads.len() ==> relay_model(Channel::Stderr, err_reads)[i]
                == EventModel::Log(stderr_prefix() + err_reads[i]->Line_0),
{
    let out_events = relay_model(Channel::Stdout, out_reads);
    let err_events = relay_model(Channel::Stderr, err_reads);
    lemma_clean_stream_delivered(Channel::Stdout, out_reads);
    lemma_clean_stream_delivered(Channel::Stderr, err_reads);
    lemma_interleaving_faithful(sched, out_events, err_events);
    lemma_interleaving_only_logs(sched, out_events, err_events);
    lemma_untagged_elts(interleave(sched, out_events, err_events));
    let run = run_model(
        SpawnOutcomeModel::Spawned,
        interpreter,
        workdir,
        out_reads,
        err_reads,
        sched,
    );
    assert(run.last() == EventModel::Complete);
    assert forall|i: int| 0 <= i < out_reads.len() + err_reads.len() implies run[i] is Log by {
        assert(run[i] == untagged(interleave(sched, out_events, err_events))[i]);
        assert(untagged(interleave(sched, out_events, err_events))[i] == interleave(
            sched,
            out_events,
            err_events,
        )[i].1);
    }
}

/// Law: when the spawn fails, the sink receives exactly one event — the
/// diagnostic log line naming the failure, the interpreter, and the working
/// directory — and never a completion event.
pub proof fn lemma_failed_spawn_diagnosed(
    error: Seq<char>,
    interpreter: Seq<char>,
    workdir: Seq<char>,
    out_reads: Seq<LineReadModel>,
    err_reads: Seq<LineReadModel>,
    sched: Seq<Channel>,
)
    ensures
        run_model(
            SpawnOutcomeModel::Failed(error),
            interpreter,
            workdir,
            out_reads,
            err_reads,
            sched,
        ).len() == 1,
        run_model(
            SpawnOutcomeModel::Failed(error),
            interpreter,
            workdir,
            out_reads,
            err_reads,
            sched,
        )[0] == EventModel::Log(spawn_failure_text(error, interpreter, workdir)),
        forall|i: int|
            0 <= i < run_model(
                SpawnOutcomeModel::Failed(error),
                interpreter,
                workdir,
                out_reads,
                err_reads,
                sched,
            ).len() ==> !(run_model(
                SpawnOutcomeModel::Failed(error),
                interpreter,
                workdir,
                out_reads,
                err_reads,
                sched,
            )[i] is Complete),
{
}

} // verus!
