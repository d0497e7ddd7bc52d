//! Concurrent emission model. The two relays of one run emit independently;
//! the sink sees their events in some interleaved order. A schedule — the
//! sequence of channels in the order their events reached the sink — fixes
//! one such interleaving, and the laws here say that any interleaving
//! delivers both channels in full: nothing is dropped, nothing is
//! duplicated, and per-channel order is preserved.

use vstd::prelude::*;
use crate::events::{Channel, EventModel};

verus! {

/// How many events of `sched` belong to channel `c`.
pub open spec fn channel_count(sched: Seq<Channel>, c: Channel) -> nat
    decreases sched.len(),
{
    if sched.len() == 0 {
        0
    } else {
        (if sched.first() == c {
            1nat
        } else {
            0nat
        }) + channel_count(sched.drop_first(), c)
    }
}

/// The emission order fixed by a schedule: the next event of the scheduled
/// channel, tagged with that channel. A schedule step whose channel has no
/// events left contributes nothing (a well-formed schedule has no such
/// step).
pub open spec fn interleave(
    sched: Seq<Channel>,
    out_events: Seq<EventModel>,
    err_events: Seq<EventModel>,
) -> Seq<(Channel, EventModel)>
    decreases sched.len(),
{
    if sched.len() == 0 {
        Seq::empty()
    } else {
        match sched.first() {
            Channel::Stdout => if out_events.len() > 0 {
                seq![(Channel::Stdout, out_events.first())] + interleave(
                    sched.drop_first(),
                    out_events.drop_first(),
                    err_events,
                )
            } else {
                interleave(sched.drop_first(), out_events, err_events)
            },
            Channel::Stderr => if err_events.len() > 0 {
                seq![(Channel::Stderr, err_events.first())] + interleave(
                    sched.drop_first(),
                    out_events,
                    err_events.drop_first(),
                )
            } else {
                interleave(sched.drop_first(), out_events, err_events)
            },
        }
    }
}

/// The events of one channel, in emission order, from a tagged emission
/// sequence.
pub open spec fn channel_events(emitted: Seq<(Channel, EventModel)>, c: Channel) -> Seq<EventModel>
    decreases emitted.len(),
{
    if emitted.len() == 0 {
        Seq::empty()
    } else {
        (if emitted.first().0 == c {
            seq![emitted.first().1]
        } else {
            Seq::empty()
        }) + channel_events(emitted.drop_first(), c)
    }
}

/// A schedule is an interleaving of the two relays' outputs when it has
/// exactly one step per event of each channel.
pub open spec fn valid_schedule(
    sched: Seq<Channel>,
    out_events: Seq<EventModel>,
    err_events: Seq<EventModel>,
) -> bool {
    &&& channel_count(sched, Channel::Stdout) == out_events.len()
    &&& channel_count(sched, Channel::Stderr) == err_events.len()
}

/// Law: under any interleaving of the two relays, the sink receives every
/// event of both channels exactly once — the emission restricted to one
/// channel is exactly that channel's event sequence, in its original order —
/// and the total number of emitted events is the sum of the two.
pub proof fn lemma_interleaving_faithful(
    sched: Seq<Channel>,
    out_events: Seq<EventModel>,
    err_events: Seq<EventModel>,
)
    requires
        valid_schedule(sched, out_events, err_events),
    ensures
        interleave(sched, out_events, err_events).len() == out_events.len() + err_events.len(),
        channel_events(interleave(sched, out_events, err_events), Channel::Stdout) == out_events,
        channel_events(interleave(sched, out_events, err_events), Channel::Stderr) == err_events,
    decreases sched.len(),
{
    if sched.len() == 0 {
        assert(channel_events(interleave(sched, out_events, err_events), Channel::Stdout)
            =~= out_events);
        assert(channel_events(interleave(sched, out_events, err_events), Channel::Stderr)
            =~= err_events);
    } else {
        match sched.first() {
            Channel::Stdout => {
                assert(channel_count(sched, Channel::Stdout) >= 1);
                lemma_interleaving_faithful(
                    sched.drop_first(),
                    out_events.drop_first(),
                    err_events,
                );
                let rest = interleave(sched.drop_first(), out_events.drop_first(), err_events);
                let whole = seq![(Channel::Stdout, out_events.first())] + rest;
                assert(whole.first() == (Channel::Stdout, out_events.first()));
                assert(whole.drop_first() =~= rest);
                assert(channel_events(whole, Channel::Stdout) =~= out_events);
                assert(channel_events(whole, Channel::Stderr) =~= err_events);
            },
            Channel::Stderr => {
                assert(channel_count(sched, Channel::Stderr) >= 1);
                lemma_interleaving_faithful(
                    sched.drop_first(),
                    out_events,
                    err_events.drop_first(),
                );
                let rest = interleave(sched.drop_first(), out_events, err_events.drop_first());
                let whole = seq![(Channel::Stderr, err_events.first())] + rest;
                assert(whole.first() == (Channel::Stderr, err_events.first()));
                assert(whole.drop_first() =~= rest);
                assert(channel_events(whole, Channel::Stdout) =~= out_events);
                assert(channel_events(whole, Channel::Stderr) =~= err_events);
            },
        }
    }
}

/// Every emitted event originates in one of the two relays: an interleaving
/// of two all-log sequences emits only log events.
pub proof fn lemma_interleaving_only_logs(
    sched: Seq<Channel>,
    out_events: Seq<EventModel>,
    err_events: Seq<EventModel>,
)
    requires
        forall|i: int| 0 <= i < out_events.len() ==> out_events[i] is Log,
        forall|i: int| 0 <= i < err_events.len() ==> err_events[i] is Log,
    ensures
        forall|i: int|
            0 <= i < interleave(sched, out_events, err_events).len() ==> interleave(
                sched,
                out_events,
                err_events,
            )[i].1 is Log,
    decreases sched.len(),
{
    if sched.len() > 0 {
        match sched.first() {
            Channel::Stdout => {
                if out_events.len() > 0 {
                    lemma_interleaving_only_logs(
                        sched.drop_first(),
                        out_events.drop_first(),
                        err_events,
                    );
                    assert(out_events.first() is Log);
                } else {
                    lemma_interleaving_only_logs(sched.drop_first(), out_events, err_events);
                }
            },
            Channel::Stderr => {
                if err_events.len() > 0 {
                    lemma_interleaving_only_logs(
                        sched.drop_first(),
                        out_events,
                        err_events.drop_first(),
                    );
                    assert(err_events.first() is Log);
                } else {
                    lemma_interleaving_only_logs(sched.drop_first(), out_events, err_events);
                }
            },
        }
    }
}

} // verus!
