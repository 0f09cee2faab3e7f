//! The cross-process notification bridge.
//!
//! After a successful sync, a producing process writes the sync result
//! to a well-known data file and then a doorbell marker file beside it.
//! A long-running watcher polls: a changed data-file modification time
//! *or* the marker's presence triggers a read; the marker exists
//! because timestamp comparison alone is unreliable across processes
//! with coarse filesystem clocks. This module holds the watcher's
//! decision logic and the producer's rendering of the data file; the
//! file system itself is driven outside.

use vstd::prelude::*;

use crate::token::{CalendarEvent, events_view};

verus! {

/// Relative path of the data file the producer writes.
pub fn data_file_path() -> (r: &'static str)
    ensures
        r@ == "data/calendar_events.json"@,
{
    "data/calendar_events.json"
}

/// Relative path of the doorbell marker file; its existence alone is
/// the signal, its contents are irrelevant.
pub fn marker_file_path() -> (r: &'static str)
    ensures
        r@ == "data/calendar_emit.trigger"@,
{
    "data/calendar_emit.trigger"
}

/// What the watcher remembers between polls: the data-file modification
/// time it last consumed, or `None` before the first consumption.
#[derive(Clone, Copy, PartialEq, Eq, Structural, Debug)]
pub struct WatcherState {
    pub last_mtime: Option<u64>,
}

impl WatcherState {
    /// The state a fresh watcher starts in.
    pub fn initial() -> (r: WatcherState)
        ensures
            r.last_mtime is None,
    {
        WatcherState { last_mtime: None }
    }
}

/// What one poll observes on disk before reading anything: the data
/// file's modification time (`None` if the file is absent) and whether
/// the marker exists.
#[derive(Clone, Copy, PartialEq, Eq, Structural, Debug)]
pub struct PollSignals {
    pub data_mtime: Option<u64>,
    pub marker_present: bool,
}

/// The two-signal trigger: the marker's presence, or a data file whose
/// modification time differs from the bookmark. Absence of both means
/// "no new data since last consumption", not "no data".
pub open spec fn triggered(st: WatcherState, sig: PollSignals) -> bool {
    sig.marker_present || (sig.data_mtime is Some && sig.data_mtime != st.last_mtime)
}

/// Should this poll read the data file?
pub fn should_fetch(st: &WatcherState, sig: PollSignals) -> (r: bool)
    ensures
        r == triggered(*st, sig),
{
    if sig.marker_present {
        return true;
    }
    match (sig.data_mtime, st.last_mtime) {
        (Some(m), Some(b)) => m != b,
        (Some(_), None) => true,
        (None, _) => false,
    }
}

/// What a triggered poll does after reading and parsing the data file.
#[derive(Clone, Copy, PartialEq, Eq, Structural, Debug)]
pub struct PollPlan {
    /// Forward the parsed result to the consumer.
    pub deliver: bool,
    /// Remove the doorbell marker.
    pub delete_marker: bool,
}

/// Record the consumption of a triggered poll.
///
/// On a successful parse the result is delivered, the bookmark advances
/// to the observed modification time, and the marker (if that was the
/// trigger) is deleted. A parse failure is logged by the caller and
/// delivers nothing; the bookmark does not advance, so a corrected
/// rewrite of the data file is retried on the next poll.
pub fn consume(st: &mut WatcherState, sig: PollSignals, parse_ok: bool) -> (plan: PollPlan)
    ensures
        parse_ok ==> {
            &&& final(st).last_mtime == sig.data_mtime
            &&& plan.deliver
            &&& plan.delete_marker == sig.marker_present
        },
        !parse_ok ==> {
            &&& *final(st) == *old(st)
            &&& !plan.deliver
            &&& !plan.delete_marker
        },
{
    if parse_ok {
        st.last_mtime = sig.data_mtime;
        PollPlan { deliver: true, delete_marker: sig.marker_present }
    } else {
        PollPlan { deliver: false, delete_marker: false }
    }
}

/// Idempotent consumption: after a poll consumes a result, a second
/// poll that observes the same data file with the marker gone (the
/// consumer deleted it, and no producer wrote in between) does not
/// trigger — one delivery, then a no-op.
pub proof fn lemma_consumer_idempotent(st0: WatcherState, sig: PollSignals)
    requires
        sig.data_mtime is Some,
    ensures
        ({
            let st1 = WatcherState { last_mtime: sig.data_mtime };
            let sig2 = PollSignals { data_mtime: sig.data_mtime, marker_present: false };
            !triggered(st1, sig2)
        }),
{
}

/// A poll that observes no marker and an unchanged modification time
/// never reads, whatever came before.
pub proof fn lemma_quiet_poll_is_noop(st: WatcherState, sig: PollSignals)
    requires
        !sig.marker_present,
        sig.data_mtime == st.last_mtime,
    ensures
        !triggered(st, sig),
{
}

/// The event texts joined with commas.
pub open spec fn join_commas(evs: Seq<Seq<char>>) -> Seq<char>
    decreases evs.len(),
{
    if evs.len() == 0 {
        Seq::empty()
    } else if evs.len() == 1 {
        evs[0]
    } else {
        evs[0] + seq![','] + join_commas(evs.drop_first())
    }
}

/// Appending one more event text to a joined run.
pub proof fn lemma_join_push(evs: Seq<Seq<char>>, e: Seq<char>)
    ensures
        join_commas(evs.push(e)) == if evs.len() == 0 {
            e
        } else {
            join_commas(evs) + seq![','] + e
        },
    decreases evs.len(),
{
    let p = evs.push(e);
    if evs.len() == 0 {
        assert(p.len() == 1);
        assert(p[0] == e);
    } else {
        lemma_join_push(evs.drop_first(), e);
        assert(p.drop_first() =~= evs.drop_first().push(e));
        assert(p[0] == evs[0]);
        if evs.len() == 1 {
            assert(evs.drop_first() =~= Seq::<Seq<char>>::empty());
            assert(join_commas(p) =~= evs[0] + seq![','] + e);
            assert(join_commas(evs) =~= evs[0]);
        } else {
            assert(join_commas(p) =~= evs[0] + seq![','] + (join_commas(evs.drop_first()) + seq![
                ','
            ] + e));
            assert(join_commas(evs) =~= evs[0] + seq![','] + join_commas(evs.drop_first()));
            assert(evs[0] + seq![','] + (join_commas(evs.drop_first()) + seq![','] + e) =~= (evs[0]
                + seq![','] + join_commas(evs.drop_first())) + seq![','] + e);
        }
    }
}

/// The data file's content for a sync result: the event texts as one
/// array, in provider order.
pub open spec fn events_array(evs: Seq<Seq<char>>) -> Seq<char> {
    seq!['['] + join_commas(evs) + seq![']']
}

/// Render a sync result into the data file's content.
pub fn render_events_array(events: &Vec<CalendarEvent>) -> (r: String)
    ensures
        r@ == events_array(events_view(events@)),
{
    let mut body = String::new();
    let mut i: usize = 0;
    proof {
        assert(events_view(events@).subrange(0, 0) =~= Seq::<Seq<char>>::empty());
    }
    while i < events.len()
        invariant
            i <= events@.len(),
            body@ == join_commas(events_view(events@).subrange(0, i as int)),
        decreases events@.len() - i,
    {
        let ghost evs = events_view(events@);
        let ghost pre = evs.subrange(0, i as int);
        if i > 0 {
            proof {
                reveal_strlit(",");
                assert(","@ =~= seq![',']);
            }
            body.append(",");
        }
        body.append(events[i].raw.as_str());
        proof {
            assert(evs.subrange(0, i + 1) =~= pre.push(evs[i as int]));
            lemma_join_push(pre, evs[i as int]);
            assert(evs[i as int] == events@[i as int]@);
            if i == 0 {
                assert(pre.len() == 0);
                assert(Seq::<char>::empty() + events@[i as int]@ =~= events@[i as int]@);
            }
            assert(body@ =~= join_commas(evs.subrange(0, i + 1)));
        }
        i = i + 1;
    }
    proof {
        assert(events_view(events@).subrange(0, events@.len() as int) =~= events_view(events@));
    }
    let mut out = String::new();
    proof {
        reveal_strlit("[");
        reveal_strlit("]");
        assert("["@ =~= seq!['[']);
        assert("]"@ =~= seq![']']);
    }
    out.append("[");
    out.append(body.as_str());
    out.append("]");
    proof {
        assert(out@ =~= events_array(events_view(events@)));
    }
    out
}

} // verus!
