//! What every converted report looks like: starts and stops alternate, one
//! pair per test case, laid end to end on one timeline from the epoch.
use vstd::prelude::*;

use crate::accumulator::{
    convert_spec, fits_i64, flushed, initial, run_spec, step_spec, AccView, ReportEvent,
};
use crate::identity::{opt_bytes, test_id_of};
use crate::packet::{PacketView, Status};

verus! {

/// The number of `testcase` tags among the events.
pub open spec fn count_testcases(evs: Seq<ReportEvent>) -> nat
    decreases evs.len(),
{
    if evs.len() == 0 {
        0
    } else {
        count_testcases(evs.drop_last()) + if evs.last() is TestCase {
            1nat
        } else {
            0nat
        }
    }
}

/// Packets at even positions are starts and those at odd positions stops;
/// each stop names the test that the start before it named; each start but
/// the first is at the time of the stop before it, and the first is at `epoch`.
pub open spec fn back_to_back(epoch: int, pk: Seq<PacketView>) -> bool {
    &&& forall|i: int| 0 <= i < pk.len() ==> (#[trigger] pk[i].status == Status::InProgress <==> i % 2 == 0)
    &&& forall|i: int| 0 < i < pk.len() && i % 2 == 1 ==> #[trigger] pk[i].test_id == pk[i - 1].test_id
    &&& forall|i: int| 0 < i < pk.len() && i % 2 == 0 ==> #[trigger] pk[i].timestamp == pk[i - 1].timestamp
    &&& pk.len() > 0 ==> pk[0].timestamp == epoch
}

/// The clock after the events: `epoch` plus the durations of the test cases.
pub open spec fn clock_after(epoch: int, evs: Seq<ReportEvent>) -> int
    decreases evs.len(),
{
    if evs.len() == 0 {
        epoch
    } else {
        clock_after(epoch, evs.drop_last()) + match evs.last() {
            ReportEvent::TestCase(a) => match a.duration {
                Some(d) => d as int,
                None => 0,
            },
            _ => 0,
        }
    }
}

/// A well-formed report: every `testcase` has a duration and at least one of
/// `name`, `classname` and `id`, and ends at a representable time.
pub open spec fn well_formed(epoch: int, evs: Seq<ReportEvent>) -> bool
    decreases evs.len(),
{
    evs.len() == 0 || {
        &&& well_formed(epoch, evs.drop_last())
        &&& match evs.last() {
            ReportEvent::TestCase(a) => {
                &&& a.duration is Some
                &&& test_id_of(opt_bytes(a.name), opt_bytes(a.classname), opt_bytes(a.id)) is Some
                &&& fits_i64(clock_after(epoch, evs))
            },
            _ => true,
        }
    }
}

proof fn lemma_well_formed_runs(epoch: int, evs: Seq<ReportEvent>)
    requires
        well_formed(epoch, evs),
    ensures
        run_spec(initial(epoch), evs) is Ok,
        run_spec(initial(epoch), evs)->Ok_0.0.cursor == clock_after(epoch, evs),
    decreases evs.len(),
{
    if evs.len() > 0 {
        lemma_well_formed_runs(epoch, evs.drop_last());
    }
}

/// The number of start packets.
pub open spec fn count_starts(pk: Seq<PacketView>) -> nat
    decreases pk.len(),
{
    if pk.len() == 0 {
        0
    } else {
        count_starts(pk.drop_last()) + if pk.last().status == Status::InProgress {
            1nat
        } else {
            0nat
        }
    }
}

/// The number of stop packets.
pub open spec fn count_stops(pk: Seq<PacketView>) -> nat
    decreases pk.len(),
{
    if pk.len() == 0 {
        0
    } else {
        count_stops(pk.drop_last()) + if pk.last().status != Status::InProgress {
            1nat
        } else {
            0nat
        }
    }
}

proof fn lemma_alternating_counts(pk: Seq<PacketView>)
    requires
        forall|i: int| 0 <= i < pk.len() ==> (#[trigger] pk[i].status == Status::InProgress <==> i % 2 == 0),
    ensures
        count_starts(pk) == (pk.len() + 1) / 2,
        count_stops(pk) == pk.len() / 2,
    decreases pk.len(),
{
    if pk.len() > 0 {
        let q = pk.drop_last();
        assert forall|i: int| 0 <= i < q.len() implies (#[trigger] q[i].status
            == Status::InProgress <==> i % 2 == 0) by {
            assert(q[i] == pk[i]);
        }
        lemma_alternating_counts(q);
        assert(pk.last() == pk[pk.len() - 1]);
    }
}

/// What holds after `n` test cases have been opened and `pk` emitted.
pub open spec fn trace_inv(epoch: int, s: AccView, pk: Seq<PacketView>, n: nat) -> bool {
    &&& back_to_back(epoch, pk)
    &&& (s.pending is Some <==> pk.len() % 2 == 1)
    &&& pk.len() + (if pk.len() % 2 == 1 { 1int } else { 0int }) == 2 * n
    &&& pk.len() == 0 ==> s.cursor == epoch
    &&& pk.len() > 0 && pk.len() % 2 == 0 ==> pk.last().timestamp == s.cursor
    &&& s.pending is Some ==> {
        &&& s.pending->0.test_id == pk.last().test_id
        &&& s.pending->0.stop == s.cursor
        &&& s.pending->0.status != Status::InProgress
    }
}

proof fn lemma_step_keeps_trace(
    epoch: int,
    s: AccView,
    pk: Seq<PacketView>,
    n: nat,
    e: ReportEvent,
)
    requires
        trace_inv(epoch, s, pk, n),
        step_spec(s, e) is Ok,
    ensures
        trace_inv(
            epoch,
            step_spec(s, e)->Ok_0.0,
            pk + step_spec(s, e)->Ok_0.1,
            n + if e is TestCase {
                1nat
            } else {
                0nat
            },
        ),
{
    let (s2, out) = step_spec(s, e)->Ok_0;
    let pk2 = pk + out;
    match e {
        ReportEvent::TestCase(a) => {
            let start = out.last();
            assert(start.status == Status::InProgress);
            assert(start.timestamp == s.cursor);
            match s.pending {
                Some(p) => {
                    assert(out.len() == 2);
                    assert(pk2[pk.len() as int] == out[0]);
                    assert(pk2[pk.len() + 1int] == out[1]);
                    assert forall|i: int| 0 <= i < pk.len() implies pk2[i] == pk[i] by {}
                },
                None => {
                    assert(out.len() == 1);
                    assert(pk2[pk.len() as int] == out[0]);
                    assert forall|i: int| 0 <= i < pk.len() implies pk2[i] == pk[i] by {}
                },
            }
        },
        ReportEvent::Skipped(m) => {
            if s.pending is Some && m is Some {
                assert(pk2[pk.len() as int] == out[0]);
                assert forall|i: int| 0 <= i < pk.len() implies pk2[i] == pk[i] by {}
            } else {
                assert(pk2 =~= pk);
            }
        },
        ReportEvent::Failure(m) => {
            if s.pending is Some && m is Some {
                assert(pk2[pk.len() as int] == out[0]);
                assert forall|i: int| 0 <= i < pk.len() implies pk2[i] == pk[i] by {}
            } else {
                assert(pk2 =~= pk);
            }
        },
        ReportEvent::Text(t) => {
            assert(pk2 =~= pk);
        },
    }
}

proof fn lemma_run_trace(epoch: int, evs: Seq<ReportEvent>)
    requires
        run_spec(initial(epoch), evs) is Ok,
    ensures
        trace_inv(
            epoch,
            run_spec(initial(epoch), evs)->Ok_0.0,
            run_spec(initial(epoch), evs)->Ok_0.1,
            count_testcases(evs),
        ),
    decreases evs.len(),
{
    if evs.len() == 0 {
        assert(trace_inv(epoch, initial(epoch), seq![], 0));
    } else {
        let prefix = evs.drop_last();
        lemma_run_trace(epoch, prefix);
        let (s1, pk) = run_spec(initial(epoch), prefix)->Ok_0;
        lemma_step_keeps_trace(epoch, s1, pk, count_testcases(prefix), evs.last());
    }
}

/// Every well-formed report converts; and there are as many start packets as stop
/// packets as `testcase` tags; starts and stops alternate, each stop naming
/// the test of the start before it; and the tests lie back to back on one
/// timeline: the first starts at the epoch, and each later one starts at the
/// stop time of the one before.
pub proof fn lemma_back_to_back_timeline(epoch: int, events: Seq<ReportEvent>)
    requires
        well_formed(epoch, events),
    ensures
        convert_spec(epoch, events) is Ok,
        back_to_back(epoch, convert_spec(epoch, events)->Ok_0),
        convert_spec(epoch, events)->Ok_0.len() == 2 * count_testcases(events),
        count_starts(convert_spec(epoch, events)->Ok_0) == count_testcases(events),
        count_stops(convert_spec(epoch, events)->Ok_0) == count_testcases(events),
{
    lemma_well_formed_runs(epoch, events);
    lemma_run_trace(epoch, events);
    let (s, pk) = run_spec(initial(epoch), events)->Ok_0;
    let all = pk + flushed(s.pending);
    if s.pending is Some {
        assert(all[pk.len() as int] == flushed(s.pending)[0]);
        assert forall|i: int| 0 <= i < pk.len() implies all[i] == pk[i] by {}
    } else {
        assert(all =~= pk);
    }
    lemma_alternating_counts(all);
}

} // verus!
