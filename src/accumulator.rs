//! The conversion state machine: it consumes report events one at a time and
//! decides which start and stop packets describe each test case.
use vstd::prelude::*;

use crate::identity::{derive_test_id, opt_bytes, test_id_of};
use crate::packet::{packet_views, start_packet, stop_packet, Packet, PacketView, Status};

verus! {

/// The attributes of a `testcase` element: `time` already turned into a
/// duration in nanoseconds.
pub struct TestCaseAttributes {
    pub name: Option<Vec<u8>>,
    pub classname: Option<Vec<u8>>,
    pub id: Option<Vec<u8>>,
    pub duration: Option<i64>,
}

/// An event of the report, in document order.
pub enum ReportEvent {
    /// A `testcase` start tag.
    TestCase(TestCaseAttributes),
    /// A `skipped` start tag, with its `message` attribute if present.
    Skipped(Option<Vec<u8>>),
    /// A `failure` or `error` start tag, with its `message` attribute if present.
    Failure(Option<Vec<u8>>),
    /// A decoded text node.
    Text(Vec<u8>),
}

/// Why a report cannot be converted.
#[derive(Clone, Copy, Debug, PartialEq, Eq, Structural)]
pub enum ConvertError {
    /// A `testcase` has no `time` attribute.
    MissingTime,
    /// A `testcase` has none of `name`, `classname` and `id`.
    MissingIdentifier,
    /// A stop time falls outside the representable timestamps.
    ClockOverflow,
}

impl ConvertError {
    /// The process exit status that reports this error: time errors share
    /// one, identifier errors have their own.
    pub fn exit_code(&self) -> (r: i32)
        ensures
            *self == ConvertError::MissingIdentifier ==> r == 3,
            *self != ConvertError::MissingIdentifier ==> r == 2,
    {
        match self {
            ConvertError::MissingIdentifier => 3,
            _ => 2,
        }
    }

    /// A sentence that says what is wrong with the report.
    pub fn message(&self) -> (r: &'static str)
        ensures
            *self == ConvertError::MissingTime ==> r@ == "There is no time attribute on a testcase"@,
            *self == ConvertError::MissingIdentifier ==> r@
                == "There is no testname, classname or id attribute on a testcase"@,
            *self == ConvertError::ClockOverflow ==> r@
                == "A testcase ends beyond the representable timestamps"@,
    {
        match self {
            ConvertError::MissingTime => "There is no time attribute on a testcase",
            ConvertError::MissingIdentifier => "There is no testname, classname or id attribute on a testcase",
            ConvertError::ClockOverflow => "A testcase ends beyond the representable timestamps",
        }
    }
}

/// The test case in progress: its start packet is already out.
pub struct Pending {
    pub test_id: Vec<u8>,
    pub status: Status,
    pub attachment: Option<Vec<u8>>,
    pub stop: i64,
}

pub ghost struct PendingView {
    pub test_id: Seq<u8>,
    pub status: Status,
    pub attachment: Option<Seq<u8>>,
    pub stop: int,
}

impl View for Pending {
    type V = PendingView;

    open spec fn view(&self) -> PendingView {
        PendingView {
            test_id: self.test_id@,
            status: self.status,
            attachment: opt_bytes(self.attachment),
            stop: self.stop as int,
        }
    }
}

/// The run clock and the test case in progress, if any.
pub struct Accumulator {
    pub cursor: i64,
    pub pending: Option<Pending>,
}

pub ghost struct AccView {
    pub cursor: int,
    pub pending: Option<PendingView>,
}

impl View for Accumulator {
    type V = AccView;

    open spec fn view(&self) -> AccView {
        AccView {
            cursor: self.cursor as int,
            pending: match self.pending {
                Some(p) => Some(p@),
                None => None,
            },
        }
    }
}

/// The stop packet that resolves a pending test case.
pub open spec fn flush_spec(p: PendingView) -> PacketView {
    stop_packet(p.status, p.test_id, p.stop, p.attachment)
}

/// What closing the pending test case, if any, emits.
pub open spec fn flushed(pending: Option<PendingView>) -> Seq<PacketView> {
    match pending {
        Some(p) => seq![flush_spec(p)],
        None => seq![],
    }
}

pub open spec fn fits_i64(x: int) -> bool {
    i64::MIN <= x <= i64::MAX
}

/// A `skipped`, `failure` or `error` tag: with a message the test is resolved
/// at once with it as attachment; without one only its status is recorded.
/// Outside a test case the tag is ignored.
pub open spec fn outcome_spec(s: AccView, status: Status, message: Option<Seq<u8>>) -> (
    AccView,
    Seq<PacketView>,
) {
    match s.pending {
        None => (s, seq![]),
        Some(p) => match message {
            Some(m) => (
                AccView { pending: None, ..s },
                seq![stop_packet(status, p.test_id, p.stop, Some(m))],
            ),
            None => (AccView { pending: Some(PendingView { status, ..p }), ..s }, seq![]),
        },
    }
}

/// The next state and the packets emitted on one event.
pub open spec fn step_spec(s: AccView, e: ReportEvent) -> Result<
    (AccView, Seq<PacketView>),
    ConvertError,
> {
    match e {
        ReportEvent::TestCase(a) => {
            let id = test_id_of(opt_bytes(a.name), opt_bytes(a.classname), opt_bytes(a.id));
            if a.duration is None {
                Err(ConvertError::MissingTime)
            } else if id is None {
                Err(ConvertError::MissingIdentifier)
            } else if !fits_i64(s.cursor + a.duration->0) {
                Err(ConvertError::ClockOverflow)
            } else {
                let stop = s.cursor + a.duration->0;
                let p = PendingView {
                    test_id: id->0,
                    status: Status::Success,
                    attachment: None,
                    stop,
                };
                Ok(
                    (
                        AccView { cursor: stop, pending: Some(p) },
                        flushed(s.pending).push(start_packet(id->0, s.cursor)),
                    ),
                )
            }
        },
        ReportEvent::Skipped(m) => Ok(outcome_spec(s, Status::Skip, opt_bytes(m))),
        ReportEvent::Failure(m) => Ok(outcome_spec(s, Status::Fail, opt_bytes(m))),
        ReportEvent::Text(t) => match s.pending {
            Some(p) => if t@.len() > 0 {
                Ok((AccView { pending: Some(PendingView { attachment: Some(t@), ..p }), ..s }, seq![]))
            } else {
                Ok((s, seq![]))
            },
            None => Ok((s, seq![])),
        },
    }
}

/// Runs the events from state `s`, stopping at the first error.
pub open spec fn run_spec(s: AccView, evs: Seq<ReportEvent>) -> Result<
    (AccView, Seq<PacketView>),
    ConvertError,
>
    decreases evs.len(),
{
    if evs.len() == 0 {
        Ok((s, seq![]))
    } else {
        match run_spec(s, evs.drop_last()) {
            Ok((s1, pk)) => match step_spec(s1, evs.last()) {
                Ok((s2, out)) => Ok((s2, pk + out)),
                Err(e) => Err(e),
            },
            Err(e) => Err(e),
        }
    }
}

/// The state before the first event: the clock at the epoch, no test open.
pub open spec fn initial(epoch: int) -> AccView {
    AccView { cursor: epoch, pending: None }
}

/// The packets of a whole report: every event in turn, then the end of the
/// document, which resolves the test case still open.
pub open spec fn convert_spec(epoch: int, evs: Seq<ReportEvent>) -> Result<
    Seq<PacketView>,
    ConvertError,
> {
    match run_spec(initial(epoch), evs) {
        Ok((s, pk)) => Ok(pk + flushed(s.pending)),
        Err(e) => Err(e),
    }
}

impl Accumulator {
    /// A run whose clock starts at `epoch`, in nanoseconds since the Unix epoch.
    pub fn new(epoch: i64) -> (r: Accumulator)
        ensures
            r@ == initial(epoch as int),
    {
        Accumulator { cursor: epoch, pending: None }
    }

    /// Resolves the pending test case, if any, and leaves none open.
    pub fn finish(&mut self) -> (r: Vec<Packet>)
        ensures
            packet_views(r@) == flushed(old(self)@.pending),
            final(self)@ == (AccView { pending: None, ..old(self)@ }),
    {
        let mut out: Vec<Packet> = Vec::new();
        let pending = self.pending.take();
        match pending {
            Some(p) => {
                out.push(Packet::stop(p.status, p.test_id, p.stop, p.attachment));
            },
            None => {},
        }
        proof {
            assert(packet_views(out@) =~= flushed(old(self)@.pending));
        }
        out
    }

    fn outcome(&mut self, status: Status, message: &Option<Vec<u8>>) -> (r: Vec<Packet>)
        ensures
            (final(self)@, packet_views(r@)) == outcome_spec(old(self)@, status, opt_bytes(*message)),
    {
        let mut out: Vec<Packet> = Vec::new();
        let pending = self.pending.take();
        match pending {
            None => {},
            Some(mut p) => match message {
                Some(m) => {
                    out.push(Packet::stop(status, p.test_id, p.stop, Some(m.clone())));
                },
                None => {
                    p.status = status;
                    self.pending = Some(p);
                },
            },
        }
        proof {
            assert(packet_views(out@) =~= outcome_spec(old(self)@, status, opt_bytes(*message)).1);
        }
        out
    }

    /// Processes one event: returns the packets it emits, or the error that
    /// ends the conversion, in which case the state is left as it was.
    pub fn step(&mut self, event: &ReportEvent) -> (r: Result<Vec<Packet>, ConvertError>)
        ensures
            match r {
                Ok(out) => step_spec(old(self)@, *event) == Ok::<
                    (AccView, Seq<PacketView>),
                    ConvertError,
                >((final(self)@, packet_views(out@))),
                Err(e) => step_spec(old(self)@, *event) == Err::<
                    (AccView, Seq<PacketView>),
                    ConvertError,
                >(e) && final(self)@ == old(self)@,
            },
    {
        match event {
            ReportEvent::TestCase(a) => {
                let duration = match a.duration {
                    Some(d) => d,
                    None => {
                        return Err(ConvertError::MissingTime);
                    },
                };
                let id = match derive_test_id(&a.name, &a.classname, &a.id) {
                    Some(id) => id,
                    None => {
                        return Err(ConvertError::MissingIdentifier);
                    },
                };
                let stop = match self.cursor.checked_add(duration) {
                    Some(t) => t,
                    None => {
                        return Err(ConvertError::ClockOverflow);
                    },
                };
                let mut out = self.finish();
                out.push(Packet::start(id.clone(), self.cursor));
                self.pending = Some(
                    Pending { test_id: id, status: Status::Success, attachment: None, stop },
                );
                self.cursor = stop;
                proof {
                    let ghost sp = step_spec(old(self)@, *event)->Ok_0;
                    assert(packet_views(out@) =~= sp.1);
                }
                Ok(out)
            },
            ReportEvent::Skipped(m) => Ok(self.outcome(Status::Skip, m)),
            ReportEvent::Failure(m) => Ok(self.outcome(Status::Fail, m)),
            ReportEvent::Text(t) => {
                if t.len() > 0 {
                    match &mut self.pending {
                        Some(p) => {
                            p.attachment = Some(t.clone());
                        },
                        None => {},
                    }
                }
                let out: Vec<Packet> = Vec::new();
                proof {
                    assert(packet_views(out@) =~= seq![]);
                }
                Ok(out)
            },
        }
    }
}

/// Once a prefix of the events fails, the whole run fails with that error.
pub proof fn lemma_run_error_sticks(s: AccView, evs: Seq<ReportEvent>, i: int)
    requires
        0 <= i <= evs.len(),
        run_spec(s, evs.take(i)) is Err,
    ensures
        run_spec(s, evs) == run_spec(s, evs.take(i)),
    decreases evs.len() - i,
{
    if i < evs.len() {
        let next = evs.take(i + 1);
        assert(next.drop_last() =~= evs.take(i));
        lemma_run_error_sticks(s, evs, i + 1);
    } else {
        assert(evs.take(i) =~= evs);
    }
}

/// Converts a whole report: every event in turn from a clock at `epoch`,
/// then the end of the document.
pub fn convert(epoch: i64, events: &Vec<ReportEvent>) -> (r: Result<Vec<Packet>, ConvertError>)
    ensures
        match r {
            Ok(pk) => convert_spec(epoch as int, events@) == Ok::<Seq<PacketView>, ConvertError>(
                packet_views(pk@),
            ),
            Err(e) => convert_spec(epoch as int, events@) == Err::<Seq<PacketView>, ConvertError>(
                e,
            ),
        },
{
    let mut acc = Accumulator::new(epoch);
    let mut out: Vec<Packet> = Vec::new();
    let mut i: usize = 0;
    proof {
        assert(events@.take(0) =~= seq![]);
        assert(packet_views(out@) =~= seq![]);
    }
    while i < events.len()
        invariant
            0 <= i <= events.len(),
            run_spec(initial(epoch as int), events@.take(i as int)) == Ok::<
                (AccView, Seq<PacketView>),
                ConvertError,
            >((acc@, packet_views(out@))),
        decreases events.len() - i,
    {
        proof {
            assert(events@.take(i + 1).drop_last() =~= events@.take(i as int));
            assert(events@.take(i + 1).last() == events@[i as int]);
        }
        let r = acc.step(&events[i]);
        match r {
            Ok(mut pk) => {
                let ghost before = out@;
                let ghost added = pk@;
                out.append(&mut pk);
                proof {
                    assert(packet_views(out@) =~= packet_views(before) + packet_views(added));
                }
            },
            Err(e) => {
                proof {
                    lemma_run_error_sticks(initial(epoch as int), events@, i + 1);
                }
                return Err(e);
            },
        }
        i += 1;
    }
    proof {
        assert(events@.take(i as int) =~= events@);
    }
    let ghost before = out@;
    let mut tail = acc.finish();
    let ghost added = tail@;
    out.append(&mut tail);
    proof {
        assert(packet_views(out@) =~= packet_views(before) + packet_views(added));
    }
    Ok(out)
}

} // verus!
