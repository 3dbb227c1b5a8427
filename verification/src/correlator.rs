//! Request and response correlation: what the frames on the result port say,
//! and how a pending request is judged at each poll, response against deadline.

use vstd::prelude::*;
use crate::frame::{frame_views, Frame, FrameView, Props};
use crate::transition::on_ports;

verus! {

/// Status reported where no frame on the status port carries one.
pub const STATUS_UNKNOWN: u8 = 0xFF;

/// One received value with the routing properties of the frame it came in.
#[derive(Clone, Copy, Debug, PartialEq, Eq, Structural)]
pub struct RxData {
    pub data: u8,
    pub props: Props,
}

/// How a pending request stands.
#[derive(Clone, Copy, Debug, PartialEq, Eq, Structural)]
pub enum Verdict {
    /// Neither a matching response nor the deadline has come.
    Pending,
    /// A response carrying the accepted code came first.
    Accepted,
    /// The deadline came first.
    TimedOut,
}

/// The request did not succeed.
#[derive(Clone, Copy, Debug, PartialEq, Eq, Structural)]
pub enum RequestError {
    /// The deadline elapsed with no matching response.
    Timeout,
}

/// The first byte of each frame that has one, with the frame's properties, in order.
pub open spec fn results(frames: Seq<FrameView>) -> Seq<RxData>
    decreases frames.len(),
{
    if frames.len() == 0 {
        Seq::empty()
    } else {
        let before = results(frames.drop_last());
        let f = frames.last();
        if f.payload.len() > 0 {
            before.push((RxData { data: f.payload[0], props: f.props }))
        } else {
            before
        }
    }
}

/// The status that the frames report: the first byte of the newest frame
/// that has one, or `STATUS_UNKNOWN`.
pub open spec fn status(frames: Seq<FrameView>) -> u8
    decreases frames.len(),
{
    if frames.len() == 0 {
        STATUS_UNKNOWN
    } else if frames.last().payload.len() > 0 {
        frames.last().payload[0]
    } else {
        status(frames.drop_last())
    }
}

/// Some result carries the accepted code.
pub open spec fn any_accepted(found: Seq<RxData>, accepted: u8) -> bool {
    exists|i: int| 0 <= i < found.len() && (#[trigger] found[i]).data == accepted
}

/// The verdict at one poll: a result with the accepted code wins, whatever
/// else the poll found; without one the deadline decides.
pub open spec fn verdict(found: Seq<RxData>, accepted: u8, now: u64, deadline: u64) -> Verdict {
    if any_accepted(found, accepted) {
        Verdict::Accepted
    } else if now >= deadline {
        Verdict::TimedOut
    } else {
        Verdict::Pending
    }
}

/// A poll that finds a result with the accepted code settles the request as
/// accepted, whatever the time and whatever other results it finds; a poll
/// that finds none settles it as timed out once the deadline has come, and
/// leaves it pending before.
pub proof fn law_first_of_response_or_deadline(
    found: Seq<RxData>,
    accepted: u8,
    now: u64,
    deadline: u64,
    i: int,
)
    ensures
        0 <= i < found.len() && found[i].data == accepted ==> verdict(found, accepted, now, deadline)
            == Verdict::Accepted,
        !any_accepted(found, accepted) && now >= deadline ==> verdict(found, accepted, now, deadline)
            == Verdict::TimedOut,
        !any_accepted(found, accepted) && now < deadline ==> verdict(found, accepted, now, deadline)
            == Verdict::Pending,
{
}

/// A frame that has a first byte shows among the results with that byte.
pub proof fn lemma_frame_shows(frames: Seq<FrameView>, k: int)
    requires
        0 <= k < frames.len(),
        frames[k].payload.len() > 0,
    ensures
        exists|j: int|
            0 <= j < results(frames).len() && (#[trigger] results(frames)[j]).data == frames[k].payload[0],
    decreases frames.len(),
{
    let before = results(frames.drop_last());
    if k == frames.len() - 1 {
        assert(results(frames)[before.len() as int].data == frames[k].payload[0]);
    } else {
        lemma_frame_shows(frames.drop_last(), k);
        let j = choose|j: int| 0 <= j < before.len() && (#[trigger] before[j]).data == frames[k].payload[0];
        assert(results(frames)[j].data == frames[k].payload[0]);
    }
}

/// Once a frame on the result port whose first byte is the accepted code
/// stands in the complete queue, the poll that finds it gives `Accepted`,
/// whatever the time and whatever else stands in the queue.
pub proof fn law_accepted_response_wins(
    complete: Seq<FrameView>,
    result_port: u16,
    accepted: u8,
    now: u64,
    deadline: u64,
    k: int,
)
    requires
        0 <= k < complete.len(),
        complete[k].props.port_id == result_port,
        complete[k].payload.len() > 0,
        complete[k].payload[0] == accepted,
    ensures
        verdict(results(complete.filter(on_ports(seq![result_port]))), accepted, now, deadline)
            == Verdict::Accepted,
{
    let wanted = on_ports(seq![result_port]);
    let chosen = complete.filter(wanted);
    assert(seq![result_port][0] == result_port);
    assert(wanted(complete[k]));
    complete.lemma_filter_contains(wanted, k);
    let m = choose|m: int| 0 <= m < chosen.len() && chosen[m] == complete[k];
    lemma_frame_shows(chosen, m);
}

/// Reads the first byte of each frame that has one.
pub fn read_results(frames: &Vec<Frame>) -> (found: Vec<RxData>)
    ensures
        found@ == results(frame_views(frames@)),
{
    let ghost views = frame_views(frames@);
    let mut found: Vec<RxData> = Vec::new();
    let mut i: usize = 0;
    assert(views.take(0) =~= Seq::<FrameView>::empty());
    while i < frames.len()
        invariant
            i <= frames@.len(),
            views == frame_views(frames@),
            found@ == results(views.take(i as int)),
        decreases frames@.len() - i,
    {
        proof {
            assert(views.take(i + 1).drop_last() =~= views.take(i as int));
            assert(views.take(i + 1).last() == frames@[i as int]@);
        }
        let frame = &frames[i];
        if frame.payload.len() > 0 {
            found.push(RxData { data: frame.payload[0], props: frame.props });
        }
        i += 1;
    }
    assert(views.take(i as int) =~= views);
    found
}

/// Reads the status that the frames report.
pub fn read_status(frames: &Vec<Frame>) -> (code: u8)
    ensures
        code == status(frame_views(frames@)),
{
    let ghost views = frame_views(frames@);
    let mut code: u8 = STATUS_UNKNOWN;
    let mut i: usize = 0;
    assert(views.take(0) =~= Seq::<FrameView>::empty());
    while i < frames.len()
        invariant
            i <= frames@.len(),
            views == frame_views(frames@),
            code == status(views.take(i as int)),
        decreases frames@.len() - i,
    {
        proof {
            assert(views.take(i + 1).drop_last() =~= views.take(i as int));
            assert(views.take(i + 1).last() == frames@[i as int]@);
        }
        let frame = &frames[i];
        if frame.payload.len() > 0 {
            code = frame.payload[0];
        }
        i += 1;
    }
    assert(views.take(i as int) =~= views);
    code
}

/// Judges a pending request from the results of one poll and the time.
pub fn judge(found: &Vec<RxData>, accepted: u8, now: u64, deadline: u64) -> (v: Verdict)
    ensures
        v == verdict(found@, accepted, now, deadline),
{
    let mut any: bool = false;
    let mut i: usize = 0;
    while i < found.len()
        invariant
            i <= found@.len(),
            any == (exists|j: int| 0 <= j < i && (#[trigger] found@[j]).data == accepted),
        decreases found@.len() - i,
    {
        if found[i].data == accepted {
            any = true;
        }
        i += 1;
    }
    if any {
        Verdict::Accepted
    } else if now >= deadline {
        Verdict::TimedOut
    } else {
        Verdict::Pending
    }
}

/// A request that waits for its response.
#[derive(Clone, Copy, Debug, PartialEq, Eq, Structural)]
pub struct PendingRequest {
    /// The node that the request went to.
    pub channel: u8,
    /// The time, in milliseconds, at which the wait ends.
    pub deadline: u64,
    /// How the request stands; once it is no longer pending it stays as it is.
    pub verdict: Verdict,
}

impl PendingRequest {
    /// A request to `channel` that waits until `deadline`.
    pub fn new(channel: u8, deadline: u64) -> (r: Self)
        ensures
            r == (PendingRequest { channel, deadline, verdict: Verdict::Pending }),
    {
        PendingRequest { channel, deadline, verdict: Verdict::Pending }
    }

    /// The outcome of the request once it is settled: success for an accepted
    /// response, a timeout failure for an elapsed deadline, nothing while it
    /// is pending.
    pub fn outcome(&self) -> (r: Option<Result<(), RequestError>>)
        ensures
            r == match self.verdict {
                Verdict::Pending => None::<Result<(), RequestError>>,
                Verdict::Accepted => Some(Ok::<(), RequestError>(())),
                Verdict::TimedOut => Some(Err::<(), RequestError>(RequestError::Timeout)),
            },
    {
        match self.verdict {
            Verdict::Pending => None,
            Verdict::Accepted => Some(Ok(())),
            Verdict::TimedOut => Some(Err(RequestError::Timeout)),
        }
    }
}

} // verus!
