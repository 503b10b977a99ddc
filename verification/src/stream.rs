//! The values that flow through the node: buffers, sticky metadata items,
//! the events and queries an input receives, and the items the output emits.

use vstd::prelude::*;
use crate::timing::TimeSegment;

verus! {

/// A media buffer: an offset identifying it, an optional presentation
/// timestamp, and the discontinuity marker.
#[derive(Clone, Copy, Debug, PartialEq, Eq)]
pub struct Buffer {
    pub offset: u64,
    pub pts: Option<u64>,
    pub discont: bool,
}

/// One sticky (persistent) metadata announcement, carried opaquely.
#[derive(Clone, Copy, Debug, PartialEq, Eq)]
pub struct StickyItem {
    pub id: u64,
}

/// A serialized event arriving on an input, in arrival order with its
/// buffers.  The variant type is closed: anything the node does not handle
/// falls under `Other` and is accepted but dropped.
#[derive(Clone, Copy, Debug, PartialEq, Eq)]
pub enum SerializedEvent {
    /// A new time-base mapping for this input.
    Segment(TimeSegment),
    /// A sticky metadata announcement to accumulate and replay.
    Sticky(StickyItem),
    /// Any other serialized event: accepted, not forwarded.
    Other,
}

/// An event handled immediately, out of band with the input's buffers.
#[derive(Clone, Copy, Debug, PartialEq, Eq)]
pub enum ImmediateEvent {
    /// Flush: propagate downstream at once and cancel this input's wait.
    FlushStart,
    /// Any other immediate event: accepted, not forwarded.
    Other,
}

/// One item the node hands to the output endpoint for forwarding.
#[derive(Clone, Copy, Debug, PartialEq, Eq)]
pub enum OutputItem {
    Sticky(StickyItem),
    Buffer(Buffer),
    FlushStart,
}

/// A latency report: the live flag and the min/max bounds.
#[derive(Clone, Copy, Debug, PartialEq, Eq)]
pub struct Latency {
    pub live: bool,
    pub min: u64,
    pub max: u64,
}

/// What querying the active input's upstream peer for latency yielded.
#[derive(Clone, Copy, Debug, PartialEq, Eq)]
pub enum UpstreamLatency {
    /// No input is active, so no peer was asked.
    NoActiveInput,
    /// A peer was asked and failed to answer.
    QueryFailed,
    /// A peer answered with these bounds.
    Reported(Latency),
}

/// The node's answer to a latency query: whether the query succeeds, and
/// the bounds to report.
#[derive(Clone, Copy, Debug, PartialEq, Eq)]
pub struct LatencyAnswer {
    pub ok: bool,
    pub latency: Latency,
}

/// The projection of an output sequence onto the buffers it forwards, in
/// order.
pub open spec fn buffers_of(out: Seq<OutputItem>) -> Seq<Buffer>
    decreases out.len(),
{
    if out.len() == 0 {
        Seq::empty()
    } else {
        let rest = buffers_of(out.drop_first());
        match out[0] {
            OutputItem::Buffer(b) => seq![b] + rest,
            _ => rest,
        }
    }
}

} // verus!
