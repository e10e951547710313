//! Per-event decisions of the ingestion worker pool.
//!
//! Each worker pulls one message from the queue, decides its fate here, and
//! either forwards it to the accumulator or resolves it immediately. An
//! unroutable event never reaches the accumulator; an event that cannot be
//! forwarded because the accumulator already shut down is handed back to the
//! queue for redelivery by a future process instance.

use vstd::prelude::*;

use crate::batch::Disposition;
use crate::route::Route;
use crate::route::route_for_subject;
use crate::route::spec_route;

verus! {

/// What a worker does with one pulled event.
pub enum IngestDecision {
    /// The topic is routable: forward the event to the accumulator.
    Forward { route: Route },
    /// The topic has no mapping: issue this disposition immediately and
    /// never redeliver, since redelivery cannot fix a missing route.
    Reject { disposition: Disposition },
}

/// Decides the fate of one pulled event from its topic alone: forward it
/// along its route, or terminally reject it when the topic is unroutable.
pub fn ingest_decision(subject: &str) -> (d: IngestDecision)
    ensures
        match d {
            IngestDecision::Forward { route } => spec_route(subject@) == Some(
                (route.table@, route.format_schema@),
            ),
            IngestDecision::Reject { disposition } => spec_route(subject@) is None && disposition
                == Disposition::Term,
        },
{
    match route_for_subject(subject) {
        Some(route) => IngestDecision::Forward { route },
        None => IngestDecision::Reject { disposition: Disposition::Term },
    }
}

/// The disposition for a routed event that could not be handed to the
/// accumulator (its channel already closed): negative-acknowledge, so the
/// queue redelivers it to a future instance instead of losing it.
pub fn undeliverable_disposition() -> (d: Disposition)
    ensures
        d == Disposition::Nak,
{
    Disposition::Nak
}

} // verus!
