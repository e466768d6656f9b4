//! The temporal-qualifier evaluator: whether a dated relation holds at the
//! evaluation time.
//!
//! A statement's qualifiers may carry a start time and an end time under two
//! well-known properties. Each side evaluates to a tri-state: `Unknown` when
//! the qualifier is absent or malformed, `Active` or `Inactive` when a date is
//! present. The combined gate is conservative: a relation counts as active
//! unless one side is explicitly inactive.

use vstd::prelude::*;
use crate::model::{QualifierGroup, qual_lookup};

verus! {

/// Whether a qualified relation holds at evaluation time.
#[derive(Clone, Copy, Debug, PartialEq, Eq, Structural)]
pub enum TemporalState {
    Active,
    Inactive,
    Unknown,
}

/// The date a qualifier group's first snak carries under `prop`, when the
/// group is present, non-empty and its first snak holds a well-formed time.
pub open spec fn first_qual_time(quals: Seq<QualifierGroup>, prop: Seq<char>) -> Option<i64> {
    match qual_lookup(quals, prop) {
        Some(snaks) => if snaks.len() > 0 {
            snaks[0].time
        } else {
            None
        },
        None => None,
    }
}

/// The start side: `Unknown` without a dated start qualifier, `Active` when
/// the start date is at or before `now`, `Inactive` when it lies after `now`.
pub open spec fn spec_start_state(quals: Seq<QualifierGroup>, now: i64) -> TemporalState {
    match first_qual_time(quals, "P580"@) {
        Some(t) => if t <= now {
            TemporalState::Active
        } else {
            TemporalState::Inactive
        },
        None => TemporalState::Unknown,
    }
}

/// The end side: `Unknown` without a dated end qualifier, `Active` when the
/// end date is at or after `now`, `Inactive` when it lies before `now`.
pub open spec fn spec_end_state(quals: Seq<QualifierGroup>, now: i64) -> TemporalState {
    match first_qual_time(quals, "P582"@) {
        Some(t) => if t >= now {
            TemporalState::Active
        } else {
            TemporalState::Inactive
        },
        None => TemporalState::Unknown,
    }
}

/// The combined gate: active unless one side is explicitly inactive; the
/// absence of both qualifiers counts as active.
pub open spec fn spec_active(quals: Seq<QualifierGroup>, now: i64) -> bool {
    spec_start_state(quals, now) != TemporalState::Inactive && spec_end_state(quals, now)
        != TemporalState::Inactive
}

/// Evaluates the start side of a statement's qualifiers.
pub fn start_state(quals: &Vec<QualifierGroup>, now: i64) -> (s: TemporalState)
    ensures
        s == spec_start_state(quals@, now),
{
    match crate::model::find_qualifier(quals, "P580") {
        Some(snaks) => {
            if snaks.len() > 0 {
                match snaks[0].time {
                    Some(t) => if t <= now {
                        TemporalState::Active
                    } else {
                        TemporalState::Inactive
                    },
                    None => TemporalState::Unknown,
                }
            } else {
                TemporalState::Unknown
            }
        },
        None => TemporalState::Unknown,
    }
}

/// Evaluates the end side of a statement's qualifiers.
pub fn end_state(quals: &Vec<QualifierGroup>, now: i64) -> (s: TemporalState)
    ensures
        s == spec_end_state(quals@, now),
{
    match crate::model::find_qualifier(quals, "P582") {
        Some(snaks) => {
            if snaks.len() > 0 {
                match snaks[0].time {
                    Some(t) => if t >= now {
                        TemporalState::Active
                    } else {
                        TemporalState::Inactive
                    },
                    None => TemporalState::Unknown,
                }
            } else {
                TemporalState::Unknown
            }
        },
        None => TemporalState::Unknown,
    }
}

/// Evaluates the combined active gate of a statement's qualifiers.
pub fn is_active(quals: &Vec<QualifierGroup>, now: i64) -> (r: bool)
    ensures
        r == spec_active(quals@, now),
{
    let start = start_state(quals, now);
    let end = end_state(quals, now);
    start != TemporalState::Inactive && end != TemporalState::Inactive
}

/// The temporal evaluator in one statement: without any dated start or end
/// qualifier both sides are `Unknown` and the relation counts as active; a
/// start date after `now`, or an end date before `now`, makes it inactive.
pub proof fn lemma_temporal_eval(quals: Seq<QualifierGroup>, now: i64)
    ensures
        first_qual_time(quals, "P580"@) is None && first_qual_time(
            quals,
            "P582"@,
        ) is None ==> spec_start_state(quals, now) == TemporalState::Unknown && spec_end_state(
            quals,
            now,
        ) == TemporalState::Unknown && spec_active(quals, now),
        forall|t: i64|
            first_qual_time(quals, "P580"@) == Some(t) && t > now ==> spec_start_state(
                quals,
                now,
            ) == TemporalState::Inactive && !spec_active(quals, now),
        forall|t: i64|
            first_qual_time(quals, "P582"@) == Some(t) && t < now ==> spec_end_state(
                quals,
                now,
            ) == TemporalState::Inactive && !spec_active(quals, now),
{
}

} // verus!
