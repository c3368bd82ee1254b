//! The engine's error taxonomy and the abstract messages it emits.

use vstd::prelude::*;
use crate::model::{CalendarObject, Method, PartStat, Prop};

verus! {

/// Why a scheduling operation was rejected. The taxonomy is part of the
/// engine's interface.
#[derive(Clone, Copy, PartialEq, Eq, Structural, Debug)]
pub enum ItipError {
    /// Object lacks organizer or attendees, or is ill-formed.
    NoSchedulingInfo,
    /// The operation needs the organizer role and no local identity has it.
    NotOrganizer,
    /// No local identity is organizer or attendee of the object.
    NotOrganizerNorAttendee,
    /// Organizer address changed, or an inbound organizer does not match.
    OrganizerMismatch,
    /// An inbound message's UID does not match the stored object.
    UidMismatch,
    /// SCHEDULE-AGENT says this server must not act.
    OtherSchedulingAgent,
    /// An attendee attempted to change an address-level fact.
    CannotModifyAddress,
    /// An attendee attempted to change a protected property.
    CannotModifyProperty,
    /// Unknown or out-of-scope METHOD.
    UnsupportedMethod,
    /// The operation is valid but yields no recipients.
    NothingToSend,
    /// An inbound SEQUENCE is older than the stored one.
    SequenceOutOfDate,
    /// A structural invariant does not hold.
    Malformed,
}

/// Human-facing digest of the change a message carries; consumed by
/// notification formatters, never part of the wire object.
#[derive(Clone, Debug)]
pub enum ItipSummary {
    /// A new invitation; carries the base instance's significant fields.
    Invite(Vec<Prop>),
    /// An update to an existing invitation.
    Update(Vec<Prop>),
    /// A cancellation.
    Cancel(Vec<Prop>),
    /// An attendee's participation answer.
    Rsvp { part_stat: PartStat, current: Vec<Prop> },
}

/// One abstract scheduling message. The caller serializes `message` and
/// transports it; the engine only decides its contents.
#[derive(Clone, Debug)]
pub struct ItipMessage {
    /// Sender address (normalized).
    pub from: String,
    /// Whether `from` is the object's organizer address.
    pub from_organizer: bool,
    /// Recipient addresses (normalized, no duplicates).
    pub to: Vec<String>,
    /// The iTIP METHOD of the envelope.
    pub method: Method,
    pub summary: ItipSummary,
    /// The complete object to send: envelope first, then its children.
    pub message: CalendarObject,
}

} // verus!
