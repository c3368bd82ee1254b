//! An iTIP scheduling engine for calendaring.
//!
//! Given a local change to a parsed iCalendar object (create, update,
//! cancel, or attendee RSVP) the engine decides which scheduling messages
//! must be emitted to remote organizers and attendees, what their contents
//! are, and how the local object must be finalized (sequence bumps,
//! participation-status resets). Parsing, serialization and transport are
//! the caller's concern.

pub mod model;
pub mod email;
pub mod error;
pub mod snapshot;
pub mod itip;
pub mod diff;
pub mod organizer;
pub mod event_update;
pub mod inbound;
pub mod laws;
pub mod outside;
pub mod attendee;
pub mod event_cancel;
pub mod read_version;
