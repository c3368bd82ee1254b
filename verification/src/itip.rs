//! Envelope assembly, timezone propagation, and the finalizer.

use vstd::prelude::*;
use crate::model::{
    Attendee, AttendeeV, CalendarObject, Component, ComponentType, ComponentV, InstanceId, Method,
    PartStat, clone_component, instance_id_of, is_scheduling_type, is_scheduling_type_exec,
};

verus! {

/// The envelope component carrying an iTIP METHOD.
pub open spec fn envelope_v(m: Method) -> ComponentV {
    ComponentV {
        component_type: ComponentType::VCalendar,
        uid: None,
        recurrence_id: None,
        sequence: None,
        status: None,
        dtstamp: None,
        organizer: None,
        organizer_agent: crate::model::ScheduleAgent::Server,
        attendees: Seq::empty(),
        props: Seq::empty(),
        tzids: Seq::empty(),
        tzid: None,
        method: Some(m),
        component_ids: Seq::empty(),
    }
}

/// Builds the envelope component of an outgoing message.
pub fn itip_build_envelope(method: Method) -> (r: Component)
    ensures
        r.v() == envelope_v(method),
{
    let r = Component {
        component_type: ComponentType::VCalendar,
        uid: None,
        recurrence_id: None,
        sequence: None,
        status: None,
        dtstamp: None,
        organizer: None,
        organizer_agent: crate::model::ScheduleAgent::Server,
        attendees: Vec::new(),
        props: Vec::new(),
        tzids: Vec::new(),
        tzid: None,
        method: Some(method),
        component_ids: Vec::new(),
    };
    proof {
        assert(r.v() =~= envelope_v(method));
    }
    r
}

/// Whether some component of the object references the TZID.
pub open spec fn tz_referenced_v(obj: Seq<ComponentV>, tz: Seq<char>) -> bool {
    exists|i: int, j: int|
        0 <= i < obj.len() && 0 <= j < obj[i].tzids.len() && #[trigger] obj[i].tzids[j] == tz
}

/// Whether the object already carries a timezone definition for the TZID.
pub open spec fn tz_present_v(obj: Seq<ComponentV>, tz: Seq<char>) -> bool {
    exists|i: int|
        0 <= i < obj.len() && (#[trigger] obj[i]).component_type == ComponentType::VTimezone
            && obj[i].tzid == Some(tz)
}

fn tz_referenced(m: &CalendarObject, tz: &String) -> (r: bool)
    ensures
        r == tz_referenced_v(m.v(), tz@),
{
    let mut i: usize = 0;
    while i < m.components.len()
        invariant
            0 <= i <= m.components@.len(),
            forall|a: int, b: int|
                0 <= a < i && 0 <= b < m.v()[a].tzids.len() ==> #[trigger] m.v()[a].tzids[b]
                    != tz@,
        decreases m.components@.len() - i,
    {
        proof {
            assert(m.v()[i as int] == m.components@[i as int].v());
        }
        let ts = &m.components[i].tzids;
        let mut j: usize = 0;
        while j < ts.len()
            invariant
                0 <= j <= ts@.len(),
                i < m.components@.len(),
                ts@.map_values(|s: String| s@) == m.v()[i as int].tzids,
                forall|b: int| 0 <= b < j ==> m.v()[i as int].tzids[b] != tz@,
            decreases ts@.len() - j,
        {
            proof {
                assert(m.v()[i as int].tzids[j as int] == ts@[j as int]@);
            }
            if ts[j].eq(tz) {
                return true;
            }
            j += 1;
        }
        i += 1;
    }
    false
}

fn tz_present(m: &CalendarObject, tz: &String) -> (r: bool)
    ensures
        r == tz_present_v(m.v(), tz@),
{
    let mut i: usize = 0;
    while i < m.components.len()
        invariant
            0 <= i <= m.components@.len(),
            forall|a: int|
                0 <= a < i ==> !((#[trigger] m.v()[a]).component_type == ComponentType::VTimezone
                    && m.v()[a].tzid == Some(tz@)),
        decreases m.components@.len() - i,
    {
        proof {
            assert(m.v()[i as int] == m.components@[i as int].v());
        }
        let c = &m.components[i];
        if c.component_type == ComponentType::VTimezone {
            match &c.tzid {
                Some(t) => {
                    if t.eq(tz) {
                        return true;
                    }
                },
                None => {},
            }
        }
        i += 1;
    }
    false
}

/// Whether `c` is one of the source's timezone components.
pub open spec fn is_source_tz(src: Seq<ComponentV>, c: ComponentV) -> bool {
    exists|i: int|
        0 <= i < src.len() && #[trigger] src[i] == c && src[i].component_type
            == ComponentType::VTimezone
}

/// Everything of the message from position `from` on is a timezone
/// component of the source.
pub open spec fn appended_tz_ok(msg: Seq<ComponentV>, src: Seq<ComponentV>, from: int) -> bool {
    forall|t: int| from <= t < msg.len() ==> is_source_tz(src, #[trigger] msg[t])
}

/// Attaches to the message the timezone definitions of the source object
/// that its child components reference. Only appends: the message's
/// existing components stay in place, and everything appended is a
/// `VTimezone` component of the source object.
pub fn itip_add_tz(message: &mut CalendarObject, source: &CalendarObject)
    ensures
        final(message).v().len() >= old(message).v().len(),
        final(message).v().subrange(0, old(message).v().len() as int) == old(message).v(),
        appended_tz_ok(final(message).v(), source.v(), old(message).v().len() as int),
        forall|t: Seq<char>|
            #![trigger tz_referenced_v(old(message).v(), t)]
            tz_referenced_v(old(message).v(), t) && tz_present_v(source.v(), t) ==> tz_present_v(
                final(message).v(),
                t,
            ),
{
    let ghost base = old(message).v();
    let mut k: usize = 0;
    while k < source.components.len()
        invariant
            0 <= k <= source.components@.len(),
            message.v().len() >= base.len(),
            message.v().subrange(0, base.len() as int) =~= base,
            appended_tz_ok(message.v(), source.v(), base.len() as int),
            forall|t: Seq<char>|
                #![trigger tz_referenced_v(base, t)]
                tz_referenced_v(base, t) && tz_present_v(source.v().take(k as int), t)
                    ==> tz_present_v(message.v(), t),
        decreases source.components@.len() - k,
    {
        let ghost msg_top = message.v();
        proof {
            assert(source.v()[k as int] == source.components@[k as int].v());
        }
        let c = &source.components[k];
        if c.component_type == ComponentType::VTimezone {
            match &c.tzid {
                Some(t0) => {
                    let refd = tz_referenced(message, t0);
                    let pres = tz_present(message, t0);
                    if refd && !pres {
                        let cc = clone_component(c);
                        let ghost ccv = cc.v();
                        let ghost prevv = message.v();
                        message.components.push(cc);
                        proof {
                            assert(message.v() =~= prevv.push(ccv));
                            assert(message.v().subrange(0, base.len() as int) =~= base);
                            assert(is_source_tz(source.v(), ccv)) by {
                                assert(source.v()[k as int] == ccv);
                            }
                            assert forall|t: int|
                                base.len() <= t < message.v().len() implies is_source_tz(
                                source.v(),
                                #[trigger] message.v()[t],
                            ) by {
                                if t < prevv.len() {
                                    assert(message.v()[t] == prevv[t]);
                                    assert(is_source_tz(source.v(), prevv[t]));
                                } else {
                                    assert(message.v()[t] == ccv);
                                }
                            }
                            assert(tz_present_v(message.v(), t0@)) by {
                                assert(message.v()[message.v().len() - 1] == ccv);
                            }
                        }
                    }
                },
                None => {},
            }
        }
        proof {
            // Everything present before this step stays present: the
            // message only grows.
            assert forall|t: Seq<char>|
                tz_present_v(msg_top, t) implies tz_present_v(#[trigger] message.v(), t) by {
                let w = choose|i: int|
                    0 <= i < msg_top.len() && (#[trigger] msg_top[i]).component_type
                        == ComponentType::VTimezone && msg_top[i].tzid == Some(t);
                assert(message.v()[w] == msg_top[w]);
            }
            assert forall|t: Seq<char>|
                #![trigger tz_referenced_v(base, t)]
                tz_referenced_v(base, t) && tz_present_v(source.v().take(k + 1 as int), t)
                    implies tz_present_v(message.v(), t) by {
                let w = choose|i: int|
                    0 <= i < source.v().take(k + 1 as int).len() && (#[trigger] source.v().take(
                        k + 1 as int,
                    )[i]).component_type == ComponentType::VTimezone && source.v().take(
                        k + 1 as int,
                    )[i].tzid == Some(t);
                if w < k as int {
                    assert(source.v().take(k as int)[w] == source.v().take(k + 1 as int)[w]);
                    assert(tz_present_v(source.v().take(k as int), t));
                    assert(tz_present_v(msg_top, t));
                } else {
                    // The timezone is defined by this very component.
                    assert(source.v()[k as int].tzid == Some(t));
                    if !tz_present_v(message.v(), t) {
                        // Then it was neither attached now nor present
                        // before; the exec path shows it was not referenced,
                        // against the assumption.
                        assert(!tz_present_v(msg_top, t));
                        assert(!tz_referenced_v(msg_top, t)) by {
                            if tz_referenced_v(msg_top, t) {
                                assert(false);
                            }
                        }
                        assert(tz_referenced_v(base, t));
                        let (bi, bj) = choose|bi: int, bj: int|
                            0 <= bi < base.len() && 0 <= bj < base[bi].tzids.len()
                                && #[trigger] base[bi].tzids[bj] == t;
                        assert(msg_top.subrange(0, base.len() as int) =~= base);
                        assert(msg_top[bi] == base[bi]);
                        assert(tz_referenced_v(msg_top, t));
                        assert(false);
                    }
                }
            }
        }
        k += 1;
    }
    proof {
        assert(source.v().take(source.components@.len() as int) =~= source.v());
    }
}

/// SEQUENCE requested for an instance by the finalizer input; first entry
/// wins.
pub open spec fn seq_lookup(seqs: Seq<(InstanceId, i64)>, id: InstanceId) -> Option<i64>
    decreases seqs.len(),
{
    if seqs.len() == 0 {
        None
    } else if seqs[0].0 == id {
        Some(seqs[0].1)
    } else {
        seq_lookup(seqs.skip(1), id)
    }
}

/// Exec twin of [`seq_lookup`].
pub fn seq_lookup_exec(seqs: &Vec<(InstanceId, i64)>, id: InstanceId) -> (r: Option<i64>)
    ensures
        r == seq_lookup(seqs@, id),
{
    let mut j: usize = 0;
    proof {
        assert(seqs@.skip(0) =~= seqs@);
    }
    while j < seqs.len()
        invariant
            0 <= j <= seqs@.len(),
            seq_lookup(seqs@, id) == seq_lookup(seqs@.skip(j as int), id),
        decreases seqs@.len() - j,
    {
        proof {
            assert(seqs@.skip(j as int)[0] == seqs@[j as int]);
            assert(seqs@.skip(j as int).skip(1) =~= seqs@.skip(j + 1 as int));
        }
        if seqs[j].0 == id {
            return Some(seqs[j].1);
        }
        j += 1;
    }
    proof {
        assert(seqs@.skip(seqs@.len() as int).len() == 0);
    }
    None
}

/// An attendee list with every PARTSTAT reset to NEEDS-ACTION.
pub open spec fn reset_partstats(ats: Seq<AttendeeV>) -> Seq<AttendeeV> {
    ats.map_values(
        |a: AttendeeV|
            AttendeeV {
                email: a.email,
                partstat: Some(PartStat::NeedsAction),
                rsvp: a.rsvp,
                schedule_agent: a.schedule_agent,
                non_participant: a.non_participant,
            },
    )
}

/// What the finalizer does to one component: when a SEQUENCE was requested
/// for its instance, the component takes that SEQUENCE and its attendees'
/// participation is reset to NEEDS-ACTION; otherwise it is untouched.
pub open spec fn finalize_comp(c: ComponentV, seqs: Seq<(InstanceId, i64)>) -> ComponentV {
    if is_scheduling_type(c.component_type) && seq_lookup(seqs, instance_id_of(c)) is Some {
        ComponentV {
            sequence: Some(seq_lookup(seqs, instance_id_of(c))->0),
            attendees: reset_partstats(c.attendees),
            ..c
        }
    } else {
        c
    }
}

fn reset_attendees(ats: &Vec<Attendee>) -> (r: Vec<Attendee>)
    ensures
        r@.map_values(|a: Attendee| a.v()) == reset_partstats(
            ats@.map_values(|a: Attendee| a.v()),
        ),
{
    let mut out: Vec<Attendee> = Vec::new();
    let mut i: usize = 0;
    while i < ats.len()
        invariant
            0 <= i <= ats@.len(),
            out@.map_values(|a: Attendee| a.v()) =~= reset_partstats(
                ats@.map_values(|a: Attendee| a.v()),
            ).subrange(0, i as int),
        decreases ats@.len() - i,
    {
        let a = &ats[i];
        let na = Attendee {
            email: a.email.clone(),
            partstat: Some(PartStat::NeedsAction),
            rsvp: a.rsvp,
            schedule_agent: a.schedule_agent,
            non_participant: a.non_participant,
        };
        let ghost prev = out@.map_values(|x: Attendee| x.v());
        out.push(na);
        proof {
            assert(out@.map_values(|x: Attendee| x.v()) =~= prev.push(na.v()));
            assert(na.v() == reset_partstats(ats@.map_values(|x: Attendee| x.v()))[i as int]);
            assert(out@.map_values(|x: Attendee| x.v()) =~= reset_partstats(
                ats@.map_values(|x: Attendee| x.v()),
            ).subrange(0, i + 1 as int));
        }
        i += 1;
    }
    proof {
        assert(reset_partstats(ats@.map_values(|a: Attendee| a.v())).subrange(
            0,
            ats@.len() as int,
        ) =~= reset_partstats(ats@.map_values(|a: Attendee| a.v())));
    }
    out
}

/// Applies the requested SEQUENCE bumps to the object in place and resets
/// attendee participation on each bumped instance. Idempotent: with no
/// requested bumps the object is unchanged.
pub fn itip_finalize(ical: &mut CalendarObject, sequences: &Vec<(InstanceId, i64)>)
    ensures
        final(ical).v() == old(ical).v().map_values(
            |c: ComponentV| finalize_comp(c, sequences@),
        ),
{
    let ghost obj = old(ical).v();
    let mut out: Vec<Component> = Vec::new();
    let mut i: usize = 0;
    while i < ical.components.len()
        invariant
            0 <= i <= ical.components@.len(),
            obj == ical.v(),
            out@.map_values(|c: Component| c.v()) =~= obj.map_values(
                |c: ComponentV| finalize_comp(c, sequences@),
            ).subrange(0, i as int),
        decreases ical.components@.len() - i,
    {
        proof {
            assert(obj[i as int] == ical.components@[i as int].v());
        }
        let c = &ical.components[i];
        let mut nc = clone_component(c);
        if is_scheduling_type_exec(c.component_type) {
            let id = match c.recurrence_id {
                Some(t) => InstanceId::Recurrence(t),
                None => InstanceId::Main,
            };
            match seq_lookup_exec(sequences, id) {
                Some(s) => {
                    nc = Component {
                        sequence: Some(s),
                        attendees: reset_attendees(&c.attendees),
                        ..nc
                    };
                },
                None => {},
            }
        }
        proof {
            assert(nc.v() =~= finalize_comp(obj[i as int], sequences@));
        }
        let ghost prev = out@.map_values(|c: Component| c.v());
        out.push(nc);
        proof {
            assert(out@.map_values(|c: Component| c.v()) =~= prev.push(nc.v()));
            assert(out@.map_values(|c: Component| c.v()) =~= obj.map_values(
                |c: ComponentV| finalize_comp(c, sequences@),
            ).subrange(0, i + 1 as int));
        }
        i += 1;
    }
    proof {
        assert(obj.map_values(|c: ComponentV| finalize_comp(c, sequences@)).subrange(
            0,
            obj.len() as int,
        ) =~= obj.map_values(|c: ComponentV| finalize_comp(c, sequences@)));
    }
    ical.components = out;
}

} // verus!
