//! Cancelling a scheduling object: as organizer, a CANCEL to the guests;
//! as attendee, a decline REPLY to the organizer.

use vstd::prelude::*;
use ahash::AHashSet;
use crate::model::{
    Attendee, AttendeeV, CalendarObject, Component, ComponentType, ComponentV, Method, Prop,
    ScheduleAgent, Status,
};
use crate::snapshot::{
    InstanceSnapshot, InstanceSnapshotV, ParticipantV, Snapshot, insts_v, itip_snapshot, main_fp,
    main_seq, obj_seqs_bounded, org_comp, organizer_v, participants_v, seqs_bounded,
    snap_insts, snapshot_accepts, snapshot_reject, unique_inst_ids, lemma_snap_insts_unique,
    lemma_insts_bounded,
};
use crate::email::ids_view;
use crate::error::{ItipError, ItipMessage, ItipSummary};
use crate::itip::{envelope_v, is_source_tz, itip_add_tz, itip_build_envelope};
use crate::outside::{
    dtstamp_now, recipient_set, recipients_insert, recipients_into_vec, recipients_is_empty,
    recipients_new,
};
use crate::attendee::{attendee_decline, decline_comp_v};

verus! {

/// All addresses of a participant list.
pub open spec fn addr_set(ps: Seq<ParticipantV>) -> Set<Seq<char>>
    decreases ps.len(),
{
    if ps.len() == 0 {
        Set::empty()
    } else {
        addr_set(ps.drop_last()).insert(ps.last().email.email)
    }
}

/// Union over all instances of every attendee address.
pub open spec fn guest_addrs(is: Seq<InstanceSnapshotV>) -> Set<Seq<char>>
    decreases is.len(),
{
    if is.len() == 0 {
        Set::empty()
    } else {
        guest_addrs(is.drop_last()).union(addr_set(is.last().attendees))
    }
}

/// Component type the cancel component carries: that of the last
/// instance, the default kind when there is none.
pub open spec fn last_type(is: Seq<InstanceSnapshotV>) -> ComponentType {
    if is.len() == 0 {
        ComponentType::VEvent
    } else {
        is.last().component_type
    }
}

/// A recipient list that spells out exactly the addresses of a set, each
/// once, in no promised order.
pub open spec fn vec_matches_set(to: Seq<String>, s: Set<Seq<char>>) -> bool {
    &&& forall|i: int| 0 <= i < to.len() ==> s.contains(#[trigger] to[i]@)
    &&& forall|x: Seq<char>|
        #[trigger] s.contains(x) ==> exists|i: int| 0 <= i < to.len() && #[trigger] to[i]@ == x
    &&& forall|i: int, j: int| 0 <= i < j < to.len() ==> to[i]@ != to[j]@
}

/// ATTENDEE lines that spell out exactly the addresses of a set, each
/// once, in no promised order.
pub open spec fn vec_matches_addr_lines(lines: Seq<AttendeeV>, s: Set<Seq<char>>) -> bool {
    &&& forall|i: int| 0 <= i < lines.len() ==> s.contains((#[trigger] lines[i]).email)
    &&& forall|x: Seq<char>|
        #[trigger] s.contains(x) ==> exists|i: int|
            0 <= i < lines.len() && (#[trigger] lines[i]).email == x
    &&& forall|i: int, j: int| 0 <= i < j < lines.len() ==> lines[i].email != lines[j].email
}

/// Scalar facts of the synthetic cancel component.
pub open spec fn cancel_comp_scalars(
    c: ComponentV,
    uid: Seq<char>,
    org: Seq<char>,
    ctype: ComponentType,
    seq: i64,
    dt: i64,
) -> bool {
    &&& c.component_type == ctype
    &&& c.uid == Some(uid)
    &&& c.status == Some(Status::Cancelled)
    &&& c.sequence == Some(seq)
    &&& c.dtstamp == Some(dt)
    &&& c.organizer == Some(org)
}

/// Adds every attendee address of the instance to the set.
pub(crate) fn collect_addrs(inst: &InstanceSnapshot, rcpt: &mut AHashSet<String>)
    ensures
        recipient_set(*final(rcpt)) =~= recipient_set(*old(rcpt)).union(
            addr_set(participants_v(inst.attendees@)),
        ),
{
    let ghost pv = participants_v(inst.attendees@);
    let mut j: usize = 0;
    while j < inst.attendees.len()
        invariant
            0 <= j <= inst.attendees@.len(),
            pv == participants_v(inst.attendees@),
            recipient_set(*rcpt) =~= recipient_set(*old(rcpt)).union(addr_set(pv.take(j as int))),
        decreases inst.attendees@.len() - j,
    {
        proof {
            assert(pv.take(j + 1 as int).drop_last() =~= pv.take(j as int));
            assert(pv.take(j + 1 as int).last() == pv[j as int]);
            assert(pv[j as int] == inst.attendees@[j as int].v());
        }
        recipients_insert(rcpt, &inst.attendees[j].email.email);
        proof {
            assert(recipient_set(*rcpt) =~= recipient_set(*old(rcpt)).union(
                addr_set(pv.take(j + 1 as int)),
            ));
        }
        j += 1;
    }
    proof {
        assert(pv.take(inst.attendees@.len() as int) =~= pv);
    }
}

/// Builds the synthetic component a CANCEL message carries: STATUS
/// CANCELLED, the object's UID and organizer, the bumped SEQUENCE, and one
/// ATTENDEE line per cancelled guest.
pub(crate) fn build_cancel_component(
    component_type: ComponentType,
    uid: &String,
    organizer: &String,
    sequence: i64,
    dt_stamp: i64,
    cancel_guests: Vec<String>,
) -> (r: Component)
    ensures
        cancel_comp_scalars(r.v(), uid@, organizer@, component_type, sequence, dt_stamp),
        r.v().attendees.len() == cancel_guests@.len(),
        forall|i: int|
            0 <= i < cancel_guests@.len() ==> #[trigger] r.v().attendees[i] == (AttendeeV {
                email: cancel_guests@[i]@,
                partstat: None,
                rsvp: None,
                schedule_agent: ScheduleAgent::Server,
                non_participant: false,
            }),
        r.v().recurrence_id is None,
        r.v().method is None,
        r.v().component_ids.len() == 0,
        r.v().props.len() == 0,
        r.v().tzids.len() == 0,
{
    let mut lines: Vec<Attendee> = Vec::new();
    let mut i: usize = 0;
    while i < cancel_guests.len()
        invariant
            0 <= i <= cancel_guests@.len(),
            lines@.len() == i,
            forall|k: int|
                0 <= k < i ==> #[trigger] lines@[k].v() == (AttendeeV {
                    email: cancel_guests@[k]@,
                    partstat: None,
                    rsvp: None,
                    schedule_agent: ScheduleAgent::Server,
                    non_participant: false,
                }),
        decreases cancel_guests@.len() - i,
    {
        let a = Attendee {
            email: cancel_guests[i].clone(),
            partstat: None,
            rsvp: None,
            schedule_agent: ScheduleAgent::Server,
            non_participant: false,
        };
        lines.push(a);
        i += 1;
    }
    let r = Component {
        component_type,
        uid: Some(uid.clone()),
        recurrence_id: None,
        sequence: Some(sequence),
        status: Some(Status::Cancelled),
        dtstamp: Some(dt_stamp),
        organizer: Some(organizer.clone()),
        organizer_agent: ScheduleAgent::Server,
        attendees: lines,
        props: Vec::new(),
        tzids: Vec::new(),
        tzid: None,
        method: None,
        component_ids: Vec::new(),
    };
    proof {
        assert(forall|k: int|
            0 <= k < cancel_guests@.len() ==> #[trigger] r.v().attendees[k] == r.attendees@[
                k
            ].v());
    }
    r
}

/// Cancels the whole object.
///
/// As local organizer this emits one CANCEL to the whole union attendee
/// set - suppression flags such as `RSVP:FALSE` never withhold a CANCEL -
/// with the main instance's SEQUENCE bumped by one; `NothingToSend` only
/// when no attendee exists at all or the object is a free-busy object.
/// The decline reply's children carry no date properties in this model,
/// so the timezone pass over the reply finds nothing to attach; the pass
/// is kept, and its own contract states the attachment guarantee for any
/// message whose children do reference a TZID. As attendee of a remote organizer it emits one
/// decline REPLY to the organizer covering every instance with a local
/// attendee.
#[verifier::rlimit(100)]
pub fn itip_cancel(ical: &CalendarObject, account_emails: &Vec<String>) -> (r: Result<
    ItipMessage,
    ItipError,
>)
    requires
        obj_seqs_bounded(ical.v()),
    ensures
        !snapshot_accepts(ical.v(), ids_view(account_emails@), false) ==> r is Err && r->Err_0
            == snapshot_reject(ical.v(), ids_view(account_emails@), false),
        (snapshot_accepts(ical.v(), ids_view(account_emails@), false) && organizer_v(
            ical.v(),
            ids_view(account_emails@),
        ).email.is_local) ==> ({
            let is = snap_insts(ical.v(), ids_view(account_emails@));
            let org = organizer_v(ical.v(), ids_view(account_emails@));
            &&& (r is Err <==> (guest_addrs(is) =~= Set::<Seq<char>>::empty() || last_type(is)
                == ComponentType::VFreebusy))
            &&& r is Err ==> r->Err_0 == ItipError::NothingToSend
            &&& r is Ok ==> ({
                let m = r->Ok_0;
                &&& m.method == Method::Cancel
                &&& m.from@ == org.email.email
                &&& m.from_organizer == true
                &&& vec_matches_set(m.to@, guest_addrs(is))
                &&& m.message.v().len() == 2
                &&& m.message.v()[0] == (ComponentV {
                    component_ids: seq![1int],
                    ..envelope_v(Method::Cancel)
                })
                &&& cancel_comp_scalars(
                    m.message.v()[1],
                    org_comp(ical.v()).uid->0,
                    org.email.email,
                    last_type(is),
                    (main_seq(is) + 1) as i64,
                    m.message.v()[1].dtstamp->0,
                )
                &&& vec_matches_addr_lines(m.message.v()[1].attendees, guest_addrs(is))
                &&& (m.summary matches ItipSummary::Cancel(p) && crate::model::props_v(p@)
                    == main_fp(is))
            })
        }),
        (snapshot_accepts(ical.v(), ids_view(account_emails@), false) && !organizer_v(
            ical.v(),
            ids_view(account_emails@),
        ).email.is_local) ==> ({
            let is = snap_insts(ical.v(), ids_view(account_emails@));
            let org = organizer_v(ical.v(), ids_view(account_emails@));
            &&& r is Ok
            &&& ({
                let m = r->Ok_0;
                &&& m.method == Method::Reply
                &&& m.from_organizer == false
                &&& local_attendee_addr(is, m.from@)
                &&& m.to@.len() == 1 && m.to@[0]@ == org.email.email
                &&& m.message.v().len() >= 1
                &&& m.message.v()[0].method == Some(Method::Reply)
                &&& m.message.v()[0].component_type == ComponentType::VCalendar
                &&& 1 <= m.message.v()[0].component_ids.len() < m.message.v().len()
                &&& forall|t: int|
                    0 <= t < m.message.v()[0].component_ids.len()
                        ==> #[trigger] m.message.v()[0].component_ids[t] == t + 1
                &&& forall|k: int|
                    1 <= k < m.message.v().len() ==> decline_or_tz(
                        is,
                        ical.v(),
                        org_comp(ical.v()).uid->0,
                        org.email.email,
                        #[trigger] m.message.v()[k],
                    )
                &&& declines_complete(
                    is,
                    m.message.v(),
                    org_comp(ical.v()).uid->0,
                    org.email.email,
                )
                &&& (m.summary matches ItipSummary::Rsvp { part_stat, current }
                    && part_stat == crate::model::PartStat::Declined && crate::model::props_v(
                    current@,
                ) == main_fp(is))
            })
        }),
{
    let snap = match itip_snapshot(ical, account_emails, false) {
        Ok(s) => s,
        Err(e) => {
            return Err(e);
        },
    };
    let ghost obj = ical.v();
    let ghost idv = ids_view(account_emails@);
    proof {
        lemma_snap_insts_unique(obj, idv);
        lemma_insts_bounded(obj, idv);
    }
    let dt_stamp = dtstamp_now();
    if snap.organizer.email.is_local {
        cancel_as_organizer(snap, dt_stamp, Ghost(obj), Ghost(idv))
    } else {
        cancel_as_attendee(ical, snap, dt_stamp, Ghost(idv))
    }
}

#[verifier::rlimit(100)]
fn cancel_as_organizer(
    snap: Snapshot,
    dt_stamp: i64,
    Ghost(obj): Ghost<Seq<ComponentV>>,
    Ghost(idv): Ghost<Seq<Seq<char>>>,
) -> (r: Result<ItipMessage, ItipError>)
    requires
        insts_v(snap.instances@) == snap_insts(obj, idv),
        snap.uid@ == org_comp(obj).uid->0,
        snap.organizer.v() == organizer_v(obj, idv),
        snap.organizer.email.is_local,
        unique_inst_ids(insts_v(snap.instances@)),
        seqs_bounded(insts_v(snap.instances@)),
    ensures
        ({
            let is = snap_insts(obj, idv);
            let org = organizer_v(obj, idv);
            &&& (r is Err <==> (guest_addrs(is) =~= Set::<Seq<char>>::empty() || last_type(is)
                == ComponentType::VFreebusy))
            &&& r is Err ==> r->Err_0 == ItipError::NothingToSend
            &&& r is Ok ==> ({
                let m = r->Ok_0;
                &&& m.method == Method::Cancel
                &&& m.from@ == org.email.email
                &&& m.from_organizer == true
                &&& vec_matches_set(m.to@, guest_addrs(is))
                &&& m.message.v().len() == 2
                &&& m.message.v()[0] == (ComponentV {
                    component_ids: seq![1int],
                    ..envelope_v(Method::Cancel)
                })
                &&& cancel_comp_scalars(
                    m.message.v()[1],
                    org_comp(obj).uid->0,
                    org.email.email,
                    last_type(is),
                    (main_seq(is) + 1) as i64,
                    m.message.v()[1].dtstamp->0,
                )
                &&& vec_matches_addr_lines(m.message.v()[1].attendees, guest_addrs(is))
                &&& (m.summary matches ItipSummary::Cancel(p) && crate::model::props_v(p@)
                    == main_fp(is))
            })
        }),
{
    let ghost is = snap_insts(obj, idv);
    // Gather the union attendee set over every instance: a CANCEL goes to
    // everyone, whatever their suppression flags say.
    let mut guests = recipients_new();
    let mut i: usize = 0;
    while i < snap.instances.len()
        invariant
            0 <= i <= snap.instances@.len(),
            is == insts_v(snap.instances@),
            recipient_set(guests) =~= guest_addrs(is.take(i as int)),
        decreases snap.instances@.len() - i,
    {
        proof {
            assert(is.take(i + 1 as int).drop_last() =~= is.take(i as int));
            assert(is.take(i + 1 as int).last() == is[i as int]);
            assert(is[i as int] == snap.instances@[i as int].v());
        }
        collect_addrs(&snap.instances[i], &mut guests);
        proof {
            assert(recipient_set(guests) =~= guest_addrs(is.take(i + 1 as int)));
        }
        i += 1;
    }
    proof {
        assert(is.take(snap.instances@.len() as int) =~= is);
    }

    // Component type of the last instance and the bumped sequence.
    let ctype = if snap.instances.len() == 0 {
        ComponentType::VEvent
    } else {
        snap.instances[snap.instances.len() - 1].component_type
    };
    proof {
        if snap.instances@.len() > 0 {
            assert(is.last() == snap.instances@[is.len() - 1].v());
        }
        assert(ctype == last_type(is));
        assert(main_seq(is) < i64::MAX);
    }
    let sequence = snap.main_sequence() + 1;

    proof {
        assert(recipient_set(guests) == guest_addrs(is));
    }
    if !recipients_is_empty(&guests) && !(ctype == ComponentType::VFreebusy) {
        let guest_vec = recipients_into_vec(guests);
        let to = crate::model::clone_strings(&guest_vec);
        let ghost gv = guest_vec@;
        proof {
            assert(to@.map_values(|x: String| x@) == gv.map_values(|x: String| x@));
            assert(to@.map_values(|x: String| x@).len() == to@.len());
            assert(gv.map_values(|x: String| x@).len() == gv.len());
            assert forall|k: int| 0 <= k < gv.len() implies #[trigger] to@[k]@ == gv[k]@ by {
                assert(to@.map_values(|x: String| x@)[k] == to@[k]@);
                assert(gv.map_values(|x: String| x@)[k] == gv[k]@);
            }
            assert(vec_matches_set(to@, guest_addrs(is))) by {
                assert forall|x: Seq<char>|
                    #[trigger] guest_addrs(is).contains(x) implies exists|k: int|
                    0 <= k < to@.len() && #[trigger] to@[k]@ == x by {
                    let k = choose|k: int| 0 <= k < gv.len() && #[trigger] gv[k]@ == x;
                    assert(to@[k]@ == x);
                }
            }
        }
        let comp = build_cancel_component(
            ctype,
            &snap.uid,
            &snap.organizer.email.email,
            sequence,
            dt_stamp,
            guest_vec,
        );
        proof {
            assert(comp.v().attendees.len() == gv.len());
            assert(vec_matches_addr_lines(comp.v().attendees, guest_addrs(is))) by {
                assert(forall|i: int|
                    0 <= i < gv.len() ==> (#[trigger] comp.v().attendees[i]).email == gv[i]@);
                assert forall|x: Seq<char>| #[trigger] guest_addrs(is).contains(x) implies exists|
                    i: int,
                |
                    0 <= i < comp.v().attendees.len() && (#[trigger] comp.v().attendees[i]).email
                        == x by {
                    let i = choose|i: int| 0 <= i < gv.len() && #[trigger] gv[i]@ == x;
                    assert(comp.v().attendees[i].email == x);
                }
            }
        }
        let mut envelope = itip_build_envelope(Method::Cancel);
        envelope.component_ids.push(1);
        proof {
            assert(envelope.v() =~= (ComponentV {
                component_ids: seq![1int],
                ..envelope_v(Method::Cancel)
            }));
        }
        let summary = ItipSummary::Cancel(snap.main_fingerprint());
        let mut comps: Vec<Component> = Vec::new();
        comps.push(envelope);
        comps.push(comp);
        let message = CalendarObject { components: comps };
        proof {
            assert(message.v().len() == 2);
            assert(message.v()[0] == comps@[0].v());
            assert(message.v()[1] == comps@[1].v());
        }
        Ok(
            ItipMessage {
                from: snap.organizer.email.email,
                from_organizer: true,
                to,
                method: Method::Cancel,
                summary,
                message,
            },
        )
    } else {
        Err(ItipError::NothingToSend)
    }
}

#[verifier::rlimit(100)]
fn cancel_as_attendee(
    ical: &CalendarObject,
    snap: Snapshot,
    dt_stamp: i64,
    Ghost(idv): Ghost<Seq<Seq<char>>>,
) -> (r: Result<ItipMessage, ItipError>)
    requires
        insts_v(snap.instances@) == snap_insts(ical.v(), idv),
        snap.uid@ == org_comp(ical.v()).uid->0,
        snap.organizer.v() == organizer_v(ical.v(), idv),
        !snap.organizer.email.is_local,
        crate::snapshot::has_local_attendee(snap_insts(ical.v(), idv)),
        unique_inst_ids(insts_v(snap.instances@)),
    ensures
        ({
            let is = snap_insts(ical.v(), idv);
            let org = organizer_v(ical.v(), idv);
            &&& r is Ok
            &&& ({
                let m = r->Ok_0;
                &&& m.method == Method::Reply
                &&& m.from_organizer == false
                &&& local_attendee_addr(is, m.from@)
                &&& m.to@.len() == 1 && m.to@[0]@ == org.email.email
                &&& m.message.v().len() >= 1
                &&& m.message.v()[0].method == Some(Method::Reply)
                &&& m.message.v()[0].component_type == ComponentType::VCalendar
                &&& 1 <= m.message.v()[0].component_ids.len() < m.message.v().len()
                &&& forall|t: int|
                    0 <= t < m.message.v()[0].component_ids.len()
                        ==> #[trigger] m.message.v()[0].component_ids[t] == t + 1
                &&& forall|k: int|
                    1 <= k < m.message.v().len() ==> decline_or_tz(
                        is,
                        ical.v(),
                        org_comp(ical.v()).uid->0,
                        org.email.email,
                        #[trigger] m.message.v()[k],
                    )
                &&& declines_complete(
                    is,
                    m.message.v(),
                    org_comp(ical.v()).uid->0,
                    org.email.email,
                )
                &&& (m.summary matches ItipSummary::Rsvp { part_stat, current }
                    && part_stat == crate::model::PartStat::Declined && crate::model::props_v(
                    current@,
                ) == main_fp(is))
            })
        }),
{
    let ghost obj = ical.v();
    let ghost is = snap_insts(obj, idv);
    // Decline attendance for every instance with a local attendee.
    let envelope = itip_build_envelope(Method::Reply);
    let mut comps: Vec<Component> = Vec::new();
    comps.push(envelope);
    let mut mail_from: Option<String> = None;
    let mut i: usize = 0;
    while i < snap.instances.len()
        invariant
            0 <= i <= snap.instances@.len(),
            is == insts_v(snap.instances@),
            comps@.len() >= 1,
            comps@[0].v().method == Some(Method::Reply),
            comps@[0].v().component_type == ComponentType::VCalendar,
            snap.uid@ == org_comp(obj).uid->0,
            snap.organizer.v() == organizer_v(obj, idv),
            forall|k: int|
                1 <= k < comps@.len() ==> decline_or_tz(
                    is,
                    obj,
                    org_comp(obj).uid->0,
                    organizer_v(obj, idv).email.email,
                    #[trigger] comps@[k].v(),
                ),
            forall|a: int|
                0 <= a < i && inst_has_local_s(#[trigger] is[a]) ==> exists|k: int, dt: i64|
                    #![trigger comps@[k], decline_comp_v(is[a], org_comp(obj).uid->0, organizer_v(obj, idv).email.email, dt)]
                    1 <= k < comps@.len() && comps@[k].v() == decline_comp_v(
                        is[a],
                        org_comp(obj).uid->0,
                        organizer_v(obj, idv).email.email,
                        dt,
                    ),
            mail_from is Some <==> exists|a: int|
                0 <= a < i && inst_has_local_s(#[trigger] is[a]),
            mail_from matches Some(f) ==> local_attendee_addr(is, f@),
        decreases snap.instances@.len() - i,
    {
        proof {
            assert(is[i as int] == snap.instances@[i as int].v());
        }
        match attendee_decline(
            &snap.instances[i],
            &snap.uid,
            &snap.organizer.email.email,
            dt_stamp,
        ) {
            Some((cancel_comp, attendee_email)) => {
                let ghost ccv = cancel_comp.v();
                let ghost cprev = comps@;
                comps.push(cancel_comp);
                proof {
                    assert(comps@[comps@.len() - 1].v() == ccv);
                    assert(ccv == decline_comp_v(
                        is[i as int],
                        org_comp(obj).uid->0,
                        organizer_v(obj, idv).email.email,
                        dt_stamp,
                    ));
                    assert(decline_or_tz(
                        is,
                        obj,
                        org_comp(obj).uid->0,
                        organizer_v(obj, idv).email.email,
                        comps@[comps@.len() - 1].v(),
                    ));
                    assert(forall|k: int| 0 <= k < cprev.len() ==> comps@[k] == cprev[k]);
                }
                mail_from = Some(attendee_email);
            },
            None => {},
        }
        i += 1;
    }
    match mail_from {
        Some(from) => {
            // The envelope references its decline children by index.
            let ghost c0 = comps@;
            let n_children = comps.len() - 1;
            let mut envelope2 = itip_build_envelope(Method::Reply);
            let mut k: usize = 0;
            while k < n_children
                invariant
                    0 <= k <= n_children,
                    envelope2.v().method == Some(Method::Reply),
                    envelope2.v().component_type == ComponentType::VCalendar,
                    envelope2.v().component_ids.len() == k,
                    forall|t: int|
                        0 <= t < k ==> #[trigger] envelope2.v().component_ids[t] == t + 1,
                decreases n_children - k,
            {
                let ghost prev_ids = envelope2.v().component_ids;
                envelope2.component_ids.push(k + 1);
                proof {
                    assert(envelope2.v().component_ids =~= prev_ids.push((k + 1) as int));
                }
                k += 1;
            }
            let mut comps2: Vec<Component> = Vec::new();
            let ghost env2v = envelope2.v();
            comps2.push(envelope2);
            let mut k: usize = 1;
            while k < comps.len()
                invariant
                    1 <= k <= comps@.len(),
                    c0 == comps@,
                    comps2@.len() == k,
                    comps2@[0].v() == env2v,
                    forall|t: int| 1 <= t < k ==> (#[trigger] comps2@[t]).v() == c0[t].v(),
                decreases comps@.len() - k,
            {
                comps2.push(crate::model::clone_component(&comps[k]));
                k += 1;
            }
            let ghost cseq = comps2@;
            let mut message = CalendarObject { components: comps2 };
            let ghost prev = message.v();
            itip_add_tz(&mut message, ical);
            proof {
                assert(message.v().subrange(0, prev.len() as int) == prev);
                assert(message.v()[0] == message.v().subrange(0, prev.len() as int)[0]);
                assert(forall|k: int| 1 <= k < prev.len() ==> #[trigger] prev[k] == cseq[k].v());
                assert(forall|k: int|
                    1 <= k < prev.len() ==> #[trigger] cseq[k].v() == c0[k].v());
                assert forall|a: int|
                    0 <= a < is.len() && inst_has_local_s(#[trigger] is[a]) implies exists|
                    k: int,
                    dt: i64,
                |
                    #![trigger message.v()[k], decline_comp_v(is[a], org_comp(obj).uid->0, organizer_v(obj, idv).email.email, dt)]
                    1 <= k < message.v().len() && message.v()[k] == decline_comp_v(
                        is[a],
                        org_comp(obj).uid->0,
                        organizer_v(obj, idv).email.email,
                        dt,
                    ) by {
                    let (k, dt) = choose|k: int, dt: i64|
                        1 <= k < c0.len() && c0[k].v() == decline_comp_v(
                            is[a],
                            org_comp(obj).uid->0,
                            organizer_v(obj, idv).email.email,
                            dt,
                        );
                    assert(cseq[k].v() == c0[k].v());
                    assert(prev[k] == cseq[k].v());
                    assert(message.v()[k] == message.v().subrange(0, prev.len() as int)[k]);
                    assert(message.v()[k] == prev[k]);
                };
                assert forall|k: int|
                    1 <= k < message.v().len() implies decline_or_tz(
                    is,
                    obj,
                    org_comp(obj).uid->0,
                    organizer_v(obj, idv).email.email,
                    #[trigger] message.v()[k],
                ) by {
                    if k < prev.len() {
                        assert(message.v()[k] == message.v().subrange(0, prev.len() as int)[k]);
                        assert(message.v()[k] == prev[k]);
                    } else {
                        assert(is_source_tz(obj, message.v()[k]));
                    }
                }
            }
            let summary = ItipSummary::Rsvp {
                part_stat: crate::model::PartStat::Declined,
                current: snap.main_fingerprint(),
            };
            let mut to: Vec<String> = Vec::new();
            to.push(snap.organizer.email.email);
            Ok(
                ItipMessage {
                    from,
                    from_organizer: false,
                    to,
                    method: Method::Reply,
                    summary,
                    message,
                },
            )
        },
        None => {
            proof {
                assert(!crate::snapshot::has_local_attendee(is));
                assert(false);
            }
            Err(ItipError::NothingToSend)
        },
    }
}

/// Whether some instance has a local attendee with this address.
pub open spec fn local_attendee_addr(is: Seq<InstanceSnapshotV>, addr: Seq<char>) -> bool {
    exists|i: int, j: int|
        0 <= i < is.len() && 0 <= j < is[i].attendees.len()
            && (#[trigger] is[i].attendees[j]).email.is_local && is[i].attendees[j].email.email
            == addr
}

/// Every instance with a local attendee has its decline among the
/// message's children.
pub open spec fn declines_complete(
    is: Seq<InstanceSnapshotV>,
    msg: Seq<ComponentV>,
    uid: Seq<char>,
    org: Seq<char>,
) -> bool {
    forall|a: int|
        0 <= a < is.len() && inst_has_local_s(#[trigger] is[a]) ==> exists|k: int, dt: i64|
            #![trigger msg[k], decline_comp_v(is[a], uid, org, dt)]
            1 <= k < msg.len() && msg[k] == decline_comp_v(is[a], uid, org, dt)
}

/// Same shape as [`crate::snapshot::inst_has_local`], named for triggers.
pub open spec fn inst_has_local_s(inst: InstanceSnapshotV) -> bool {
    crate::snapshot::inst_has_local(inst)
}

/// A child component of a decline reply: a decline of one of the
/// snapshot's instances, or a timezone definition taken over from the
/// source object.
pub open spec fn decline_or_tz(
    is: Seq<InstanceSnapshotV>,
    obj: Seq<ComponentV>,
    uid: Seq<char>,
    org: Seq<char>,
    c: ComponentV,
) -> bool {
    ||| exists|i: int, dt: i64|
        0 <= i < is.len() && c == #[trigger] decline_comp_v(is[i], uid, org, dt)
    ||| is_source_tz(obj, c)
}

} // verus!
