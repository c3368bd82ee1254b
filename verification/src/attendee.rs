//! The attendee workflow: declines, RSVPs and counter proposals toward a
//! remote organizer.

use vstd::prelude::*;
use crate::model::{
    Attendee, AttendeeV, CalendarObject, Component, ComponentType, ComponentV, InstanceId, Method,
    PartStat, PropKind, ScheduleAgent,
};
use crate::snapshot::{
    InstanceSnapshot, InstanceSnapshotV, ParticipantV, Snapshot, contains_inst_v, find_inst,
    inst_has_local, insts_v, participants_v, unique_inst_ids,
};
use crate::error::{ItipError, ItipMessage, ItipSummary};
use crate::itip::itip_build_envelope;
use crate::event_cancel::addr_set;
use crate::diff::{addr_sets_eq, find_instance, props_eq};

verus! {

/// RECURRENCE-ID a component must carry for this instance.
pub open spec fn rid_of(id: InstanceId) -> Option<i64> {
    match id {
        InstanceId::Main => None,
        InstanceId::Recurrence(t) => Some(t),
    }
}

/// Exec twin of [`rid_of`].
pub fn rid_of_exec(id: InstanceId) -> (r: Option<i64>)
    ensures
        r == rid_of(id),
{
    match id {
        InstanceId::Main => None,
        InstanceId::Recurrence(t) => Some(t),
    }
}

/// The ATTENDEE lines of a decline reply: the local participants of the
/// instance, each with PARTSTAT set to DECLINED.
pub open spec fn declined_locals(ps: Seq<ParticipantV>) -> Seq<AttendeeV>
    decreases ps.len(),
{
    if ps.len() == 0 {
        Seq::empty()
    } else {
        let pre = declined_locals(ps.drop_last());
        let p = ps.last();
        if p.email.is_local {
            pre.push(
                AttendeeV {
                    email: p.email.email,
                    partstat: Some(PartStat::Declined),
                    rsvp: p.rsvp,
                    schedule_agent: p.schedule_agent,
                    non_participant: p.non_participant,
                },
            )
        } else {
            pre
        }
    }
}

/// The reply component an attendee sends to decline one instance.
pub open spec fn decline_comp_v(
    inst: InstanceSnapshotV,
    uid: Seq<char>,
    org: Seq<char>,
    dt: i64,
) -> ComponentV {
    ComponentV {
        component_type: inst.component_type,
        uid: Some(uid),
        recurrence_id: rid_of(inst.instance_id),
        sequence: Some(inst.sequence),
        status: None,
        dtstamp: Some(dt),
        organizer: Some(org),
        organizer_agent: ScheduleAgent::Server,
        attendees: declined_locals(inst.attendees),
        props: Seq::empty(),
        tzids: Seq::empty(),
        tzid: None,
        method: None,
        component_ids: Seq::empty(),
    }
}

/// Builds the decline reply for one instance: `None` when the instance
/// has no local attendee, else the reply component together with the
/// local address it is sent from.
pub fn attendee_decline(inst: &InstanceSnapshot, uid: &String, org: &String, dt_stamp: i64) -> (r:
    Option<(Component, String)>)
    ensures
        r is Some <==> inst_has_local(inst.v()),
        r matches Some(p) ==> p.0.v() == decline_comp_v(inst.v(), uid@, org@, dt_stamp)
            && exists|j: int|
            0 <= j < inst.v().attendees.len() && (#[trigger] inst.v().attendees[j]).email.is_local
                && inst.v().attendees[j].email.email == p.1@,
{
    let ghost pv = participants_v(inst.attendees@);
    let mut lines: Vec<Attendee> = Vec::new();
    let mut from: Option<String> = None;
    let ghost mut from_j: int = 0;
    let mut j: usize = 0;
    while j < inst.attendees.len()
        invariant
            0 <= j <= inst.attendees@.len(),
            pv == participants_v(inst.attendees@),
            lines@.map_values(|a: Attendee| a.v()) =~= declined_locals(pv.take(j as int)),
            from is Some <==> exists|b: int|
                0 <= b < j && (#[trigger] pv[b]).email.is_local,
            from matches Some(f) ==> 0 <= from_j < j && pv[from_j].email.is_local
                && pv[from_j].email.email == f@,
        decreases inst.attendees@.len() - j,
    {
        proof {
            assert(pv.take(j + 1 as int).drop_last() =~= pv.take(j as int));
            assert(pv.take(j + 1 as int).last() == pv[j as int]);
            assert(pv[j as int] == inst.attendees@[j as int].v());
        }
        let p = &inst.attendees[j];
        if p.email.is_local {
            let a = Attendee {
                email: p.email.email.clone(),
                partstat: Some(PartStat::Declined),
                rsvp: p.rsvp,
                schedule_agent: p.schedule_agent,
                non_participant: p.non_participant,
            };
            let ghost prev = lines@.map_values(|x: Attendee| x.v());
            lines.push(a);
            proof {
                assert(lines@.map_values(|x: Attendee| x.v()) =~= prev.push(a.v()));
                assert(lines@.map_values(|x: Attendee| x.v()) =~= declined_locals(
                    pv.take(j + 1 as int),
                ));
            }
            if from.is_none() {
                from = Some(p.email.email.clone());
                proof {
                    from_j = j as int;
                }
            }
        } else {
            proof {
                assert(declined_locals(pv.take(j + 1 as int)) =~= declined_locals(
                    pv.take(j as int),
                ));
            }
        }
        j += 1;
    }
    proof {
        assert(pv.take(inst.attendees@.len() as int) =~= pv);
    }
    match from {
        Some(f) => {
            let c = Component {
                component_type: inst.component_type,
                uid: Some(uid.clone()),
                recurrence_id: rid_of_exec(inst.instance_id),
                sequence: Some(inst.sequence),
                status: None,
                dtstamp: Some(dt_stamp),
                organizer: Some(org.clone()),
                organizer_agent: ScheduleAgent::Server,
                attendees: lines,
                props: Vec::new(),
                tzids: Vec::new(),
                tzid: None,
                method: None,
                component_ids: Vec::new(),
            };
            proof {
                assert(c.v() =~= decline_comp_v(inst.v(), uid@, org@, dt_stamp));
            }
            Some((c, f))
        },
        None => None,
    }
}

/// Whether both snapshots cover the same instance ids.
pub open spec fn same_ids(o_is: Seq<InstanceSnapshotV>, n_is: Seq<InstanceSnapshotV>) -> bool {
    &&& forall|k: int|
        0 <= k < o_is.len() ==> contains_inst_v(n_is, (#[trigger] o_is[k]).instance_id)
    &&& forall|k: int|
        0 <= k < n_is.len() ==> contains_inst_v(o_is, (#[trigger] n_is[k]).instance_id)
}

/// Whether some kept instance's attendee address set changed.
pub open spec fn kept_addrs_changed(o_is: Seq<InstanceSnapshotV>, n_is: Seq<InstanceSnapshotV>) -> bool {
    exists|k: int|
        0 <= k < n_is.len() && find_inst(o_is, (#[trigger] n_is[k]).instance_id) is Some
            && addr_set(find_inst(o_is, n_is[k].instance_id)->0.attendees) != addr_set(
            n_is[k].attendees,
        )
}

/// Whether some kept instance's fingerprint changed.
pub open spec fn kept_fp_changed(o_is: Seq<InstanceSnapshotV>, n_is: Seq<InstanceSnapshotV>) -> bool {
    exists|k: int|
        0 <= k < n_is.len() && find_inst(o_is, (#[trigger] n_is[k]).instance_id) is Some
            && find_inst(o_is, n_is[k].instance_id)->0.fingerprint != n_is[k].fingerprint
}

/// The significant fields an attendee may counter-propose.
pub open spec fn is_counterable(k: PropKind) -> bool {
    k == PropKind::DtStart || k == PropKind::DtEnd || k == PropKind::Location || k
        == PropKind::Summary
}

/// Whether some kept instance changed in a significant field that an
/// attendee may not touch at all.
pub open spec fn noncounterable_changed(
    o_is: Seq<InstanceSnapshotV>,
    n_is: Seq<InstanceSnapshotV>,
) -> bool {
    exists|k: int, kk: PropKind|
        0 <= k < n_is.len() && find_inst(o_is, (#[trigger] n_is[k]).instance_id) is Some
            && !is_counterable(kk) && crate::snapshot::props_of_kind(
            find_inst(o_is, n_is[k].instance_id)->0.fingerprint,
            kk,
        ) != #[trigger] crate::snapshot::props_of_kind(n_is[k].fingerprint, kk)
}

/// A local participant of the new instance whose PARTSTAT differs from
/// the same address in the old instance.
pub open spec fn inst_partstat_changed(o: InstanceSnapshotV, n: InstanceSnapshotV) -> bool {
    exists|j: int, b: int|
        0 <= j < n.attendees.len() && 0 <= b < o.attendees.len() && (#[trigger] n.attendees[
            j
        ]).email.is_local && (#[trigger] o.attendees[b]).email.email == n.attendees[j].email.email
            && o.attendees[b].partstat != n.attendees[j].partstat
}

/// Whether some kept instance carries a local PARTSTAT change.
pub open spec fn partstat_changed(o_is: Seq<InstanceSnapshotV>, n_is: Seq<InstanceSnapshotV>) -> bool {
    exists|k: int|
        0 <= k < n_is.len() && find_inst(o_is, (#[trigger] n_is[k]).instance_id) is Some
            && inst_partstat_changed(find_inst(o_is, n_is[k].instance_id)->0, n_is[k])
}

fn ids_match(a: &Vec<InstanceSnapshot>, b: &Vec<InstanceSnapshot>) -> (r: bool)
    ensures
        r == same_ids(insts_v(a@), insts_v(b@)),
{
    let ghost av = insts_v(a@);
    let ghost bv = insts_v(b@);
    let mut i: usize = 0;
    while i < a.len()
        invariant
            0 <= i <= a@.len(),
            av == insts_v(a@),
            bv == insts_v(b@),
            forall|k: int| 0 <= k < i ==> contains_inst_v(bv, (#[trigger] av[k]).instance_id),
        decreases a@.len() - i,
    {
        proof {
            assert(av[i as int] == a@[i as int].v());
        }
        if !crate::snapshot::instances_contain(b, a[i].instance_id) {
            return false;
        }
        i += 1;
    }
    let mut i: usize = 0;
    while i < b.len()
        invariant
            0 <= i <= b@.len(),
            av == insts_v(a@),
            bv == insts_v(b@),
            forall|k: int| 0 <= k < a@.len() ==> contains_inst_v(bv, (#[trigger] av[k]).instance_id),
            forall|k: int| 0 <= k < i ==> contains_inst_v(av, (#[trigger] bv[k]).instance_id),
        decreases b@.len() - i,
    {
        proof {
            assert(bv[i as int] == b@[i as int].v());
        }
        if !crate::snapshot::instances_contain(a, b[i].instance_id) {
            return false;
        }
        i += 1;
    }
    true
}

fn kind_slice(v: &Vec<crate::model::Prop>, k: PropKind) -> (r: Vec<crate::model::Prop>)
    ensures
        crate::model::props_v(r@) == crate::snapshot::props_of_kind(
            crate::model::props_v(v@),
            k,
        ),
{
    let mut out: Vec<crate::model::Prop> = Vec::new();
    crate::snapshot::collect_kind(v, k, &mut out);
    out
}

/// Whether the two fingerprints differ only in fields an attendee may
/// counter-propose.
fn only_counterable_changes(o: &InstanceSnapshot, n: &InstanceSnapshot) -> (r: bool)
    ensures
        r == (forall|kk: PropKind|
            !is_counterable(kk) ==> crate::snapshot::props_of_kind(o.v().fingerprint, kk)
                == #[trigger] crate::snapshot::props_of_kind(n.v().fingerprint, kk)),
{
    let kinds: [PropKind; 9] = [
        PropKind::Duration,
        PropKind::RRule,
        PropKind::ExDate,
        PropKind::RDate,
        PropKind::Description,
        PropKind::Resources,
        PropKind::Geo,
        PropKind::Priority,
        PropKind::Class,
    ];
    let mut i: usize = 0;
    while i < 9
        invariant
            0 <= i <= 9,
            kinds@ =~= seq![
                PropKind::Duration,
                PropKind::RRule,
                PropKind::ExDate,
                PropKind::RDate,
                PropKind::Description,
                PropKind::Resources,
                PropKind::Geo,
                PropKind::Priority,
                PropKind::Class,
            ],
            forall|j: int|
                0 <= j < i ==> crate::snapshot::props_of_kind(o.v().fingerprint, #[trigger] kinds@[j])
                    == crate::snapshot::props_of_kind(n.v().fingerprint, kinds@[j]),
        decreases 9 - i,
    {
        let a = kind_slice(&o.fingerprint, kinds[i]);
        let b = kind_slice(&n.fingerprint, kinds[i]);
        if !props_eq(&a, &b) {
            proof {
                assert(!is_counterable(kinds@[i as int]));
            }
            return false;
        }
        i += 1;
    }
    proof {
        assert forall|kk: PropKind| !is_counterable(kk) implies crate::snapshot::props_of_kind(
            o.v().fingerprint,
            kk,
        ) == #[trigger] crate::snapshot::props_of_kind(n.v().fingerprint, kk) by {
            assert(kk == kinds@[0] || kk == kinds@[1] || kk == kinds@[2] || kk == kinds@[3] || kk
                == kinds@[4] || kk == kinds@[5] || kk == kinds@[6] || kk == kinds@[7] || kk
                == kinds@[8]);
        }
    }
    true
}

/// Exec twin of [`inst_partstat_changed`]; also hands back the first
/// changed local participant's address and new PARTSTAT.
fn find_partstat_change(o: &InstanceSnapshot, n: &InstanceSnapshot) -> (r: Option<(
    String,
    Option<PartStat>,
)>)
    ensures
        r is Some <==> inst_partstat_changed(o.v(), n.v()),
        r matches Some(p) ==> exists|j: int|
            0 <= j < n.v().attendees.len() && (#[trigger] n.v().attendees[j]).email.is_local
                && n.v().attendees[j].email.email == p.0@ && n.v().attendees[j].partstat == p.1,
{
    let ghost nv = participants_v(n.attendees@);
    let ghost ov = participants_v(o.attendees@);
    let mut j: usize = 0;
    while j < n.attendees.len()
        invariant
            0 <= j <= n.attendees@.len(),
            nv == participants_v(n.attendees@),
            ov == participants_v(o.attendees@),
            forall|a: int, b: int|
                0 <= a < j && 0 <= b < ov.len() ==> !((#[trigger] nv[a]).email.is_local && (
                #[trigger] ov[b]).email.email == nv[a].email.email && ov[b].partstat
                    != nv[a].partstat),
        decreases n.attendees@.len() - j,
    {
        proof {
            assert(nv[j as int] == n.attendees@[j as int].v());
        }
        let p = &n.attendees[j];
        if p.email.is_local {
            let mut b: usize = 0;
            while b < o.attendees.len()
                invariant
                    0 <= b <= o.attendees@.len(),
                    j < n.attendees@.len(),
                    nv == participants_v(n.attendees@),
                    ov == participants_v(o.attendees@),
                    nv[j as int] == n.attendees@[j as int].v(),
                    nv[j as int].email.is_local,
                    p.email.email@ == nv[j as int].email.email,
                    p.partstat == nv[j as int].partstat,
                    forall|t: int|
                        0 <= t < b ==> !((#[trigger] ov[t]).email.email == nv[j as int].email.email
                            && ov[t].partstat != nv[j as int].partstat),
                decreases o.attendees@.len() - b,
            {
                proof {
                    assert(ov[b as int] == o.attendees@[b as int].v());
                }
                let q = &o.attendees[b];
                if q.email.email.eq(&p.email.email) && !opt_ps_eq(q.partstat, p.partstat) {
                    proof {
                        assert(nv[j as int].email.is_local);
                        assert(ov[b as int].email.email == nv[j as int].email.email);
                        assert(ov[b as int].partstat != nv[j as int].partstat);
                        assert(inst_partstat_changed(o.v(), n.v()));
                        assert(n.v().attendees[j as int].email.email == p.email.email@);
                        assert(n.v().attendees[j as int].partstat == p.partstat);
                    }
                    return Some((p.email.email.clone(), p.partstat));
                }
                b += 1;
            }
        }
        j += 1;
    }
    None
}


/// The shape of reply children: no significant property, no METHOD, the
/// object's UID, and exactly one ATTENDEE line (the answering attendee).
pub open spec fn reply_children_ok(cs: Seq<Component>, uid: Seq<char>) -> bool {
    forall|k: int|
        0 <= k < cs.len() ==> ((#[trigger] cs[k]).v().props.len() == 0 && cs[k].v().method is None
            && cs[k].v().uid == Some(uid) && cs[k].v().attendees.len() == 1)
}

/// The full outcome of an attendee-side update, shared by the workflow
/// and the top-level update operation.
pub open spec fn attendee_update_outcome(
    r: Result<Vec<ItipMessage>, ItipError>,
    o_is: Seq<InstanceSnapshotV>,
    n_is: Seq<InstanceSnapshotV>,
    nobj: Seq<ComponentV>,
    ouid: Seq<char>,
    nuid: Seq<char>,
    org: Seq<char>,
) -> bool {
    &&& ouid != nuid ==> r is Err && r->Err_0 == ItipError::CannotModifyProperty
    &&& (ouid == nuid && !same_ids(o_is, n_is)) ==> r is Err && r->Err_0
        == ItipError::CannotModifyProperty
    &&& (ouid == nuid && same_ids(o_is, n_is) && kept_addrs_changed(o_is, n_is)) ==> r is Err
        && r->Err_0 == ItipError::CannotModifyAddress
    &&& (ouid == nuid && same_ids(o_is, n_is) && !kept_addrs_changed(o_is, n_is)
        && kept_fp_changed(o_is, n_is) && noncounterable_changed(o_is, n_is)) ==> r is Err
        && r->Err_0 == ItipError::CannotModifyProperty
    &&& (ouid == nuid && same_ids(o_is, n_is) && !kept_addrs_changed(o_is, n_is)
        && kept_fp_changed(o_is, n_is) && !noncounterable_changed(o_is, n_is)) ==> r is Ok && ({
        let ms = r->Ok_0@;
        &&& ms.len() == 1
        &&& ms[0].method == Method::Counter
        &&& ms[0].from_organizer == false
        &&& crate::event_cancel::local_attendee_addr(n_is, ms[0].from@)
        &&& ms[0].to@.len() == 1 && ms[0].to@[0]@ == org
        &&& ms[0].message.v().len() == nobj.len() + 1
        &&& ms[0].message.v()[0].method == Some(Method::Counter)
        &&& ms[0].message.v()[0].component_type == ComponentType::VCalendar
        &&& ms[0].message.v()[0].component_ids.len() == nobj.len()
        &&& ms[0].message.v().skip(1) == nobj
    })
    &&& (ouid == nuid && same_ids(o_is, n_is) && !kept_addrs_changed(o_is, n_is)
        && !kept_fp_changed(o_is, n_is)) ==> ({
        &&& (r is Err <==> !partstat_changed(o_is, n_is))
        &&& r is Err ==> r->Err_0 == ItipError::NothingToSend
        &&& r is Ok ==> ({
            let ms = r->Ok_0@;
            &&& ms.len() == 1
            &&& ms[0].method == Method::Reply
            &&& ms[0].from_organizer == false
            &&& crate::event_cancel::local_attendee_addr(n_is, ms[0].from@)
            &&& ms[0].to@.len() == 1 && ms[0].to@[0]@ == org
            &&& ms[0].message.v().len() >= 2
            &&& ms[0].message.v()[0].method == Some(Method::Reply)
            &&& ms[0].message.v()[0].component_type == ComponentType::VCalendar
            &&& ms[0].message.v()[0].component_ids.len() == ms[0].message.v().len() - 1
            &&& forall|k: int|
                1 <= k < ms[0].message.v().len() ==> ((#[trigger] ms[0].message.v()[k].props).len()
                    == 0 && ms[0].message.v()[k].method is None && ms[0].message.v()[k].uid == Some(
                    nuid,
                ) && ms[0].message.v()[k].attendees.len() == 1)
        })
    })
    &&& r is Err ==> (r->Err_0 == ItipError::CannotModifyProperty || r->Err_0
        == ItipError::CannotModifyAddress || r->Err_0 == ItipError::NothingToSend)
}

/// Handles an update where the organizer is remote and a local identity
/// attends. Local PARTSTAT changes yield one REPLY to the organizer;
/// counter-proposals of DTSTART, DTEND, LOCATION or SUMMARY yield one
/// COUNTER; every other structural edit is rejected.
#[verifier::rlimit(100)]
pub fn attendee_handle_update(ical: &CalendarObject, old_itip: Snapshot, new_itip: Snapshot) -> (r:
    Result<Vec<ItipMessage>, ItipError>)
    requires
        unique_inst_ids(insts_v(old_itip.instances@)),
        unique_inst_ids(insts_v(new_itip.instances@)),
        !old_itip.organizer.email.is_local,
        crate::snapshot::has_local_attendee(insts_v(new_itip.instances@)),
    ensures
        attendee_update_outcome(
            r,
            insts_v(old_itip.instances@),
            insts_v(new_itip.instances@),
            ical.v(),
            old_itip.uid@,
            new_itip.uid@,
            old_itip.organizer.v().email.email,
        ),
{
    let ghost o_is = insts_v(old_itip.instances@);
    let ghost n_is = insts_v(new_itip.instances@);

    if !old_itip.uid.eq(&new_itip.uid) {
        return Err(ItipError::CannotModifyProperty);
    }
    if !ids_match(&old_itip.instances, &new_itip.instances) {
        return Err(ItipError::CannotModifyProperty);
    }

    // Scan the kept instances for the strongest class of change.
    let mut addrs_changed = false;
    let mut fp_changed = false;
    let mut bad_counter = false;
    let mut i: usize = 0;
    while i < new_itip.instances.len()
        invariant
            0 <= i <= new_itip.instances@.len(),
            o_is == insts_v(old_itip.instances@),
            n_is == insts_v(new_itip.instances@),
            unique_inst_ids(o_is),
            addrs_changed <==> exists|k: int|
                0 <= k < i && find_inst(o_is, (#[trigger] n_is[k]).instance_id) is Some && addr_set(
                    find_inst(o_is, n_is[k].instance_id)->0.attendees,
                ) != addr_set(n_is[k].attendees),
            fp_changed <==> exists|k: int|
                0 <= k < i && find_inst(o_is, (#[trigger] n_is[k]).instance_id) is Some
                    && find_inst(o_is, n_is[k].instance_id)->0.fingerprint != n_is[k].fingerprint,
            bad_counter <==> exists|k: int, kk: PropKind|
                0 <= k < i && find_inst(o_is, (#[trigger] n_is[k]).instance_id) is Some
                    && !is_counterable(kk) && crate::snapshot::props_of_kind(
                    find_inst(o_is, n_is[k].instance_id)->0.fingerprint,
                    kk,
                ) != #[trigger] crate::snapshot::props_of_kind(n_is[k].fingerprint, kk),
        decreases new_itip.instances@.len() - i,
    {
        proof {
            assert(n_is[i as int] == new_itip.instances@[i as int].v());
        }
        let n = &new_itip.instances[i];
        match find_instance(&old_itip.instances, n.instance_id) {
            Some(o) => {
                if !addr_sets_eq(&o.attendees, &n.attendees) {
                    addrs_changed = true;
                }
                if !props_eq(&o.fingerprint, &n.fingerprint) {
                    fp_changed = true;
                }
                if !only_counterable_changes(o, n) {
                    bad_counter = true;
                }
            },
            None => {},
        }
        i += 1;
    }
    proof {
        assert(addrs_changed == kept_addrs_changed(o_is, n_is));
        assert(fp_changed == kept_fp_changed(o_is, n_is));
        assert(bad_counter == noncounterable_changed(o_is, n_is));
    }
    if addrs_changed {
        return Err(ItipError::CannotModifyAddress);
    }
    if fp_changed && bad_counter {
        return Err(ItipError::CannotModifyProperty);
    }

    if fp_changed {
        // Counter-proposal: the changed object behind a COUNTER envelope.
        let ghost nobj = ical.v();
        let mut envelope = itip_build_envelope(Method::Counter);
        let mut k: usize = 0;
        while k < ical.components.len()
            invariant
                0 <= k <= ical.components@.len(),
                envelope.v().method == Some(Method::Counter),
                envelope.v().component_type == ComponentType::VCalendar,
                envelope.v().component_ids.len() == k,
            decreases ical.components@.len() - k,
        {
            envelope.component_ids.push(k + 1);
            k += 1;
        }
        let mut comps: Vec<Component> = Vec::new();
        let ghost envv = envelope.v();
        comps.push(envelope);
        let mut k: usize = 0;
        while k < ical.components.len()
            invariant
                0 <= k <= ical.components@.len(),
                nobj == ical.v(),
                comps@.len() == k + 1,
                comps@[0].v() == envv,
                envv.method == Some(Method::Counter),
                envv.component_type == ComponentType::VCalendar,
                envv.component_ids.len() == ical.components@.len(),
                forall|t: int| 0 <= t < k ==> (#[trigger] comps@[t + 1].v()) == nobj[t],
            decreases ical.components@.len() - k,
        {
            proof {
                assert(nobj[k as int] == ical.components@[k as int].v());
            }
            comps.push(crate::model::clone_component(&ical.components[k]));
            k += 1;
        }
        let message = CalendarObject { components: comps };
        proof {
            assert(message.v().len() == nobj.len() + 1);
            assert(message.v()[0] == message.components@[0].v());
            assert(message.v().skip(1) =~= nobj) by {
                assert(forall|t: int|
                    0 <= t < nobj.len() ==> message.v().skip(1)[t] == (
                    #[trigger] message.components@[t + 1].v()));
            }
        }
        let mut to: Vec<String> = Vec::new();
        to.push(old_itip.organizer.email.email.clone());
        let summary = ItipSummary::Update(new_itip.main_fingerprint());
        let from = match first_local_addr(&new_itip.instances) {
            Some(f) => f,
            None => {
                proof {
                    assert(false);
                }
                return Err(ItipError::NotOrganizerNorAttendee);
            },
        };
        let mut ms: Vec<ItipMessage> = Vec::new();
        ms.push(
            ItipMessage {
                from,
                from_organizer: false,
                to,
                method: Method::Counter,
                summary,
                message,
            },
        );
        return Ok(ms);
    }

    // Look for a local PARTSTAT change and answer with one REPLY.
    let dt_stamp = crate::outside::dtstamp_now();
    let mut reply_comps: Vec<Component> = Vec::new();
    let mut mail_from: Option<(String, Option<PartStat>)> = None;
    let mut i: usize = 0;
    while i < new_itip.instances.len()
        invariant
            0 <= i <= new_itip.instances@.len(),
            o_is == insts_v(old_itip.instances@),
            n_is == insts_v(new_itip.instances@),
            unique_inst_ids(o_is),
            reply_children_ok(reply_comps@, new_itip.uid@),
            mail_from is Some ==> reply_comps@.len() >= 1,
            mail_from is Some <==> exists|k: int|
                0 <= k < i && find_inst(o_is, (#[trigger] n_is[k]).instance_id) is Some
                    && inst_partstat_changed(find_inst(o_is, n_is[k].instance_id)->0, n_is[k]),
            mail_from matches Some(p) ==> crate::event_cancel::local_attendee_addr(n_is, p.0@),
        decreases new_itip.instances@.len() - i,
    {
        proof {
            assert(n_is[i as int] == new_itip.instances@[i as int].v());
        }
        let n = &new_itip.instances[i];
        match find_instance(&old_itip.instances, n.instance_id) {
            Some(o) => {
                match find_partstat_change(o, n) {
                    Some((addr, ps)) => {
                        let c = Component {
                            component_type: n.component_type,
                            uid: Some(new_itip.uid.clone()),
                            recurrence_id: rid_of_exec(n.instance_id),
                            sequence: Some(n.sequence),
                            status: None,
                            dtstamp: Some(dt_stamp),
                            organizer: Some(old_itip.organizer.email.email.clone()),
                            organizer_agent: ScheduleAgent::Server,
                            attendees: vec_one_attendee(&addr, ps),
                            props: Vec::new(),
                            tzids: Vec::new(),
                            tzid: None,
                            method: None,
                            component_ids: Vec::new(),
                        };
                        let ghost rc_prev = reply_comps@;
                        let ghost cv = c.v();
                        proof {
                            assert(cv.props.len() == 0 && cv.method is None);
                        }
                        reply_comps.push(c);
                        proof {
                            assert(reply_children_ok(reply_comps@, new_itip.uid@)) by {
                                assert forall|k: int|
                                    0 <= k < reply_comps@.len() implies ((#[trigger] reply_comps@[
                                    k
                                ]).v().props.len() == 0 && reply_comps@[k].v().method is None
                                    && reply_comps@[k].v().uid == Some(new_itip.uid@)
                                    && reply_comps@[k].v().attendees.len() == 1) by {
                                    if k < rc_prev.len() {
                                        assert(reply_comps@[k] == rc_prev[k]);
                                        assert(rc_prev[k].v().props.len() == 0 && rc_prev[
                                            k
                                        ].v().method is None && rc_prev[k].v().uid == Some(
                                            new_itip.uid@,
                                        ) && rc_prev[k].v().attendees.len() == 1);
                                    } else {
                                        assert(reply_comps@[k].v() == cv);
                                    }
                                }
                            }
                            let j = choose|j: int|
                                0 <= j < n.v().attendees.len() && (#[trigger] n.v().attendees[
                                    j
                                ]).email.is_local && n.v().attendees[j].email.email == addr@
                                    && n.v().attendees[j].partstat == ps;
                            assert(crate::event_cancel::local_attendee_addr(n_is, addr@));
                        }
                        mail_from = Some((addr, ps));
                    },
                    None => {},
                }
            },
            None => {},
        }
        i += 1;
    }
    match mail_from {
        Some((from, ps)) => {
            let mut envelope = itip_build_envelope(Method::Reply);
            let mut k: usize = 0;
            while k < reply_comps.len()
                invariant
                    0 <= k <= reply_comps@.len(),
                    envelope.v().method == Some(Method::Reply),
                    envelope.v().component_type == ComponentType::VCalendar,
                    envelope.v().component_ids.len() == k,
                decreases reply_comps@.len() - k,
            {
                envelope.component_ids.push(k + 1);
                k += 1;
            }
            let mut comps: Vec<Component> = Vec::new();
            let ghost envv = envelope.v();
            comps.push(envelope);
            let mut k: usize = 0;
            while k < reply_comps.len()
                invariant
                    comps@.len() == k + 1,
                    comps@[0].v() == envv,
                    envv.method == Some(Method::Reply),
                    envv.component_type == ComponentType::VCalendar,
                    envv.component_ids.len() == reply_comps@.len(),
                    0 <= k <= reply_comps@.len(),
                    reply_children_ok(reply_comps@, new_itip.uid@),
                    forall|t: int|
                        1 <= t < comps@.len() ==> ((#[trigger] comps@[t]).v().props.len() == 0
                            && comps@[t].v().method is None && comps@[t].v().uid == Some(
                            new_itip.uid@,
                        ) && comps@[t].v().attendees.len() == 1),
                decreases reply_comps@.len() - k,
            {
                comps.push(crate::model::clone_component(&reply_comps[k]));
                k += 1;
            }
            let message = CalendarObject { components: comps };
            proof {
                assert(message.v().len() == reply_comps@.len() + 1);
                assert(message.v()[0] == message.components@[0].v());
            }
            let mut to: Vec<String> = Vec::new();
            to.push(old_itip.organizer.email.email.clone());
            let summary = ItipSummary::Rsvp {
                part_stat: match ps {
                    Some(p) => p,
                    None => PartStat::NeedsAction,
                },
                current: new_itip.main_fingerprint(),
            };
            let mut ms: Vec<ItipMessage> = Vec::new();
            ms.push(
                ItipMessage {
                    from,
                    from_organizer: false,
                    to,
                    method: Method::Reply,
                    summary,
                    message,
                },
            );
            Ok(ms)
        },
        None => Err(ItipError::NothingToSend),
    }
}

/// Asks the organizer to re-send the latest revision of the object: one
/// REFRESH message with a minimal component (UID, ORGANIZER and the
/// local attendee), sent from a local attendee to the organizer. Only an
/// attendee of a remote organizer may ask.
pub fn itip_refresh(ical: &CalendarObject, account_emails: &Vec<String>) -> (r: Result<
    ItipMessage,
    ItipError,
>)
    ensures
        !crate::snapshot::snapshot_accepts(ical.v(), crate::email::ids_view(account_emails@), false)
            ==> r is Err && r->Err_0 == crate::snapshot::snapshot_reject(
            ical.v(),
            crate::email::ids_view(account_emails@),
            false,
        ),
        (crate::snapshot::snapshot_accepts(ical.v(), crate::email::ids_view(account_emails@), false)
            && crate::snapshot::organizer_v(
            ical.v(),
            crate::email::ids_view(account_emails@),
        ).email.is_local) ==> r is Err && r->Err_0 == ItipError::NotOrganizerNorAttendee,
        (crate::snapshot::snapshot_accepts(ical.v(), crate::email::ids_view(account_emails@), false)
            && !crate::snapshot::organizer_v(
            ical.v(),
            crate::email::ids_view(account_emails@),
        ).email.is_local) ==> ({
            let idv = crate::email::ids_view(account_emails@);
            let org = crate::snapshot::organizer_v(ical.v(), idv);
            &&& r is Ok
            &&& ({
                let m = r->Ok_0;
                &&& m.method == Method::Refresh
                &&& m.from_organizer == false
                &&& crate::event_cancel::local_attendee_addr(
                    crate::snapshot::snap_insts(ical.v(), idv),
                    m.from@,
                )
                &&& m.to@.len() == 1 && m.to@[0]@ == org.email.email
                &&& m.message.v().len() == 2
                &&& m.message.v()[0].method == Some(Method::Refresh)
                &&& m.message.v()[1].uid == Some(crate::snapshot::org_comp(ical.v()).uid->0)
                &&& m.message.v()[1].organizer == Some(org.email.email)
            })
        }),
{
    let snap = match crate::snapshot::itip_snapshot(ical, account_emails, false) {
        Ok(s) => s,
        Err(e) => {
            return Err(e);
        },
    };
    if snap.organizer.email.is_local {
        return Err(ItipError::NotOrganizerNorAttendee);
    }
    proof {
        crate::snapshot::lemma_snap_insts_unique(
            ical.v(),
            crate::email::ids_view(account_emails@),
        );
    }
    let from = match first_local_addr(&snap.instances) {
        Some(f) => f,
        None => {
            proof {
                assert(false);
            }
            return Err(ItipError::NotOrganizerNorAttendee);
        },
    };
    let mut envelope = itip_build_envelope(Method::Refresh);
    envelope.component_ids.push(1);
    let minimal = Component {
        component_type: ComponentType::VEvent,
        uid: Some(snap.uid.clone()),
        recurrence_id: None,
        sequence: None,
        status: None,
        dtstamp: None,
        organizer: Some(snap.organizer.email.email.clone()),
        organizer_agent: ScheduleAgent::Server,
        attendees: vec_one_attendee(&from, None),
        props: Vec::new(),
        tzids: Vec::new(),
        tzid: None,
        method: None,
        component_ids: Vec::new(),
    };
    let mut comps: Vec<Component> = Vec::new();
    comps.push(envelope);
    comps.push(minimal);
    let message = CalendarObject { components: comps };
    proof {
        assert(message.v().len() == 2);
        assert(message.v()[0] == message.components@[0].v());
        assert(message.v()[1] == message.components@[1].v());
    }
    let summary = ItipSummary::Update(snap.main_fingerprint());
    let mut to: Vec<String> = Vec::new();
    to.push(snap.organizer.email.email);
    Ok(
        ItipMessage {
            from,
            from_organizer: false,
            to,
            method: Method::Refresh,
            summary,
            message,
        },
    )
}

/// Compares two optional participation statuses.
fn opt_ps_eq(a: Option<PartStat>, b: Option<PartStat>) -> (r: bool)
    ensures
        r == (a == b),
{
    match (a, b) {
        (None, None) => true,
        (Some(x), Some(y)) => x == y,
        _ => false,
    }
}

/// The first local attendee address over all instances.
fn first_local_addr(insts: &Vec<InstanceSnapshot>) -> (r: Option<String>)
    ensures
        r is Some <==> crate::snapshot::has_local_attendee(insts_v(insts@)),
        r matches Some(f) ==> crate::event_cancel::local_attendee_addr(insts_v(insts@), f@),
{
    let ghost is = insts_v(insts@);
    let mut i: usize = 0;
    while i < insts.len()
        invariant
            0 <= i <= insts@.len(),
            is == insts_v(insts@),
            forall|a: int| 0 <= a < i ==> !crate::snapshot::inst_has_local(#[trigger] is[a]),
        decreases insts@.len() - i,
    {
        proof {
            assert(is[i as int] == insts@[i as int].v());
        }
        let ats = &insts[i].attendees;
        let mut j: usize = 0;
        while j < ats.len()
            invariant
                0 <= j <= ats@.len(),
                i < insts@.len(),
                is == insts_v(insts@),
                participants_v(ats@) == is[i as int].attendees,
                forall|b: int|
                    0 <= b < j ==> !(#[trigger] participants_v(ats@)[b]).email.is_local,
            decreases ats@.len() - j,
        {
            proof {
                assert(participants_v(ats@)[j as int] == ats@[j as int].v());
            }
            if ats[j].email.is_local {
                proof {
                    assert(is[i as int].attendees[j as int].email.is_local);
                    assert(crate::snapshot::inst_has_local(is[i as int]));
                }
                return Some(ats[j].email.email.clone());
            }
            j += 1;
        }
        proof {
            assert(!crate::snapshot::inst_has_local(is[i as int]));
        }
        i += 1;
    }
    None
}

fn vec_one_attendee(addr: &String, ps: Option<PartStat>) -> (r: Vec<Attendee>)
    ensures
        r@.len() == 1,
        r@[0].v() == (AttendeeV {
            email: addr@,
            partstat: ps,
            rsvp: None,
            schedule_agent: ScheduleAgent::Server,
            non_participant: false,
        }),
{
    let mut v: Vec<Attendee> = Vec::new();
    v.push(
        Attendee {
            email: addr.clone(),
            partstat: ps,
            rsvp: None,
            schedule_agent: ScheduleAgent::Server,
            non_participant: false,
        },
    );
    v
}

} // verus!
