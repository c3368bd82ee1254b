//! The snapshot builder: projects a parsed calendar object into a
//! normalized per-instance view and classifies the local account's role.
//!
//! A snapshot is ephemeral: built per operation, never persisted. It
//! carries the object's UID, its organizer, and one entry per instance
//! (main component or recurrence override) with the instance's sequence,
//! status, attendee set and significant-field fingerprint.

use vstd::prelude::*;
use crate::model::{
    Attendee, AttendeeV, CalendarObject, Component, ComponentType, ComponentV, InstanceId,
    PartStat, Prop, PropKind, PropV, ScheduleAgent, Status, clone_prop, instance_id_of,
    is_scheduling_type, is_scheduling_type_exec, props_v, seq_or_zero,
};
use crate::email::{ids_view, is_identity, is_local_addr, normalize_addr, normalize_email};
use crate::error::ItipError;

verus! {

// ---------------------------------------------------------------------
// Snapshot data
// ---------------------------------------------------------------------

/// A normalized scheduling address together with whether it names one of
/// the local account's identities.
pub struct Email {
    pub email: String,
    pub is_local: bool,
}

#[verifier::ext_equal]
pub struct EmailV {
    pub email: Seq<char>,
    pub is_local: bool,
}

impl Email {
    pub open spec fn v(self) -> EmailV {
        EmailV { email: self.email@, is_local: self.is_local }
    }
}

/// One participant of an instance: the normalized address plus the
/// parameters the workflows read.
pub struct Participant {
    pub email: Email,
    pub partstat: Option<PartStat>,
    pub rsvp: Option<bool>,
    pub schedule_agent: ScheduleAgent,
    pub non_participant: bool,
}

#[verifier::ext_equal]
pub struct ParticipantV {
    pub email: EmailV,
    pub partstat: Option<PartStat>,
    pub rsvp: Option<bool>,
    pub schedule_agent: ScheduleAgent,
    pub non_participant: bool,
}

impl Participant {
    pub open spec fn v(self) -> ParticipantV {
        ParticipantV {
            email: self.email.v(),
            partstat: self.partstat,
            rsvp: self.rsvp,
            schedule_agent: self.schedule_agent,
            non_participant: self.non_participant,
        }
    }
}

/// A participant is eligible for update messages unless they explicitly
/// declined them (`RSVP:FALSE`) or are marked non-participant. The flags
/// suppress messages only for cosmetic deltas; the engine emits no
/// message at all for a purely cosmetic delta, and significant changes
/// and cancellations go to the whole attendee set, so no emission path
/// filters through this predicate. It is kept as part of the participant
/// model for callers that send their own notifications.
pub open spec fn sendable(p: ParticipantV) -> bool {
    p.rsvp != Some(false) && !p.non_participant
}

impl Participant {
    /// Exec twin of [`sendable`].
    pub fn send_update_messages(&self) -> (r: bool)
        ensures
            r == sendable(self.v()),
    {
        !(matches!(self.rsvp, Some(false))) && !self.non_participant
    }
}

/// Per-instance projection of one component.
pub struct InstanceSnapshot {
    pub instance_id: InstanceId,
    /// Index of the component this instance was built from.
    pub comp_index: usize,
    pub component_type: ComponentType,
    /// SEQUENCE with its default 0 applied.
    pub sequence: i64,
    pub status: Option<Status>,
    /// Participants, unique by normalized address; first occurrence wins.
    pub attendees: Vec<Participant>,
    /// Canonically ordered significant properties.
    pub fingerprint: Vec<Prop>,
    pub dtstamp: Option<i64>,
}

#[verifier::ext_equal]
pub struct InstanceSnapshotV {
    pub instance_id: InstanceId,
    pub comp_index: int,
    pub component_type: ComponentType,
    pub sequence: i64,
    pub status: Option<Status>,
    pub attendees: Seq<ParticipantV>,
    pub fingerprint: Seq<PropV>,
    pub dtstamp: Option<i64>,
}

impl InstanceSnapshot {
    pub open spec fn v(self) -> InstanceSnapshotV {
        InstanceSnapshotV {
            instance_id: self.instance_id,
            comp_index: self.comp_index as int,
            component_type: self.component_type,
            sequence: self.sequence,
            status: self.status,
            attendees: participants_v(self.attendees@),
            fingerprint: props_v(self.fingerprint@),
            dtstamp: self.dtstamp,
        }
    }
}

/// The per-operation view of one calendar object.
pub struct Snapshot {
    pub uid: String,
    pub organizer: Participant,
    /// One entry per instance, unique by instance id.
    pub instances: Vec<InstanceSnapshot>,
}

pub open spec fn participants_v(ps: Seq<Participant>) -> Seq<ParticipantV> {
    ps.map_values(|p: Participant| p.v())
}

pub open spec fn attendees_v(ats: Seq<Attendee>) -> Seq<AttendeeV> {
    ats.map_values(|a: Attendee| a.v())
}

pub open spec fn insts_v(is: Seq<InstanceSnapshot>) -> Seq<InstanceSnapshotV> {
    is.map_values(|i: InstanceSnapshot| i.v())
}

// ---------------------------------------------------------------------
// Fingerprints
// ---------------------------------------------------------------------

/// The properties of one kind, in their original order.
pub open spec fn props_of_kind(ps: Seq<PropV>, k: PropKind) -> Seq<PropV>
    decreases ps.len(),
{
    if ps.len() == 0 {
        Seq::empty()
    } else {
        let rest = props_of_kind(ps.drop_last(), k);
        if ps.last().kind == k {
            rest.push(ps.last())
        } else {
            rest
        }
    }
}

/// The significant-field fingerprint of a component: its significant
/// properties listed in ascending property-code order. Two components
/// agree on every significant field exactly when their fingerprints are
/// equal; the canonical order makes the comparison stable.
pub open spec fn fingerprint_v(ps: Seq<PropV>) -> Seq<PropV> {
    props_of_kind(ps, PropKind::DtStart) + props_of_kind(ps, PropKind::DtEnd) + props_of_kind(
        ps,
        PropKind::Duration,
    ) + props_of_kind(ps, PropKind::RRule) + props_of_kind(ps, PropKind::ExDate) + props_of_kind(
        ps,
        PropKind::RDate,
    ) + props_of_kind(ps, PropKind::Summary) + props_of_kind(ps, PropKind::Location)
        + props_of_kind(ps, PropKind::Description) + props_of_kind(ps, PropKind::Resources)
        + props_of_kind(ps, PropKind::Geo) + props_of_kind(ps, PropKind::Priority)
        + props_of_kind(ps, PropKind::Class)
}

pub(crate) fn collect_kind(props: &Vec<Prop>, k: PropKind, out: &mut Vec<Prop>)
    ensures
        props_v(final(out)@) == props_v(old(out)@) + props_of_kind(props_v(props@), k),
{
    let ghost pv = props_v(props@);
    let mut i: usize = 0;
    while i < props.len()
        invariant
            0 <= i <= props@.len(),
            pv == props_v(props@),
            props_v(out@) =~= props_v(old(out)@) + props_of_kind(pv.take(i as int), k),
        decreases props@.len() - i,
    {
        proof {
            assert(pv.take(i + 1 as int).drop_last() =~= pv.take(i as int));
            assert(pv.take(i + 1 as int).last() == pv[i as int]);
            assert(pv[i as int] == props@[i as int].v());
        }
        if props[i].kind == k {
            let p = clone_prop(&props[i]);
            let ghost prev = props_v(out@);
            out.push(p);
            proof {
                assert(props_v(out@) =~= prev.push(p.v()));
                assert(props_of_kind(pv.take(i + 1 as int), k) =~= props_of_kind(
                    pv.take(i as int),
                    k,
                ).push(pv[i as int]));
                assert(props_v(out@) =~= props_v(old(out)@) + props_of_kind(
                    pv.take(i + 1 as int),
                    k,
                ));
            }
        } else {
            proof {
                assert(props_of_kind(pv.take(i + 1 as int), k) =~= props_of_kind(
                    pv.take(i as int),
                    k,
                ));
            }
        }
        i += 1;
    }
    proof {
        assert(pv.take(props@.len() as int) =~= pv);
    }
}

/// Computes the canonical fingerprint of a component's significant
/// properties.
pub fn fingerprint_of(props: &Vec<Prop>) -> (r: Vec<Prop>)
    ensures
        props_v(r@) == fingerprint_v(props_v(props@)),
{
    let mut out: Vec<Prop> = Vec::new();
    collect_kind(props, PropKind::DtStart, &mut out);
    collect_kind(props, PropKind::DtEnd, &mut out);
    collect_kind(props, PropKind::Duration, &mut out);
    collect_kind(props, PropKind::RRule, &mut out);
    collect_kind(props, PropKind::ExDate, &mut out);
    collect_kind(props, PropKind::RDate, &mut out);
    collect_kind(props, PropKind::Summary, &mut out);
    collect_kind(props, PropKind::Location, &mut out);
    collect_kind(props, PropKind::Description, &mut out);
    collect_kind(props, PropKind::Resources, &mut out);
    collect_kind(props, PropKind::Geo, &mut out);
    collect_kind(props, PropKind::Priority, &mut out);
    collect_kind(props, PropKind::Class, &mut out);
    proof {
        assert(props_v(out@) =~= fingerprint_v(props_v(props@)));
    }
    out
}

// ---------------------------------------------------------------------
// Participants
// ---------------------------------------------------------------------

/// The participant an ATTENDEE line denotes, for the given identity list.
pub open spec fn participant_of(a: AttendeeV, ids: Seq<Seq<char>>) -> ParticipantV {
    ParticipantV {
        email: EmailV {
            email: normalize_addr(a.email),
            is_local: is_identity(normalize_addr(a.email), ids),
        },
        partstat: a.partstat,
        rsvp: a.rsvp,
        schedule_agent: a.schedule_agent,
        non_participant: a.non_participant,
    }
}

/// Whether a participant list already holds the address.
pub open spec fn contains_addr(ps: Seq<ParticipantV>, addr: Seq<char>) -> bool {
    exists|i: int| 0 <= i < ps.len() && ps[i].email.email == addr
}

/// The participants of a component: attendees normalized, duplicates by
/// address skipped, first occurrence kept.
pub open spec fn dedup_attendees(ats: Seq<AttendeeV>, ids: Seq<Seq<char>>) -> Seq<ParticipantV>
    decreases ats.len(),
{
    if ats.len() == 0 {
        Seq::empty()
    } else {
        let pre = dedup_attendees(ats.drop_last(), ids);
        let p = participant_of(ats.last(), ids);
        if contains_addr(pre, p.email.email) {
            pre
        } else {
            pre.push(p)
        }
    }
}

/// Exec twin of [`contains_addr`].
pub fn participants_contain(ps: &Vec<Participant>, addr: &String) -> (r: bool)
    ensures
        r == contains_addr(participants_v(ps@), addr@),
{
    let mut i: usize = 0;
    while i < ps.len()
        invariant
            0 <= i <= ps@.len(),
            forall|j: int| 0 <= j < i ==> participants_v(ps@)[j].email.email != addr@,
        decreases ps@.len() - i,
    {
        if ps[i].email.email.eq(addr) {
            proof {
                assert(participants_v(ps@)[i as int].email.email == addr@);
            }
            return true;
        }
        proof {
            assert(participants_v(ps@)[i as int] == ps@[i as int].v());
        }
        i += 1;
    }
    false
}

/// Builds the deduplicated participant list of one component.
pub fn build_participants(ats: &Vec<Attendee>, ids: &Vec<String>) -> (r: Vec<Participant>)
    ensures
        participants_v(r@) == dedup_attendees(attendees_v(ats@), ids_view(ids@)),
{
    let ghost av = attendees_v(ats@);
    let ghost idv = ids_view(ids@);
    let mut out: Vec<Participant> = Vec::new();
    let mut i: usize = 0;
    while i < ats.len()
        invariant
            0 <= i <= ats@.len(),
            av == attendees_v(ats@),
            idv == ids_view(ids@),
            participants_v(out@) =~= dedup_attendees(av.take(i as int), idv),
        decreases ats@.len() - i,
    {
        proof {
            assert(av.take(i + 1 as int).drop_last() =~= av.take(i as int));
            assert(av.take(i + 1 as int).last() == av[i as int]);
            assert(av[i as int] == ats@[i as int].v());
        }
        let a = &ats[i];
        let norm = normalize_email(a.email.as_str());
        let local = is_local_addr(&norm, ids);
        let p = Participant {
            email: Email { email: norm, is_local: local },
            partstat: a.partstat,
            rsvp: a.rsvp,
            schedule_agent: a.schedule_agent,
            non_participant: a.non_participant,
        };
        proof {
            assert(p.v() =~= participant_of(av[i as int], idv));
        }
        if !participants_contain(&out, &p.email.email) {
            out.push(p);
        }
        proof {
            assert(participants_v(out@) =~= dedup_attendees(av.take(i + 1 as int), idv));
        }
        i += 1;
    }
    proof {
        assert(av.take(ats@.len() as int) =~= av);
    }
    out
}

// ---------------------------------------------------------------------
// Object-level facts
// ---------------------------------------------------------------------

/// A component that can resolve the object's organizer.
pub open spec fn qual_org(c: ComponentV) -> bool {
    is_scheduling_type(c.component_type) && c.organizer is Some
}

/// Index of the first component that resolves the organizer; -1 if none.
pub open spec fn find_org_idx(obj: Seq<ComponentV>) -> int
    decreases obj.len(),
{
    if obj.len() == 0 {
        -1
    } else {
        let pre = find_org_idx(obj.drop_last());
        if pre >= 0 {
            pre
        } else if qual_org(obj.last()) {
            obj.len() - 1
        } else {
            -1
        }
    }
}

pub proof fn lemma_org_idx_none(obj: Seq<ComponentV>)
    requires
        forall|j: int| 0 <= j < obj.len() ==> !qual_org(obj[j]),
    ensures
        find_org_idx(obj) == -1,
    decreases obj.len(),
{
    if obj.len() > 0 {
        lemma_org_idx_none(obj.drop_last());
    }
}

pub proof fn lemma_org_idx_first(obj: Seq<ComponentV>, i: int)
    requires
        0 <= i < obj.len(),
        qual_org(obj[i]),
        forall|j: int| 0 <= j < i ==> !qual_org(obj[j]),
    ensures
        find_org_idx(obj) == i,
    decreases obj.len(),
{
    if i < obj.len() - 1 {
        lemma_org_idx_first(obj.drop_last(), i);
    } else {
        lemma_org_idx_none(obj.drop_last());
    }
}

/// The component the organizer is read from. Meaningful only when
/// `find_org_idx` is non-negative.
pub open spec fn org_comp(obj: Seq<ComponentV>) -> ComponentV {
    obj[find_org_idx(obj)]
}

/// Whether every scheduling component carries the same, present UID.
pub open spec fn uid_ok(obj: Seq<ComponentV>) -> bool {
    forall|i: int|
        0 <= i < obj.len() && is_scheduling_type(#[trigger] obj[i].component_type) ==> obj[i].uid
            is Some && (find_org_idx(obj) >= 0 ==> obj[i].uid == org_comp(obj).uid)
}

/// Whether some scheduling component describes the main instance.
pub open spec fn has_main(obj: Seq<ComponentV>) -> bool {
    exists|i: int|
        0 <= i < obj.len() && is_scheduling_type(#[trigger] obj[i].component_type)
            && obj[i].recurrence_id is None
}

/// Whether any component lists an attendee.
pub open spec fn has_any_attendee(obj: Seq<ComponentV>) -> bool {
    exists|i: int|
        0 <= i < obj.len() && is_scheduling_type(#[trigger] obj[i].component_type)
            && obj[i].attendees.len() > 0
}

/// The object carries no scheduling information the engine could act on.
pub open spec fn no_scheduling_info(obj: Seq<ComponentV>) -> bool {
    find_org_idx(obj) < 0 || !has_main(obj) || !has_any_attendee(obj) || !uid_ok(obj)
}

/// The organizer participant of the object, for the given identities.
pub open spec fn organizer_v(obj: Seq<ComponentV>, ids: Seq<Seq<char>>) -> ParticipantV {
    ParticipantV {
        email: EmailV {
            email: normalize_addr(org_comp(obj).organizer->0),
            is_local: is_identity(normalize_addr(org_comp(obj).organizer->0), ids),
        },
        partstat: None,
        rsvp: None,
        schedule_agent: org_comp(obj).organizer_agent,
        non_participant: false,
    }
}

/// Whether an instance with this id was already collected.
pub open spec fn contains_inst_v(is: Seq<InstanceSnapshotV>, id: InstanceId) -> bool {
    exists|i: int| 0 <= i < is.len() && is[i].instance_id == id
}

/// The instance one component projects to.
pub open spec fn inst_of(c: ComponentV, ids: Seq<Seq<char>>, comp_index: int) -> InstanceSnapshotV {
    InstanceSnapshotV {
        instance_id: instance_id_of(c),
        comp_index,
        component_type: c.component_type,
        sequence: seq_or_zero(c.sequence),
        status: c.status,
        attendees: dedup_attendees(c.attendees, ids),
        fingerprint: fingerprint_v(c.props),
        dtstamp: c.dtstamp,
    }
}

/// The instance list of an object: one entry per scheduling component,
/// the first component with each instance id winning.
pub open spec fn snap_insts(obj: Seq<ComponentV>, ids: Seq<Seq<char>>) -> Seq<InstanceSnapshotV>
    decreases obj.len(),
{
    if obj.len() == 0 {
        Seq::empty()
    } else {
        let pre = snap_insts(obj.drop_last(), ids);
        let c = obj.last();
        if is_scheduling_type(c.component_type) && !contains_inst_v(pre, instance_id_of(c)) {
            pre.push(inst_of(c, ids, obj.len() - 1))
        } else {
            pre
        }
    }
}

/// Instance ids in a snapshot are unique.
pub proof fn lemma_snap_insts_unique(obj: Seq<ComponentV>, ids: Seq<Seq<char>>)
    ensures
        unique_inst_ids(snap_insts(obj, ids)),
    decreases obj.len(),
{
    if obj.len() > 0 {
        lemma_snap_insts_unique(obj.drop_last(), ids);
    }
}

pub open spec fn unique_inst_ids(is: Seq<InstanceSnapshotV>) -> bool {
    forall|i: int, j: int|
        0 <= i < j < is.len() ==> #[trigger] is[i].instance_id != #[trigger] is[j].instance_id
}

/// Whether one instance lists a local attendee.
pub open spec fn inst_has_local(inst: InstanceSnapshotV) -> bool {
    exists|j: int| 0 <= j < inst.attendees.len() && (#[trigger] inst.attendees[j]).email.is_local
}

/// Whether some instance lists a local attendee.
pub open spec fn has_local_attendee(is: Seq<InstanceSnapshotV>) -> bool {
    exists|i: int| 0 <= i < is.len() && inst_has_local(#[trigger] is[i])
}

/// Exec twin of [`inst_has_local`].
pub fn instance_has_local(inst: &InstanceSnapshot) -> (r: bool)
    ensures
        r == inst_has_local(inst.v()),
{
    let mut j: usize = 0;
    while j < inst.attendees.len()
        invariant
            0 <= j <= inst.attendees@.len(),
            forall|b: int|
                0 <= b < j ==> !(#[trigger] participants_v(inst.attendees@)[b]).email.is_local,
        decreases inst.attendees@.len() - j,
    {
        proof {
            assert(participants_v(inst.attendees@)[j as int] == inst.attendees@[j as int].v());
        }
        if inst.attendees[j].email.is_local {
            return true;
        }
        j += 1;
    }
    false
}

/// Whether the snapshot builder accepts the object for the given
/// identities and direction.
pub open spec fn snapshot_accepts(obj: Seq<ComponentV>, ids: Seq<Seq<char>>, as_inbound: bool) -> bool {
    &&& !no_scheduling_info(obj)
    &&& (as_inbound || org_comp(obj).organizer_agent == ScheduleAgent::Server)
    &&& (organizer_v(obj, ids).email.is_local || has_local_attendee(snap_insts(obj, ids)))
}

/// The rejection the snapshot builder reports when it does not accept.
pub open spec fn snapshot_reject(obj: Seq<ComponentV>, ids: Seq<Seq<char>>, as_inbound: bool) -> ItipError {
    if no_scheduling_info(obj) {
        ItipError::NoSchedulingInfo
    } else if !as_inbound && org_comp(obj).organizer_agent != ScheduleAgent::Server {
        ItipError::OtherSchedulingAgent
    } else {
        ItipError::NotOrganizerNorAttendee
    }
}

/// Index of the instance with this id; meaningful only under
/// [`contains_inst_v`] and [`unique_inst_ids`].
pub open spec fn inst_idx(is: Seq<InstanceSnapshotV>, id: InstanceId) -> int {
    choose|i: int| 0 <= i < is.len() && is[i].instance_id == id
}

/// The instance with this id, if any.
pub open spec fn find_inst(is: Seq<InstanceSnapshotV>, id: InstanceId) -> Option<
    InstanceSnapshotV,
> {
    if contains_inst_v(is, id) {
        Some(is[inst_idx(is, id)])
    } else {
        None
    }
}

/// SEQUENCE of the main instance; 0 when there is none.
pub open spec fn main_seq(is: Seq<InstanceSnapshotV>) -> i64 {
    match find_inst(is, InstanceId::Main) {
        Some(inst) => inst.sequence,
        None => 0,
    }
}

/// Every instance SEQUENCE leaves room for one bump.
pub open spec fn seqs_bounded(is: Seq<InstanceSnapshotV>) -> bool {
    forall|i: int| 0 <= i < is.len() ==> (#[trigger] is[i]).sequence < i64::MAX
}

/// Every component SEQUENCE of the object leaves room for one bump: a
/// machine limit the mutating operations ask of their callers.
pub open spec fn obj_seqs_bounded(obj: Seq<ComponentV>) -> bool {
    forall|i: int| 0 <= i < obj.len() ==> seq_or_zero((#[trigger] obj[i]).sequence) < i64::MAX
}

/// Bounded component sequences carry over to the snapshot's instances.
pub proof fn lemma_insts_bounded(obj: Seq<ComponentV>, ids: Seq<Seq<char>>)
    requires
        obj_seqs_bounded(obj),
    ensures
        seqs_bounded(snap_insts(obj, ids)),
    decreases obj.len(),
{
    if obj.len() > 0 {
        assert(obj_seqs_bounded(obj.drop_last())) by {
            assert(forall|i: int| 0 <= i < obj.len() - 1 ==> obj.drop_last()[i] == obj[i]);
        }
        lemma_insts_bounded(obj.drop_last(), ids);
        assert(seq_or_zero(obj.last().sequence) < i64::MAX);
    }
}

/// Exec twin of [`obj_seqs_bounded`], for callers that must test the
/// machine limit before asking for a mutation.
pub fn check_seqs_bounded(ical: &CalendarObject) -> (r: bool)
    ensures
        r == obj_seqs_bounded(ical.v()),
{
    let mut i: usize = 0;
    while i < ical.components.len()
        invariant
            0 <= i <= ical.components@.len(),
            forall|j: int| 0 <= j < i ==> seq_or_zero((#[trigger] ical.v()[j]).sequence) < i64::MAX,
        decreases ical.components@.len() - i,
    {
        proof {
            assert(ical.v()[i as int] == ical.components@[i as int].v());
        }
        let ok = match ical.components[i].sequence {
            Some(s) => s < i64::MAX,
            None => true,
        };
        if !ok {
            return false;
        }
        i += 1;
    }
    true
}

impl Snapshot {
    /// SEQUENCE of the main instance, 0 when there is none.
    pub fn main_sequence(&self) -> (r: i64)
        requires
            unique_inst_ids(insts_v(self.instances@)),
        ensures
            r == main_seq(insts_v(self.instances@)),
    {
        let mut i: usize = 0;
        while i < self.instances.len()
            invariant
                0 <= i <= self.instances@.len(),
                unique_inst_ids(insts_v(self.instances@)),
                forall|j: int|
                    0 <= j < i ==> insts_v(self.instances@)[j].instance_id != InstanceId::Main,
            decreases self.instances@.len() - i,
        {
            proof {
                assert(insts_v(self.instances@)[i as int] == self.instances@[i as int].v());
            }
            if self.instances[i].instance_id == InstanceId::Main {
                proof {
                    let ghost is = insts_v(self.instances@);
                    assert(contains_inst_v(is, InstanceId::Main));
                    let k = inst_idx(is, InstanceId::Main);
                    assert(0 <= k < is.len() && is[k].instance_id == InstanceId::Main);
                    assert(k == i as int);
                }
                return self.instances[i].sequence;
            }
            i += 1;
        }
        proof {
            assert(!contains_inst_v(insts_v(self.instances@), InstanceId::Main));
        }
        0
    }

    /// The significant fields of the main instance, for a summary; empty
    /// when there is none.
    pub fn main_fingerprint(&self) -> (r: Vec<Prop>)
        requires
            unique_inst_ids(insts_v(self.instances@)),
        ensures
            props_v(r@) == main_fp(insts_v(self.instances@)),
    {
        let mut i: usize = 0;
        while i < self.instances.len()
            invariant
                0 <= i <= self.instances@.len(),
                unique_inst_ids(insts_v(self.instances@)),
                forall|j: int|
                    0 <= j < i ==> insts_v(self.instances@)[j].instance_id != InstanceId::Main,
            decreases self.instances@.len() - i,
        {
            proof {
                assert(insts_v(self.instances@)[i as int] == self.instances@[i as int].v());
            }
            if self.instances[i].instance_id == InstanceId::Main {
                proof {
                    let ghost is = insts_v(self.instances@);
                    assert(contains_inst_v(is, InstanceId::Main));
                    let k = inst_idx(is, InstanceId::Main);
                    assert(0 <= k < is.len() && is[k].instance_id == InstanceId::Main);
                    assert(k == i as int);
                }
                return crate::model::clone_props(&self.instances[i].fingerprint);
            }
            i += 1;
        }
        proof {
            assert(!contains_inst_v(insts_v(self.instances@), InstanceId::Main));
        }
        Vec::new()
    }
}

/// Fingerprint of the main instance; empty when there is none.
pub open spec fn main_fp(is: Seq<InstanceSnapshotV>) -> Seq<PropV> {
    match find_inst(is, InstanceId::Main) {
        Some(inst) => inst.fingerprint,
        None => Seq::empty(),
    }
}

// ---------------------------------------------------------------------
// The builder
// ---------------------------------------------------------------------

/// Exec twin of [`contains_inst_v`].
pub fn instances_contain(is: &Vec<InstanceSnapshot>, id: InstanceId) -> (r: bool)
    ensures
        r == contains_inst_v(insts_v(is@), id),
{
    let mut i: usize = 0;
    while i < is.len()
        invariant
            0 <= i <= is@.len(),
            forall|j: int| 0 <= j < i ==> insts_v(is@)[j].instance_id != id,
        decreases is@.len() - i,
    {
        proof {
            assert(insts_v(is@)[i as int] == is@[i as int].v());
        }
        if is[i].instance_id == id {
            return true;
        }
        i += 1;
    }
    false
}

fn build_instance(c: &Component, idx: usize, ids: &Vec<String>) -> (r: InstanceSnapshot)
    ensures
        r.v() == inst_of(c.v(), ids_view(ids@), idx as int),
{
    let r = InstanceSnapshot {
        instance_id: match c.recurrence_id {
            Some(t) => InstanceId::Recurrence(t),
            None => InstanceId::Main,
        },
        comp_index: idx,
        component_type: c.component_type,
        sequence: match c.sequence {
            Some(v) => v,
            None => 0,
        },
        status: c.status,
        attendees: build_participants(&c.attendees, ids),
        fingerprint: fingerprint_of(&c.props),
        dtstamp: c.dtstamp,
    };
    proof {
        assert(r.v() =~= inst_of(c.v(), ids_view(ids@), idx as int));
    }
    r
}

/// Builds the snapshot of a parsed calendar object, or rejects it.
///
/// The builder rejects with `NoSchedulingInfo` when no component resolves
/// an organizer, no component lists an attendee, there is no main
/// instance, or the scheduling components disagree on the UID; with
/// `OtherSchedulingAgent` when, for an outbound operation, the organizer
/// line names a scheduling agent other than the server; and with
/// `NotOrganizerNorAttendee` when no local identity is the organizer or
/// an attendee.
pub fn itip_snapshot(ical: &CalendarObject, account_emails: &Vec<String>, as_inbound: bool) -> (r:
    Result<Snapshot, ItipError>)
    ensures
        r is Ok <==> snapshot_accepts(ical.v(), ids_view(account_emails@), as_inbound),
        r is Err ==> r->Err_0 == snapshot_reject(ical.v(), ids_view(account_emails@), as_inbound),
        r is Ok ==> {
            let s = r->Ok_0;
            &&& s.uid@ == org_comp(ical.v()).uid->0
            &&& s.organizer.v() == organizer_v(ical.v(), ids_view(account_emails@))
            &&& insts_v(s.instances@) == snap_insts(ical.v(), ids_view(account_emails@))
        },
{
    let ghost obj = ical.v();
    let ghost idv = ids_view(account_emails@);

    // Resolve the organizer.
    let n = ical.components.len();
    let mut org_idx: usize = 0;
    let mut org_found = false;
    let mut i: usize = 0;
    while i < n
        invariant
            0 <= i <= n,
            n == ical.components@.len(),
            obj == ical.v(),
            !org_found ==> forall|j: int| 0 <= j < i ==> !qual_org(obj[j]),
            org_found ==> 0 <= org_idx < i && qual_org(obj[org_idx as int]) && forall|j: int|
                0 <= j < org_idx ==> !qual_org(obj[j]),
        decreases n - i,
    {
        proof {
            assert(obj[i as int] == ical.components@[i as int].v());
        }
        if !org_found {
            let c = &ical.components[i];
            if is_scheduling_type_exec(c.component_type) && c.organizer.is_some() {
                org_idx = i;
                org_found = true;
            }
        }
        i += 1;
    }
    proof {
        if org_found {
            lemma_org_idx_first(obj, org_idx as int);
        } else {
            lemma_org_idx_none(obj);
        }
    }
    if !org_found {
        return Err(ItipError::NoSchedulingInfo);
    }

    // The organizer component's UID is the object's UID; every scheduling
    // component must carry it.
    let org_uid = match &ical.components[org_idx].uid {
        Some(u) => u.clone(),
        None => {
            return Err(ItipError::NoSchedulingInfo);
        },
    };
    proof {
        assert(obj[org_idx as int] == ical.components@[org_idx as int].v());
        assert(org_comp(obj).uid == Some(org_uid@));
    }
    let mut uid_consistent = true;
    let mut saw_main = false;
    let mut saw_attendee = false;
    let mut i: usize = 0;
    while i < n
        invariant
            0 <= i <= n,
            n == ical.components@.len(),
            obj == ical.v(),
            find_org_idx(obj) == org_idx as int,
            org_comp(obj).uid == Some(org_uid@),
            uid_consistent <==> forall|j: int|
                0 <= j < i && is_scheduling_type(#[trigger] obj[j].component_type) ==> obj[j].uid
                    is Some && obj[j].uid == org_comp(obj).uid,
            saw_main <==> exists|j: int|
                0 <= j < i && is_scheduling_type(#[trigger] obj[j].component_type)
                    && obj[j].recurrence_id is None,
            saw_attendee <==> exists|j: int|
                0 <= j < i && is_scheduling_type(#[trigger] obj[j].component_type)
                    && obj[j].attendees.len() > 0,
        decreases n - i,
    {
        proof {
            assert(obj[i as int] == ical.components@[i as int].v());
        }
        let c = &ical.components[i];
        if is_scheduling_type_exec(c.component_type) {
            match &c.uid {
                Some(u) => {
                    if !u.eq(&org_uid) {
                        uid_consistent = false;
                    }
                },
                None => {
                    uid_consistent = false;
                },
            }
            if c.recurrence_id.is_none() {
                saw_main = true;
            }
            if c.attendees.len() > 0 {
                saw_attendee = true;
            }
        }
        i += 1;
    }
    if !uid_consistent || !saw_main || !saw_attendee {
        proof {
            assert(no_scheduling_info(obj));
        }
        return Err(ItipError::NoSchedulingInfo);
    }
    proof {
        assert(uid_ok(obj));
        assert(!no_scheduling_info(obj));
    }

    // Scheduling-agent gate for outbound operations.
    let org_agent = ical.components[org_idx].organizer_agent;
    if !as_inbound && !(org_agent == ScheduleAgent::Server) {
        return Err(ItipError::OtherSchedulingAgent);
    }

    // The organizer participant.
    let org_raw = match &ical.components[org_idx].organizer {
        Some(o) => o.clone(),
        None => {
            proof {
                assert(false);
            }
            return Err(ItipError::Malformed);
        },
    };
    let org_norm = normalize_email(org_raw.as_str());
    let org_local = is_local_addr(&org_norm, account_emails);
    let organizer = Participant {
        email: Email { email: org_norm, is_local: org_local },
        partstat: None,
        rsvp: None,
        schedule_agent: org_agent,
        non_participant: false,
    };
    proof {
        assert(organizer.v() =~= organizer_v(obj, idv));
    }

    // Collect the instances.
    let mut instances: Vec<InstanceSnapshot> = Vec::new();
    let mut i: usize = 0;
    while i < n
        invariant
            0 <= i <= n,
            n == ical.components@.len(),
            obj == ical.v(),
            idv == ids_view(account_emails@),
            insts_v(instances@) =~= snap_insts(obj.take(i as int), idv),
        decreases n - i,
    {
        proof {
            assert(obj.take(i + 1 as int).drop_last() =~= obj.take(i as int));
            assert(obj.take(i + 1 as int).last() == obj[i as int]);
            assert(obj[i as int] == ical.components@[i as int].v());
        }
        let c = &ical.components[i];
        if is_scheduling_type_exec(c.component_type) {
            let id = match c.recurrence_id {
                Some(t) => InstanceId::Recurrence(t),
                None => InstanceId::Main,
            };
            if !instances_contain(&instances, id) {
                let inst = build_instance(c, i, account_emails);
                instances.push(inst);
            }
        }
        proof {
            assert(insts_v(instances@) =~= snap_insts(obj.take(i + 1 as int), idv));
        }
        i += 1;
    }
    proof {
        assert(obj.take(n as int) =~= obj);
    }

    // Role: organizer, else at least one local attendee.
    if !organizer.email.is_local {
        let mut found_local = false;
        let mut i: usize = 0;
        while i < instances.len()
            invariant
                0 <= i <= instances@.len(),
                found_local ==> has_local_attendee(insts_v(instances@)),
                !found_local ==> forall|a: int|
                    0 <= a < i ==> !inst_has_local(#[trigger] insts_v(instances@)[a]),
            decreases instances@.len() - i,
        {
            proof {
                assert(insts_v(instances@)[i as int] == instances@[i as int].v());
            }
            if instance_has_local(&instances[i]) {
                found_local = true;
                proof {
                    assert(inst_has_local(insts_v(instances@)[i as int]));
                }
            }
            i += 1;
        }
        if !found_local {
            proof {
                assert(!has_local_attendee(insts_v(instances@)));
            }
            return Err(ItipError::NotOrganizerNorAttendee);
        }
    }

    Ok(Snapshot { uid: org_uid, organizer, instances })
}

} // verus!
