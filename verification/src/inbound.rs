//! The inbound processor: applies a received scheduling message to the
//! stored object.

use vstd::prelude::*;
use crate::model::{
    CalendarObject, Component, ComponentV, InstanceId, Method, Status, clone_component,
    clone_object, instance_id_of, is_scheduling_type, is_scheduling_type_exec, seq_or_zero,
};
use crate::snapshot::{
    InstanceSnapshot, InstanceSnapshotV, Snapshot, find_inst, insts_v, itip_snapshot,
    lemma_snap_insts_unique, participants_v, snap_insts, snapshot_accepts, snapshot_reject,
    unique_inst_ids,
};
use crate::email::ids_view;
use crate::error::ItipError;
use crate::diff::find_instance;

verus! {

/// What an inbound message did to the stored object.
pub enum InboundAction {
    /// Nothing changed (duplicate, out of date, or nothing to do).
    Unchanged,
    /// Store this object in place of the old one.
    Store(CalendarObject),
    /// Remove the stored object: the whole event was cancelled.
    Remove,
    /// Answer by re-sending the latest REQUEST to the sender.
    Resend,
}

/// The METHOD of the first envelope component that carries one.
pub open spec fn env_method(obj: Seq<ComponentV>) -> Option<Method>
    decreases obj.len(),
{
    if obj.len() == 0 {
        None
    } else {
        let pre = env_method(obj.drop_last());
        if pre is Some {
            pre
        } else {
            obj.last().method
        }
    }
}

proof fn lemma_env_method_none(obj: Seq<ComponentV>)
    requires
        forall|j: int| 0 <= j < obj.len() ==> (#[trigger] obj[j]).method is None,
    ensures
        env_method(obj) is None,
    decreases obj.len(),
{
    if obj.len() > 0 {
        lemma_env_method_none(obj.drop_last());
    }
}

proof fn lemma_env_method_first(obj: Seq<ComponentV>, i: int)
    requires
        0 <= i < obj.len(),
        obj[i].method is Some,
        forall|j: int| 0 <= j < i ==> (#[trigger] obj[j]).method is None,
    ensures
        env_method(obj) == obj[i].method,
    decreases obj.len(),
{
    if i < obj.len() - 1 {
        lemma_env_method_first(obj.drop_last(), i);
    } else {
        lemma_env_method_none(obj.drop_last());
    }
}

fn read_method(incoming: &CalendarObject) -> (r: Option<Method>)
    ensures
        r == env_method(incoming.v()),
{
    let mut i: usize = 0;
    while i < incoming.components.len()
        invariant
            0 <= i <= incoming.components@.len(),
            forall|j: int| 0 <= j < i ==> (#[trigger] incoming.v()[j]).method is None,
        decreases incoming.components@.len() - i,
    {
        proof {
            assert(incoming.v()[i as int] == incoming.components@[i as int].v());
        }
        match incoming.components[i].method {
            Some(m) => {
                proof {
                    lemma_env_method_first(incoming.v(), i as int);
                }
                return Some(m);
            },
            None => {},
        }
        i += 1;
    }
    proof {
        lemma_env_method_none(incoming.v());
    }
    None
}

/// Whether the stored object has a scheduling component for this
/// instance.
pub open spec fn known_to(st_obj: Seq<ComponentV>, id: InstanceId) -> bool {
    exists|i: int|
        0 <= i < st_obj.len() && is_scheduling_type((#[trigger] st_obj[i]).component_type)
            && instance_id_of(st_obj[i]) == id
}

/// The components an inbound REQUEST appends: the arriving components of
/// every instance the stored object does not know yet, in arrival order.
pub open spec fn appended_comps(
    inc_is: Seq<InstanceSnapshotV>,
    st_obj: Seq<ComponentV>,
    inc_obj: Seq<ComponentV>,
) -> Seq<ComponentV>
    decreases inc_is.len(),
{
    if inc_is.len() == 0 {
        Seq::empty()
    } else {
        let pre = appended_comps(inc_is.drop_last(), st_obj, inc_obj);
        let n = inc_is.last();
        if !known_to(st_obj, n.instance_id) && 0 <= n.comp_index < inc_obj.len() {
            pre.push(inc_obj[n.comp_index])
        } else {
            pre
        }
    }
}

/// What an inbound REQUEST does to one stored component: a scheduling
/// component whose instance also arrives with an equal or newer SEQUENCE
/// is replaced by the arriving one; everything else stays.
pub open spec fn merge_comp(
    c: ComponentV,
    inc_is: Seq<InstanceSnapshotV>,
    inc_obj: Seq<ComponentV>,
) -> ComponentV {
    if is_scheduling_type(c.component_type) && find_inst(inc_is, instance_id_of(c)) is Some && {
        let n = find_inst(inc_is, instance_id_of(c))->0;
        n.sequence >= seq_or_zero(c.sequence) && 0 <= n.comp_index < inc_obj.len()
    } {
        inc_obj[find_inst(inc_is, instance_id_of(c))->0.comp_index]
    } else {
        c
    }
}

fn merge_stored(incoming: &CalendarObject, st: &CalendarObject, snap_in: &Snapshot) -> (r:
    CalendarObject)
    requires
        unique_inst_ids(insts_v(snap_in.instances@)),
    ensures
        r.v() == st.v().map_values(
            |c: ComponentV| merge_comp(c, insts_v(snap_in.instances@), incoming.v()),
        ) + appended_comps(insts_v(snap_in.instances@), st.v(), incoming.v()),
{
    let ghost inc_is = insts_v(snap_in.instances@);
    let ghost stv = st.v();
    let ghost target = stv.map_values(|c: ComponentV| merge_comp(c, inc_is, incoming.v()));
    let mut out: Vec<Component> = Vec::new();
    let mut i: usize = 0;
    while i < st.components.len()
        invariant
            0 <= i <= st.components@.len(),
            stv == st.v(),
            inc_is == insts_v(snap_in.instances@),
            unique_inst_ids(inc_is),
            target == stv.map_values(|c: ComponentV| merge_comp(c, inc_is, incoming.v())),
            out@.map_values(|c: Component| c.v()) =~= target.subrange(0, i as int),
        decreases st.components@.len() - i,
    {
        proof {
            assert(stv[i as int] == st.components@[i as int].v());
        }
        let c = &st.components[i];
        let mut nc = clone_component(c);
        if is_scheduling_type_exec(c.component_type) {
            let id = match c.recurrence_id {
                Some(t) => InstanceId::Recurrence(t),
                None => InstanceId::Main,
            };
            let cur_seq = match c.sequence {
                Some(s) => s,
                None => 0,
            };
            match find_instance(&snap_in.instances, id) {
                Some(n) => {
                    if n.sequence >= cur_seq && n.comp_index < incoming.components.len() {
                        proof {
                            assert(incoming.v()[n.comp_index as int]
                                == incoming.components@[n.comp_index as int].v());
                        }
                        nc = clone_component(&incoming.components[n.comp_index]);
                    }
                },
                None => {},
            }
        }
        proof {
            assert(nc.v() == target[i as int]);
        }
        let ghost prev = out@.map_values(|c: Component| c.v());
        out.push(nc);
        proof {
            assert(out@.map_values(|c: Component| c.v()) =~= prev.push(nc.v()));
            assert(out@.map_values(|c: Component| c.v()) =~= target.subrange(0, i + 1 as int));
        }
        i += 1;
    }
    proof {
        assert(target.subrange(0, stv.len() as int) =~= target);
        assert(out@.map_values(|c: Component| c.v()) == target);
    }

    // Instances the stored object does not know yet are appended.
    let ghost applen = stv.len();
    let mut i: usize = 0;
    proof {
        assert(inc_is.take(0).len() == 0);
        assert(out@.map_values(|c: Component| c.v()) =~= target + appended_comps(
            inc_is.take(0),
            stv,
            incoming.v(),
        ));
    }
    while i < snap_in.instances.len()
        invariant
            0 <= i <= snap_in.instances@.len(),
            inc_is == insts_v(snap_in.instances@),
            stv == st.v(),
            target.len() == applen,
            out@.map_values(|c: Component| c.v()) =~= target + appended_comps(
                inc_is.take(i as int),
                stv,
                incoming.v(),
            ),
        decreases snap_in.instances@.len() - i,
    {
        proof {
            assert(inc_is.take(i + 1 as int).drop_last() =~= inc_is.take(i as int));
            assert(inc_is.take(i + 1 as int).last() == inc_is[i as int]);
            assert(inc_is[i as int] == snap_in.instances@[i as int].v());
        }
        let n = &snap_in.instances[i];
        let known = find_instance_in_object(st, n.instance_id);
        if !known && n.comp_index < incoming.components.len() {
            proof {
                assert(incoming.v()[n.comp_index as int] == incoming.components@[n.comp_index as int].v());
            }
            let cc = clone_component(&incoming.components[n.comp_index]);
            let ghost prev = out@.map_values(|c: Component| c.v());
            out.push(cc);
            proof {
                assert(out@.map_values(|c: Component| c.v()) =~= prev.push(cc.v()));
            }
        }
        proof {
            assert(out@.map_values(|c: Component| c.v()) =~= target + appended_comps(
                inc_is.take(i + 1 as int),
                stv,
                incoming.v(),
            ));
        }
        i += 1;
    }
    proof {
        assert(inc_is.take(snap_in.instances@.len() as int) =~= inc_is);
    }
    let ghost outv = out@;
    let r = CalendarObject { components: out };
    proof {
        assert(r.components@ == outv);
        assert(r.v() =~= target + appended_comps(inc_is, stv, incoming.v()));
    }
    r
}

/// Exec twin of [`known_to`].
fn find_instance_in_object(st: &CalendarObject, id: InstanceId) -> (r: bool)
    ensures
        r == known_to(st.v(), id),
{
    let mut i: usize = 0;
    while i < st.components.len()
        invariant
            0 <= i <= st.components@.len(),
            forall|j: int|
                0 <= j < i ==> !(is_scheduling_type((#[trigger] st.v()[j]).component_type)
                    && instance_id_of(st.v()[j]) == id),
        decreases st.components@.len() - i,
    {
        proof {
            assert(st.v()[i as int] == st.components@[i as int].v());
        }
        let c = &st.components[i];
        if is_scheduling_type_exec(c.component_type) {
            let cid = match c.recurrence_id {
                Some(t) => InstanceId::Recurrence(t),
                None => InstanceId::Main,
            };
            if cid == id {
                return true;
            }
        }
        i += 1;
    }
    false
}

/// Applies an inbound scheduling message to the stored object.
///
/// A REQUEST creates the object or overwrites the instances whose
/// arriving SEQUENCE is not older; a CANCEL removes the object or marks
/// arriving instances cancelled; a REPLY updates attendee participation
/// and nothing else; a REFRESH asks the caller to re-send the latest
/// REQUEST; COUNTER and DECLINECOUNTER mutate nothing here. Out-of-date
/// revisions are dropped silently.
#[verifier::rlimit(100)]
pub fn process_inbound(
    incoming: &CalendarObject,
    stored: Option<&CalendarObject>,
    account_emails: &Vec<String>,
) -> (r: Result<InboundAction, ItipError>)
    ensures
        env_method(incoming.v()) is None ==> r is Err && r->Err_0 == ItipError::UnsupportedMethod,
        (env_method(incoming.v()) is Some && !snapshot_accepts(
            incoming.v(),
            ids_view(account_emails@),
            true,
        )) ==> r is Err && r->Err_0 == snapshot_reject(incoming.v(), ids_view(account_emails@), true),
        (env_method(incoming.v()) == Some(Method::Request) && snapshot_accepts(
            incoming.v(),
            ids_view(account_emails@),
            true,
        ) && stored is None) ==> r is Ok && (r->Ok_0 matches InboundAction::Store(o) && o.v()
            == incoming.v()),
        (env_method(incoming.v()) == Some(Method::Reply) && snapshot_accepts(
            incoming.v(),
            ids_view(account_emails@),
            true,
        ) && stored is Some && snapshot_accepts(stored->0.v(), ids_view(account_emails@), true)
            && crate::snapshot::org_comp(stored->0.v()).uid->0 == crate::snapshot::org_comp(
            incoming.v(),
        ).uid->0 && crate::snapshot::organizer_v(stored->0.v(), ids_view(account_emails@)).email.email
            == crate::snapshot::organizer_v(incoming.v(), ids_view(account_emails@)).email.email)
            ==> r is Ok && (r->Ok_0 matches InboundAction::Store(o) && o.v()
            == stored->0.v().map_values(
            |c: ComponentV| reply_merge_comp(c, snap_insts(incoming.v(), ids_view(account_emails@))),
        )),
        (env_method(incoming.v()) == Some(Method::Refresh) && snapshot_accepts(
            incoming.v(),
            ids_view(account_emails@),
            true,
        )) ==> r is Ok && r->Ok_0 is Resend,
        ((env_method(incoming.v()) == Some(Method::Counter) || env_method(incoming.v()) == Some(
            Method::DeclineCounter,
        ) || env_method(incoming.v()) == Some(Method::Add)) && snapshot_accepts(
            incoming.v(),
            ids_view(account_emails@),
            true,
        ) && stored is None) ==> r is Ok && r->Ok_0 is Unchanged,
        (env_method(incoming.v()) == Some(Method::Request) && snapshot_accepts(
            incoming.v(),
            ids_view(account_emails@),
            true,
        ) && stored is Some && snapshot_accepts(stored->0.v(), ids_view(account_emails@), true))
            ==> ({
            let idv = ids_view(account_emails@);
            let st = stored->0;
            &&& crate::snapshot::org_comp(st.v()).uid->0 != crate::snapshot::org_comp(
                incoming.v(),
            ).uid->0 ==> r is Err && r->Err_0 == ItipError::UidMismatch
            &&& (crate::snapshot::org_comp(st.v()).uid->0 == crate::snapshot::org_comp(
                incoming.v(),
            ).uid->0 && crate::snapshot::organizer_v(st.v(), idv).email.email
                != crate::snapshot::organizer_v(incoming.v(), idv).email.email) ==> r is Err
                && r->Err_0 == ItipError::OrganizerMismatch
            &&& (crate::snapshot::org_comp(st.v()).uid->0 == crate::snapshot::org_comp(
                incoming.v(),
            ).uid->0 && crate::snapshot::organizer_v(st.v(), idv).email.email
                == crate::snapshot::organizer_v(incoming.v(), idv).email.email) ==> r is Ok && (
            r->Ok_0 matches InboundAction::Store(o) && o.v() == st.v().map_values(
                |c: ComponentV| merge_comp(c, snap_insts(incoming.v(), idv), incoming.v()),
            ) + appended_comps(snap_insts(incoming.v(), idv), st.v(), incoming.v()))
        }),
        (env_method(incoming.v()) == Some(Method::Cancel) && snapshot_accepts(
            incoming.v(),
            ids_view(account_emails@),
            true,
        ) && stored is Some && snapshot_accepts(stored->0.v(), ids_view(account_emails@), true)
            && crate::snapshot::org_comp(stored->0.v()).uid->0 == crate::snapshot::org_comp(
            incoming.v(),
        ).uid->0 && crate::snapshot::organizer_v(stored->0.v(), ids_view(account_emails@)).email.email
            == crate::snapshot::organizer_v(incoming.v(), ids_view(account_emails@)).email.email)
            ==> ({
            let idv = ids_view(account_emails@);
            let st = stored->0;
            &&& r is Ok
            &&& (crate::snapshot::contains_inst_v(snap_insts(incoming.v(), idv), InstanceId::Main)
                && find_inst(snap_insts(incoming.v(), idv), InstanceId::Main)->0.sequence
                >= crate::snapshot::main_seq(snap_insts(st.v(), idv))) ==> r->Ok_0 is Remove
            &&& (crate::snapshot::contains_inst_v(snap_insts(incoming.v(), idv), InstanceId::Main)
                && find_inst(snap_insts(incoming.v(), idv), InstanceId::Main)->0.sequence
                < crate::snapshot::main_seq(snap_insts(st.v(), idv))) ==> r->Ok_0 is Unchanged
            &&& !crate::snapshot::contains_inst_v(
                snap_insts(incoming.v(), idv),
                InstanceId::Main,
            ) ==> (r->Ok_0 matches InboundAction::Store(o) && o.v() == st.v().map_values(
                |c: ComponentV| cancel_mark_comp(c, snap_insts(incoming.v(), idv)),
            ))
        }),
{
    let method = match read_method(incoming) {
        Some(m) => m,
        None => {
            return Err(ItipError::UnsupportedMethod);
        },
    };
    let snap_in = match itip_snapshot(incoming, account_emails, true) {
        Ok(s) => s,
        Err(e) => {
            return Err(e);
        },
    };
    let ghost idv = ids_view(account_emails@);
    proof {
        lemma_snap_insts_unique(incoming.v(), idv);
    }
    match method {
        Method::Request => {
            match stored {
                None => Ok(InboundAction::Store(clone_object(incoming))),
                Some(st) => {
                    let snap_st = match itip_snapshot(st, account_emails, true) {
                        Ok(s) => s,
                        Err(e) => {
                            return Err(e);
                        },
                    };
                    if !snap_st.uid.eq(&snap_in.uid) {
                        return Err(ItipError::UidMismatch);
                    }
                    if !snap_st.organizer.email.email.eq(&snap_in.organizer.email.email) {
                        return Err(ItipError::OrganizerMismatch);
                    }
                    let merged = merge_stored(incoming, st, &snap_in);
                    Ok(InboundAction::Store(merged))
                },
            }
        },
        Method::Cancel => {
            match stored {
                None => Ok(InboundAction::Unchanged),
                Some(st) => {
                    let snap_st = match itip_snapshot(st, account_emails, true) {
                        Ok(s) => s,
                        Err(e) => {
                            return Err(e);
                        },
                    };
                    if !snap_st.uid.eq(&snap_in.uid) {
                        return Err(ItipError::UidMismatch);
                    }
                    if !snap_st.organizer.email.email.eq(&snap_in.organizer.email.email) {
                        return Err(ItipError::OrganizerMismatch);
                    }
                    // A cancel naming the main instance removes the whole
                    // object, unless its revision is older than the stored
                    // one: lower-sequence cancels are dropped. One naming
                    // only overrides marks them cancelled where the
                    // arriving revision is not older.
                    proof {
                        lemma_snap_insts_unique(st.v(), ids_view(account_emails@));
                    }
                    match find_instance(&snap_in.instances, InstanceId::Main) {
                        Some(inc_main) => {
                            if inc_main.sequence >= snap_st.main_sequence() {
                                Ok(InboundAction::Remove)
                            } else {
                                Ok(InboundAction::Unchanged)
                            }
                        },
                        None => {
                            let marked = mark_cancelled(st, &snap_in);
                            Ok(InboundAction::Store(marked))
                        },
                    }
                },
            }
        },
        Method::Reply => {
            match stored {
                None => Ok(InboundAction::Unchanged),
                Some(st) => {
                    let snap_st = match itip_snapshot(st, account_emails, true) {
                        Ok(s) => s,
                        Err(e) => {
                            return Err(e);
                        },
                    };
                    if !snap_st.uid.eq(&snap_in.uid) {
                        return Err(ItipError::UidMismatch);
                    }
                    if !snap_st.organizer.email.email.eq(&snap_in.organizer.email.email) {
                        return Err(ItipError::OrganizerMismatch);
                    }
                    let updated = apply_reply(st, &snap_in);
                    Ok(InboundAction::Store(updated))
                },
            }
        },
        Method::Add => {
            match stored {
                None => Ok(InboundAction::Unchanged),
                Some(st) => {
                    // Appending an override with an older revision than a
                    // stored one is out of date.
                    let mut i: usize = 0;
                    let mut stale = false;
                    while i < snap_in.instances.len()
                        invariant
                            0 <= i <= snap_in.instances@.len(),
                        decreases snap_in.instances@.len() - i,
                    {
                        let n = &snap_in.instances[i];
                        if object_instance_seq_above(st, n.instance_id, n.sequence) {
                            stale = true;
                        }
                        i += 1;
                    }
                    if stale {
                        return Err(ItipError::SequenceOutOfDate);
                    }
                    let merged = merge_stored(incoming, st, &snap_in);
                    Ok(InboundAction::Store(merged))
                },
            }
        },
        Method::Refresh => Ok(InboundAction::Resend),
        Method::Counter => Ok(InboundAction::Unchanged),
        Method::DeclineCounter => Ok(InboundAction::Unchanged),
    }
}

/// Whether the stored object has a component for the instance with a
/// strictly higher SEQUENCE.
fn object_instance_seq_above(st: &CalendarObject, id: InstanceId, seq: i64) -> (r: bool)
    ensures
        r == exists|i: int|
            0 <= i < st.v().len() && is_scheduling_type((#[trigger] st.v()[i]).component_type)
                && instance_id_of(st.v()[i]) == id && seq_or_zero(st.v()[i].sequence) > seq,
{
    let mut i: usize = 0;
    while i < st.components.len()
        invariant
            0 <= i <= st.components@.len(),
            forall|j: int|
                0 <= j < i ==> !(is_scheduling_type((#[trigger] st.v()[j]).component_type)
                    && instance_id_of(st.v()[j]) == id && seq_or_zero(st.v()[j].sequence) > seq),
        decreases st.components@.len() - i,
    {
        proof {
            assert(st.v()[i as int] == st.components@[i as int].v());
        }
        let c = &st.components[i];
        if is_scheduling_type_exec(c.component_type) {
            let cid = match c.recurrence_id {
                Some(t) => InstanceId::Recurrence(t),
                None => InstanceId::Main,
            };
            let cseq = match c.sequence {
                Some(s) => s,
                None => 0,
            };
            if cid == id && cseq > seq {
                return true;
            }
        }
        i += 1;
    }
    false
}

/// What an inbound CANCEL does to one stored component: a scheduling
/// component whose instance arrives with an equal or newer SEQUENCE takes
/// STATUS CANCELLED; everything else stays.
pub open spec fn cancel_mark_comp(c: ComponentV, inc_is: Seq<InstanceSnapshotV>) -> ComponentV {
    if is_scheduling_type(c.component_type) && find_inst(inc_is, instance_id_of(c)) is Some
        && find_inst(inc_is, instance_id_of(c))->0.sequence >= seq_or_zero(c.sequence) {
        ComponentV { status: Some(Status::Cancelled), ..c }
    } else {
        c
    }
}

fn mark_cancelled(st: &CalendarObject, snap_in: &Snapshot) -> (r: CalendarObject)
    requires
        unique_inst_ids(insts_v(snap_in.instances@)),
    ensures
        r.v() == st.v().map_values(
            |c: ComponentV| cancel_mark_comp(c, insts_v(snap_in.instances@)),
        ),
{
    let ghost inc_is = insts_v(snap_in.instances@);
    let ghost stv = st.v();
    let ghost target = stv.map_values(|c: ComponentV| cancel_mark_comp(c, inc_is));
    let mut out: Vec<Component> = Vec::new();
    let mut i: usize = 0;
    while i < st.components.len()
        invariant
            0 <= i <= st.components@.len(),
            stv == st.v(),
            inc_is == insts_v(snap_in.instances@),
            unique_inst_ids(inc_is),
            target == stv.map_values(|c: ComponentV| cancel_mark_comp(c, inc_is)),
            out@.map_values(|c: Component| c.v()) =~= target.subrange(0, i as int),
        decreases st.components@.len() - i,
    {
        proof {
            assert(stv[i as int] == st.components@[i as int].v());
        }
        let c = &st.components[i];
        let mut nc = clone_component(c);
        if is_scheduling_type_exec(c.component_type) {
            let id = match c.recurrence_id {
                Some(t) => InstanceId::Recurrence(t),
                None => InstanceId::Main,
            };
            let cseq = match c.sequence {
                Some(s) => s,
                None => 0,
            };
            match find_instance(&snap_in.instances, id) {
                Some(n) => {
                    if n.sequence >= cseq {
                        nc = Component { status: Some(Status::Cancelled), ..nc };
                    }
                },
                None => {},
            }
        }
        proof {
            assert(nc.v() =~= target[i as int]);
        }
        let ghost prev = out@.map_values(|c: Component| c.v());
        out.push(nc);
        proof {
            assert(out@.map_values(|c: Component| c.v()) =~= prev.push(nc.v()));
            assert(out@.map_values(|c: Component| c.v()) =~= target.subrange(0, i + 1 as int));
        }
        i += 1;
    }
    proof {
        assert(target.subrange(0, stv.len() as int) =~= target);
    }
    CalendarObject { components: out }
}

/// Applies a REPLY: on each stored component whose instance the reply
/// names with a DTSTAMP that is not older, the named attendees'
/// participation is updated; significant fields are never touched.
/// Whether the arriving instance's revision is fresh enough to apply a
/// REPLY to the stored component (DTSTAMP not older).
pub open spec fn reply_fresh(c: ComponentV, n: InstanceSnapshotV) -> bool {
    match (c.dtstamp, n.dtstamp) {
        (Some(a), Some(b)) => b >= a,
        _ => true,
    }
}

/// The PARTSTAT the arriving instance gives this address: that of the
/// last arriving participant with the address, if any.
pub open spec fn find_partstat(ps: Seq<crate::snapshot::ParticipantV>, addr: Seq<char>) -> Option<
    Option<crate::model::PartStat>,
>
    decreases ps.len(),
{
    if ps.len() == 0 {
        None
    } else if ps.last().email.email == addr {
        Some(ps.last().partstat)
    } else {
        find_partstat(ps.drop_last(), addr)
    }
}

/// What a REPLY does to one stored ATTENDEE line: the named attendee
/// takes the arriving PARTSTAT, everyone else is untouched.
pub open spec fn reply_attendee(
    a: crate::model::AttendeeV,
    inc: Seq<crate::snapshot::ParticipantV>,
) -> crate::model::AttendeeV {
    match find_partstat(inc, crate::email::normalize_addr(a.email)) {
        Some(p) => crate::model::AttendeeV { partstat: p, ..a },
        None => a,
    }
}

/// What a REPLY does to one stored component: when the reply names the
/// component's instance with a fresh enough DTSTAMP, the named attendees'
/// participation is updated; everything else, significant fields above
/// all, stays.
pub open spec fn reply_merge_comp(c: ComponentV, inc_is: Seq<InstanceSnapshotV>) -> ComponentV {
    if is_scheduling_type(c.component_type) && find_inst(inc_is, instance_id_of(c)) is Some
        && reply_fresh(c, find_inst(inc_is, instance_id_of(c))->0) {
        ComponentV {
            attendees: c.attendees.map_values(
                |a: crate::model::AttendeeV|
                    reply_attendee(a, find_inst(inc_is, instance_id_of(c))->0.attendees),
            ),
            ..c
        }
    } else {
        c
    }
}

fn apply_reply(st: &CalendarObject, snap_in: &Snapshot) -> (r: CalendarObject)
    requires
        unique_inst_ids(insts_v(snap_in.instances@)),
    ensures
        r.v() == st.v().map_values(
            |c: ComponentV| reply_merge_comp(c, insts_v(snap_in.instances@)),
        ),
{
    let ghost stv = st.v();
    let ghost inc_is = insts_v(snap_in.instances@);
    let ghost target = stv.map_values(|c: ComponentV| reply_merge_comp(c, inc_is));
    let mut out: Vec<Component> = Vec::new();
    let mut i: usize = 0;
    while i < st.components.len()
        invariant
            0 <= i <= st.components@.len(),
            stv == st.v(),
            inc_is == insts_v(snap_in.instances@),
            unique_inst_ids(inc_is),
            target == stv.map_values(|c: ComponentV| reply_merge_comp(c, inc_is)),
            out@.map_values(|c: Component| c.v()) =~= target.subrange(0, i as int),
        decreases st.components@.len() - i,
    {
        proof {
            assert(stv[i as int] == st.components@[i as int].v());
        }
        let c = &st.components[i];
        let mut nc = clone_component(c);
        if is_scheduling_type_exec(c.component_type) {
            let id = match c.recurrence_id {
                Some(t) => InstanceId::Recurrence(t),
                None => InstanceId::Main,
            };
            match find_instance(&snap_in.instances, id) {
                Some(n) => {
                    let fresh = match (c.dtstamp, n.dtstamp) {
                        (Some(a), Some(b)) => b >= a,
                        _ => true,
                    };
                    if fresh {
                        let ats = update_partstats(&c.attendees, n);
                        nc = Component { attendees: ats, ..nc };
                        proof {
                            assert(nc.v().attendees =~= stv[i as int].attendees.map_values(
                                |a: crate::model::AttendeeV|
                                    reply_attendee(
                                        a,
                                        find_inst(inc_is, instance_id_of(stv[i as int]))->0.attendees,
                                    ),
                            ));
                        }
                    }
                },
                None => {},
            }
        }
        proof {
            assert(nc.v() =~= target[i as int]);
        }
        let ghost prev = out@.map_values(|x: Component| x.v());
        out.push(nc);
        proof {
            assert(out@.map_values(|x: Component| x.v()) =~= prev.push(nc.v()));
            assert(out@.map_values(|x: Component| x.v()) =~= target.subrange(0, i + 1 as int));
        }
        i += 1;
    }
    proof {
        assert(target.subrange(0, stv.len() as int) =~= target);
    }
    let r = CalendarObject { components: out };
    proof {
        assert(r.v() == out@.map_values(|c: Component| c.v()));
    }
    r
}

fn update_partstats(ats: &Vec<crate::model::Attendee>, n: &InstanceSnapshot) -> (r: Vec<
    crate::model::Attendee,
>)
    ensures
        r@.map_values(|x: crate::model::Attendee| x.v()) == ats@.map_values(
            |x: crate::model::Attendee| x.v(),
        ).map_values(
            |a: crate::model::AttendeeV| reply_attendee(a, participants_v(n.attendees@)),
        ),
{
    let ghost av = ats@.map_values(|x: crate::model::Attendee| x.v());
    let ghost nv = participants_v(n.attendees@);
    let ghost target = av.map_values(
        |a: crate::model::AttendeeV| reply_attendee(a, nv),
    );
    let mut out: Vec<crate::model::Attendee> = Vec::new();
    let mut j: usize = 0;
    while j < ats.len()
        invariant
            0 <= j <= ats@.len(),
            av == ats@.map_values(|x: crate::model::Attendee| x.v()),
            nv == participants_v(n.attendees@),
            target == av.map_values(|a: crate::model::AttendeeV| reply_attendee(a, nv)),
            out@.map_values(|x: crate::model::Attendee| x.v()) =~= target.subrange(0, j as int),
        decreases ats@.len() - j,
    {
        proof {
            assert(av[j as int] == ats@[j as int].v());
        }
        let a = &ats[j];
        let norm = crate::email::normalize_email(a.email.as_str());
        let mut ps = a.partstat;
        let mut b: usize = 0;
        proof {
            assert(nv.take(0).len() == 0);
        }
        while b < n.attendees.len()
            invariant
                0 <= b <= n.attendees@.len(),
                nv == participants_v(n.attendees@),
                norm@ == crate::email::normalize_addr(ats@[j as int].v().email),
                j < ats@.len(),
                ps == (match find_partstat(nv.take(b as int), norm@) {
                    Some(p) => p,
                    None => ats@[j as int].v().partstat,
                }),
            decreases n.attendees@.len() - b,
        {
            proof {
                assert(nv.take(b + 1 as int).drop_last() =~= nv.take(b as int));
                assert(nv.take(b + 1 as int).last() == nv[b as int]);
                assert(nv[b as int] == n.attendees@[b as int].v());
            }
            if n.attendees[b].email.email.eq(&norm) {
                ps = n.attendees[b].partstat;
            }
            b += 1;
        }
        proof {
            assert(nv.take(n.attendees@.len() as int) =~= nv);
        }
        let na = crate::model::Attendee {
            email: a.email.clone(),
            partstat: ps,
            rsvp: a.rsvp,
            schedule_agent: a.schedule_agent,
            non_participant: a.non_participant,
        };
        proof {
            assert(na.v() =~= reply_attendee(av[j as int], nv));
        }
        let ghost prev = out@.map_values(|x: crate::model::Attendee| x.v());
        out.push(na);
        proof {
            assert(out@.map_values(|x: crate::model::Attendee| x.v()) =~= prev.push(na.v()));
            assert(out@.map_values(|x: crate::model::Attendee| x.v()) =~= target.subrange(
                0,
                j + 1 as int,
            ));
        }
        j += 1;
    }
    proof {
        assert(target.subrange(0, av.len() as int) =~= target);
    }
    out
}

} // verus!
