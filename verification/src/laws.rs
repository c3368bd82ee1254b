//! The engine's cross-function guarantees, stated and proved once.

use vstd::prelude::*;
use crate::model::{ComponentV, InstanceId, instance_id_of, is_scheduling_type, seq_or_zero};
use crate::snapshot::{
    InstanceSnapshotV, ParticipantV, contains_addr, contains_inst_v, find_inst, find_org_idx,
    inst_idx, lemma_snap_insts_unique, org_comp, organizer_v, qual_org, seqs_bounded, snap_insts,
    unique_inst_ids,
};
use crate::itip::finalize_comp;
use crate::inbound::{appended_comps, known_to, merge_comp};
use crate::diff::{added_addr_set, bumps, cancel_rcpts, removed_set, request_rcpts, significant};

verus! {

proof fn lemma_find_org_idx_map(obj: Seq<ComponentV>, seqs: Seq<(InstanceId, i64)>)
    ensures
        find_org_idx(obj.map_values(|c: ComponentV| finalize_comp(c, seqs))) == find_org_idx(obj),
    decreases obj.len(),
{
    let m = obj.map_values(|c: ComponentV| finalize_comp(c, seqs));
    if obj.len() > 0 {
        lemma_find_org_idx_map(obj.drop_last(), seqs);
        assert(m.drop_last() =~= obj.drop_last().map_values(
            |c: ComponentV| finalize_comp(c, seqs),
        ));
        assert(m.last() == finalize_comp(obj.last(), seqs));
        assert(qual_org(m.last()) == qual_org(obj.last()));
    } else {
        assert(m.len() == 0);
    }
}

/// Rebuilding a snapshot from the finalizer's output yields the same
/// organizer and UID as the snapshot of the input: the finalizer touches
/// only SEQUENCE values and attendee participation.
pub proof fn lemma_finalize_keeps_identity(
    obj: Seq<ComponentV>,
    ids: Seq<Seq<char>>,
    seqs: Seq<(InstanceId, i64)>,
)
    ensures
        ({
            let m = obj.map_values(|c: ComponentV| finalize_comp(c, seqs));
            &&& find_org_idx(m) == find_org_idx(obj)
            &&& find_org_idx(obj) >= 0 ==> org_comp(m).uid == org_comp(obj).uid
            &&& find_org_idx(obj) >= 0 ==> organizer_v(m, ids) == organizer_v(obj, ids)
        }),
{
    let m = obj.map_values(|c: ComponentV| finalize_comp(c, seqs));
    lemma_find_org_idx_map(obj, seqs);
    if find_org_idx(obj) >= 0 {
        lemma_org_idx_in_range(obj);
        assert(m[find_org_idx(obj)] == finalize_comp(obj[find_org_idx(obj)], seqs));
        assert(org_comp(m).uid == org_comp(obj).uid);
        assert(org_comp(m).organizer == org_comp(obj).organizer);
        assert(org_comp(m).organizer_agent == org_comp(obj).organizer_agent);
        assert(organizer_v(m, ids) =~= organizer_v(obj, ids));
    }
}

proof fn lemma_org_idx_in_range(obj: Seq<ComponentV>)
    ensures
        find_org_idx(obj) >= 0 ==> 0 <= find_org_idx(obj) < obj.len() && qual_org(
            obj[find_org_idx(obj)],
        ),
        find_org_idx(obj) >= -1,
    decreases obj.len(),
{
    if obj.len() > 0 {
        lemma_org_idx_in_range(obj.drop_last());
        if find_org_idx(obj.drop_last()) >= 0 {
            assert(obj.drop_last()[find_org_idx(obj.drop_last())] == obj[find_org_idx(
                obj.drop_last(),
            )]);
        }
    }
}

proof fn lemma_added_self(nats: Seq<ParticipantV>, oats: Seq<ParticipantV>)
    requires
        forall|b: int| 0 <= b < nats.len() ==> contains_addr(oats, (#[trigger] nats[b]).email.email),
    ensures
        added_addr_set(nats, oats) =~= Set::<Seq<char>>::empty(),
    decreases nats.len(),
{
    if nats.len() > 0 {
        assert(forall|b: int|
            0 <= b < nats.len() - 1 ==> nats.drop_last()[b] == nats[b]);
        lemma_added_self(nats.drop_last(), oats);
        assert(contains_addr(oats, nats.last().email.email));
    }
}

proof fn lemma_removed_self(oats: Seq<ParticipantV>, nats: Seq<ParticipantV>)
    requires
        forall|b: int| 0 <= b < oats.len() ==> contains_addr(nats, (#[trigger] oats[b]).email.email),
    ensures
        removed_set(oats, nats) =~= Set::<Seq<char>>::empty(),
    decreases oats.len(),
{
    if oats.len() > 0 {
        assert(forall|b: int|
            0 <= b < oats.len() - 1 ==> oats.drop_last()[b] == oats[b]);
        lemma_removed_self(oats.drop_last(), nats);
        assert(contains_addr(nats, oats.last().email.email));
    }
}

proof fn lemma_find_self(is: Seq<InstanceSnapshotV>, k: int)
    requires
        unique_inst_ids(is),
        0 <= k < is.len(),
    ensures
        find_inst(is, is[k].instance_id) == Some(is[k]),
{
    assert(contains_inst_v(is, is[k].instance_id));
    let t = inst_idx(is, is[k].instance_id);
    assert(0 <= t < is.len() && is[t].instance_id == is[k].instance_id);
    assert(t == k);
}

proof fn lemma_req_self(is: Seq<InstanceSnapshotV>, j: int)
    requires
        unique_inst_ids(is),
        0 <= j <= is.len(),
    ensures
        request_rcpts(is, is.take(j)) =~= Set::<Seq<char>>::empty(),
        bumps(is, is.take(j)) == Seq::<(InstanceId, i64)>::empty(),
    decreases j,
{
    if j > 0 {
        lemma_req_self(is, j - 1);
        assert(is.take(j).drop_last() =~= is.take(j - 1));
        assert(is.take(j).last() == is[j - 1]);
        lemma_find_self(is, j - 1);
        assert(!significant(is[j - 1], is[j - 1]));
        assert(forall|b: int|
            0 <= b < is[j - 1].attendees.len() ==> contains_addr(
                is[j - 1].attendees,
                (#[trigger] is[j - 1].attendees[b]).email.email,
            ));
        lemma_added_self(is[j - 1].attendees, is[j - 1].attendees);
    } else {
        assert(is.take(0).len() == 0);
    }
}

proof fn lemma_can_self(is: Seq<InstanceSnapshotV>, j: int)
    requires
        unique_inst_ids(is),
        0 <= j <= is.len(),
    ensures
        cancel_rcpts(is.take(j), is) =~= Set::<Seq<char>>::empty(),
    decreases j,
{
    if j > 0 {
        lemma_can_self(is, j - 1);
        assert(is.take(j).drop_last() =~= is.take(j - 1));
        assert(is.take(j).last() == is[j - 1]);
        lemma_find_self(is, j - 1);
        assert(forall|b: int|
            0 <= b < is[j - 1].attendees.len() ==> contains_addr(
                is[j - 1].attendees,
                (#[trigger] is[j - 1].attendees[b]).email.email,
            ));
        lemma_removed_self(is[j - 1].attendees, is[j - 1].attendees);
    } else {
        assert(is.take(0).len() == 0);
    }
}

/// Updating an object with an identical revision asks for nothing: no
/// CANCEL recipient, no REQUEST recipient, no SEQUENCE bump. The update
/// operation then reports that there is nothing to send and, since no
/// bump is requested, the finalizer leaves the object untouched.
pub proof fn lemma_identical_update_nothing(is: Seq<InstanceSnapshotV>)
    requires
        unique_inst_ids(is),
    ensures
        cancel_rcpts(is, is) =~= Set::<Seq<char>>::empty(),
        request_rcpts(is, is) =~= Set::<Seq<char>>::empty(),
        bumps(is, is) == Seq::<(InstanceId, i64)>::empty(),
{
    lemma_req_self(is, is.len() as int);
    lemma_can_self(is, is.len() as int);
    assert(is.take(is.len() as int) =~= is);
}

/// The finalizer with an empty bump list is a no-op on every component.
pub proof fn lemma_finalize_empty(c: ComponentV)
    ensures
        finalize_comp(c, Seq::<(InstanceId, i64)>::empty()) == c,
{
}

/// Every SEQUENCE an organizer-side update emits for a kept instance is
/// strictly greater than the instance's stored SEQUENCE: emitted
/// sequences are strictly monotonic over an object's lifetime, because
/// the finalizer writes each emitted value back before the next diff.
pub proof fn lemma_bumps_increase(o_is: Seq<InstanceSnapshotV>, n_is: Seq<InstanceSnapshotV>, k: int)
    requires
        unique_inst_ids(o_is),
        seqs_bounded(o_is),
        0 <= k < bumps(o_is, n_is).len(),
    ensures
        find_inst(o_is, bumps(o_is, n_is)[k].0) is Some,
        bumps(o_is, n_is)[k].1 > find_inst(o_is, bumps(o_is, n_is)[k].0)->0.sequence,
    decreases n_is.len(),
{
    if n_is.len() > 0 {
        let pre = bumps(o_is, n_is.drop_last());
        if k < pre.len() {
            lemma_bumps_increase(o_is, n_is.drop_last(), k);
            assert(bumps(o_is, n_is)[k] == pre[k]);
        } else {
            let n = n_is.last();
            let o = find_inst(o_is, n.instance_id)->0;
            assert(contains_inst_v(o_is, n.instance_id));
            let t = inst_idx(o_is, n.instance_id);
            assert(0 <= t < o_is.len() && o_is[t] == o);
            assert(o.sequence < i64::MAX);
            assert(bumps(o_is, n_is)[k] == (n.instance_id, (o.sequence + 1) as i64));
        }
    }
}

/// Instances equal in everything but their component position.
pub open spec fn inst_eq_mod_index(a: InstanceSnapshotV, b: InstanceSnapshotV) -> bool {
    &&& a.instance_id == b.instance_id
    &&& a.component_type == b.component_type
    &&& a.sequence == b.sequence
    &&& a.status == b.status
    &&& a.attendees == b.attendees
    &&& a.fingerprint == b.fingerprint
    &&& a.dtstamp == b.dtstamp
}

/// A non-scheduling component in front of an object (a message
/// envelope) changes nothing of the object's instances but their
/// component positions. So the object stored by a fresh inbound REQUEST,
/// which is the message body verbatim, carries per instance the same
/// significant fingerprints as the object the message was built from.
pub proof fn lemma_snap_insts_prepend(env: ComponentV, obj: Seq<ComponentV>, ids: Seq<Seq<char>>)
    requires
        !is_scheduling_type(env.component_type),
    ensures
        ({
            let a = snap_insts(seq![env] + obj, ids);
            let b = snap_insts(obj, ids);
            a.len() == b.len() && forall|k: int|
                0 <= k < a.len() ==> inst_eq_mod_index(#[trigger] a[k], b[k])
        }),
    decreases obj.len(),
{
    let a = snap_insts(seq![env] + obj, ids);
    let b = snap_insts(obj, ids);
    if obj.len() == 0 {
        assert(seq![env] + obj =~= seq![env]);
        assert((seq![env]).drop_last() =~= Seq::<ComponentV>::empty());
        assert((seq![env]).last() == env);
        assert(snap_insts(Seq::<ComponentV>::empty(), ids) =~= Seq::<InstanceSnapshotV>::empty());
        assert(snap_insts(seq![env], ids) =~= Seq::<InstanceSnapshotV>::empty());
        assert(a.len() == 0);
    } else {
        lemma_snap_insts_prepend(env, obj.drop_last(), ids);
        let ap = snap_insts(seq![env] + obj.drop_last(), ids);
        let bp = snap_insts(obj.drop_last(), ids);
        assert((seq![env] + obj).drop_last() =~= seq![env] + obj.drop_last());
        assert((seq![env] + obj).last() == obj.last());
        let c = obj.last();
        if is_scheduling_type(c.component_type) {
            assert(contains_inst_v(ap, instance_id_of(c)) == contains_inst_v(
                bp,
                instance_id_of(c),
            )) by {
                if contains_inst_v(ap, instance_id_of(c)) {
                    let t = choose|t: int|
                        0 <= t < ap.len() && ap[t].instance_id == instance_id_of(c);
                    assert(bp[t].instance_id == instance_id_of(c));
                }
                if contains_inst_v(bp, instance_id_of(c)) {
                    let t = choose|t: int|
                        0 <= t < bp.len() && bp[t].instance_id == instance_id_of(c);
                    assert(ap[t].instance_id == instance_id_of(c));
                }
            }
            if !contains_inst_v(bp, instance_id_of(c)) {
                assert(inst_eq_mod_index(
                    crate::snapshot::inst_of(c, ids, (seq![env] + obj).len() - 1),
                    crate::snapshot::inst_of(c, ids, obj.len() - 1),
                ));
            }
        }
    }
}


/// A REQUEST message body is a non-scheduling envelope before the object;
/// the inbound processor stores that body verbatim when nothing is stored
/// yet. So the fresh round trip keeps every instance: same ids, same
/// SEQUENCEs, same significant fingerprints as the source object.
pub proof fn lemma_create_roundtrip(env: ComponentV, obj: Seq<ComponentV>, ids: Seq<Seq<char>>)
    requires
        !is_scheduling_type(env.component_type),
    ensures
        ({
            let a = snap_insts(seq![env] + obj, ids);
            let b = snap_insts(obj, ids);
            &&& a.len() == b.len()
            &&& forall|k: int|
                0 <= k < a.len() ==> ((#[trigger] a[k]).instance_id == b[k].instance_id && a[
                    k
                ].fingerprint == b[k].fingerprint && a[k].sequence == b[k].sequence)
        }),
{
    lemma_snap_insts_prepend(env, obj, ids);
}

/// Each snapshot instance points back at the component it was built from.
pub open spec fn insts_from(is: Seq<InstanceSnapshotV>, obj: Seq<ComponentV>) -> bool {
    forall|k: int|
        0 <= k < is.len() ==> ({
            let n = #[trigger] is[k];
            &&& 0 <= n.comp_index < obj.len()
            &&& is_scheduling_type(obj[n.comp_index].component_type)
            &&& instance_id_of(obj[n.comp_index]) == n.instance_id
            &&& seq_or_zero(obj[n.comp_index].sequence) == n.sequence
        })
}

pub proof fn lemma_snap_insts_src(obj: Seq<ComponentV>, ids: Seq<Seq<char>>)
    ensures
        insts_from(snap_insts(obj, ids), obj),
    decreases obj.len(),
{
    if obj.len() > 0 {
        lemma_snap_insts_src(obj.drop_last(), ids);
        let pre = snap_insts(obj.drop_last(), ids);
        assert forall|k: int| 0 <= k < snap_insts(obj, ids).len() implies ({
            let n = #[trigger] snap_insts(obj, ids)[k];
            &&& 0 <= n.comp_index < obj.len()
            &&& is_scheduling_type(obj[n.comp_index].component_type)
            &&& instance_id_of(obj[n.comp_index]) == n.instance_id
            &&& seq_or_zero(obj[n.comp_index].sequence) == n.sequence
        }) by {
            if k < pre.len() {
                assert(snap_insts(obj, ids)[k] == pre[k]);
                assert(obj.drop_last()[pre[k].comp_index] == obj[pre[k].comp_index]);
            }
        }
    }
}


proof fn lemma_merge_self(k: int, is: Seq<InstanceSnapshotV>, inc: Seq<ComponentV>)
    requires
        unique_inst_ids(is),
        insts_from(is, inc),
        0 <= k < is.len(),
    ensures
        merge_comp(inc[is[k].comp_index], is, inc) == inc[is[k].comp_index],
{
    let n = is[k];
    let c = inc[n.comp_index];
    lemma_find_self(is, k);
    assert(instance_id_of(c) == n.instance_id);
    assert(find_inst(is, instance_id_of(c)) == Some(n));
    assert(seq_or_zero(c.sequence) == n.sequence);
}

proof fn lemma_merge_comp_idem(c: ComponentV, is: Seq<InstanceSnapshotV>, inc: Seq<ComponentV>)
    requires
        unique_inst_ids(is),
        insts_from(is, inc),
    ensures
        merge_comp(merge_comp(c, is, inc), is, inc) == merge_comp(c, is, inc),
{
    let m = merge_comp(c, is, inc);
    if m != c {
        let id = instance_id_of(c);
        assert(find_inst(is, id) is Some);
        assert(contains_inst_v(is, id));
        let t = inst_idx(is, id);
        assert(0 <= t < is.len() && is[t].instance_id == id);
        assert(find_inst(is, id) == Some(is[t]));
        assert(m == inc[is[t].comp_index]);
        lemma_merge_self(t, is, inc);
    }
}

proof fn lemma_appended_src(is: Seq<InstanceSnapshotV>, st: Seq<ComponentV>, inc: Seq<ComponentV>)
    ensures
        forall|t: int|
            0 <= t < appended_comps(is, st, inc).len() ==> exists|k: int|
                0 <= k < is.len() && #[trigger] appended_comps(is, st, inc)[t] == inc[(
                #[trigger] is[k]).comp_index] && 0 <= is[k].comp_index < inc.len(),
    decreases is.len(),
{
    if is.len() > 0 {
        lemma_appended_src(is.drop_last(), st, inc);
        let pre = appended_comps(is.drop_last(), st, inc);
        assert forall|t: int|
            0 <= t < appended_comps(is, st, inc).len() implies exists|k: int|
            0 <= k < is.len() && #[trigger] appended_comps(is, st, inc)[t] == inc[(
            #[trigger] is[k]).comp_index] && 0 <= is[k].comp_index < inc.len() by {
            if t < pre.len() {
                assert(appended_comps(is, st, inc)[t] == pre[t]);
                let k = choose|k: int|
                    0 <= k < is.drop_last().len() && #[trigger] pre[t] == inc[(
                    #[trigger] is.drop_last()[k]).comp_index] && 0 <= is.drop_last()[k].comp_index
                        < inc.len();
                assert(is[k] == is.drop_last()[k]);
                assert(appended_comps(is, st, inc)[t] == inc[is[k].comp_index]);
            } else {
                let k = is.len() - 1;
                assert(appended_comps(is, st, inc)[t] == inc[is[k].comp_index]);
            }
        }
    }
}

proof fn lemma_appended_contains(
    is: Seq<InstanceSnapshotV>,
    st: Seq<ComponentV>,
    inc: Seq<ComponentV>,
    k: int,
)
    requires
        0 <= k < is.len(),
        !known_to(st, is[k].instance_id),
        0 <= is[k].comp_index < inc.len(),
    ensures
        exists|t: int|
            0 <= t < appended_comps(is, st, inc).len() && #[trigger] appended_comps(is, st, inc)[t]
                == inc[is[k].comp_index],
    decreases is.len(),
{
    let app = appended_comps(is, st, inc);
    let pre = appended_comps(is.drop_last(), st, inc);
    if k == is.len() - 1 {
        assert(app[app.len() - 1] == inc[is[k].comp_index]);
    } else {
        assert(is.drop_last()[k] == is[k]);
        lemma_appended_contains(is.drop_last(), st, inc, k);
        let t = choose|t: int|
            0 <= t < pre.len() && #[trigger] pre[t] == inc[is.drop_last()[k].comp_index];
        assert(app[t] == pre[t]);
        assert(app[t] == inc[is[k].comp_index]);
    }
}

proof fn lemma_known_after(st: Seq<ComponentV>, is: Seq<InstanceSnapshotV>, inc: Seq<ComponentV>)
    requires
        unique_inst_ids(is),
        insts_from(is, inc),
    ensures
        forall|k: int|
            0 <= k < is.len() ==> known_to(
                st.map_values(|c: ComponentV| merge_comp(c, is, inc)) + appended_comps(
                    is,
                    st,
                    inc,
                ),
                (#[trigger] is[k]).instance_id,
            ),
{
    let mapped = st.map_values(|c: ComponentV| merge_comp(c, is, inc));
    let app = appended_comps(is, st, inc);
    let m1 = mapped + app;
    assert forall|k: int| 0 <= k < is.len() implies known_to(m1, (#[trigger] is[k]).instance_id) by {
        let id = is[k].instance_id;
        if known_to(st, id) {
            let j = choose|j: int|
                0 <= j < st.len() && is_scheduling_type((#[trigger] st[j]).component_type)
                    && instance_id_of(st[j]) == id;
            assert(m1[j] == mapped[j]);
            assert(mapped[j] == merge_comp(st[j], is, inc));
            if merge_comp(st[j], is, inc) != st[j] {
                let t = inst_idx(is, id);
                assert(0 <= t < is.len() && is[t].instance_id == id);
                assert(find_inst(is, id) == Some(is[t]));
                assert(m1[j] == inc[is[t].comp_index]);
                assert(is_scheduling_type(m1[j].component_type) && instance_id_of(m1[j]) == id);
            }
            assert(known_to(m1, id));
        } else {
            lemma_appended_contains(is, st, inc, k);
            let t = choose|t: int|
                0 <= t < app.len() && #[trigger] app[t] == inc[is[k].comp_index];
            assert(m1[st.len() + t] == app[t]);
            assert(is_scheduling_type(m1[st.len() + t].component_type) && instance_id_of(
                m1[st.len() + t],
            ) == id);
            assert(known_to(m1, id));
        }
    }
}

proof fn lemma_appended_known_empty(
    is: Seq<InstanceSnapshotV>,
    m1: Seq<ComponentV>,
    inc: Seq<ComponentV>,
)
    requires
        forall|k: int| 0 <= k < is.len() ==> known_to(m1, (#[trigger] is[k]).instance_id),
    ensures
        appended_comps(is, m1, inc) =~= Seq::<ComponentV>::empty(),
    decreases is.len(),
{
    if is.len() > 0 {
        assert(forall|k: int| 0 <= k < is.len() - 1 ==> is.drop_last()[k] == is[k]);
        lemma_appended_known_empty(is.drop_last(), m1, inc);
        assert(known_to(m1, is.last().instance_id));
    }
}

/// Applying the same REQUEST twice equals applying it once: merging the
/// already merged object against the same arriving instances replaces
/// every component with itself and appends nothing, so no SEQUENCE moves
/// and no participation regresses.
pub proof fn lemma_merge_idempotent(st: Seq<ComponentV>, inc: Seq<ComponentV>, ids: Seq<Seq<char>>)
    ensures
        ({
            let is = snap_insts(inc, ids);
            let m1 = st.map_values(|c: ComponentV| merge_comp(c, is, inc)) + appended_comps(
                is,
                st,
                inc,
            );
            m1.map_values(|c: ComponentV| merge_comp(c, is, inc)) + appended_comps(is, m1, inc)
                == m1
        }),
{
    let is = snap_insts(inc, ids);
    lemma_snap_insts_unique(inc, ids);
    lemma_snap_insts_src(inc, ids);
    let mapped = st.map_values(|c: ComponentV| merge_comp(c, is, inc));
    let app = appended_comps(is, st, inc);
    let m1 = mapped + app;
    lemma_appended_src(is, st, inc);
    assert forall|j: int|
        0 <= j < m1.len() implies #[trigger] merge_comp(m1[j], is, inc) == m1[j] by {
        if j < st.len() {
            assert(m1[j] == mapped[j]);
            assert(mapped[j] == merge_comp(st[j], is, inc));
            lemma_merge_comp_idem(st[j], is, inc);
        } else {
            let t = j - st.len();
            assert(m1[j] == app[t]);
            let k = choose|k: int|
                0 <= k < is.len() && #[trigger] app[t] == inc[(#[trigger] is[k]).comp_index] && 0
                    <= is[k].comp_index < inc.len();
            lemma_merge_self(k, is, inc);
        }
    }
    assert(m1.map_values(|c: ComponentV| merge_comp(c, is, inc)) =~= m1);
    lemma_known_after(st, is, inc);
    lemma_appended_known_empty(is, m1, inc);
    assert(m1.map_values(|c: ComponentV| merge_comp(c, is, inc)) + appended_comps(is, m1, inc)
        =~= m1);
}

} // verus!
