//! Diff and significance classification between two snapshots.
//!
//! A change to an instance is *significant* when its significant-field
//! fingerprint or its attendee address set changed; significant changes
//! bump the instance's SEQUENCE. Everything else (participation status,
//! RSVP bits, attendee parameters) is cosmetic.

use vstd::prelude::*;
use crate::model::{InstanceId, Prop, PropV, props_v};
use crate::snapshot::{
    InstanceSnapshot, InstanceSnapshotV, Participant, ParticipantV, contains_addr, find_inst,
    insts_v, participants_v, participants_contain, unique_inst_ids,
};
use crate::event_cancel::addr_set;

verus! {

/// Membership in [`addr_set`] is membership by address.
pub proof fn lemma_addr_set_contains(ps: Seq<ParticipantV>)
    ensures
        forall|x: Seq<char>| #[trigger] addr_set(ps).contains(x) <==> contains_addr(ps, x),
    decreases ps.len(),
{
    if ps.len() > 0 {
        lemma_addr_set_contains(ps.drop_last());
        assert forall|x: Seq<char>| #[trigger] addr_set(ps).contains(x) implies contains_addr(
            ps,
            x,
        ) by {
            if addr_set(ps.drop_last()).contains(x) {
                let i = choose|i: int|
                    0 <= i < ps.drop_last().len() && ps.drop_last()[i].email.email == x;
                assert(ps[i].email.email == x);
            } else {
                assert(ps[ps.len() - 1].email.email == x);
            }
        }
        assert forall|x: Seq<char>| contains_addr(ps, x) implies #[trigger] addr_set(ps).contains(
            x,
        ) by {
            let i = choose|i: int| 0 <= i < ps.len() && ps[i].email.email == x;
            if i < ps.len() - 1 {
                assert(ps.drop_last()[i].email.email == x);
                assert(contains_addr(ps.drop_last(), x));
                assert(addr_set(ps.drop_last()).contains(x));
            } else {
                assert(ps.last().email.email == x);
            }
        }
    }
}

/// A significant change between two revisions of one instance.
pub open spec fn significant(o: InstanceSnapshotV, n: InstanceSnapshotV) -> bool {
    o.fingerprint != n.fingerprint || addr_set(o.attendees) != addr_set(n.attendees)
}

/// The addresses of the new attendee list that the old list did not
/// hold: they receive a REQUEST.
pub open spec fn added_addr_set(nats: Seq<ParticipantV>, oats: Seq<ParticipantV>) -> Set<
    Seq<char>,
>
    decreases nats.len(),
{
    if nats.len() == 0 {
        Set::empty()
    } else {
        let pre = added_addr_set(nats.drop_last(), oats);
        let p = nats.last();
        if !contains_addr(oats, p.email.email) {
            pre.insert(p.email.email)
        } else {
            pre
        }
    }
}

/// The addresses of the old attendee list that the new list dropped: they
/// receive a CANCEL.
pub open spec fn removed_set(oats: Seq<ParticipantV>, nats: Seq<ParticipantV>) -> Set<Seq<char>>
    decreases oats.len(),
{
    if oats.len() == 0 {
        Set::empty()
    } else {
        let pre = removed_set(oats.drop_last(), nats);
        let p = oats.last();
        if !contains_addr(nats, p.email.email) {
            pre.insert(p.email.email)
        } else {
            pre
        }
    }
}

/// Who must receive a REQUEST for an organizer-side update: every
/// attendee of an added or modified instance, and the newly added
/// attendees of otherwise unchanged instances. Significant changes go to
/// the whole attendee set; only cosmetic deltas are suppressed, and those
/// emit nothing at all.
pub open spec fn request_rcpts(oldis: Seq<InstanceSnapshotV>, newis: Seq<InstanceSnapshotV>) -> Set<
    Seq<char>,
>
    decreases newis.len(),
{
    if newis.len() == 0 {
        Set::empty()
    } else {
        let pre = request_rcpts(oldis, newis.drop_last());
        let n = newis.last();
        pre.union(
            match find_inst(oldis, n.instance_id) {
                None => addr_set(n.attendees),
                Some(o) => {
                    if o.fingerprint != n.fingerprint {
                        addr_set(n.attendees)
                    } else {
                        added_addr_set(n.attendees, o.attendees)
                    }
                },
            },
        )
    }
}

/// Who must receive a CANCEL for an organizer-side update: every attendee
/// of a removed instance, and every attendee dropped from a kept instance.
pub open spec fn cancel_rcpts(oldis: Seq<InstanceSnapshotV>, newis: Seq<InstanceSnapshotV>) -> Set<
    Seq<char>,
>
    decreases oldis.len(),
{
    if oldis.len() == 0 {
        Set::empty()
    } else {
        let pre = cancel_rcpts(oldis.drop_last(), newis);
        let o = oldis.last();
        pre.union(
            match find_inst(newis, o.instance_id) {
                None => addr_set(o.attendees),
                Some(n) => removed_set(o.attendees, n.attendees),
            },
        )
    }
}

/// The SEQUENCE bumps an organizer-side update requests: each kept
/// instance with a significant change takes its old SEQUENCE plus one.
pub open spec fn bumps(oldis: Seq<InstanceSnapshotV>, newis: Seq<InstanceSnapshotV>) -> Seq<
    (InstanceId, i64),
>
    decreases newis.len(),
{
    if newis.len() == 0 {
        Seq::empty()
    } else {
        let pre = bumps(oldis, newis.drop_last());
        let n = newis.last();
        match find_inst(oldis, n.instance_id) {
            Some(o) => {
                if significant(o, n) {
                    pre.push((n.instance_id, (o.sequence + 1) as i64))
                } else {
                    pre
                }
            },
            None => pre,
        }
    }
}

/// Looks an instance up by id.
pub fn find_instance<'a>(insts: &'a Vec<InstanceSnapshot>, id: InstanceId) -> (r: Option<
    &'a InstanceSnapshot,
>)
    requires
        unique_inst_ids(insts_v(insts@)),
    ensures
        match r {
            Some(inst) => find_inst(insts_v(insts@), id) == Some(inst.v()),
            None => find_inst(insts_v(insts@), id) is None,
        },
{
    let ghost is = insts_v(insts@);
    let mut i: usize = 0;
    while i < insts.len()
        invariant
            0 <= i <= insts@.len(),
            is == insts_v(insts@),
            unique_inst_ids(is),
            forall|j: int| 0 <= j < i ==> is[j].instance_id != id,
        decreases insts@.len() - i,
    {
        proof {
            assert(is[i as int] == insts@[i as int].v());
        }
        if insts[i].instance_id == id {
            proof {
                assert(crate::snapshot::contains_inst_v(is, id));
                let k = crate::snapshot::inst_idx(is, id);
                assert(0 <= k < is.len() && is[k].instance_id == id);
                assert(k == i as int);
            }
            return Some(&insts[i]);
        }
        i += 1;
    }
    proof {
        assert(!crate::snapshot::contains_inst_v(is, id));
    }
    None
}

/// Whether two fingerprints are equal.
pub fn props_eq(a: &Vec<Prop>, b: &Vec<Prop>) -> (r: bool)
    ensures
        r == (props_v(a@) == props_v(b@)),
{
    if a.len() != b.len() {
        proof {
            assert(props_v(a@).len() != props_v(b@).len());
        }
        return false;
    }
    let mut i: usize = 0;
    while i < a.len()
        invariant
            0 <= i <= a@.len(),
            a@.len() == b@.len(),
            forall|j: int| 0 <= j < i ==> props_v(a@)[j] == props_v(b@)[j],
        decreases a@.len() - i,
    {
        proof {
            assert(props_v(a@)[i as int] == a@[i as int].v());
            assert(props_v(b@)[i as int] == b@[i as int].v());
        }
        if !(a[i].kind == b[i].kind) || !a[i].value.eq(&b[i].value) {
            proof {
                assert(props_v(a@)[i as int] != props_v(b@)[i as int]);
            }
            return false;
        }
        i += 1;
    }
    proof {
        assert(props_v(a@) =~= props_v(b@));
    }
    true
}

/// Whether two attendee lists hold the same addresses.
pub fn addr_sets_eq(a: &Vec<Participant>, b: &Vec<Participant>) -> (r: bool)
    ensures
        r == (addr_set(participants_v(a@)) == addr_set(participants_v(b@))),
{
    let ghost pa = participants_v(a@);
    let ghost pb = participants_v(b@);
    proof {
        lemma_addr_set_contains(pa);
        lemma_addr_set_contains(pb);
    }
    let mut i: usize = 0;
    while i < a.len()
        invariant
            0 <= i <= a@.len(),
            pa == participants_v(a@),
            pb == participants_v(b@),
            forall|j: int| 0 <= j < i ==> contains_addr(pb, (#[trigger] pa[j]).email.email),
        decreases a@.len() - i,
    {
        proof {
            assert(pa[i as int] == a@[i as int].v());
        }
        if !participants_contain(b, &a[i].email.email) {
            proof {
                lemma_addr_set_contains(pa);
                lemma_addr_set_contains(pb);
                assert(addr_set(pa).contains(pa[i as int].email.email));
                assert(!addr_set(pb).contains(pa[i as int].email.email));
            }
            return false;
        }
        i += 1;
    }
    let mut i: usize = 0;
    while i < b.len()
        invariant
            0 <= i <= b@.len(),
            pa == participants_v(a@),
            pb == participants_v(b@),
            forall|j: int| 0 <= j < a@.len() ==> contains_addr(pb, (#[trigger] pa[j]).email.email),
            forall|j: int| 0 <= j < i ==> contains_addr(pa, (#[trigger] pb[j]).email.email),
        decreases b@.len() - i,
    {
        proof {
            assert(pb[i as int] == b@[i as int].v());
        }
        if !participants_contain(a, &b[i].email.email) {
            proof {
                lemma_addr_set_contains(pa);
                lemma_addr_set_contains(pb);
                assert(addr_set(pb).contains(pb[i as int].email.email));
                assert(!addr_set(pa).contains(pb[i as int].email.email));
            }
            return false;
        }
        i += 1;
    }
    proof {
        lemma_addr_set_contains(pa);
        lemma_addr_set_contains(pb);
        assert(addr_set(pa) =~= addr_set(pb)) by {
            assert forall|x: Seq<char>| addr_set(pa).contains(x) implies addr_set(pb).contains(
                x,
            ) by {
                let j = choose|j: int| 0 <= j < pa.len() && pa[j].email.email == x;
            }
            assert forall|x: Seq<char>| addr_set(pb).contains(x) implies addr_set(pa).contains(
                x,
            ) by {
                let j = choose|j: int| 0 <= j < pb.len() && pb[j].email.email == x;
            }
        }
    }
    true
}

/// Exec twin of [`significant`].
pub fn significant_exec(o: &InstanceSnapshot, n: &InstanceSnapshot) -> (r: bool)
    ensures
        r == significant(o.v(), n.v()),
{
    !props_eq(&o.fingerprint, &n.fingerprint) || !addr_sets_eq(&o.attendees, &n.attendees)
}

} // verus!
