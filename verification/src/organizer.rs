//! The organizer workflow: REQUEST and CANCEL emission for creates and
//! updates of an object whose organizer is a local identity.

use vstd::prelude::*;
use ahash::AHashSet;
use crate::model::{
    CalendarObject, Component, ComponentV, InstanceId, Method, clone_object,
};
use crate::snapshot::{
    InstanceSnapshot, InstanceSnapshotV, Participant, Snapshot, insts_v, itip_snapshot,
    lemma_insts_bounded, lemma_snap_insts_unique, main_fp, main_seq, obj_seqs_bounded, org_comp,
    organizer_v, participants_v, seqs_bounded, snap_insts, snapshot_accepts, snapshot_reject,
    unique_inst_ids, contains_addr,
};
use crate::email::ids_view;
use crate::error::{ItipError, ItipMessage, ItipSummary};
use crate::itip::{envelope_v, finalize_comp, itip_build_envelope, itip_finalize};
use crate::event_cancel::{
    addr_set, build_cancel_component, cancel_comp_scalars, collect_addrs, last_type,
    vec_matches_addr_lines, vec_matches_set,
};
use crate::diff::{
    added_addr_set, bumps, cancel_rcpts, find_instance, removed_set, request_rcpts, significant,
    significant_exec,
};
use crate::snapshot::find_inst;
use crate::outside::{
    dtstamp_now, recipient_set, recipients_insert, recipients_into_vec, recipients_is_empty,
    recipients_new,
};

verus! {

/// Facts common to every organizer-side message.
pub open spec fn org_msg_basics(m: ItipMessage, org: Seq<char>) -> bool {
    m.from@ == org && m.from_organizer == true
}

fn collect_added(nin: &InstanceSnapshot, oats: &Vec<Participant>, rcpt: &mut AHashSet<
    String,
>)
    ensures
        recipient_set(*final(rcpt)) =~= recipient_set(*old(rcpt)).union(
            added_addr_set(participants_v(nin.attendees@), participants_v(oats@)),
        ),
{
    let ghost pv = participants_v(nin.attendees@);
    let ghost ov = participants_v(oats@);
    let mut j: usize = 0;
    while j < nin.attendees.len()
        invariant
            0 <= j <= nin.attendees@.len(),
            pv == participants_v(nin.attendees@),
            ov == participants_v(oats@),
            recipient_set(*rcpt) =~= recipient_set(*old(rcpt)).union(
                added_addr_set(pv.take(j as int), ov),
            ),
        decreases nin.attendees@.len() - j,
    {
        proof {
            assert(pv.take(j + 1 as int).drop_last() =~= pv.take(j as int));
            assert(pv.take(j + 1 as int).last() == pv[j as int]);
            assert(pv[j as int] == nin.attendees@[j as int].v());
        }
        let p = &nin.attendees[j];
        if !crate::snapshot::participants_contain(oats, &p.email.email) {
            recipients_insert(rcpt, &p.email.email);
        }
        proof {
            assert(recipient_set(*rcpt) =~= recipient_set(*old(rcpt)).union(
                added_addr_set(pv.take(j + 1 as int), ov),
            ));
        }
        j += 1;
    }
    proof {
        assert(pv.take(nin.attendees@.len() as int) =~= pv);
    }
}

fn collect_removed(oin: &InstanceSnapshot, nats: &Vec<Participant>, rcpt: &mut AHashSet<String>)
    ensures
        recipient_set(*final(rcpt)) =~= recipient_set(*old(rcpt)).union(
            removed_set(participants_v(oin.attendees@), participants_v(nats@)),
        ),
{
    let ghost pv = participants_v(oin.attendees@);
    let ghost nv = participants_v(nats@);
    let mut j: usize = 0;
    while j < oin.attendees.len()
        invariant
            0 <= j <= oin.attendees@.len(),
            pv == participants_v(oin.attendees@),
            nv == participants_v(nats@),
            recipient_set(*rcpt) =~= recipient_set(*old(rcpt)).union(
                removed_set(pv.take(j as int), nv),
            ),
        decreases oin.attendees@.len() - j,
    {
        proof {
            assert(pv.take(j + 1 as int).drop_last() =~= pv.take(j as int));
            assert(pv.take(j + 1 as int).last() == pv[j as int]);
            assert(pv[j as int] == oin.attendees@[j as int].v());
        }
        let p = &oin.attendees[j];
        if !crate::snapshot::participants_contain(nats, &p.email.email) {
            recipients_insert(rcpt, &p.email.email);
        }
        proof {
            assert(recipient_set(*rcpt) =~= recipient_set(*old(rcpt)).union(
                removed_set(pv.take(j + 1 as int), nv),
            ));
        }
        j += 1;
    }
    proof {
        assert(pv.take(oin.attendees@.len() as int) =~= pv);
    }
}

/// Handles an update where the local account is the organizer: emits a
/// CANCEL to dropped attendees and removed instances, a REQUEST to every
/// attendee of an added or significantly changed instance, and requests
/// one SEQUENCE bump per significantly changed instance. CANCEL comes
/// before REQUEST. `NothingToSend` when no recipient remains; the bump
/// list is then untouched.
#[verifier::rlimit(100)]
pub fn organizer_handle_update(
    ical: &CalendarObject,
    old_itip: Snapshot,
    new_itip: Snapshot,
    sequences: &mut Vec<(InstanceId, i64)>,
) -> (r: Result<Vec<ItipMessage>, ItipError>)
    requires
        unique_inst_ids(insts_v(old_itip.instances@)),
        unique_inst_ids(insts_v(new_itip.instances@)),
        seqs_bounded(insts_v(old_itip.instances@)),
    ensures
        ({
            let o_is = insts_v(old_itip.instances@);
            let n_is = insts_v(new_itip.instances@);
            let creq = cancel_rcpts(o_is, n_is);
            let rreq = request_rcpts(o_is, n_is);
            &&& (r is Err <==> (creq =~= Set::<Seq<char>>::empty() && rreq =~= Set::<
                Seq<char>,
            >::empty()))
            &&& r is Err ==> r->Err_0 == ItipError::NothingToSend && final(sequences)@ == old(
                sequences,
            )@
            &&& r is Ok ==> final(sequences)@ == old(sequences)@ + bumps(o_is, n_is)
            &&& r is Ok ==> ({
                let ms = r->Ok_0@;
                &&& 1 <= ms.len() <= 2
                &&& ms.len() == 2 <==> (!(creq =~= Set::<Seq<char>>::empty()) && !(rreq =~= Set::<
                    Seq<char>,
                >::empty()))
                &&& forall|k: int|
                    0 <= k < ms.len() ==> org_msg_basics(
                        #[trigger] ms[k],
                        new_itip.organizer.v().email.email,
                    )
                &&& !(creq =~= Set::<Seq<char>>::empty()) ==> ({
                    let m = ms[0];
                    &&& m.method == Method::Cancel
                    &&& vec_matches_set(m.to@, creq)
                    &&& m.message.v().len() == 2
                    &&& cancel_comp_scalars(
                        m.message.v()[1],
                        new_itip.uid@,
                        new_itip.organizer.v().email.email,
                        last_type(o_is),
                        (main_seq(o_is) + 1) as i64,
                        m.message.v()[1].dtstamp->0,
                    )
                    &&& vec_matches_addr_lines(m.message.v()[1].attendees, creq)
                })
                &&& !(rreq =~= Set::<Seq<char>>::empty()) ==> ({
                    let m = ms[ms.len() - 1];
                    &&& m.method == Method::Request
                    &&& vec_matches_set(m.to@, rreq)
                    &&& m.message.v().len() == ical.v().len() + 1
                    &&& m.message.v()[0].method == Some(Method::Request)
                    &&& m.message.v()[0].component_type == crate::model::ComponentType::VCalendar
                    &&& m.message.v().skip(1) == ical.v().map_values(
                        |c: ComponentV| finalize_comp(c, bumps(o_is, n_is)),
                    )
                })
            })
        }),
{
    let ghost o_is = insts_v(old_itip.instances@);
    let ghost n_is = insts_v(new_itip.instances@);

    // SEQUENCE bumps for significantly changed instances.
    let mut bump_list: Vec<(InstanceId, i64)> = Vec::new();
    let mut i: usize = 0;
    while i < new_itip.instances.len()
        invariant
            0 <= i <= new_itip.instances@.len(),
            o_is == insts_v(old_itip.instances@),
            n_is == insts_v(new_itip.instances@),
            unique_inst_ids(o_is),
            seqs_bounded(o_is),
            bump_list@ =~= bumps(o_is, n_is.take(i as int)),
        decreases new_itip.instances@.len() - i,
    {
        proof {
            assert(n_is.take(i + 1 as int).drop_last() =~= n_is.take(i as int));
            assert(n_is.take(i + 1 as int).last() == n_is[i as int]);
            assert(n_is[i as int] == new_itip.instances@[i as int].v());
        }
        let n = &new_itip.instances[i];
        match find_instance(&old_itip.instances, n.instance_id) {
            Some(o) => {
                if significant_exec(o, n) {
                    proof {
                        let k = crate::snapshot::inst_idx(o_is, n.v().instance_id);
                        assert(o_is[k] == o.v());
                        assert(o.v().sequence < i64::MAX);
                    }
                    bump_list.push((n.instance_id, o.sequence + 1));
                }
            },
            None => {},
        }
        proof {
            assert(bump_list@ =~= bumps(o_is, n_is.take(i + 1 as int)));
        }
        i += 1;
    }
    proof {
        assert(n_is.take(new_itip.instances@.len() as int) =~= n_is);
    }

    // REQUEST recipients.
    let mut req = recipients_new();
    let mut i: usize = 0;
    while i < new_itip.instances.len()
        invariant
            0 <= i <= new_itip.instances@.len(),
            o_is == insts_v(old_itip.instances@),
            n_is == insts_v(new_itip.instances@),
            unique_inst_ids(o_is),
            recipient_set(req) =~= request_rcpts(o_is, n_is.take(i as int)),
        decreases new_itip.instances@.len() - i,
    {
        proof {
            assert(n_is.take(i + 1 as int).drop_last() =~= n_is.take(i as int));
            assert(n_is.take(i + 1 as int).last() == n_is[i as int]);
            assert(n_is[i as int] == new_itip.instances@[i as int].v());
        }
        let n = &new_itip.instances[i];
        match find_instance(&old_itip.instances, n.instance_id) {
            None => {
                collect_addrs(n, &mut req);
            },
            Some(o) => {
                if !crate::diff::props_eq(&o.fingerprint, &n.fingerprint) {
                    collect_addrs(n, &mut req);
                } else {
                    collect_added(n, &o.attendees, &mut req);
                }
            },
        }
        proof {
            assert(recipient_set(req) =~= request_rcpts(o_is, n_is.take(i + 1 as int)));
        }
        i += 1;
    }
    proof {
        assert(n_is.take(new_itip.instances@.len() as int) =~= n_is);
        assert(recipient_set(req) == request_rcpts(o_is, n_is));
    }

    // CANCEL recipients.
    let mut can = recipients_new();
    let mut i: usize = 0;
    while i < old_itip.instances.len()
        invariant
            0 <= i <= old_itip.instances@.len(),
            o_is == insts_v(old_itip.instances@),
            n_is == insts_v(new_itip.instances@),
            unique_inst_ids(n_is),
            recipient_set(can) =~= cancel_rcpts(o_is.take(i as int), n_is),
        decreases old_itip.instances@.len() - i,
    {
        proof {
            assert(o_is.take(i + 1 as int).drop_last() =~= o_is.take(i as int));
            assert(o_is.take(i + 1 as int).last() == o_is[i as int]);
            assert(o_is[i as int] == old_itip.instances@[i as int].v());
        }
        let o = &old_itip.instances[i];
        match find_instance(&new_itip.instances, o.instance_id) {
            None => {
                collect_addrs(o, &mut can);
            },
            Some(n) => {
                collect_removed(o, &n.attendees, &mut can);
            },
        }
        proof {
            assert(recipient_set(can) =~= cancel_rcpts(o_is.take(i + 1 as int), n_is));
        }
        i += 1;
    }
    proof {
        assert(o_is.take(old_itip.instances@.len() as int) =~= o_is);
        assert(recipient_set(can) == cancel_rcpts(o_is, n_is));
    }

    let req_empty = recipients_is_empty(&req);
    let can_empty = recipients_is_empty(&can);
    if req_empty && can_empty {
        return Err(ItipError::NothingToSend);
    }

    let dt_stamp = dtstamp_now();
    let mut msgs: Vec<ItipMessage> = Vec::new();

    if !can_empty {
        let old_seq = old_itip.main_sequence();
        proof {
            assert(main_seq(o_is) < i64::MAX);
        }
        let ctype = if old_itip.instances.len() == 0 {
            crate::model::ComponentType::VEvent
        } else {
            old_itip.instances[old_itip.instances.len() - 1].component_type
        };
        proof {
            if old_itip.instances@.len() > 0 {
                assert(o_is.last() == old_itip.instances@[o_is.len() - 1].v());
            }
            assert(ctype == last_type(o_is));
        }
        let m = make_org_cancel(
            ctype,
            &new_itip.uid,
            &new_itip.organizer.email.email,
            old_seq + 1,
            dt_stamp,
            can,
            old_itip.main_fingerprint(),
            Ghost(cancel_rcpts(o_is, n_is)),
        );
        msgs.push(m);
    }

    if !req_empty {
        let m = make_org_request(
            ical,
            &bump_list,
            &new_itip.organizer.email.email,
            req,
            new_itip.main_fingerprint(),
            Ghost(request_rcpts(o_is, n_is)),
        );
        proof {
            assert(bump_list@ == bumps(o_is, n_is));
        }
        msgs.push(m);
    }

    // Hand the requested bumps to the caller's finalizer input.
    let mut k: usize = 0;
    let ghost base = sequences@;
    while k < bump_list.len()
        invariant
            0 <= k <= bump_list@.len(),
            sequences@ =~= base + bump_list@.subrange(0, k as int),
        decreases bump_list@.len() - k,
    {
        sequences.push(bump_list[k]);
        proof {
            assert(sequences@ =~= base + bump_list@.subrange(0, k + 1 as int));
        }
        k += 1;
    }
    proof {
        assert(bump_list@.subrange(0, bump_list@.len() as int) =~= bump_list@);
        assert(sequences@ =~= base + bumps(o_is, n_is));
    }

    Ok(msgs)
}

fn make_org_cancel(
    ctype: crate::model::ComponentType,
    uid: &String,
    org: &String,
    sequence: i64,
    dt_stamp: i64,
    can: AHashSet<String>,
    fp: Vec<crate::model::Prop>,
    Ghost(cr): Ghost<Set<Seq<char>>>,
) -> (m: ItipMessage)
    requires
        recipient_set(can) == cr,
    ensures
        m.method == Method::Cancel,
        org_msg_basics(m, org@),
        vec_matches_set(m.to@, cr),
        m.message.v().len() == 2,
        cancel_comp_scalars(m.message.v()[1], uid@, org@, ctype, sequence, m.message.v()[1].dtstamp->0),
        vec_matches_addr_lines(m.message.v()[1].attendees, cr),
        m.summary matches ItipSummary::Cancel(p) && crate::model::props_v(p@)
            == crate::model::props_v(fp@),
{
    let guest_vec = recipients_into_vec(can);
    let to = crate::model::clone_strings(&guest_vec);
    let ghost gv = guest_vec@;
    proof {
        assert(to@.map_values(|s: String| s@) == gv.map_values(|s: String| s@));
        assert(to@.map_values(|s: String| s@).len() == to@.len());
        assert(gv.map_values(|s: String| s@).len() == gv.len());
        assert(to@.len() == gv.len());
        assert forall|k: int| 0 <= k < gv.len() implies #[trigger] to@[k]@ == gv[k]@ by {
            assert(to@.map_values(|s: String| s@)[k] == to@[k]@);
            assert(gv.map_values(|s: String| s@)[k] == gv[k]@);
        }
        assert(vec_matches_set(to@, cr)) by {
            assert forall|x: Seq<char>| #[trigger] cr.contains(x) implies exists|k: int|
                0 <= k < to@.len() && #[trigger] to@[k]@ == x by {
                let k = choose|k: int| 0 <= k < gv.len() && #[trigger] gv[k]@ == x;
                assert(to@[k]@ == x);
            }
        }
    }
    let comp = build_cancel_component(ctype, uid, org, sequence, dt_stamp, guest_vec);
    proof {
        assert(vec_matches_addr_lines(comp.v().attendees, cr)) by {
            assert(forall|k: int|
                0 <= k < gv.len() ==> (#[trigger] comp.v().attendees[k]).email == gv[k]@);
            assert forall|x: Seq<char>| #[trigger] cr.contains(x) implies exists|k: int|
                0 <= k < comp.v().attendees.len() && (#[trigger] comp.v().attendees[k]).email
                    == x by {
                let k = choose|k: int| 0 <= k < gv.len() && #[trigger] gv[k]@ == x;
                assert(comp.v().attendees[k].email == x);
            }
        }
    }
    let mut envelope = itip_build_envelope(Method::Cancel);
    envelope.component_ids.push(1);
    let summary = ItipSummary::Cancel(fp);
    let mut comps: Vec<Component> = Vec::new();
    comps.push(envelope);
    comps.push(comp);
    let message = CalendarObject { components: comps };
    proof {
        assert(message.v().len() == 2);
        assert(message.v()[1] == message.components@[1].v());
    }
    ItipMessage {
        from: org.clone(),
        from_organizer: true,
        to,
        method: Method::Cancel,
        summary,
        message,
    }
}

fn make_org_request(
    ical: &CalendarObject,
    bump_list: &Vec<(InstanceId, i64)>,
    org: &String,
    req: AHashSet<String>,
    fp: Vec<crate::model::Prop>,
    Ghost(rr): Ghost<Set<Seq<char>>>,
) -> (m: ItipMessage)
    requires
        recipient_set(req) == rr,
    ensures
        m.method == Method::Request,
        org_msg_basics(m, org@),
        vec_matches_set(m.to@, rr),
        m.message.v().len() == ical.v().len() + 1,
        m.message.v()[0].method == Some(Method::Request),
        m.message.v()[0].component_type == crate::model::ComponentType::VCalendar,
        m.message.v().skip(1) == ical.v().map_values(
            |c: ComponentV| finalize_comp(c, bump_list@),
        ),
        m.summary matches ItipSummary::Update(p) && crate::model::props_v(p@)
            == crate::model::props_v(fp@),
{
    // The REQUEST body is the new object with the requested bumps already
    // applied, behind a REQUEST envelope.
    let mut body = clone_object(ical);
    itip_finalize(&mut body, bump_list);
    let ghost bodyv = body.v();
    let mut envelope = itip_build_envelope(Method::Request);
    let mut k: usize = 0;
    while k < body.components.len()
        invariant
            envelope.v().method == Some(Method::Request),
            envelope.v().component_type == crate::model::ComponentType::VCalendar,
        decreases body.components@.len() - k,
    {
        if k < usize::MAX - 1 {
            envelope.component_ids.push(k + 1);
        }
        k += 1;
    }
    let mut comps: Vec<Component> = Vec::new();
    let ghost envv = envelope.v();
    comps.push(envelope);
    let mut k: usize = 0;
    while k < body.components.len()
        invariant
            0 <= k <= body.components@.len(),
            bodyv == body.v(),
            comps@.len() == k + 1,
            comps@[0].v() == envv,
            envv.method == Some(Method::Request),
            forall|t: int| 0 <= t < k ==> (#[trigger] comps@[t + 1].v()) == bodyv[t],
        decreases body.components@.len() - k,
    {
        proof {
            assert(bodyv[k as int] == body.components@[k as int].v());
        }
        let c = crate::model::clone_component(&body.components[k]);
        comps.push(c);
        k += 1;
    }
    let message = CalendarObject { components: comps };
    proof {
        assert(message.v().len() == bodyv.len() + 1);
        assert(message.v()[0] == message.components@[0].v());
        assert(message.v().skip(1) =~= bodyv) by {
            assert(forall|t: int|
                0 <= t < bodyv.len() ==> message.v().skip(1)[t] == (
                #[trigger] message.components@[t + 1].v()));
        }
    }
    let to = recipients_into_vec(req);
    let summary = ItipSummary::Update(fp);
    ItipMessage {
        from: org.clone(),
        from_organizer: true,
        to,
        method: Method::Request,
        summary,
        message,
    }
}


} // verus!
