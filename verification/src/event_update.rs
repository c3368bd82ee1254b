//! The top-level mutation operations: proposing a freshly created object
//! and updating an existing one.

use vstd::prelude::*;
use crate::model::{
    CalendarObject, Component, ComponentV, InstanceId, Method, clone_component,
};
use crate::snapshot::{
    Snapshot, insts_v, itip_snapshot, lemma_insts_bounded, lemma_snap_insts_unique, main_fp,
    obj_seqs_bounded, org_comp, organizer_v, snap_insts, snapshot_accepts, snapshot_reject,
};
use crate::email::ids_view;
use crate::error::{ItipError, ItipMessage, ItipSummary};
use crate::itip::{finalize_comp, itip_build_envelope, itip_finalize};
use crate::event_cancel::{
    guest_addrs, itip_cancel, last_type, vec_matches_set,
};
use crate::diff::{bumps, cancel_rcpts, request_rcpts};
use crate::organizer::{org_msg_basics, organizer_handle_update};
use crate::attendee::attendee_handle_update;
use crate::outside::{
    recipient_set, recipients_into_vec, recipients_is_empty, recipients_new,
};

verus! {

/// Proposes the scheduling messages for a newly created object: one
/// REQUEST from the local organizer to every attendee, carrying the whole
/// object behind a REQUEST envelope. `NotOrganizer` when the organizer is
/// remote; `NothingToSend` when there is no attendee.
pub fn itip_create(ical: &CalendarObject, account_emails: &Vec<String>) -> (r: Result<
    ItipMessage,
    ItipError,
>)
    ensures
        !snapshot_accepts(ical.v(), ids_view(account_emails@), false) ==> r is Err && r->Err_0
            == snapshot_reject(ical.v(), ids_view(account_emails@), false),
        (snapshot_accepts(ical.v(), ids_view(account_emails@), false) && !organizer_v(
            ical.v(),
            ids_view(account_emails@),
        ).email.is_local) ==> r is Err && r->Err_0 == ItipError::NotOrganizer,
        (snapshot_accepts(ical.v(), ids_view(account_emails@), false) && organizer_v(
            ical.v(),
            ids_view(account_emails@),
        ).email.is_local) ==> ({
            let is = snap_insts(ical.v(), ids_view(account_emails@));
            &&& (r is Err <==> guest_addrs(is) =~= Set::<Seq<char>>::empty())
            &&& r is Err ==> r->Err_0 == ItipError::NothingToSend
            &&& r is Ok ==> ({
                let m = r->Ok_0;
                &&& m.method == Method::Request
                &&& m.from@ == organizer_v(ical.v(), ids_view(account_emails@)).email.email
                &&& m.from_organizer == true
                &&& vec_matches_set(m.to@, guest_addrs(is))
                &&& m.message.v().len() == ical.v().len() + 1
                &&& m.message.v()[0].method == Some(Method::Request)
                &&& m.message.v()[0].component_type == crate::model::ComponentType::VCalendar
                &&& m.message.v().skip(1) == ical.v()
                &&& (m.summary matches ItipSummary::Invite(p) && crate::model::props_v(p@)
                    == main_fp(is))
            })
        }),
{
    let snap = match itip_snapshot(ical, account_emails, false) {
        Ok(s) => s,
        Err(e) => {
            return Err(e);
        },
    };
    let ghost obj = ical.v();
    let ghost idv = ids_view(account_emails@);
    let ghost is = snap_insts(obj, idv);
    proof {
        lemma_snap_insts_unique(obj, idv);
    }
    if !snap.organizer.email.is_local {
        return Err(ItipError::NotOrganizer);
    }

    let mut rcpt = recipients_new();
    let mut i: usize = 0;
    while i < snap.instances.len()
        invariant
            0 <= i <= snap.instances@.len(),
            is == insts_v(snap.instances@),
            recipient_set(rcpt) =~= guest_addrs(is.take(i as int)),
        decreases snap.instances@.len() - i,
    {
        proof {
            assert(is.take(i + 1 as int).drop_last() =~= is.take(i as int));
            assert(is.take(i + 1 as int).last() == is[i as int]);
            assert(is[i as int] == snap.instances@[i as int].v());
        }
        crate::event_cancel::collect_addrs(&snap.instances[i], &mut rcpt);
        proof {
            assert(recipient_set(rcpt) =~= guest_addrs(is.take(i + 1 as int)));
        }
        i += 1;
    }
    proof {
        assert(is.take(snap.instances@.len() as int) =~= is);
        assert(recipient_set(rcpt) == guest_addrs(is));
    }
    if recipients_is_empty(&rcpt) {
        return Err(ItipError::NothingToSend);
    }

    // The message body: the whole object behind a REQUEST envelope.
    let envelope = itip_build_envelope(Method::Request);
    let ghost envv = envelope.v();
    let mut comps: Vec<Component> = Vec::new();
    comps.push(envelope);
    let mut k: usize = 0;
    while k < ical.components.len()
        invariant
            0 <= k <= ical.components@.len(),
            obj == ical.v(),
            comps@.len() == k + 1,
            comps@[0].v() == envv,
            envv.method == Some(Method::Request),
            forall|t: int| 0 <= t < k ==> (#[trigger] comps@[t + 1].v()) == obj[t],
        decreases ical.components@.len() - k,
    {
        proof {
            assert(obj[k as int] == ical.components@[k as int].v());
        }
        comps.push(clone_component(&ical.components[k]));
        k += 1;
    }
    let message = CalendarObject { components: comps };
    proof {
        assert(message.v().len() == obj.len() + 1);
        assert(message.v()[0] == message.components@[0].v());
        assert(message.v().skip(1) =~= obj) by {
            assert(forall|t: int|
                0 <= t < obj.len() ==> message.v().skip(1)[t] == (
                #[trigger] message.components@[t + 1].v()));
        }
    }
    let to = recipients_into_vec(rcpt);
    let summary = ItipSummary::Invite(snap.main_fingerprint());
    Ok(
        ItipMessage {
            from: snap.organizer.email.email,
            from_organizer: true,
            to,
            method: Method::Request,
            summary,
            message,
        },
    )
}

/// Updates an existing object.
///
/// With a local organizer this emits CANCEL and REQUEST messages per the
/// per-instance diff, applies the requested SEQUENCE bumps to the new
/// object in place and resets the bumped instances' participation; with a
/// remote organizer it emits the attendee's REPLY or COUNTER and leaves
/// the object alone. Replacing the organizer is refused. When the new
/// revision no longer carries scheduling information, a local organizer's
/// update cancels the event instead.
#[verifier::rlimit(100)]
pub fn itip_update(
    ical: &mut CalendarObject,
    old_ical: &CalendarObject,
    account_emails: &Vec<String>,
) -> (r: Result<Vec<ItipMessage>, ItipError>)
    requires
        obj_seqs_bounded(old_ical.v()),
    ensures
        ({
            let oobj = old_ical.v();
            let nobj = old(ical).v();
            let idv = ids_view(account_emails@);
            let o_is = snap_insts(oobj, idv);
            let n_is = snap_insts(nobj, idv);
            !snapshot_accepts(oobj, idv, false) ==> r is Err && r->Err_0 == snapshot_reject(
                oobj,
                idv,
                false,
            ) && final(ical).v() == old(ical).v()
        }),
        ({
            let oobj = old_ical.v();
            let nobj = old(ical).v();
            let idv = ids_view(account_emails@);
            let o_is = snap_insts(oobj, idv);
            let n_is = snap_insts(nobj, idv);
            (snapshot_accepts(oobj, idv, false) && snapshot_accepts(nobj, idv, false)
                && organizer_v(oobj, idv).email.email != organizer_v(nobj, idv).email.email) ==> r
                is Err && r->Err_0 == ItipError::OrganizerMismatch && final(ical).v() == old(
                ical,
            ).v()
        }),
        ({
            let oobj = old_ical.v();
            let nobj = old(ical).v();
            let idv = ids_view(account_emails@);
            let o_is = snap_insts(oobj, idv);
            let n_is = snap_insts(nobj, idv);
            (snapshot_accepts(oobj, idv, false) && snapshot_accepts(nobj, idv, false)
                && organizer_v(oobj, idv).email.email == organizer_v(nobj, idv).email.email
                && organizer_v(oobj, idv).email.is_local) ==> ({
                &&& (r is Err <==> (cancel_rcpts(o_is, n_is) =~= Set::<Seq<char>>::empty()
                    && request_rcpts(o_is, n_is) =~= Set::<Seq<char>>::empty()))
                &&& r is Err ==> r->Err_0 == ItipError::NothingToSend && final(ical).v() == old(
                    ical,
                ).v()
                &&& r is Ok ==> final(ical).v() == old(ical).v().map_values(
                    |c: ComponentV| finalize_comp(c, bumps(o_is, n_is)),
                )
                &&& r is Ok ==> ({
                    let ms = r->Ok_0@;
                    &&& 1 <= ms.len() <= 2
                    &&& (ms.len() == 2 <==> (!(cancel_rcpts(o_is, n_is) =~= Set::<
                        Seq<char>,
                    >::empty()) && !(request_rcpts(o_is, n_is) =~= Set::<Seq<char>>::empty())))
                    &&& forall|k: int|
                        0 <= k < ms.len() ==> org_msg_basics(
                            #[trigger] ms[k],
                            organizer_v(oobj, idv).email.email,
                        )
                    &&& !(cancel_rcpts(o_is, n_is) =~= Set::<Seq<char>>::empty()) ==> ({
                        let m = ms[0];
                        &&& m.method == Method::Cancel
                        &&& vec_matches_set(m.to@, cancel_rcpts(o_is, n_is))
                        &&& m.message.v().len() == 2
                        &&& crate::event_cancel::cancel_comp_scalars(
                            m.message.v()[1],
                            crate::snapshot::org_comp(nobj).uid->0,
                            organizer_v(oobj, idv).email.email,
                            last_type(o_is),
                            (crate::snapshot::main_seq(o_is) + 1) as i64,
                            m.message.v()[1].dtstamp->0,
                        )
                        &&& crate::event_cancel::vec_matches_addr_lines(
                            m.message.v()[1].attendees,
                            cancel_rcpts(o_is, n_is),
                        )
                    })
                    &&& !(request_rcpts(o_is, n_is) =~= Set::<Seq<char>>::empty()) ==> ({
                        let m = ms[ms.len() - 1];
                        &&& m.method == Method::Request
                        &&& vec_matches_set(m.to@, request_rcpts(o_is, n_is))
                        &&& m.message.v().len() == old(ical).v().len() + 1
                        &&& m.message.v()[0].method == Some(Method::Request)
                        &&& m.message.v()[0].component_type
                            == crate::model::ComponentType::VCalendar
                        &&& m.message.v().skip(1) == old(ical).v().map_values(
                            |c: ComponentV| finalize_comp(c, bumps(o_is, n_is)),
                        )
                        &&& m.message.v().skip(1) == final(ical).v()
                    })
                })
            })
        }),
        ({
            let oobj = old_ical.v();
            let nobj = old(ical).v();
            let idv = ids_view(account_emails@);
            let o_is = snap_insts(oobj, idv);
            let n_is = snap_insts(nobj, idv);
            (snapshot_accepts(oobj, idv, false) && snapshot_accepts(nobj, idv, false)
                && organizer_v(oobj, idv).email.email == organizer_v(nobj, idv).email.email
                && !organizer_v(oobj, idv).email.is_local) ==> ({
                &&& final(ical).v() == old(ical).v()
                &&& crate::attendee::attendee_update_outcome(
                    r,
                    o_is,
                    n_is,
                    nobj,
                    crate::snapshot::org_comp(oobj).uid->0,
                    crate::snapshot::org_comp(nobj).uid->0,
                    organizer_v(oobj, idv).email.email,
                )
            })
        }),
        ({
            let oobj = old_ical.v();
            let nobj = old(ical).v();
            let idv = ids_view(account_emails@);
            let o_is = snap_insts(oobj, idv);
            let n_is = snap_insts(nobj, idv);
            (snapshot_accepts(oobj, idv, false) && !snapshot_accepts(nobj, idv, false)) ==> ({
                let rej = snapshot_reject(nobj, idv, false);
                &&& final(ical).v() == old(ical).v()
                &&& (rej == ItipError::NoSchedulingInfo || rej
                    == ItipError::NotOrganizerNorAttendee || rej
                    == ItipError::OtherSchedulingAgent) ==> ({
                    &&& !organizer_v(oobj, idv).email.is_local ==> r is Err && r->Err_0
                        == ItipError::CannotModifyAddress
                    &&& organizer_v(oobj, idv).email.is_local ==> ({
                        &&& (r is Err <==> (guest_addrs(o_is) =~= Set::<Seq<char>>::empty()
                            || last_type(o_is) == crate::model::ComponentType::VFreebusy))
                        &&& r is Err ==> r->Err_0 == ItipError::NothingToSend
                        &&& r is Ok ==> ({
                            let ms = r->Ok_0@;
                            &&& ms.len() == 1
                            &&& ms[0].method == Method::Cancel
                            &&& org_msg_basics(ms[0], organizer_v(oobj, idv).email.email)
                            &&& vec_matches_set(ms[0].to@, guest_addrs(o_is))
                            &&& ms[0].message.v().len() == 2
                            &&& crate::event_cancel::cancel_comp_scalars(
                                ms[0].message.v()[1],
                                crate::snapshot::org_comp(oobj).uid->0,
                                organizer_v(oobj, idv).email.email,
                                last_type(o_is),
                                (crate::snapshot::main_seq(o_is) + 1) as i64,
                                ms[0].message.v()[1].dtstamp->0,
                            )
                        })
                    })
                })
            })
        }),
{
    let ghost oobj = old_ical.v();
    let ghost idv = ids_view(account_emails@);
    let old_itip = match itip_snapshot(old_ical, account_emails, false) {
        Ok(s) => s,
        Err(e) => {
            return Err(e);
        },
    };
    proof {
        lemma_snap_insts_unique(oobj, idv);
        lemma_insts_bounded(oobj, idv);
    }
    match itip_snapshot(ical, account_emails, false) {
        Ok(new_itip) => {
            let ghost nobj = ical.v();
            proof {
                lemma_snap_insts_unique(nobj, idv);
            }
            let mut sequences: Vec<(InstanceId, i64)> = Vec::new();
            if !old_itip.organizer.email.email.eq(&new_itip.organizer.email.email) {
                // Replacing the organizer of an existing event is not
                // supported by the scheduling workflow.
                Err(ItipError::OrganizerMismatch)
            } else if old_itip.organizer.email.is_local {
                let out = organizer_handle_update(ical, old_itip, new_itip, &mut sequences);
                match out {
                    Ok(msgs) => {
                        itip_finalize(ical, &sequences);
                        Ok(msgs)
                    },
                    Err(e) => Err(e),
                }
            } else {
                attendee_handle_update(ical, old_itip, new_itip)
            }
        },
        Err(err) => {
            match err {
                ItipError::NoSchedulingInfo
                | ItipError::NotOrganizer
                | ItipError::NotOrganizerNorAttendee
                | ItipError::OtherSchedulingAgent => {
                    if old_itip.organizer.email.is_local {
                        // The new revision no longer carries scheduling
                        // information: cancel the event for the guests.
                        match itip_cancel(old_ical, account_emails) {
                            Ok(message) => {
                                let mut v: Vec<ItipMessage> = Vec::new();
                                v.push(message);
                                Ok(v)
                            },
                            Err(e) => Err(e),
                        }
                    } else {
                        Err(ItipError::CannotModifyAddress)
                    }
                },
                _ => Err(err),
            }
        },
    }
}

} // verus!
