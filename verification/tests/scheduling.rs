use itip_engine::model::{
    Attendee, CalendarObject, Component, ComponentType, InstanceId, Method, PartStat, Prop,
    PropKind, ScheduleAgent, Status,
};
use itip_engine::error::ItipError;
use itip_engine::email::normalize_email;
use itip_engine::event_cancel::itip_cancel;
use itip_engine::event_update::{itip_create, itip_update};
use itip_engine::inbound::{process_inbound, InboundAction};
use itip_engine::read_version::ReadVersion;
use itip_engine::snapshot::check_seqs_bounded;
use itip_engine::attendee::itip_refresh;

fn attendee(email: &str) -> Attendee {
    Attendee {
        email: email.to_string(),
        partstat: Some(PartStat::NeedsAction),
        rsvp: None,
        schedule_agent: ScheduleAgent::Server,
        non_participant: false,
    }
}

fn prop(kind: PropKind, value: &str) -> Prop {
    Prop { kind, value: value.to_string() }
}

fn event(
    uid: &str,
    organizer: &str,
    attendees: Vec<Attendee>,
    sequence: Option<i64>,
    props: Vec<Prop>,
) -> Component {
    Component {
        component_type: ComponentType::VEvent,
        uid: Some(uid.to_string()),
        recurrence_id: None,
        sequence,
        status: None,
        dtstamp: Some(100),
        organizer: Some(organizer.to_string()),
        organizer_agent: ScheduleAgent::Server,
        attendees,
        props,
        tzids: Vec::new(),
        tzid: None,
        method: None,
        component_ids: Vec::new(),
    }
}

fn obj(comps: Vec<Component>) -> CalendarObject {
    CalendarObject { components: comps }
}

fn ids(v: &[&str]) -> Vec<String> {
    v.iter().map(|s| s.to_string()).collect()
}

#[test]
fn normalize_strips_mailto_and_case() {
    assert_eq!(normalize_email("MAILTO:B@Y.example"), "b@y.example");
    assert_eq!(normalize_email("a@X.example"), "a@x.example");
    assert_eq!(normalize_email("mailto:"), "");
    assert_eq!(normalize_email("short"), "short");
}

#[test]
fn s1_organizer_creates_event() {
    let o = obj(vec![event(
        "u",
        "mailto:a@x.example",
        vec![attendee("b@y.example")],
        Some(0),
        vec![prop(PropKind::DtStart, "20260101T100000Z")],
    )]);
    let m = itip_create(&o, &ids(&["a@x.example"])).expect("one request");
    assert_eq!(m.method, Method::Request);
    assert_eq!(m.from, "a@x.example");
    assert!(m.from_organizer);
    assert_eq!(m.to, vec!["b@y.example".to_string()]);
    // The body is the object behind a REQUEST envelope, sequence untouched.
    assert_eq!(m.message.components.len(), 2);
    assert_eq!(m.message.components[0].method, Some(Method::Request));
    assert_eq!(m.message.components[1].sequence, Some(0));
}

#[test]
fn s2_organizer_updates_dtstart() {
    let old = obj(vec![event(
        "u",
        "a@x.example",
        vec![attendee("b@y.example")],
        Some(0),
        vec![prop(PropKind::DtStart, "20260101T100000Z")],
    )]);
    let mut new = obj(vec![event(
        "u",
        "a@x.example",
        vec![{
            let mut a = attendee("b@y.example");
            a.partstat = Some(PartStat::Accepted);
            a
        }],
        Some(0),
        vec![prop(PropKind::DtStart, "20260101T110000Z")],
    )]);
    assert!(check_seqs_bounded(&old));
    let ms = itip_update(&mut new, &old, &ids(&["a@x.example"])).expect("request");
    assert_eq!(ms.len(), 1);
    assert_eq!(ms[0].method, Method::Request);
    assert_eq!(ms[0].to, vec!["b@y.example".to_string()]);
    // The emitted body and the finalized object carry SEQUENCE 1 and the
    // attendee participation is reset.
    assert_eq!(ms[0].message.components[1].sequence, Some(1));
    assert_eq!(new.components[0].sequence, Some(1));
    assert_eq!(new.components[0].attendees[0].partstat, Some(PartStat::NeedsAction));
}

#[test]
fn s3_summary_is_significant() {
    let old = obj(vec![event(
        "u",
        "a@x.example",
        vec![attendee("b@y.example")],
        Some(0),
        vec![prop(PropKind::Summary, "Old title")],
    )]);
    let mut new = obj(vec![event(
        "u",
        "a@x.example",
        vec![attendee("b@y.example")],
        Some(0),
        vec![prop(PropKind::Summary, "New title")],
    )]);
    let ms = itip_update(&mut new, &old, &ids(&["a@x.example"])).expect("request");
    assert_eq!(ms.len(), 1);
    assert_eq!(ms[0].method, Method::Request);
    assert_eq!(new.components[0].sequence, Some(1));
}

#[test]
fn s4_swap_attendee_cancel_before_request() {
    let old = obj(vec![event(
        "u",
        "a@x.example",
        vec![attendee("b@y.example")],
        Some(0),
        vec![prop(PropKind::DtStart, "20260101T100000Z")],
    )]);
    let mut new = obj(vec![event(
        "u",
        "a@x.example",
        vec![attendee("c@z.example")],
        Some(0),
        vec![prop(PropKind::DtStart, "20260101T100000Z")],
    )]);
    let ms = itip_update(&mut new, &old, &ids(&["a@x.example"])).expect("two messages");
    assert_eq!(ms.len(), 2);
    assert_eq!(ms[0].method, Method::Cancel);
    assert_eq!(ms[0].to, vec!["b@y.example".to_string()]);
    assert_eq!(ms[0].message.components[1].sequence, Some(1));
    assert_eq!(ms[1].method, Method::Request);
    assert_eq!(ms[1].to, vec!["c@z.example".to_string()]);
    assert_eq!(ms[1].message.components[1].sequence, Some(1));
}

#[test]
fn s5_attendee_accepts() {
    let old = obj(vec![event(
        "u",
        "a@x.example",
        vec![attendee("b@y.example")],
        Some(0),
        vec![prop(PropKind::DtStart, "20260101T100000Z")],
    )]);
    let mut new = obj(vec![event(
        "u",
        "a@x.example",
        vec![{
            let mut a = attendee("b@y.example");
            a.partstat = Some(PartStat::Accepted);
            a
        }],
        Some(0),
        vec![prop(PropKind::DtStart, "20260101T100000Z")],
    )]);
    let ms = itip_update(&mut new, &old, &ids(&["b@y.example"])).expect("reply");
    assert_eq!(ms.len(), 1);
    assert_eq!(ms[0].method, Method::Reply);
    assert!(!ms[0].from_organizer);
    assert_eq!(ms[0].from, "b@y.example");
    assert_eq!(ms[0].to, vec!["a@x.example".to_string()]);
    // The attendee never bumps the sequence.
    assert_eq!(new.components[0].sequence, Some(0));
}

#[test]
fn s6_inbound_stale_request_is_dropped() {
    let stored = obj(vec![event(
        "u",
        "a@x.example",
        vec![attendee("b@y.example")],
        Some(2),
        vec![prop(PropKind::DtStart, "20260101T100000Z")],
    )]);
    let incoming = obj(vec![
        {
            let mut env = event("u", "a@x.example", vec![], None, vec![]);
            env.component_type = ComponentType::VCalendar;
            env.uid = None;
            env.organizer = None;
            env.method = Some(Method::Request);
            env
        },
        event(
            "u",
            "a@x.example",
            vec![attendee("b@y.example")],
            Some(1),
            vec![prop(PropKind::DtStart, "20260101T090000Z")],
        ),
    ]);
    let r = process_inbound(&incoming, Some(&stored), &ids(&["b@y.example"])).expect("ok");
    match r {
        InboundAction::Store(o) => {
            // The stale instance was ignored: the stored revision stays.
            assert_eq!(o.components[0].sequence, Some(2));
            assert_eq!(o.components[0].props[0].value, "20260101T100000Z");
        },
        _ => panic!("expected a store"),
    }
}

#[test]
fn s7_cancel_vfreebusy_has_nothing_to_send() {
    let mut c = event("u", "a@x.example", vec![attendee("b@y.example")], Some(0), vec![]);
    c.component_type = ComponentType::VFreebusy;
    let o = obj(vec![c]);
    let r = itip_cancel(&o, &ids(&["a@x.example"]));
    assert_eq!(r.err(), Some(ItipError::NothingToSend));
}

#[test]
fn organizer_cancel_emits_bumped_cancel() {
    let o = obj(vec![event(
        "u",
        "a@x.example",
        vec![attendee("b@y.example"), attendee("c@z.example")],
        Some(3),
        vec![prop(PropKind::DtStart, "20260101T100000Z")],
    )]);
    let m = itip_cancel(&o, &ids(&["a@x.example"])).expect("cancel");
    assert_eq!(m.method, Method::Cancel);
    assert!(m.from_organizer);
    let mut to = m.to.clone();
    to.sort();
    assert_eq!(to, vec!["b@y.example".to_string(), "c@z.example".to_string()]);
    assert_eq!(m.message.components[1].sequence, Some(4));
    assert_eq!(m.message.components[1].status, Some(Status::Cancelled));
    assert_eq!(m.message.components[1].uid, Some("u".to_string()));
}

#[test]
fn attendee_cancel_declines() {
    let o = obj(vec![event(
        "u",
        "a@x.example",
        vec![attendee("b@y.example")],
        Some(0),
        vec![prop(PropKind::DtStart, "20260101T100000Z")],
    )]);
    let m = itip_cancel(&o, &ids(&["b@y.example"])).expect("decline reply");
    assert_eq!(m.method, Method::Reply);
    assert!(!m.from_organizer);
    assert_eq!(m.from, "b@y.example");
    assert_eq!(m.to, vec!["a@x.example".to_string()]);
    assert_eq!(m.message.components[1].attendees[0].partstat, Some(PartStat::Declined));
}

#[test]
fn create_without_organizer_role_is_refused() {
    let o = obj(vec![event("u", "a@x.example", vec![attendee("b@y.example")], Some(0), vec![])]);
    let r = itip_create(&o, &ids(&["b@y.example"]));
    assert_eq!(r.err(), Some(ItipError::NotOrganizer));
}

#[test]
fn no_scheduling_info_without_attendees() {
    let o = obj(vec![event("u", "a@x.example", vec![], Some(0), vec![])]);
    let r = itip_create(&o, &ids(&["a@x.example"]));
    assert_eq!(r.err(), Some(ItipError::NoSchedulingInfo));
}

#[test]
fn nobody_local_is_refused() {
    let o = obj(vec![event("u", "a@x.example", vec![attendee("b@y.example")], Some(0), vec![])]);
    let r = itip_create(&o, &ids(&["other@q.example"]));
    assert_eq!(r.err(), Some(ItipError::NotOrganizerNorAttendee));
}

#[test]
fn other_scheduling_agent_is_refused() {
    let mut c = event("u", "a@x.example", vec![attendee("b@y.example")], Some(0), vec![]);
    c.organizer_agent = ScheduleAgent::Client;
    let o = obj(vec![c]);
    let r = itip_create(&o, &ids(&["a@x.example"]));
    assert_eq!(r.err(), Some(ItipError::OtherSchedulingAgent));
}

#[test]
fn p2_identical_update_sends_nothing_and_keeps_object() {
    let old = obj(vec![event(
        "u",
        "a@x.example",
        vec![attendee("b@y.example")],
        Some(5),
        vec![prop(PropKind::DtStart, "20260101T100000Z")],
    )]);
    let mut new = obj(vec![event(
        "u",
        "a@x.example",
        vec![attendee("b@y.example")],
        Some(5),
        vec![prop(PropKind::DtStart, "20260101T100000Z")],
    )]);
    let r = itip_update(&mut new, &old, &ids(&["a@x.example"]));
    assert_eq!(r.err(), Some(ItipError::NothingToSend));
    assert_eq!(new.components[0].sequence, Some(5));
    assert_eq!(new.components[0].attendees[0].partstat, Some(PartStat::NeedsAction));
}

#[test]
fn organizer_change_is_refused() {
    let old = obj(vec![event("u", "a@x.example", vec![attendee("b@y.example")], Some(0), vec![])]);
    let mut new = obj(vec![event(
        "u",
        "d@w.example",
        vec![attendee("b@y.example")],
        Some(0),
        vec![],
    )]);
    let r = itip_update(&mut new, &old, &ids(&["a@x.example", "d@w.example"]));
    assert_eq!(r.err(), Some(ItipError::OrganizerMismatch));
}

#[test]
fn p4_fresh_inbound_request_stores_body() {
    let o = obj(vec![event(
        "u",
        "a@x.example",
        vec![attendee("b@y.example")],
        Some(0),
        vec![prop(PropKind::DtStart, "20260101T100000Z")],
    )]);
    let m = itip_create(&o, &ids(&["a@x.example"])).expect("request");
    let r = process_inbound(&m.message, None, &ids(&["b@y.example"])).expect("ok");
    match r {
        InboundAction::Store(st) => {
            // The stored object carries the same instance fingerprints.
            assert_eq!(st.components[1].props[0].value, "20260101T100000Z");
            assert_eq!(st.components[1].sequence, Some(0));
            assert_eq!(st.components[1].uid, Some("u".to_string()));
        },
        _ => panic!("expected a store"),
    }
}

#[test]
fn p5_same_request_twice_changes_nothing_more() {
    let o = obj(vec![event(
        "u",
        "a@x.example",
        vec![attendee("b@y.example")],
        Some(1),
        vec![prop(PropKind::DtStart, "20260101T100000Z")],
    )]);
    let m = itip_create(&o, &ids(&["a@x.example"])).expect("request");
    let first = match process_inbound(&m.message, None, &ids(&["b@y.example"])).expect("ok") {
        InboundAction::Store(st) => st,
        _ => panic!("expected a store"),
    };
    let second = match process_inbound(&m.message, Some(&first), &ids(&["b@y.example"])).expect(
        "ok",
    ) {
        InboundAction::Store(st) => st,
        _ => panic!("expected a store"),
    };
    assert_eq!(second.components.len(), first.components.len());
    assert_eq!(second.components[1].sequence, first.components[1].sequence);
    assert_eq!(second.components[1].props[0].value, first.components[1].props[0].value);
    assert_eq!(
        second.components[1].attendees[0].partstat,
        first.components[1].attendees[0].partstat
    );
}

#[test]
fn p6_inbound_reply_keeps_significant_fields() {
    let stored = obj(vec![event(
        "u",
        "a@x.example",
        vec![attendee("b@y.example")],
        Some(0),
        vec![prop(PropKind::DtStart, "20260101T100000Z")],
    )]);
    let mut reply_comp = event(
        "u",
        "a@x.example",
        vec![{
            let mut a = attendee("b@y.example");
            a.partstat = Some(PartStat::Accepted);
            a
        }],
        Some(0),
        vec![prop(PropKind::DtStart, "20991231T000000Z")],
    );
    reply_comp.dtstamp = Some(200);
    let incoming = obj(vec![
        {
            let mut env = event("u", "a@x.example", vec![], None, vec![]);
            env.component_type = ComponentType::VCalendar;
            env.uid = None;
            env.organizer = None;
            env.method = Some(Method::Reply);
            env
        },
        reply_comp,
    ]);
    let r = process_inbound(&incoming, Some(&stored), &ids(&["a@x.example"])).expect("ok");
    match r {
        InboundAction::Store(o) => {
            // Participation is updated, the significant fields are not.
            assert_eq!(o.components[0].attendees[0].partstat, Some(PartStat::Accepted));
            assert_eq!(o.components[0].props[0].value, "20260101T100000Z");
            assert_eq!(o.components[0].sequence, Some(0));
        },
        _ => panic!("expected a store"),
    }
}

#[test]
fn inbound_without_method_is_unsupported() {
    let o = obj(vec![event("u", "a@x.example", vec![attendee("b@y.example")], Some(0), vec![])]);
    let r = process_inbound(&o, None, &ids(&["b@y.example"]));
    assert_eq!(r.err(), Some(ItipError::UnsupportedMethod));
}

#[test]
fn inbound_uid_mismatch_is_refused() {
    let stored = obj(vec![event("v", "a@x.example", vec![attendee("b@y.example")], Some(0), vec![])]);
    let incoming = obj(vec![
        {
            let mut env = event("u", "a@x.example", vec![], None, vec![]);
            env.component_type = ComponentType::VCalendar;
            env.uid = None;
            env.organizer = None;
            env.method = Some(Method::Request);
            env
        },
        event("u", "a@x.example", vec![attendee("b@y.example")], Some(0), vec![]),
    ]);
    let r = process_inbound(&incoming, Some(&stored), &ids(&["b@y.example"]));
    assert_eq!(r.err(), Some(ItipError::UidMismatch));
}

#[test]
fn inbound_refresh_asks_for_resend() {
    let incoming = obj(vec![
        {
            let mut env = event("u", "a@x.example", vec![], None, vec![]);
            env.component_type = ComponentType::VCalendar;
            env.uid = None;
            env.organizer = None;
            env.method = Some(Method::Refresh);
            env
        },
        event("u", "a@x.example", vec![attendee("b@y.example")], Some(0), vec![]),
    ]);
    let r = process_inbound(&incoming, None, &ids(&["a@x.example"])).expect("ok");
    assert!(matches!(r, InboundAction::Resend));
}

#[test]
fn inbound_cancel_of_main_removes_object() {
    let stored = obj(vec![event("u", "a@x.example", vec![attendee("b@y.example")], Some(0), vec![])]);
    let incoming = obj(vec![
        {
            let mut env = event("u", "a@x.example", vec![], None, vec![]);
            env.component_type = ComponentType::VCalendar;
            env.uid = None;
            env.organizer = None;
            env.method = Some(Method::Cancel);
            env
        },
        event("u", "a@x.example", vec![attendee("b@y.example")], Some(1), vec![]),
    ]);
    let r = process_inbound(&incoming, Some(&stored), &ids(&["b@y.example"])).expect("ok");
    assert!(matches!(r, InboundAction::Remove));
}

#[test]
fn attendee_may_not_touch_rrule() {
    let old = obj(vec![event(
        "u",
        "a@x.example",
        vec![attendee("b@y.example")],
        Some(0),
        vec![prop(PropKind::RRule, "FREQ=DAILY")],
    )]);
    let mut new = obj(vec![event(
        "u",
        "a@x.example",
        vec![attendee("b@y.example")],
        Some(0),
        vec![prop(PropKind::RRule, "FREQ=WEEKLY")],
    )]);
    let r = itip_update(&mut new, &old, &ids(&["b@y.example"]));
    assert_eq!(r.err(), Some(ItipError::CannotModifyProperty));
}

#[test]
fn attendee_may_not_invite_others() {
    let old = obj(vec![event("u", "a@x.example", vec![attendee("b@y.example")], Some(0), vec![])]);
    let mut new = obj(vec![event(
        "u",
        "a@x.example",
        vec![attendee("b@y.example"), attendee("c@z.example")],
        Some(0),
        vec![],
    )]);
    let r = itip_update(&mut new, &old, &ids(&["b@y.example"]));
    assert_eq!(r.err(), Some(ItipError::CannotModifyAddress));
}

#[test]
fn attendee_counters_a_new_location() {
    let old = obj(vec![event(
        "u",
        "a@x.example",
        vec![attendee("b@y.example")],
        Some(0),
        vec![prop(PropKind::Location, "Room 1")],
    )]);
    let mut new = obj(vec![event(
        "u",
        "a@x.example",
        vec![attendee("b@y.example")],
        Some(0),
        vec![prop(PropKind::Location, "Room 2")],
    )]);
    let ms = itip_update(&mut new, &old, &ids(&["b@y.example"])).expect("counter");
    assert_eq!(ms.len(), 1);
    assert_eq!(ms[0].method, Method::Counter);
    assert_eq!(ms[0].to, vec!["a@x.example".to_string()]);
    assert!(!ms[0].from_organizer);
}

#[test]
fn duplicate_attendees_get_one_message() {
    let o = obj(vec![event(
        "u",
        "a@x.example",
        vec![attendee("b@y.example"), attendee("MAILTO:B@Y.example")],
        Some(0),
        vec![prop(PropKind::DtStart, "20260101T100000Z")],
    )]);
    let m = itip_create(&o, &ids(&["a@x.example"])).expect("request");
    assert_eq!(m.to, vec!["b@y.example".to_string()]);
}

#[test]
fn read_version_expiry() {
    let v = ReadVersion::new(42);
    assert_eq!(v.version, 42);
    assert!(!v.is_expired_at(v.expires));
    assert!(v.is_expired_at(v.expires + 1));
    let d = ReadVersion::default();
    assert_eq!(d.version, 0);
}

#[test]
fn attendee_requests_refresh() {
    let o = obj(vec![event(
        "u",
        "a@x.example",
        vec![attendee("b@y.example")],
        Some(0),
        vec![prop(PropKind::DtStart, "20260101T100000Z")],
    )]);
    let m = itip_refresh(&o, &ids(&["b@y.example"])).expect("refresh");
    assert_eq!(m.method, Method::Refresh);
    assert_eq!(m.from, "b@y.example");
    assert_eq!(m.to, vec!["a@x.example".to_string()]);
    assert_eq!(m.message.components[0].method, Some(Method::Refresh));
    assert_eq!(m.message.components[1].uid, Some("u".to_string()));
    let r = itip_refresh(&o, &ids(&["a@x.example"]));
    assert_eq!(r.err(), Some(ItipError::NotOrganizerNorAttendee));
}

#[test]
fn suppressed_attendee_still_receives_cancel() {
    let mut quiet = attendee("c@z.example");
    quiet.rsvp = Some(false);
    let o = obj(vec![event(
        "u",
        "a@x.example",
        vec![attendee("b@y.example"), quiet],
        Some(0),
        vec![prop(PropKind::DtStart, "20260101T100000Z")],
    )]);
    let m = itip_cancel(&o, &ids(&["a@x.example"])).expect("cancel");
    let mut to = m.to.clone();
    to.sort();
    assert_eq!(to, vec!["b@y.example".to_string(), "c@z.example".to_string()]);
}

#[test]
fn suppressed_attendee_still_receives_significant_request() {
    let mut quiet = attendee("b@y.example");
    quiet.rsvp = Some(false);
    let old = obj(vec![event(
        "u",
        "a@x.example",
        vec![quiet.clone()],
        Some(0),
        vec![prop(PropKind::DtStart, "20260101T100000Z")],
    )]);
    let mut new = obj(vec![event(
        "u",
        "a@x.example",
        vec![quiet],
        Some(0),
        vec![prop(PropKind::DtStart, "20260101T110000Z")],
    )]);
    let ms = itip_update(&mut new, &old, &ids(&["a@x.example"])).expect("request");
    assert_eq!(ms.len(), 1);
    assert_eq!(ms[0].method, Method::Request);
    assert_eq!(ms[0].to, vec!["b@y.example".to_string()]);
}

#[test]
fn inbound_stale_cancel_of_main_is_dropped() {
    let stored = obj(vec![event(
        "u",
        "a@x.example",
        vec![attendee("b@y.example")],
        Some(2),
        vec![prop(PropKind::DtStart, "20260101T100000Z")],
    )]);
    let incoming = obj(vec![
        {
            let mut env = event("u", "a@x.example", vec![], None, vec![]);
            env.component_type = ComponentType::VCalendar;
            env.uid = None;
            env.organizer = None;
            env.method = Some(Method::Cancel);
            env
        },
        event("u", "a@x.example", vec![attendee("b@y.example")], Some(1), vec![]),
    ]);
    // A delayed, out-of-date cancel must not delete the stored object.
    let r = process_inbound(&incoming, Some(&stored), &ids(&["b@y.example"])).expect("ok");
    assert!(matches!(r, InboundAction::Unchanged));
}

#[test]
fn reply_envelope_references_children() {
    let old = obj(vec![event(
        "u",
        "a@x.example",
        vec![attendee("b@y.example")],
        Some(0),
        vec![prop(PropKind::DtStart, "20260101T100000Z")],
    )]);
    let mut new = obj(vec![event(
        "u",
        "a@x.example",
        vec![{
            let mut a = attendee("b@y.example");
            a.partstat = Some(PartStat::Accepted);
            a
        }],
        Some(0),
        vec![prop(PropKind::DtStart, "20260101T100000Z")],
    )]);
    let ms = itip_update(&mut new, &old, &ids(&["b@y.example"])).expect("reply");
    assert_eq!(ms[0].message.components[0].component_ids, vec![1]);
    assert_eq!(ms[0].message.components[1].uid, Some("u".to_string()));
    assert_eq!(ms[0].message.components[1].attendees.len(), 1);
}
