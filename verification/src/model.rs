//! The structural calendar-object model the engine works on.
//!
//! A calendar object is a flat list of components. One *main* component and
//! zero or more recurrence overrides (keyed by `RECURRENCE-ID`) share a UID;
//! an envelope component (`VCalendar`) carries a METHOD and refers to its
//! children by index. The caller's parser fills this model in; the engine
//! never parses or serializes text.

use vstd::prelude::*;

verus! {

/// Kind of a component inside a calendar object.
#[derive(Clone, Copy, PartialEq, Eq, Structural, Debug)]
pub enum ComponentType {
    VCalendar,
    VEvent,
    VTodo,
    VJournal,
    VFreebusy,
    VTimezone,
}

/// STATUS property values the engine distinguishes.
#[derive(Clone, Copy, PartialEq, Eq, Structural, Debug)]
pub enum Status {
    Tentative,
    Confirmed,
    Cancelled,
}

/// Participation status of an attendee.
#[derive(Clone, Copy, PartialEq, Eq, Structural, Debug)]
pub enum PartStat {
    NeedsAction,
    Accepted,
    Declined,
    Tentative,
    Delegated,
}

/// iTIP METHOD of an emitted or received message.
#[derive(Clone, Copy, PartialEq, Eq, Structural, Debug)]
pub enum Method {
    Request,
    Reply,
    Cancel,
    Add,
    Refresh,
    Counter,
    DeclineCounter,
}

/// SCHEDULE-AGENT parameter: who is responsible for sending messages.
#[derive(Clone, Copy, PartialEq, Eq, Structural, Debug)]
pub enum ScheduleAgent {
    Server,
    Client,
    Other,
}

/// The scheduling-significant properties: a change to one of these requires
/// a SEQUENCE bump and a new REQUEST. The set is fixed; extension
/// properties are never significant.
#[derive(Clone, Copy, PartialEq, Eq, Structural, Debug)]
pub enum PropKind {
    DtStart,
    DtEnd,
    Duration,
    RRule,
    ExDate,
    RDate,
    Summary,
    Location,
    Description,
    Resources,
    Geo,
    Priority,
    Class,
}

impl PropKind {
    /// Canonical ordering code of a significant property; fingerprints list
    /// properties in ascending code order.
    pub open spec fn code(self) -> int {
        match self {
            PropKind::DtStart => 0,
            PropKind::DtEnd => 1,
            PropKind::Duration => 2,
            PropKind::RRule => 3,
            PropKind::ExDate => 4,
            PropKind::RDate => 5,
            PropKind::Summary => 6,
            PropKind::Location => 7,
            PropKind::Description => 8,
            PropKind::Resources => 9,
            PropKind::Geo => 10,
            PropKind::Priority => 11,
            PropKind::Class => 12,
        }
    }
}

/// One significant property with its canonical text serialization, as
/// handed over by the parser.
#[derive(Clone, Debug)]
pub struct Prop {
    pub kind: PropKind,
    pub value: String,
}

/// Mathematical value of a `Prop`.
#[verifier::ext_equal]
pub struct PropV {
    pub kind: PropKind,
    pub value: Seq<char>,
}

impl Prop {
    pub open spec fn v(self) -> PropV {
        PropV { kind: self.kind, value: self.value@ }
    }
}

/// One ATTENDEE line as parsed: the raw address (possibly with a `mailto:`
/// prefix and mixed case) plus the parameters the engine reads.
#[derive(Clone, Debug)]
pub struct Attendee {
    pub email: String,
    pub partstat: Option<PartStat>,
    pub rsvp: Option<bool>,
    pub schedule_agent: ScheduleAgent,
    pub non_participant: bool,
}

/// Mathematical value of an `Attendee`.
#[verifier::ext_equal]
pub struct AttendeeV {
    pub email: Seq<char>,
    pub partstat: Option<PartStat>,
    pub rsvp: Option<bool>,
    pub schedule_agent: ScheduleAgent,
    pub non_participant: bool,
}

impl Attendee {
    pub open spec fn v(self) -> AttendeeV {
        AttendeeV {
            email: self.email@,
            partstat: self.partstat,
            rsvp: self.rsvp,
            schedule_agent: self.schedule_agent,
            non_participant: self.non_participant,
        }
    }
}

/// One component of a calendar object. Fields that a component type does
/// not carry stay `None` or empty.
#[derive(Clone, Debug)]
pub struct Component {
    pub component_type: ComponentType,
    /// Shared object identifier; `None` only on envelopes and timezones.
    pub uid: Option<String>,
    /// `None` on the main component, the override's timestamp otherwise.
    pub recurrence_id: Option<i64>,
    pub sequence: Option<i64>,
    pub status: Option<Status>,
    /// Epoch seconds of the DTSTAMP property.
    pub dtstamp: Option<i64>,
    /// Raw ORGANIZER value.
    pub organizer: Option<String>,
    /// SCHEDULE-AGENT parameter on the ORGANIZER line.
    pub organizer_agent: ScheduleAgent,
    pub attendees: Vec<Attendee>,
    /// The scheduling-significant properties present on this component.
    pub props: Vec<Prop>,
    /// TZIDs referenced by the date properties of this component.
    pub tzids: Vec<String>,
    /// For a `VTimezone` component: its own TZID.
    pub tzid: Option<String>,
    /// For an envelope (`VCalendar`): the iTIP METHOD.
    pub method: Option<Method>,
    /// For an envelope: indices of its child components.
    pub component_ids: Vec<usize>,
}

/// Mathematical value of a `Component`.
#[verifier::ext_equal]
pub struct ComponentV {
    pub component_type: ComponentType,
    pub uid: Option<Seq<char>>,
    pub recurrence_id: Option<i64>,
    pub sequence: Option<i64>,
    pub status: Option<Status>,
    pub dtstamp: Option<i64>,
    pub organizer: Option<Seq<char>>,
    pub organizer_agent: ScheduleAgent,
    pub attendees: Seq<AttendeeV>,
    pub props: Seq<PropV>,
    pub tzids: Seq<Seq<char>>,
    pub tzid: Option<Seq<char>>,
    pub method: Option<Method>,
    pub component_ids: Seq<int>,
}

pub open spec fn view_of_opt_string(s: Option<String>) -> Option<Seq<char>> {
    match s {
        Some(x) => Some(x@),
        None => None,
    }
}

impl Component {
    pub open spec fn v(self) -> ComponentV {
        ComponentV {
            component_type: self.component_type,
            uid: view_of_opt_string(self.uid),
            recurrence_id: self.recurrence_id,
            sequence: self.sequence,
            status: self.status,
            dtstamp: self.dtstamp,
            organizer: view_of_opt_string(self.organizer),
            organizer_agent: self.organizer_agent,
            attendees: self.attendees@.map_values(|a: Attendee| a.v()),
            props: self.props@.map_values(|p: Prop| p.v()),
            tzids: self.tzids@.map_values(|t: String| t@),
            tzid: view_of_opt_string(self.tzid),
            method: self.method,
            component_ids: self.component_ids@.map_values(|i: usize| i as int),
        }
    }
}

/// Identifies a component within a calendar object: the main component or
/// one recurrence override, keyed by its RECURRENCE-ID timestamp.
#[derive(Clone, Copy, PartialEq, Eq, Structural, Debug)]
pub enum InstanceId {
    Main,
    Recurrence(i64),
}

/// Component types that take part in scheduling (everything but envelopes
/// and timezone definitions).
pub open spec fn is_scheduling_type(t: ComponentType) -> bool {
    t == ComponentType::VEvent || t == ComponentType::VTodo || t == ComponentType::VJournal
        || t == ComponentType::VFreebusy
}

/// Exec twin of [`is_scheduling_type`].
pub fn is_scheduling_type_exec(t: ComponentType) -> (r: bool)
    ensures
        r == is_scheduling_type(t),
{
    t == ComponentType::VEvent || t == ComponentType::VTodo || t == ComponentType::VJournal
        || t == ComponentType::VFreebusy
}

/// The instance a component describes.
pub open spec fn instance_id_of(c: ComponentV) -> InstanceId {
    match c.recurrence_id {
        Some(t) => InstanceId::Recurrence(t),
        None => InstanceId::Main,
    }
}

/// SEQUENCE with its default applied.
pub open spec fn seq_or_zero(s: Option<i64>) -> i64 {
    match s {
        Some(v) => v,
        None => 0,
    }
}

/// View of a property list.
pub open spec fn props_v(ps: Seq<Prop>) -> Seq<PropV> {
    ps.map_values(|p: Prop| p.v())
}

/// Copies one significant property.
pub fn clone_prop(p: &Prop) -> (r: Prop)
    ensures
        r.v() == p.v(),
{
    Prop { kind: p.kind, value: p.value.clone() }
}

/// Copies a significant-property list.
pub fn clone_props(ps: &Vec<Prop>) -> (r: Vec<Prop>)
    ensures
        props_v(r@) == props_v(ps@),
{
    let mut out: Vec<Prop> = Vec::new();
    let mut i: usize = 0;
    while i < ps.len()
        invariant
            0 <= i <= ps@.len(),
            props_v(out@) =~= props_v(ps@).subrange(0, i as int),
        decreases ps@.len() - i,
    {
        let p = clone_prop(&ps[i]);
        let ghost prev = props_v(out@);
        out.push(p);
        proof {
            assert(props_v(ps@)[i as int] == ps@[i as int].v());
            assert(props_v(out@) =~= prev.push(p.v()));
            assert(props_v(out@) =~= props_v(ps@).subrange(0, i + 1 as int));
        }
        i += 1;
    }
    proof {
        assert(props_v(ps@).subrange(0, ps@.len() as int) =~= props_v(ps@));
    }
    out
}

/// Copies one attendee line.
pub fn clone_attendee(a: &Attendee) -> (r: Attendee)
    ensures
        r.v() == a.v(),
{
    Attendee {
        email: a.email.clone(),
        partstat: a.partstat,
        rsvp: a.rsvp,
        schedule_agent: a.schedule_agent,
        non_participant: a.non_participant,
    }
}

/// Copies an attendee list.
pub fn clone_attendees(ats: &Vec<Attendee>) -> (r: Vec<Attendee>)
    ensures
        r@.map_values(|a: Attendee| a.v()) == ats@.map_values(|a: Attendee| a.v()),
{
    let mut out: Vec<Attendee> = Vec::new();
    let mut i: usize = 0;
    while i < ats.len()
        invariant
            0 <= i <= ats@.len(),
            out@.map_values(|a: Attendee| a.v()) =~= ats@.map_values(|a: Attendee| a.v()).subrange(
                0,
                i as int,
            ),
        decreases ats@.len() - i,
    {
        let a = clone_attendee(&ats[i]);
        let ghost prev = out@.map_values(|x: Attendee| x.v());
        out.push(a);
        proof {
            assert(out@.map_values(|x: Attendee| x.v()) =~= prev.push(a.v()));
            assert(out@.map_values(|x: Attendee| x.v()) =~= ats@.map_values(
                |x: Attendee| x.v(),
            ).subrange(0, i + 1 as int));
        }
        i += 1;
    }
    proof {
        assert(ats@.map_values(|a: Attendee| a.v()).subrange(0, ats@.len() as int) =~= ats@.map_values(
            |a: Attendee| a.v(),
        ));
    }
    out
}

/// Copies a string list.
pub fn clone_strings(ss: &Vec<String>) -> (r: Vec<String>)
    ensures
        r@.map_values(|s: String| s@) == ss@.map_values(|s: String| s@),
{
    let mut out: Vec<String> = Vec::new();
    let mut i: usize = 0;
    while i < ss.len()
        invariant
            0 <= i <= ss@.len(),
            out@.map_values(|s: String| s@) =~= ss@.map_values(|s: String| s@).subrange(
                0,
                i as int,
            ),
        decreases ss@.len() - i,
    {
        let s = ss[i].clone();
        let ghost prev = out@.map_values(|x: String| x@);
        out.push(s);
        proof {
            assert(out@.map_values(|x: String| x@) =~= prev.push(s@));
            assert(out@.map_values(|x: String| x@) =~= ss@.map_values(|x: String| x@).subrange(
                0,
                i + 1 as int,
            ));
        }
        i += 1;
    }
    proof {
        assert(ss@.map_values(|s: String| s@).subrange(0, ss@.len() as int) =~= ss@.map_values(
            |s: String| s@,
        ));
    }
    out
}

/// Copies an optional string.
pub fn clone_opt_string(s: &Option<String>) -> (r: Option<String>)
    ensures
        view_of_opt_string(r) == view_of_opt_string(*s),
{
    match s {
        Some(x) => Some(x.clone()),
        None => None,
    }
}

/// Copies one component.
pub fn clone_component(c: &Component) -> (r: Component)
    ensures
        r.v() == c.v(),
{
    let mut ids: Vec<usize> = Vec::new();
    let mut i: usize = 0;
    while i < c.component_ids.len()
        invariant
            0 <= i <= c.component_ids@.len(),
            ids@ =~= c.component_ids@.subrange(0, i as int),
        decreases c.component_ids@.len() - i,
    {
        ids.push(c.component_ids[i]);
        proof {
            assert(ids@ =~= c.component_ids@.subrange(0, i + 1 as int));
        }
        i += 1;
    }
    proof {
        assert(c.component_ids@.subrange(0, c.component_ids@.len() as int) =~= c.component_ids@);
    }
    let r = Component {
        component_type: c.component_type,
        uid: clone_opt_string(&c.uid),
        recurrence_id: c.recurrence_id,
        sequence: c.sequence,
        status: c.status,
        dtstamp: c.dtstamp,
        organizer: clone_opt_string(&c.organizer),
        organizer_agent: c.organizer_agent,
        attendees: clone_attendees(&c.attendees),
        props: clone_props(&c.props),
        tzids: clone_strings(&c.tzids),
        tzid: clone_opt_string(&c.tzid),
        method: c.method,
        component_ids: ids,
    };
    proof {
        assert(r.v() =~= c.v());
    }
    r
}

/// A parsed calendar object: a flat, ordered list of components.
#[derive(Clone, Debug)]
pub struct CalendarObject {
    pub components: Vec<Component>,
}

impl CalendarObject {
    pub open spec fn v(self) -> Seq<ComponentV> {
        self.components@.map_values(|c: Component| c.v())
    }
}

/// Copies a whole calendar object.
pub fn clone_object(o: &CalendarObject) -> (r: CalendarObject)
    ensures
        r.v() == o.v(),
{
    let mut out: Vec<Component> = Vec::new();
    let mut i: usize = 0;
    while i < o.components.len()
        invariant
            0 <= i <= o.components@.len(),
            out@.map_values(|c: Component| c.v()) =~= o.v().subrange(0, i as int),
        decreases o.components@.len() - i,
    {
        proof {
            assert(o.v()[i as int] == o.components@[i as int].v());
        }
        let c = clone_component(&o.components[i]);
        let ghost prev = out@.map_values(|x: Component| x.v());
        out.push(c);
        proof {
            assert(out@.map_values(|x: Component| x.v()) =~= prev.push(c.v()));
            assert(out@.map_values(|x: Component| x.v()) =~= o.v().subrange(0, i + 1 as int));
        }
        i += 1;
    }
    proof {
        assert(o.v().subrange(0, o.v().len() as int) =~= o.v());
    }
    CalendarObject { components: out }
}

} // verus!
