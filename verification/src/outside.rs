//! Trusted boundary to the outside crates the engine leans on: calcard's
//! clock for DTSTAMP values and ahash's hashed set for recipient
//! deduplication.

use vstd::prelude::*;
use calcard::common::PartialDateTime;
use ahash::AHashSet;

verus! {

#[verifier::external_type_specification]
#[verifier::external_body]
pub struct ExPartialDateTime(PartialDateTime);

/// Relies on calcard's `PartialDateTime::now`: the current UTC date and
/// time. Nothing can be promised of a clock reading.
#[verifier::external_body]
fn pdt_now() -> (r: PartialDateTime) {
    PartialDateTime::now()
}

/// Relies on calcard's `PartialDateTime::to_timestamp`: epoch seconds when
/// the value carries a complete date and time, `None` otherwise.
#[verifier::external_body]
fn pdt_to_timestamp(p: &PartialDateTime) -> (r: Option<i64>) {
    p.to_timestamp()
}

/// The DTSTAMP the engine stamps on emitted components: the current time
/// as epoch seconds (0 when the clock hands back an incomplete time). The
/// result depends on the clock, so nothing is stated of its value.
pub fn dtstamp_now() -> i64 {
    match pdt_to_timestamp(&pdt_now()) {
        Some(t) => t,
        None => 0,
    }
}

#[verifier::external_type_specification]
#[verifier::external_body]
pub struct ExRandomState(ahash::RandomState);

#[verifier::external_type_specification]
#[verifier::external_body]
#[verifier::reject_recursive_types(T)]
#[verifier::reject_recursive_types(S)]
pub struct ExAHashSet<T, S>(AHashSet<T, S>);

/// The addresses a recipient set holds.
pub uninterp spec fn recipient_set(s: AHashSet<String>) -> Set<Seq<char>>;

/// Relies on ahash's `AHashSet::new`: a newly made set is empty.
#[verifier::external_body]
pub fn recipients_new() -> (r: AHashSet<String>)
    ensures
        recipient_set(r) == Set::<Seq<char>>::empty(),
{
    AHashSet::new()
}

/// Relies on `HashSet::insert` (reached through ahash's `AHashSet`): the
/// element joins the contents, which are otherwise unchanged.
#[verifier::external_body]
pub fn recipients_insert(s: &mut AHashSet<String>, email: &String)
    ensures
        recipient_set(*final(s)) == recipient_set(*old(s)).insert(email@),
{
    s.insert(email.clone());
}

/// Relies on `HashSet::is_empty` (reached through ahash's `AHashSet`).
#[verifier::external_body]
pub fn recipients_is_empty(s: &AHashSet<String>) -> (r: bool)
    ensures
        r == (recipient_set(*s) =~= Set::<Seq<char>>::empty()),
{
    s.is_empty()
}

/// Relies on `HashSet::into_iter` (reached through ahash's `AHashSet`):
/// every element exactly once, in no specified order.
#[verifier::external_body]
pub fn recipients_into_vec(s: AHashSet<String>) -> (r: Vec<String>)
    ensures
        forall|i: int| 0 <= i < r@.len() ==> recipient_set(s).contains(#[trigger] r@[i]@),
        forall|x: Seq<char>|
            #[trigger] recipient_set(s).contains(x) ==> exists|i: int|
                0 <= i < r@.len() && #[trigger] r@[i]@ == x,
        forall|i: int, j: int| 0 <= i < j < r@.len() ==> r@[i]@ != r@[j]@,
        r@.len() == 0 <==> recipient_set(s) =~= Set::<Seq<char>>::empty(),
{
    s.into_iter().collect()
}

} // verus!
