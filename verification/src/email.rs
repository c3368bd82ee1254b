//! Address normalization and local-identity matching.
//!
//! Scheduling addresses compare case-insensitively over the full address,
//! with one leading `mailto:` prefix stripped. A normalized address is the
//! ASCII-lowercased form without that prefix.

use vstd::prelude::*;
use vstd::string::StrSliceExecFns;

verus! {

/// ASCII lower-casing of one character; other characters stay as they are.
pub open spec fn lower_char(c: char) -> char {
    if 'A' <= c && c <= 'Z' {
        (((c as u8) + 32) as u8) as char
    } else {
        c
    }
}

/// ASCII lower-casing of a character sequence.
pub open spec fn lower_seq(s: Seq<char>) -> Seq<char> {
    s.map_values(|c: char| lower_char(c))
}

/// Whether the lower-cased address starts with a `mailto:` prefix.
pub open spec fn has_mailto(s: Seq<char>) -> bool {
    lower_seq(s).len() >= 7 && lower_seq(s).subrange(0, 7) == "mailto:"@
}

/// The normalized form of a raw scheduling address: lower-cased, with one
/// leading `mailto:` prefix stripped.
pub open spec fn normalize_addr(s: Seq<char>) -> Seq<char> {
    if has_mailto(s) {
        lower_seq(s).skip(7)
    } else {
        lower_seq(s)
    }
}

/// Whether `addr` (already normalized) names one of the local account's
/// identities.
pub open spec fn is_identity(addr: Seq<char>, ids: Seq<Seq<char>>) -> bool {
    exists|i: int| 0 <= i < ids.len() && normalize_addr(ids[i]) == addr
}

/// View of an identity list.
pub open spec fn ids_view(ids: Seq<String>) -> Seq<Seq<char>> {
    ids.map_values(|s: String| s@)
}

/// Relies on `str::to_ascii_lowercase`: each ASCII upper-case letter is
/// replaced by its lower-case counterpart and every other character is kept.
#[verifier::external_body]
fn ascii_lowercase(s: &str) -> (r: String)
    ensures
        r@ == lower_seq(s@),
{
    s.to_ascii_lowercase()
}

/// Normalizes a raw scheduling address.
pub fn normalize_email(s: &str) -> (r: String)
    ensures
        r@ == normalize_addr(s@),
{
    let low = ascii_lowercase(s);
    let ls = low.as_str();
    let n = ls.unicode_len();
    if n >= 7 && ls.get_char(0) == 'm' && ls.get_char(1) == 'a' && ls.get_char(2) == 'i'
        && ls.get_char(3) == 'l' && ls.get_char(4) == 't' && ls.get_char(5) == 'o'
        && ls.get_char(6) == ':' {
        proof {
            reveal_strlit("mailto:");
            assert(lower_seq(s@).subrange(0, 7) =~= "mailto:"@);
        }
        let r = ls.substring_char(7, n).to_owned();
        proof {
            assert(r@ =~= normalize_addr(s@));
        }
        r
    } else {
        proof {
            reveal_strlit("mailto:");
            if lower_seq(s@).len() >= 7 {
                assert(!(lower_seq(s@).subrange(0, 7) == "mailto:"@)) by {
                    if lower_seq(s@).subrange(0, 7) == "mailto:"@ {
                        assert(lower_seq(s@).subrange(0, 7)[0] == 'm');
                        assert(lower_seq(s@).subrange(0, 7)[1] == 'a');
                        assert(lower_seq(s@).subrange(0, 7)[2] == 'i');
                        assert(lower_seq(s@).subrange(0, 7)[3] == 'l');
                        assert(lower_seq(s@).subrange(0, 7)[4] == 't');
                        assert(lower_seq(s@).subrange(0, 7)[5] == 'o');
                        assert(lower_seq(s@).subrange(0, 7)[6] == ':');
                    }
                }
            }
            assert(low@ =~= normalize_addr(s@));
        }
        low
    }
}

/// Whether the normalized address `norm` matches one of the account's
/// identity addresses, themselves normalized for the comparison.
pub fn is_local_addr(norm: &String, ids: &Vec<String>) -> (r: bool)
    ensures
        r == is_identity(norm@, ids_view(ids@)),
{
    let mut i: usize = 0;
    while i < ids.len()
        invariant
            0 <= i <= ids@.len(),
            forall|j: int| 0 <= j < i ==> normalize_addr(ids_view(ids@)[j]) != norm@,
        decreases ids@.len() - i,
    {
        let cand = normalize_email(ids[i].as_str());
        proof {
            assert(ids_view(ids@)[i as int] == ids@[i as int]@);
            assert(cand@ == normalize_addr(ids_view(ids@)[i as int]));
        }
        if cand.eq(norm) {
            assert(normalize_addr(ids_view(ids@)[i as int]) == norm@);
            return true;
        }
        i += 1;
    }
    false
}

} // verus!
