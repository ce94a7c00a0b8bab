//! Record identity: sanitized component names and library record keys.
//!
//! A record key is the sanitized title alone in single-component mode, and the
//! sanitized title joined to the external identifier in batch mode, so that
//! different components whose titles sanitize alike cannot collide.

use vstd::prelude::*;
use vstd::string::StrSliceExecFns;

verus! {

/// Whether a character is alphanumeric in the universal character set, as
/// the standard library classifies it.
pub uninterp spec fn alnum_of(c: char) -> bool;

/// Relies on char::is_alphanumeric: letter-or-digit classification over the
/// whole universal character set; the result is a function of the character
/// alone.
#[verifier::external_body]
fn char_is_alnum(c: char) -> (r: bool)
    ensures
        r == alnum_of(c),
{
    c.is_alphanumeric()
}

/// A character that survives sanitization: any alphanumeric, the underscore
/// and the hyphen. Everything else becomes an underscore.
pub open spec fn is_keep_char(c: char) -> bool {
    alnum_of(c) || c == '_' || c == '-'
}

/// What sanitization yields: the same characters, each unsafe one replaced by
/// an underscore.
pub open spec fn spec_sanitize(t: Seq<char>) -> Seq<char> {
    Seq::new(
        t.len(),
        |i: int|
            if is_keep_char(t[i]) {
                t[i]
            } else {
                '_'
            },
    )
}

/// Sanitizes a component name for use in file names and record keys.
pub fn sanitize_name(s: &str) -> (r: String)
    ensures
        r@ == spec_sanitize(s@),
{
    let n = s.unicode_len();
    let mut r = String::new();
    let mut i: usize = 0;
    while i < n
        invariant
            0 <= i <= n,
            n == s@.len(),
            r@ =~= spec_sanitize(s@).take(i as int),
        decreases n - i,
    {
        let c = s.get_char(i);
        let keep = char_is_alnum(c) || c == '_' || c == '-';
        if keep {
            let piece = s.substring_char(i, i + 1);
            r.append(piece);
            proof {
                assert(s@.subrange(i as int, i + 1) =~= seq![s@[i as int]]);
                assert(r@ =~= spec_sanitize(s@).take(i + 1));
            }
        } else {
            proof {
                reveal_strlit("_");
            }
            r.append("_");
            proof {
                assert(r@ =~= spec_sanitize(s@).take(i + 1));
            }
        }
        i += 1;
    }
    proof {
        assert(spec_sanitize(s@).take(n as int) =~= spec_sanitize(s@));
    }
    r
}

/// The record key for a component.
pub open spec fn spec_component_key(title: Seq<char>, id: Seq<char>, batch: bool) -> Seq<char> {
    if batch {
        spec_sanitize(title) + seq!['_'] + id
    } else {
        spec_sanitize(title)
    }
}

/// Builds the record key: sanitized title, with the external identifier
/// appended in batch mode.
pub fn component_key(title: &str, id: &str, batch: bool) -> (r: String)
    ensures
        r@ == spec_component_key(title@, id@, batch),
{
    let mut r = sanitize_name(title);
    if batch {
        proof {
            reveal_strlit("_");
        }
        r.append("_");
        proof {
            assert(r@ =~= spec_sanitize(title@) + seq!['_']);
        }
        r.append(id);
    }
    r
}

} // verus!
