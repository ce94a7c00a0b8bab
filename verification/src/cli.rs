//! Run configuration and its validation, plus the filtering of identifier
//! lists read from a batch file.

use vstd::prelude::*;
use vstd::string::StrSliceExecFns;
use vstd::string::StringExecFns;
use crate::error::AppError;

verus! {

/// The two supported target library dialects.
#[derive(Clone, Copy, PartialEq, Eq, Structural, Debug)]
pub enum KicadVersion {
    V5,
    V6,
}

/// The run configuration: what to convert, where to, and how.
#[derive(Clone, Debug)]
pub struct Cli {
    /// A single component identifier.
    pub lcsc_id: Option<String>,
    /// A batch file path, one identifier per line.
    pub batch: Option<String>,
    pub symbol: bool,
    pub footprint: bool,
    pub model_3d: bool,
    pub full: bool,
    /// Output directory path.
    pub output: String,
    pub overwrite: bool,
    /// Use the legacy target dialect.
    pub v5: bool,
    /// Record 3D model paths relative to the project rather than under the
    /// global path variable.
    pub project_relative: bool,
    pub debug: bool,
    /// Keep going past failed components in batch mode.
    pub continue_on_error: bool,
    /// Worker count for batch mode.
    pub parallel: usize,
}

/// A well-formed component identifier: the vendor letter, then at least one
/// more character.
pub open spec fn spec_valid_id(s: Seq<char>) -> bool {
    s.len() >= 2 && s[0] == 'C'
}

/// Checks an identifier's shape.
pub fn valid_id(s: &str) -> (r: bool)
    ensures
        r == spec_valid_id(s@),
{
    s.unicode_len() >= 2 && s.get_char(0) == 'C'
}

impl Cli {
    /// Whether some identifier source is given.
    pub open spec fn spec_has_source(&self) -> bool {
        self.lcsc_id is Some || self.batch is Some
    }

    /// Whether the single identifier, if given, is well formed.
    pub open spec fn spec_id_ok(&self) -> bool {
        self.lcsc_id is Some ==> spec_valid_id(self.lcsc_id->0@)
    }

    /// Whether some conversion is requested.
    pub open spec fn spec_has_op(&self) -> bool {
        self.symbol || self.footprint || self.model_3d || self.full
    }

    /// Rejects a configuration without an identifier source, with a malformed
    /// identifier, or without any conversion requested — in that order.
    pub fn validate(&self) -> (r: Result<(), AppError>)
        ensures
            r is Ok <==> self.spec_has_source() && self.spec_id_ok() && self.spec_has_op(),
            !self.spec_has_source() ==> r matches Err(AppError::Other(_)),
            self.spec_has_source() && !self.spec_id_ok() ==> (r matches Err(
                AppError::InvalidIdentifier(m),
            ) && m@ == self.lcsc_id->0@),
            self.spec_has_source() && self.spec_id_ok() && !self.spec_has_op() ==> r matches Err(
                AppError::Other(_),
            ),
    {
        let has_source = match &self.lcsc_id {
            Some(_) => true,
            None => match &self.batch {
                Some(_) => true,
                None => false,
            },
        };
        if !has_source {
            return Err(
                AppError::Other(
                    "either a component identifier or a batch file must be given".to_owned(),
                ),
            );
        }
        match &self.lcsc_id {
            Some(id) => {
                if !valid_id(id.as_str()) {
                    return Err(AppError::InvalidIdentifier(id.clone()));
                }
            },
            None => {},
        }
        if !(self.symbol || self.footprint || self.model_3d || self.full) {
            return Err(AppError::Other("at least one conversion option must be given".to_owned()));
        }
        Ok(())
    }

    /// The dialect this run writes.
    pub fn kicad_version(&self) -> (r: KicadVersion)
        ensures
            r == if self.v5 {
                KicadVersion::V5
            } else {
                KicadVersion::V6
            },
    {
        if self.v5 {
            KicadVersion::V5
        } else {
            KicadVersion::V6
        }
    }
}

/// Whether a character is whitespace, as the standard library classifies it.
pub uninterp spec fn ws_of(c: char) -> bool;

/// Relies on char::is_whitespace: whitespace classification over the whole
/// universal character set; the result is a function of the character alone.
#[verifier::external_body]
fn char_is_ws(c: char) -> (r: bool)
    ensures
        r == ws_of(c),
{
    c.is_whitespace()
}

/// Length of the whitespace prefix.
pub open spec fn ws_prefix_len(s: Seq<char>) -> int
    decreases s.len(),
{
    if s.len() == 0 {
        0
    } else if ws_of(s[0]) {
        1 + ws_prefix_len(s.drop_first())
    } else {
        0
    }
}

/// Length of the whitespace suffix.
pub open spec fn ws_suffix_len(s: Seq<char>) -> int
    decreases s.len(),
{
    if s.len() == 0 {
        0
    } else if ws_of(s.last()) {
        1 + ws_suffix_len(s.drop_last())
    } else {
        0
    }
}

/// The line without its whitespace edges.
pub open spec fn spec_trim(s: Seq<char>) -> Seq<char> {
    let rest = s.skip(ws_prefix_len(s));
    rest.take(rest.len() - ws_suffix_len(rest))
}

proof fn lemma_ws_prefix_char(s: Seq<char>, p: int)
    requires
        0 <= p <= s.len(),
        forall|i: int| 0 <= i < p ==> ws_of(#[trigger] s[i]),
        p < s.len() ==> !ws_of(s[p]),
    ensures
        ws_prefix_len(s) == p,
    decreases p, s.len(),
{
    if p == 0 {
        if s.len() > 0 {
            assert(!ws_of(s[0]));
        }
    } else {
        lemma_ws_prefix_char(s.drop_first(), p - 1);
    }
}

proof fn lemma_ws_suffix_char(s: Seq<char>, p: int)
    requires
        0 <= p <= s.len(),
        forall|i: int| s.len() - p <= i < s.len() ==> ws_of(#[trigger] s[i]),
        p < s.len() ==> !ws_of(s[s.len() - p - 1]),
    ensures
        ws_suffix_len(s) == p,
    decreases p, s.len(),
{
    if p == 0 {
        if s.len() > 0 {
            assert(!ws_of(s.last()));
        }
    } else {
        assert(ws_of(s.last()));
        lemma_ws_suffix_char(s.drop_last(), p - 1);
    }
}

/// Whether the character at `i` is whitespace.
fn is_ws_at(s: &str, i: usize) -> (r: bool)
    requires
        i < s@.len(),
    ensures
        r == ws_of(s@[i as int]),
{
    char_is_ws(s.get_char(i))
}

/// Trims whitespace from both ends of a line.
pub fn trim_line(s: &str) -> (r: String)
    ensures
        r@ == spec_trim(s@),
{
    let n = s.unicode_len();
    let mut a: usize = 0;
    while a < n && is_ws_at(s, a)
        invariant
            0 <= a <= n,
            n == s@.len(),
            forall|i: int| 0 <= i < a ==> ws_of(#[trigger] s@[i]),
        decreases n - a,
    {
        a += 1;
    }
    // either a == n (all whitespace) or s[a] is not whitespace
    let all_ws = a >= n;
    proof {
        if all_ws {
            lemma_ws_prefix_char(s@, n as int);
            assert(s@.skip(n as int) =~= Seq::<char>::empty());
        }
    }
    if all_ws {
        proof {
            assert(spec_trim(s@) =~= Seq::<char>::empty());
        }
        return String::new();
    }
    proof {
        lemma_ws_prefix_char(s@, a as int);
    }
    let mut b: usize = n;
    while b > a && is_ws_at(s, b - 1)
        invariant
            a <= b <= n,
            n == s@.len(),
            a < n,
            !ws_of(s@[a as int]),
            ws_prefix_len(s@) == a,
            forall|i: int| b <= i < n ==> ws_of(#[trigger] s@[i]),
        decreases b,
    {
        b -= 1;
    }
    // b > a and s[b-1] is not whitespace
    proof {
        let rest = s@.skip(a as int);
        assert(rest.len() == n - a);
        assert(forall|i: int| 0 <= i < rest.len() ==> rest[i] == s@[a + i]);
        assert(b > a) by {
            if b == a {
                assert(ws_of(s@[a as int]));
            }
        }
        assert(!ws_of(s@[b - 1]));
        lemma_ws_suffix_char(rest, n - b);
        assert(spec_trim(s@) =~= s@.subrange(a as int, b as int));
    }
    let piece = s.substring_char(a, b);
    piece.to_owned()
}

/// What batch-file filtering keeps: each line trimmed; empty lines, comment
/// lines and malformed identifiers dropped.
pub open spec fn spec_collect_ids(lines: Seq<Seq<char>>) -> Seq<Seq<char>>
    decreases lines.len(),
{
    if lines.len() == 0 {
        Seq::empty()
    } else {
        let t = spec_trim(lines[0]);
        let rest = spec_collect_ids(lines.drop_first());
        if t.len() == 0 || t[0] == '#' {
            rest
        } else if spec_valid_id(t) {
            seq![t] + rest
        } else {
            rest
        }
    }
}

/// Filters the lines of a batch file down to the identifiers to process;
/// an empty result is an error, as the run would do nothing.
pub fn collect_ids(lines: &Vec<String>) -> (r: Result<Vec<String>, AppError>)
    ensures
        r is Ok <==> spec_collect_ids(lines.deep_view()).len() > 0,
        r matches Ok(ids) ==> ids.deep_view() == spec_collect_ids(lines.deep_view()),
        r is Err ==> r matches Err(AppError::Other(_)),
{
    let ghost full = lines.deep_view();
    let mut ids: Vec<String> = Vec::new();
    let mut i: usize = 0;
    proof {
        assert(full.skip(0) =~= full);
        assert(ids.deep_view() + spec_collect_ids(full) =~~= spec_collect_ids(full));
    }
    while i < lines.len()
        invariant
            0 <= i <= lines@.len(),
            full == lines.deep_view(),
            full.len() == lines@.len(),
            forall|k: int| 0 <= k < lines@.len() ==> #[trigger] lines@[k]@ == full[k],
            spec_collect_ids(full) == ids.deep_view() + spec_collect_ids(full.skip(i as int)),
        decreases lines@.len() - i,
    {
        proof {
            assert(full.skip(i as int)[0] == full[i as int]);
            assert(full.skip(i as int).drop_first() =~= full.skip(i + 1));
        }
        let t = trim_line(lines[i].as_str());
        if t.as_str().unicode_len() > 0 {
            let first = t.as_str().get_char(0);
            if first != '#' && valid_id(t.as_str()) {
                let ghost old_ids = ids.deep_view();
                let ghost tv = t@;
                ids.push(t);
                proof {
                    assert(ids.deep_view() =~~= old_ids + seq![tv]);
                    assert((old_ids + seq![tv]) + spec_collect_ids(full.skip(i + 1)) =~~= old_ids
                        + (seq![tv] + spec_collect_ids(full.skip(i + 1))));
                }
            }
        }
        i += 1;
    }
    proof {
        assert(full.skip(lines@.len() as int) =~= Seq::<Seq<char>>::empty());
        assert(ids.deep_view() + Seq::<Seq<char>>::empty() =~~= ids.deep_view());
    }
    if ids.is_empty() {
        proof {
            assert(spec_collect_ids(full).len() == 0);
        }
        return Err(AppError::Other("no valid component identifiers in the batch file".to_owned()));
    }
    Ok(ids)
}

} // verus!
