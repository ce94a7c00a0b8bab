//! The library merge: concurrency comes from the callers (one exclusive
//! region per file path); this module is the pure read-modify-write step they
//! serialize, over a record model of the shared symbol-library file.
//!
//! A record is a key and its serialized text; a file is a dialect header
//! followed by the records' text. Adding a component either replaces the
//! first record of its key (when overwriting), leaves the file untouched
//! (when not), or appends a new record.

use vstd::prelude::*;
use vstd::string::StrSliceExecFns;
use vstd::string::StringExecFns;
use crate::cli::KicadVersion;

verus! {

/// One component record of a library file.
#[derive(Clone, Debug)]
pub struct LibRecord {
    pub key: String,
    pub payload: String,
}

/// The record list of a shared symbol-library file.
#[derive(Clone, Debug)]
pub struct SymbolLib {
    pub records: Vec<LibRecord>,
}

/// A record list at the specification level: key and payload text pairs.
pub type RecView = Seq<(Seq<char>, Seq<char>)>;

impl SymbolLib {
    /// The record list as key and payload text pairs.
    pub open spec fn view(&self) -> RecView {
        self.records@.map_values(|r: LibRecord| (r.key@, r.payload@))
    }

    /// An empty library.
    pub fn new() -> (r: SymbolLib)
        ensures
            r.view() =~= Seq::<(Seq<char>, Seq<char>)>::empty(),
    {
        SymbolLib { records: Vec::new() }
    }
}

/// No two records share a key.
pub open spec fn lib_keys_unique(m: RecView) -> bool {
    forall|i: int, j: int| 0 <= i < j < m.len() ==> (#[trigger] m[i]).0 != (#[trigger] m[j]).0
}

/// Index of the first record with the key, or the length if there is none.
pub open spec fn spec_find(m: RecView, k: Seq<char>) -> int
    decreases m.len(),
{
    if m.len() == 0 {
        0
    } else if m[0].0 == k {
        0
    } else {
        1 + spec_find(m.drop_first(), k)
    }
}

/// What one add-or-update step does to the record list: replace the first
/// record of the key when overwriting, change nothing when not, append when
/// the key is new.
pub open spec fn spec_add_or_update(
    m: RecView,
    k: Seq<char>,
    p: Seq<char>,
    overwrite: bool,
) -> RecView {
    let i = spec_find(m, k);
    if i < m.len() {
        if overwrite {
            m.update(i, (k, p))
        } else {
            m
        }
    } else {
        m.push((k, p))
    }
}

/// How many records carry the key.
pub open spec fn spec_count_key(m: RecView, k: Seq<char>) -> int
    decreases m.len(),
{
    if m.len() == 0 {
        0
    } else {
        spec_count_key(m.drop_last(), k) + if m.last().0 == k {
            1int
        } else {
            0int
        }
    }
}

proof fn lemma_find_in_bounds(m: RecView, k: Seq<char>)
    ensures
        0 <= spec_find(m, k) <= m.len(),
        spec_find(m, k) < m.len() ==> m[spec_find(m, k)].0 == k,
        forall|i: int| 0 <= i < spec_find(m, k) ==> (#[trigger] m[i]).0 != k,
    decreases m.len(),
{
    if m.len() > 0 && m[0].0 != k {
        lemma_find_in_bounds(m.drop_first(), k);
        assert forall|i: int| 0 <= i < spec_find(m, k) implies (#[trigger] m[i]).0 != k by {
            if i > 0 {
                assert(m.drop_first()[i - 1] == m[i]);
            }
        }
    }
}

proof fn lemma_count_key_one(m: RecView, k: Seq<char>, at: int)
    requires
        0 <= at < m.len(),
        m[at].0 == k,
        forall|i: int| 0 <= i < m.len() && i != at ==> (#[trigger] m[i]).0 != k,
    ensures
        spec_count_key(m, k) == 1,
    decreases m.len(),
{
    if at == m.len() - 1 {
        assert(forall|i: int|
            0 <= i < m.drop_last().len() ==> (#[trigger] m.drop_last()[i]).0 != k);
        lemma_count_key_zero(m.drop_last(), k);
    } else {
        lemma_count_key_one(m.drop_last(), k, at);
    }
}

proof fn lemma_count_key_zero(m: RecView, k: Seq<char>)
    requires
        forall|i: int| 0 <= i < m.len() ==> (#[trigger] m[i]).0 != k,
    ensures
        spec_count_key(m, k) == 0,
    decreases m.len(),
{
    if m.len() > 0 {
        lemma_count_key_zero(m.drop_last(), k);
    }
}

/// Adding a component with overwrite on leaves exactly one record of its key,
/// however often the step is repeated: the first application settles the
/// list, and repetitions replace that one record in place.
pub proof fn lemma_add_or_update_idempotent_key(
    m: RecView,
    k: Seq<char>,
    p1: Seq<char>,
    p2: Seq<char>,
)
    requires
        lib_keys_unique(m),
    ensures
        spec_count_key(spec_add_or_update(spec_add_or_update(m, k, p1, true), k, p2, true), k)
            == 1,
        spec_add_or_update(spec_add_or_update(m, k, p1, true), k, p2, true) =~= spec_add_or_update(
            m,
            k,
            p2,
            true,
        ),
{
    lemma_find_in_bounds(m, k);
    let m1 = spec_add_or_update(m, k, p1, true);
    let i = spec_find(m, k);
    if i < m.len() {
        lemma_find_at(m1, k, i);
        lemma_count_key_one(m1, k, i);
        let m2 = spec_add_or_update(m1, k, p2, true);
        lemma_find_at(m2, k, i);
        lemma_count_key_one(m2, k, i);
    } else {
        lemma_find_at(m1, k, m.len() as int);
        lemma_count_key_one(m1, k, m.len() as int);
        let m2 = spec_add_or_update(m1, k, p2, true);
        lemma_find_at(m2, k, m.len() as int);
        lemma_count_key_one(m2, k, m.len() as int);
    }
}

/// Pins the first-match index when exactly one position can match.
proof fn lemma_find_at(m: RecView, k: Seq<char>, at: int)
    requires
        0 <= at < m.len(),
        m[at].0 == k,
        forall|i: int| 0 <= i < at ==> (#[trigger] m[i]).0 != k,
    ensures
        spec_find(m, k) == at,
    decreases at,
{
    if at > 0 {
        lemma_find_at(m.drop_first(), k, at - 1);
    }
}

/// Adding without overwrite on a present key changes nothing at all: the
/// existing record's text is preserved letter for letter.
pub proof fn lemma_no_overwrite_preserves(m: RecView, k: Seq<char>, p: Seq<char>)
    requires
        spec_find(m, k) < m.len(),
    ensures
        spec_add_or_update(m, k, p, false) == m,
{
}

impl SymbolLib {
    /// Finds the first record with the key.
    fn find(&self, key: &String) -> (r: usize)
        ensures
            r == spec_find(self.view(), key@),
            r <= self.records@.len(),
    {
        let n = self.records.len();
        let mut i: usize = 0;
        while i < n
            invariant
                0 <= i <= n,
                n == self.records@.len(),
                forall|j: int| 0 <= j < i ==> (#[trigger] self.view()[j]).0 != key@,
            decreases n - i,
        {
            if self.records[i].key == *key {
                proof {
                    lemma_find_at(self.view(), key@, i as int);
                }
                return i;
            }
            i += 1;
        }
        proof {
            lemma_find_in_bounds(self.view(), key@);
            if spec_find(self.view(), key@) < n {
                assert((self.view()[spec_find(self.view(), key@)]).0 == key@);
            }
        }
        n
    }

    /// The add-or-update step of the merge manager. Callers hold the file's
    /// exclusive region around the read-modify-write; this is the modify.
    pub fn add_or_update(&mut self, key: &String, payload: &String, overwrite: bool)
        ensures
            final (self).view() == spec_add_or_update(old(self).view(), key@, payload@, overwrite),
    {
        let ghost m = self.view();
        let i = self.find(key);
        proof {
            lemma_find_in_bounds(m, key@);
        }
        if i < self.records.len() {
            if overwrite {
                self.records.remove(i);
                self.records.insert(i, LibRecord { key: key.clone(), payload: payload.clone() });
                proof {
                    assert(self.view() =~~= m.update(i as int, (key@, payload@)));
                }
            }
        } else {
            self.records.push(LibRecord { key: key.clone(), payload: payload.clone() });
            proof {
                assert(self.view() =~~= m.push((key@, payload@)));
            }
        }
    }
}

/// Characters before the first line break, or all of them.
pub open spec fn upto_nl(s: Seq<char>) -> nat
    decreases s.len(),
{
    if s.len() == 0 {
        0
    } else if s[0] == '\n' {
        0
    } else {
        (1 + upto_nl(s.drop_first())) as nat
    }
}

/// The text split into lines, each keeping its line break; a final piece
/// without one is a line of its own.
pub open spec fn spec_lines(s: Seq<char>) -> Seq<Seq<char>>
    decreases s.len(),
{
    if s.len() == 0 {
        Seq::empty()
    } else {
        let u = upto_nl(s) as int;
        let k = if u < s.len() {
            u + 1
        } else {
            s.len() as int
        };
        if k == s.len() {
            seq![s]
        } else {
            seq![s.take(k)] + spec_lines(s.skip(k))
        }
    }
}

proof fn lemma_upto_nl_char(s: Seq<char>, p: int)
    requires
        0 <= p <= s.len(),
        forall|i: int| 0 <= i < p ==> #[trigger] s[i] != '\n',
        p < s.len() ==> s[p] == '\n',
    ensures
        upto_nl(s) == p,
    decreases p,
{
    if p > 0 {
        lemma_upto_nl_char(s.drop_first(), p - 1);
    }
}

/// Splits text into its lines, line breaks kept.
pub fn split_lines(s: &str) -> (r: Vec<String>)
    ensures
        r.deep_view() == spec_lines(s@),
{
    let n = s.unicode_len();
    let mut r: Vec<String> = Vec::new();
    let mut start: usize = 0;
    proof {
        assert(s@.skip(0) =~= s@);
        assert(r.deep_view() + spec_lines(s@) =~~= spec_lines(s@));
    }
    while start < n
        invariant
            0 <= start <= n,
            n == s@.len(),
            spec_lines(s@) == r.deep_view() + spec_lines(s@.skip(start as int)),
        decreases n - start,
    {
        let ghost rest = s@.skip(start as int);
        let mut i: usize = start;
        while i < n && !is_nl_at(s, i)
            invariant
                start <= i <= n,
                n == s@.len(),
                forall|k: int| start <= k < i ==> #[trigger] s@[k] != '\n',
            decreases n - i,
        {
            i += 1;
        }
        proof {
            assert(forall|k: int|
                0 <= k < i - start ==> #[trigger] rest[k] == s@[start + k] && rest[k] != '\n');
            lemma_upto_nl_char(rest, i - start);
        }
        let stop = if i < n {
            i + 1
        } else {
            n
        };
        let piece = s.substring_char(start, stop);
        let ghost old_r = r.deep_view();
        r.push(piece.to_owned());
        proof {
            assert(piece@ =~= rest.take(stop - start));
            assert(r.deep_view() =~~= old_r + seq![rest.take(stop - start)]);
            if stop < n {
                assert(rest.skip(stop - start) =~= s@.skip(stop as int));
                assert((old_r + seq![rest.take(stop - start)]) + spec_lines(s@.skip(stop as int))
                    =~~= old_r + (seq![rest.take(stop - start)] + spec_lines(
                    s@.skip(stop as int),
                )));
            } else {
                assert(rest.take(stop - start) =~= rest);
                assert(s@.skip(n as int) =~= Seq::<char>::empty());
                assert(r.deep_view() + spec_lines(s@.skip(n as int)) =~~= old_r + seq![rest]);
            }
        }
        start = stop;
    }
    proof {
        assert(s@.skip(n as int) =~= Seq::<char>::empty());
        assert(r.deep_view() + Seq::<Seq<char>>::empty() =~~= r.deep_view());
    }
    r
}

/// Whether the character at `i` is a line break.
fn is_nl_at(s: &str, i: usize) -> (r: bool)
    requires
        i < s@.len(),
    ensures
        r == (s@[i as int] == '\n'),
{
    s.get_char(i) == '\n'
}

/// The line that opens a record in the given dialect: the legacy definition
/// keyword, or the opening of a quoted symbol expression.
pub open spec fn spec_is_marker(line: Seq<char>, v: KicadVersion) -> bool {
    match v {
        KicadVersion::V5 => line.len() > 4 && line[0] == 'D' && line[1] == 'E' && line[2] == 'F'
            && line[3] == ' ',
        KicadVersion::V6 => line.len() > 9 && line[0] == '(' && line[1] == 's' && line[2] == 'y'
            && line[3] == 'm' && line[4] == 'b' && line[5] == 'o' && line[6] == 'l' && line[7]
            == ' ' && line[8] == '"',
    }
}

/// A character that closes a key in the dialect.
pub open spec fn is_key_delim(c: char, v: KicadVersion) -> bool {
    match v {
        KicadVersion::V5 => c == ' ' || c == '\n' || c == '\r',
        KicadVersion::V6 => c == '"',
    }
}

/// Characters of a key, up to the dialect's closing delimiter.
pub open spec fn key_span(s: Seq<char>, v: KicadVersion) -> nat
    decreases s.len(),
{
    if s.len() == 0 {
        0
    } else if is_key_delim(s[0], v) {
        0
    } else {
        (1 + key_span(s.drop_first(), v)) as nat
    }
}

/// The key a marker line names.
pub open spec fn spec_marker_key(line: Seq<char>, v: KicadVersion) -> Seq<char> {
    let body = match v {
        KicadVersion::V5 => line.skip(4),
        KicadVersion::V6 => line.skip(9),
    };
    let k = key_span(body, v) as int;
    if k <= body.len() {
        body.take(k)
    } else {
        body
    }
}

proof fn lemma_key_span_char(s: Seq<char>, v: KicadVersion, p: int)
    requires
        0 <= p <= s.len(),
        forall|i: int| 0 <= i < p ==> !is_key_delim(#[trigger] s[i], v),
        p < s.len() ==> is_key_delim(s[p], v),
    ensures
        key_span(s, v) == p,
    decreases p,
{
    if p > 0 {
        lemma_key_span_char(s.drop_first(), v, p - 1);
    }
}

/// Checks a line for the dialect's record marker.
fn is_marker(line: &str, v: KicadVersion) -> (r: bool)
    ensures
        r == spec_is_marker(line@, v),
{
    let n = line.unicode_len();
    match v {
        KicadVersion::V5 => {
            n > 4 && line.get_char(0) == 'D' && line.get_char(1) == 'E' && line.get_char(2) == 'F'
                && line.get_char(3) == ' '
        },
        KicadVersion::V6 => {
            n > 9 && line.get_char(0) == '(' && line.get_char(1) == 's' && line.get_char(2) == 'y'
                && line.get_char(3) == 'm' && line.get_char(4) == 'b' && line.get_char(5) == 'o'
                && line.get_char(6) == 'l' && line.get_char(7) == ' ' && line.get_char(8) == '"'
        },
    }
}

/// Extracts the key from a marker line.
fn marker_key(line: &str, v: KicadVersion) -> (r: String)
    requires
        spec_is_marker(line@, v),
    ensures
        r@ == spec_marker_key(line@, v),
{
    let off: usize = match v {
        KicadVersion::V5 => 4,
        KicadVersion::V6 => 9,
    };
    let n = line.unicode_len();
    let mut i: usize = off;
    while i < n && !is_key_delim_at(line, i, v)
        invariant
            off <= i <= n,
            n == line@.len(),
            n > off,
            forall|k: int| off <= k < i ==> !is_key_delim(#[trigger] line@[k], v),
        decreases n - i,
    {
        i += 1;
    }
    proof {
        let body = line@.skip(off as int);
        assert(forall|k: int| 0 <= k < body.len() ==> #[trigger] body[k] == line@[off + k]);
        lemma_key_span_char(body, v, i - off);
        assert(body.take(i - off) =~= line@.subrange(off as int, i as int));
    }
    let piece = line.substring_char(off, i);
    piece.to_owned()
}

/// Whether the character at `i` closes a key in the dialect.
fn is_key_delim_at(line: &str, i: usize, v: KicadVersion) -> (r: bool)
    requires
        i < line@.len(),
    ensures
        r == is_key_delim(line@[i as int], v),
{
    let c = line.get_char(i);
    match v {
        KicadVersion::V5 => c == ' ' || c == '\n' || c == '\r',
        KicadVersion::V6 => c == '"',
    }
}

/// Folding the lines into records: a marker line flushes the record being
/// collected and opens a new one; other lines extend the open record and are
/// dropped when none is open (the dialect header).
pub open spec fn spec_scan_records(
    lines: Seq<Seq<char>>,
    cur: Option<(Seq<char>, Seq<char>)>,
    v: KicadVersion,
) -> RecView
    decreases lines.len(),
{
    if lines.len() == 0 {
        match cur {
            Some(r) => seq![r],
            None => Seq::empty(),
        }
    } else if spec_is_marker(lines[0], v) {
        let opened = Some((spec_marker_key(lines[0], v), lines[0]));
        match cur {
            Some(r) => seq![r] + spec_scan_records(lines.drop_first(), opened, v),
            None => spec_scan_records(lines.drop_first(), opened, v),
        }
    } else {
        match cur {
            Some(r) => spec_scan_records(lines.drop_first(), Some((r.0, r.1 + lines[0])), v),
            None => spec_scan_records(lines.drop_first(), None, v),
        }
    }
}

/// The records a library file's text holds.
pub open spec fn spec_parse_records(text: Seq<char>, v: KicadVersion) -> RecView {
    spec_scan_records(spec_lines(text), None, v)
}

/// Parses a library file's text into its record list.
pub fn parse_library(text: &str, v: KicadVersion) -> (r: SymbolLib)
    ensures
        r.view() == spec_parse_records(text@, v),
{
    let lines = split_lines(text);
    let ghost lv = lines.deep_view();
    let mut records: Vec<LibRecord> = Vec::new();
    let mut cur: Option<LibRecord> = None;
    let mut i: usize = 0;
    proof {
        assert(lv.skip(0) =~= lv);
        assert(records@.map_values(|rr: LibRecord| (rr.key@, rr.payload@)) + spec_scan_records(
            lv,
            None,
            v,
        ) =~~= spec_scan_records(lv, None, v));
    }
    while i < lines.len()
        invariant
            0 <= i <= lines@.len(),
            lv == lines.deep_view(),
            lv.len() == lines@.len(),
            forall|k: int| 0 <= k < lines@.len() ==> #[trigger] lines@[k]@ == lv[k],
            spec_parse_records(text@, v) == records@.map_values(
                |rr: LibRecord| (rr.key@, rr.payload@),
            ) + spec_scan_records(
                lv.skip(i as int),
                match cur {
                    Some(c) => Some((c.key@, c.payload@)),
                    None => None,
                },
                v,
            ),
        decreases lines@.len() - i,
    {
        proof {
            assert(lv.skip(i as int)[0] == lv[i as int]);
            assert(lv.skip(i as int).drop_first() =~= lv.skip(i + 1));
        }
        let line = &lines[i];
        if is_marker(line.as_str(), v) {
            let key = marker_key(line.as_str(), v);
            let opened = LibRecord { key, payload: line.clone() };
            match cur {
                Some(r) => {
                    let ghost old_m = records@.map_values(|rr: LibRecord| (rr.key@, rr.payload@));
                    let ghost rv = (r.key@, r.payload@);
                    records.push(r);
                    proof {
                        assert(records@.map_values(|rr: LibRecord| (rr.key@, rr.payload@))
                            =~~= old_m + seq![rv]);
                        assert((old_m + seq![rv]) + spec_scan_records(
                            lv.skip(i + 1),
                            Some((opened.key@, opened.payload@)),
                            v,
                        ) =~~= old_m + (seq![rv] + spec_scan_records(
                            lv.skip(i + 1),
                            Some((opened.key@, opened.payload@)),
                            v,
                        )));
                    }
                },
                None => {},
            }
            cur = Some(opened);
        } else {
            match &mut cur {
                Some(r) => {
                    r.payload.append(line.as_str());
                },
                None => {},
            }
        }
        i += 1;
    }
    proof {
        assert(lv.skip(lines@.len() as int) =~= Seq::<Seq<char>>::empty());
    }
    match cur {
        Some(r) => {
            let ghost old_m = records@.map_values(|rr: LibRecord| (rr.key@, rr.payload@));
            let ghost rv = (r.key@, r.payload@);
            records.push(r);
            proof {
                assert(records@.map_values(|rr: LibRecord| (rr.key@, rr.payload@)) =~~= old_m
                    + seq![rv]);
            }
        },
        None => {
            proof {
                assert(records@.map_values(|rr: LibRecord| (rr.key@, rr.payload@))
                    + Seq::<(Seq<char>, Seq<char>)>::empty() =~~= records@.map_values(
                    |rr: LibRecord| (rr.key@, rr.payload@),
                ));
            }
        },
    }
    SymbolLib { records }
}

/// The dialect's file header.
pub open spec fn spec_lib_header(v: KicadVersion) -> Seq<char> {
    match v {
        KicadVersion::V5 => "EESchema-LIBRARY Version 2.4\n#encoding utf-8\n"@,
        KicadVersion::V6 => "(kicad_symbol_lib (version 20211014) (generator e2k))\n"@,
    }
}

/// The records' text, in order.
pub open spec fn spec_payload_concat(m: RecView) -> Seq<char>
    decreases m.len(),
{
    if m.len() == 0 {
        Seq::empty()
    } else {
        m[0].1 + spec_payload_concat(m.drop_first())
    }
}

/// A whole library file: header, then the records.
pub open spec fn spec_render_library(m: RecView, v: KicadVersion) -> Seq<char> {
    spec_lib_header(v) + spec_payload_concat(m)
}

/// Renders the library back to file text.
pub fn render_library(lib: &SymbolLib, v: KicadVersion) -> (r: String)
    ensures
        r@ == spec_render_library(lib.view(), v),
{
    let ghost m = lib.view();
    let mut r = String::new();
    match v {
        KicadVersion::V5 => {
            proof {
                reveal_strlit("EESchema-LIBRARY Version 2.4\n#encoding utf-8\n");
            }
            r.append("EESchema-LIBRARY Version 2.4\n#encoding utf-8\n");
        },
        KicadVersion::V6 => {
            proof {
                reveal_strlit("(kicad_symbol_lib (version 20211014) (generator e2k))\n");
            }
            r.append("(kicad_symbol_lib (version 20211014) (generator e2k))\n");
        },
    }
    proof {
        assert(r@ =~= spec_lib_header(v));
        assert(m.skip(0) =~= m);
    }
    let mut i: usize = 0;
    while i < lib.records.len()
        invariant
            0 <= i <= lib.records@.len(),
            m == lib.view(),
            m.len() == lib.records@.len(),
            r@ + spec_payload_concat(m.skip(i as int)) == spec_render_library(m, v),
        decreases lib.records@.len() - i,
    {
        proof {
            assert(m.skip(i as int)[0] == m[i as int]);
            assert(m.skip(i as int).drop_first() =~= m.skip(i + 1));
        }
        let ghost old_r = r@;
        r.append(lib.records[i].payload.as_str());
        proof {
            assert(r@ + spec_payload_concat(m.skip(i + 1)) =~= old_r + (m[i as int].1
                + spec_payload_concat(m.skip(i + 1))));
        }
        i += 1;
    }
    proof {
        assert(m.skip(m.len() as int) =~= Seq::<(Seq<char>, Seq<char>)>::empty());
        assert(r@ + Seq::<char>::empty() =~= r@);
    }
    r
}

/// One whole merge step on a library file's text: parse, add or update the
/// component's record, render. Callers hold the file's exclusive region
/// around read, this step, and write.
pub fn merge_library_text(
    text: &str,
    v: KicadVersion,
    key: &String,
    payload: &String,
    overwrite: bool,
) -> (r: String)
    ensures
        r@ == spec_render_library(
            spec_add_or_update(spec_parse_records(text@, v), key@, payload@, overwrite),
            v,
        ),
{
    let mut lib = parse_library(text, v);
    lib.add_or_update(key, payload, overwrite);
    render_library(&lib, v)
}

} // verus!
