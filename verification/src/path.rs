//! The freeform-path mini-language: move, line and close commands over
//! whitespace-separated tokens.
//!
//! A move or line consumes one coordinate token — either a single `x,y` token
//! or two separate number tokens. A token that does not parse is skipped
//! without aborting the path; a close appends a duplicate of the first
//! accumulated point and consumes nothing further; any other token is ignored.

use vstd::prelude::*;
use crate::geom::Point;
use crate::geom::point_wf;
use crate::parse::spec_parse_micro;
use crate::parse::spec_tokenize;
use crate::parse::parse_micro;
use crate::parse::tokenize;

verus! {

/// A move or line command token.
pub open spec fn is_cmd_draw(t: Seq<u8>) -> bool {
    t == seq![77u8] || t == seq![76u8]
}

/// A close command token.
pub open spec fn is_cmd_close(t: Seq<u8>) -> bool {
    t == seq![90u8] || t == seq![122u8]
}

/// Index of the first comma, or the length if there is none.
pub open spec fn comma_index(s: Seq<u8>) -> int
    decreases s.len(),
{
    if s.len() == 0 {
        0
    } else if s[0] == 44 {
        0
    } else {
        1 + comma_index(s.drop_first())
    }
}

pub open spec fn has_comma(s: Seq<u8>) -> bool {
    comma_index(s) < s.len()
}

/// The parts before and after the first comma.
pub open spec fn comma_x(s: Seq<u8>) -> Seq<u8> {
    s.take(comma_index(s))
}

pub open spec fn comma_y(s: Seq<u8>) -> Seq<u8> {
    s.skip(comma_index(s) + 1)
}

/// Pins the first-comma index, as scanning finds it.
proof fn lemma_comma_index_char(s: Seq<u8>, p: int)
    requires
        0 <= p <= s.len(),
        forall|i: int| 0 <= i < p ==> #[trigger] s[i] != 44,
        p < s.len() ==> s[p] == 44,
    ensures
        comma_index(s) == p,
    decreases p,
{
    if p > 0 {
        lemma_comma_index_char(s.drop_first(), p - 1);
    }
}

/// What interpreting the token list yields, given the points accumulated so
/// far. One step per command, exactly as the token consumption rules say.
pub open spec fn spec_path_step(toks: Seq<Seq<u8>>, acc: Seq<Point>) -> Seq<Point>
    decreases toks.len(),
{
    if toks.len() == 0 {
        acc
    } else {
        let t = toks[0];
        if is_cmd_draw(t) {
            if toks.len() < 2 {
                acc
            } else {
                let c = toks[1];
                if has_comma(c) {
                    let x = spec_parse_micro(comma_x(c));
                    let y = spec_parse_micro(comma_y(c));
                    if x is Some && y is Some {
                        spec_path_step(toks.skip(2), acc.push(Point { x: x->0, y: y->0 }))
                    } else {
                        spec_path_step(toks.skip(2), acc)
                    }
                } else if toks.len() >= 3 && spec_parse_micro(toks[1]) is Some && spec_parse_micro(
                    toks[2],
                ) is Some {
                    spec_path_step(
                        toks.skip(3),
                        acc.push(
                            Point { x: spec_parse_micro(toks[1])->0, y: spec_parse_micro(toks[2])->0 },
                        ),
                    )
                } else {
                    spec_path_step(toks.skip(2), acc)
                }
            }
        } else if is_cmd_close(t) {
            spec_path_step(
                toks.skip(1),
                if acc.len() > 0 {
                    acc.push(acc[0])
                } else {
                    acc
                },
            )
        } else {
            spec_path_step(toks.skip(1), acc)
        }
    }
}

/// The ordered point sequence a path's text yields.
pub open spec fn spec_parse_path(s: Seq<u8>) -> Seq<Point> {
    spec_path_step(spec_tokenize(s), Seq::empty())
}

/// The two coordinate-token forms are interchangeable: after a draw command,
/// one `x,y` token and the separate tokens `x` `y` yield the same points,
/// whatever follows and whatever was accumulated, for every pair of numbers
/// with a comma-free first token.
pub proof fn lemma_coordinate_token_forms(
    cmd: Seq<u8>,
    xt: Seq<u8>,
    yt: Seq<u8>,
    rest: Seq<Seq<u8>>,
    acc: Seq<Point>,
)
    requires
        is_cmd_draw(cmd),
        forall|i: int| 0 <= i < xt.len() ==> #[trigger] xt[i] != 44,
        spec_parse_micro(xt) is Some,
        spec_parse_micro(yt) is Some,
    ensures
        spec_path_step(seq![cmd, xt + seq![44u8] + yt] + rest, acc) == spec_path_step(
            seq![cmd, xt, yt] + rest,
            acc,
        ),
{
    let c = xt + seq![44u8] + yt;
    lemma_comma_index_char(c, xt.len() as int);
    assert(comma_x(c) =~= xt);
    assert(comma_y(c) =~= yt);
    lemma_comma_index_char(xt, xt.len() as int);
    let t1 = seq![cmd, c] + rest;
    let t2 = seq![cmd, xt, yt] + rest;
    assert(t1[0] == cmd && t1[1] == c);
    assert(t2[0] == cmd && t2[1] == xt && t2[2] == yt);
    assert(t1.skip(2) =~= rest);
    assert(t2.skip(3) =~= rest);
    let pt = Point { x: spec_parse_micro(xt)->0, y: spec_parse_micro(yt)->0 };
    assert(spec_path_step(t1, acc) == spec_path_step(rest, acc.push(pt)));
    assert(spec_path_step(t2, acc) == spec_path_step(rest, acc.push(pt)));
}

/// Copies `v[a..b]` out as its own vector.
fn subvec(v: &Vec<u8>, a: usize, b: usize) -> (r: Vec<u8>)
    requires
        a <= b <= v@.len(),
    ensures
        r@ == v@.subrange(a as int, b as int),
{
    let mut r: Vec<u8> = Vec::new();
    let mut i: usize = a;
    while i < b
        invariant
            a <= i <= b <= v@.len(),
            r@ =~= v@.subrange(a as int, i as int),
        decreases b - i,
    {
        r.push(v[i]);
        proof {
            assert(r@ =~= v@.subrange(a as int, i + 1));
        }
        i += 1;
    }
    r
}

/// Finds the first comma of a token, or its length.
fn find_comma(t: &Vec<u8>) -> (r: usize)
    ensures
        r == comma_index(t@),
        r <= t@.len(),
{
    let n = t.len();
    let mut i: usize = 0;
    while i < n && t[i] != 44
        invariant
            0 <= i <= n,
            n == t@.len(),
            forall|k: int| 0 <= k < i ==> #[trigger] t@[k] != 44,
        decreases n - i,
    {
        i += 1;
    }
    proof {
        lemma_comma_index_char(t@, i as int);
    }
    i
}

/// Interprets a path's text to its point sequence, in raw source coordinates.
pub fn parse_path(s: &[u8]) -> (r: Vec<Point>)
    ensures
        r@ == spec_parse_path(s@),
        forall|i: int| 0 <= i < r@.len() ==> point_wf(#[trigger] r@[i]),
{
    let toks = tokenize(s);
    let ghost full = toks.deep_view();
    let n = toks.len();
    let mut pts: Vec<Point> = Vec::new();
    let mut i: usize = 0;
    proof {
        assert(full.skip(0) =~= full);
    }
    while i < n
        invariant
            0 <= i <= n,
            n == toks@.len(),
            full == toks.deep_view(),
            full.len() == n,
            forall|k: int| 0 <= k < n ==> #[trigger] toks@[k]@ == full[k],
            spec_parse_path(s@) == spec_path_step(full.skip(i as int), pts@),
            forall|k: int| 0 <= k < pts@.len() ==> point_wf(#[trigger] pts@[k]),
        decreases n - i,
    {
        let ghost rest = full.skip(i as int);
        proof {
            assert(rest[0] == full[i as int]);
            assert(rest.skip(1) =~= full.skip(i + 1));
            if i + 2 <= n {
                assert(rest.skip(2) =~= full.skip(i + 2));
            }
            if i + 3 <= n {
                assert(rest.skip(3) =~= full.skip(i + 3));
            }
        }
        let t = &toks[i];
        let is_draw = t.len() == 1 && (t[0] == 77 || t[0] == 76);
        let is_close = t.len() == 1 && (t[0] == 90 || t[0] == 122);
        proof {
            if is_draw {
                assert(t@ =~= seq![t@[0]]);
            } else {
                assert(t@ != seq![77u8] && t@ != seq![76u8]) by {
                    if t@.len() == 1 {
                        assert(t@[0] != 77 && t@[0] != 76);
                    }
                }
            }
            if is_close {
                assert(t@ =~= seq![t@[0]]);
            } else {
                assert(t@ != seq![90u8] && t@ != seq![122u8]) by {
                    if t@.len() == 1 {
                        assert(t@[0] != 90 && t@[0] != 122);
                    }
                }
            }
        }
        if is_draw {
            if i + 1 >= n {
                // a trailing draw command: nothing more can come
                proof {
                    assert(rest.len() < 2);
                    assert(full.skip(i + 1) =~= Seq::<Seq<u8>>::empty());
                }
                i += 1;
            } else {
                let c = &toks[i + 1];
                let ci = find_comma(c);
                if ci < c.len() {
                    let xs = subvec(c, 0, ci);
                    let ys = subvec(c, ci + 1, c.len());
                    proof {
                        assert(xs@ =~= comma_x(c@));
                        assert(ys@ =~= comma_y(c@));
                    }
                    match (parse_micro(xs.as_slice()), parse_micro(ys.as_slice())) {
                        (Some(x), Some(y)) => {
                            pts.push(Point { x, y });
                        },
                        _ => {},
                    }
                    i += 2;
                } else if i + 2 < n {
                    let xr = parse_micro(toks[i + 1].as_slice());
                    let yr = parse_micro(toks[i + 2].as_slice());
                    match (xr, yr) {
                        (Some(x), Some(y)) => {
                            pts.push(Point { x, y });
                            i += 3;
                        },
                        _ => {
                            i += 2;
                        },
                    }
                } else {
                    proof {
                        assert(full.skip(i + 2) =~= Seq::<Seq<u8>>::empty());
                    }
                    i += 2;
                }
            }
        } else if is_close {
            if pts.len() > 0 {
                let first = pts[0];
                pts.push(first);
            }
            i += 1;
        } else {
            i += 1;
        }
    }
    proof {
        assert(full.skip(n as int) =~= Seq::<Seq<u8>>::empty());
    }
    pts
}

} // verus!
