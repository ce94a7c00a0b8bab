//! The per-component conversion pipeline: normalized geometry in, library
//! text out. One call per artifact, total for every well-formed model — the
//! exact shape of the text is pinned through the built entity.

use vstd::prelude::*;
use vstd::arithmetic::div_mod::lemma_fundamental_div_mod_converse;
use vstd::arithmetic::div_mod::lemma_div_is_ordered;
use crate::num::spec_round_div;
use crate::num::MAX_COORD;
use crate::geom::Point;
use crate::geom::BBox;
use crate::geom::ArcShape;
use crate::geom::SymbolModel;
use crate::geom::FootprintModel;
use crate::geom::ComponentMeta;
use crate::geom::bbox_wf;
use crate::geom::symbol_wf;
use crate::geom::footprint_wf;
use crate::geom::arc_wf;
use crate::geom::point_wf;
use crate::kicad::KiSymbol;
use crate::kicad::KiFootprint;
use crate::builder::symbol_built;
use crate::builder::build_symbol;
use crate::builder::spec_arc_seq;
use crate::builder::spec_build_arc;
use crate::builder::spec_path_views;
use crate::footprint_builder::footprint_built;
use crate::footprint_builder::build_footprint;
use crate::footprint_builder::spec_fp_arc_seq;
use crate::footprint_builder::spec_build_fp_arc;
use crate::path::spec_path_step;
use crate::path::spec_parse_path;
use crate::path::comma_x;
use crate::path::comma_y;
use crate::parse::spec_parse_micro;
use crate::serialize::symbol_ser_ok;
use crate::serialize::spec_export_symbol;
use crate::serialize::export_symbol;
use crate::serialize::num_ok;
use crate::serialize::point_ok;
use crate::serialize_footprint::footprint_ser_ok;
use crate::serialize_footprint::spec_export_footprint;
use crate::serialize_footprint::export_footprint;
use crate::cli::KicadVersion;
use crate::fmt::FMT_MAX;

verus! {

/// Halving keeps a doubled coordinate within the formatter's range.
proof fn lemma_round_div2_bound(x: int)
    requires
        -2 * (MAX_COORD as int) <= x <= 2 * (MAX_COORD as int),
    ensures
        -(FMT_MAX as int) <= spec_round_div(x, 2) <= FMT_MAX as int,
{
    let mx = 2 * (MAX_COORD as int) + 1;
    lemma_fundamental_div_mod_converse(mx, 2, MAX_COORD as int, 1);
    lemma_fundamental_div_mod_converse(0, 2, 0, 0);
    if x >= 0 {
        lemma_div_is_ordered(x + 1, mx, 2);
        lemma_div_is_ordered(0, x + 1, 2);
    } else {
        lemma_div_is_ordered(-x + 1, mx, 2);
        lemma_div_is_ordered(0, -x + 1, 2);
    }
}

/// Every point a path interpretation yields is in the engine's range.
proof fn lemma_path_step_in_range(toks: Seq<Seq<u8>>, acc: Seq<Point>)
    requires
        forall|i: int| 0 <= i < acc.len() ==> point_wf(#[trigger] acc[i]),
    ensures
        forall|i: int|
            0 <= i < spec_path_step(toks, acc).len() ==> point_wf(
                #[trigger] spec_path_step(toks, acc)[i],
            ),
    decreases toks.len(),
{
    if toks.len() == 0 {
        return ;
    }
    let t = toks[0];
    let terminal = crate::path::is_cmd_draw(t) && toks.len() < 2;
    if terminal {
        return ;
    }
    let (tsub, acc2): (Seq<Seq<u8>>, Seq<Point>) = if crate::path::is_cmd_draw(t) {
        let c = toks[1];
        if crate::path::has_comma(c) {
            crate::parse::lemma_parse_in_range(comma_x(c));
            crate::parse::lemma_parse_in_range(comma_y(c));
            let x = spec_parse_micro(comma_x(c));
            let y = spec_parse_micro(comma_y(c));
            if x is Some && y is Some {
                (toks.skip(2), acc.push(Point { x: x->0, y: y->0 }))
            } else {
                (toks.skip(2), acc)
            }
        } else {
            crate::parse::lemma_parse_in_range(toks[1]);
            if toks.len() >= 3 {
                crate::parse::lemma_parse_in_range(toks[2]);
            }
            if toks.len() >= 3 && spec_parse_micro(toks[1]) is Some && spec_parse_micro(
                toks[2],
            ) is Some {
                (
                    toks.skip(3),
                    acc.push(
                        Point {
                            x: spec_parse_micro(toks[1])->0,
                            y: spec_parse_micro(toks[2])->0,
                        },
                    ),
                )
            } else {
                (toks.skip(2), acc)
            }
        }
    } else if crate::path::is_cmd_close(t) {
        (
            toks.skip(1),
            if acc.len() > 0 {
                acc.push(acc[0])
            } else {
                acc
            },
        )
    } else {
        (toks.skip(1), acc)
    };
    lemma_path_step_in_range(tsub, acc2);
    assert(spec_path_step(toks, acc) == spec_path_step(tsub, acc2));
    assert forall|i: int| 0 <= i < spec_path_step(toks, acc).len() implies point_wf(
        #[trigger] spec_path_step(toks, acc)[i],
    ) by {
        assert(spec_path_step(toks, acc)[i] == spec_path_step(tsub, acc2)[i]);
    }
}

/// Every kept symbol arc serializes: its points came from in-range offsets
/// around an in-range center, then one normalization shift.
proof fn lemma_arc_seq_ser_ok(arcs: Seq<ArcShape>, b: BBox)
    requires
        bbox_wf(b),
        forall|i: int| 0 <= i < arcs.len() ==> arc_wf(#[trigger] arcs[i]),
    ensures
        forall|i: int|
            0 <= i < spec_arc_seq(arcs, b).len() ==> crate::serialize::arc_ser_ok(
                #[trigger] spec_arc_seq(arcs, b)[i],
            ),
    decreases arcs.len(),
{
    if arcs.len() > 0 {
        assert(forall|i: int|
            0 <= i < arcs.drop_first().len() ==> arc_wf(#[trigger] arcs.drop_first()[i]));
        lemma_arc_seq_ser_ok(arcs.drop_first(), b);
        match spec_build_arc(arcs[0], b) {
            Some(ka) => {
                assert(crate::serialize::arc_ser_ok(ka));
                assert forall|i: int| 0 <= i < spec_arc_seq(arcs, b).len() implies
                    crate::serialize::arc_ser_ok(#[trigger] spec_arc_seq(arcs, b)[i]) by {
                    if i > 0 {
                        assert(spec_arc_seq(arcs, b)[i] == spec_arc_seq(arcs.drop_first(), b)[i
                            - 1]);
                    }
                }
            },
            None => {
                assert forall|i: int| 0 <= i < spec_arc_seq(arcs, b).len() implies
                    crate::serialize::arc_ser_ok(#[trigger] spec_arc_seq(arcs, b)[i]) by {
                    assert(spec_arc_seq(arcs, b)[i] == spec_arc_seq(arcs.drop_first(), b)[i]);
                }
            },
        }
    }
}

/// Every kept footprint arc serializes, for the same reason.
proof fn lemma_fp_arc_seq_ser_ok(arcs: Seq<ArcShape>, b: BBox)
    requires
        bbox_wf(b),
        forall|i: int| 0 <= i < arcs.len() ==> arc_wf(#[trigger] arcs[i]),
    ensures
        forall|i: int|
            0 <= i < spec_fp_arc_seq(arcs, b).len() ==> crate::serialize_footprint::fp_arc_ser_ok(
                #[trigger] spec_fp_arc_seq(arcs, b)[i],
            ),
    decreases arcs.len(),
{
    if arcs.len() > 0 {
        assert(forall|i: int|
            0 <= i < arcs.drop_first().len() ==> arc_wf(#[trigger] arcs.drop_first()[i]));
        lemma_fp_arc_seq_ser_ok(arcs.drop_first(), b);
        match spec_build_fp_arc(arcs[0], b) {
            Some(ka) => {
                assert(crate::serialize_footprint::fp_arc_ser_ok(ka));
                assert forall|i: int| 0 <= i < spec_fp_arc_seq(arcs, b).len() implies
                    crate::serialize_footprint::fp_arc_ser_ok(
                    #[trigger] spec_fp_arc_seq(arcs, b)[i],
                ) by {
                    if i > 0 {
                        assert(spec_fp_arc_seq(arcs, b)[i] == spec_fp_arc_seq(
                            arcs.drop_first(),
                            b,
                        )[i - 1]);
                    }
                }
            },
            None => {
                assert forall|i: int| 0 <= i < spec_fp_arc_seq(arcs, b).len() implies
                    crate::serialize_footprint::fp_arc_ser_ok(
                    #[trigger] spec_fp_arc_seq(arcs, b)[i],
                ) by {
                    assert(spec_fp_arc_seq(arcs, b)[i] == spec_fp_arc_seq(arcs.drop_first(), b)[i]);
                }
            },
        }
    }
}

/// A symbol built from a well-formed model serializes: every number it
/// carries is within the formatter's range.
#[verifier::rlimit(100)]
proof fn lemma_built_symbol_ser_ok(
    ks: KiSymbol,
    meta: ComponentMeta,
    s: SymbolModel,
    b: BBox,
    name: Seq<char>,
    fp_name: Seq<char>,
)
    requires
        symbol_built(ks, meta, s, b, name, fp_name),
        symbol_wf(s),
        bbox_wf(b),
    ensures
        symbol_ser_ok(ks),
{
    assert forall|i: int| 0 <= i < ks.pins@.len() implies crate::serialize::pin_ser_ok(
        #[trigger] ks.pins@[i],
    ) by {
        assert(crate::builder::pin_built(ks.pins@[i], s.pins@[i], b));
        assert(crate::geom::pin_wf(s.pins@[i]));
    }
    assert forall|i: int| 0 <= i < ks.rectangles@.len() implies crate::serialize::rect_ser_ok(
        #[trigger] ks.rectangles@[i],
    ) by {
        assert(crate::builder::rect_built(ks.rectangles@[i], s.rectangles@[i], b, i == 0));
        assert(crate::geom::rect_wf(s.rectangles@[i]));
    }
    let nc = s.circles@.len() as int;
    assert forall|i: int| 0 <= i < ks.circles@.len() implies crate::serialize::circle_ser_ok(
        #[trigger] ks.circles@[i],
    ) by {
        if i < nc {
            assert(crate::builder::circle_built(ks.circles@[i], s.circles@[i], b));
            assert(crate::geom::circle_wf(s.circles@[i]));
        } else {
            assert(ks.circles@[nc + (i - nc)] == ks.circles@[i]);
            assert(crate::builder::ellipse_built(ks.circles@[i], s.ellipses@[i - nc], b));
            assert(crate::geom::ellipse_wf(s.ellipses@[i - nc]));
            lemma_round_div2_bound(s.ellipses@[i - nc].rx as int + s.ellipses@[i - nc].ry as int);
        }
    }
    lemma_arc_seq_ser_ok(s.arcs@, b);
    let np = s.polylines@.len() as int;
    let ng = s.polygons@.len() as int;
    lemma_path_views_ser_ok(s.paths@, b);
    assert forall|i: int| 0 <= i < ks.polylines@.len() implies crate::serialize::poly_ser_ok(
        #[trigger] ks.polylines@[i],
    ) by {
        if i < np {
            assert(crate::builder::poly_built(ks.polylines@[i], s.polylines@[i], b, false));
            assert(crate::geom::poly_wf(s.polylines@[i]));
            assert forall|k: int| 0 <= k < ks.polylines@[i].points@.len() implies point_ok(
                #[trigger] ks.polylines@[i].points@[k],
            ) by {
                assert(ks.polylines@[i].points@[k] == crate::builder::spec_norm_sym_point(
                    s.polylines@[i].points@[k],
                    b,
                ));
                assert(point_wf(s.polylines@[i].points@[k]));
            }
        } else if i < np + ng {
            assert(ks.polylines@[np + (i - np)] == ks.polylines@[i]);
            assert(crate::builder::poly_built(ks.polylines@[i], s.polygons@[i - np], b, true));
            assert(crate::geom::poly_wf(s.polygons@[i - np]));
            assert forall|k: int| 0 <= k < ks.polylines@[i].points@.len() implies point_ok(
                #[trigger] ks.polylines@[i].points@[k],
            ) by {
                assert(ks.polylines@[i].points@[k] == crate::builder::spec_norm_sym_point(
                    s.polygons@[i - np].points@[k],
                    b,
                ));
                assert(point_wf(s.polygons@[i - np].points@[k]));
            }
        } else {
            let pv = spec_path_views(s.paths@, b);
            let j = i - np - ng;
            assert(ks.polylines@[np + ng + j] == ks.polylines@[i]);
            assert(crate::builder::poly_view_match(ks.polylines@[i], pv[j]));
            assert forall|k: int| 0 <= k < ks.polylines@[i].points@.len() implies point_ok(
                #[trigger] ks.polylines@[i].points@[k],
            ) by {
                assert(ks.polylines@[i].points@[k] == pv[j].0[k]);
            }
        }
    }
}

/// Converts one component's symbol: build the target entity, then render it
/// in the selected dialect, returning the built entity beside its text.
pub fn convert_symbol(
    meta: &ComponentMeta,
    s: &SymbolModel,
    b: BBox,
    name: &str,
    fp_name: &str,
    v: KicadVersion,
) -> (r: (KiSymbol, String))
    requires
        symbol_wf(*s),
        bbox_wf(b),
    ensures
        symbol_built(r.0, *meta, *s, b, name@, fp_name@),
        r.1@ == spec_export_symbol(r.0, v),
{
    let ks = build_symbol(meta, s, b, name, fp_name);
    proof {
        lemma_built_symbol_ser_ok(ks, *meta, *s, b, name@, fp_name@);
    }
    let text = export_symbol(&ks, v);
    (ks, text)
}

/// Every path contribution's vertex list serializes: the raw points are in
/// range, and the shift keeps them in the formatter's range.
proof fn lemma_path_views_ser_ok(ps: Seq<crate::geom::PathShape>, b: BBox)
    requires
        bbox_wf(b),
        forall|i: int| 0 <= i < ps.len() ==> crate::geom::path_wf(#[trigger] ps[i]),
    ensures
        forall|j: int, k: int|
            0 <= j < spec_path_views(ps, b).len() && 0 <= k < (#[trigger] spec_path_views(
                ps,
                b,
            )[j]).0.len() ==> point_ok(#[trigger] spec_path_views(ps, b)[j].0[k]),
        forall|j: int|
            0 <= j < spec_path_views(ps, b).len() ==> num_ok(
                (#[trigger] spec_path_views(ps, b)[j]).1,
            ),
    decreases ps.len(),
{
    if ps.len() > 0 {
        assert(forall|i: int|
            0 <= i < ps.drop_first().len() ==> crate::geom::path_wf(
                #[trigger] ps.drop_first()[i],
            ));
        lemma_path_views_ser_ok(ps.drop_first(), b);
        match crate::builder::spec_path_view(ps[0], b) {
            Some(v) => {
                let raw = spec_parse_path(ps[0].data@);
                lemma_path_step_in_range(crate::parse::spec_tokenize(ps[0].data@), Seq::empty());
                assert forall|k: int| 0 <= k < v.0.len() implies point_ok(#[trigger] v.0[k]) by {
                    assert(v.0[k] == crate::builder::spec_norm_sym_point(raw[k], b));
                    assert(point_wf(raw[k]));
                }
                assert forall|j: int, k: int|
                    0 <= j < spec_path_views(ps, b).len() && 0 <= k < (#[trigger] spec_path_views(
                        ps,
                        b,
                    )[j]).0.len() implies point_ok(#[trigger] spec_path_views(ps, b)[j].0[k]) by {
                    if j == 0 {
                        assert(spec_path_views(ps, b)[0] == v);
                    } else {
                        assert(spec_path_views(ps, b)[j] == spec_path_views(ps.drop_first(), b)[j
                            - 1]);
                    }
                }
                assert forall|j: int| 0 <= j < spec_path_views(ps, b).len() implies num_ok(
                    (#[trigger] spec_path_views(ps, b)[j]).1,
                ) by {
                    if j == 0 {
                        assert(spec_path_views(ps, b)[0] == v);
                    } else {
                        assert(spec_path_views(ps, b)[j] == spec_path_views(ps.drop_first(), b)[j
                            - 1]);
                    }
                }
            },
            None => {
                assert forall|j: int, k: int|
                    0 <= j < spec_path_views(ps, b).len() && 0 <= k < (#[trigger] spec_path_views(
                        ps,
                        b,
                    )[j]).0.len() implies point_ok(#[trigger] spec_path_views(ps, b)[j].0[k]) by {
                    assert(spec_path_views(ps, b)[j] == spec_path_views(ps.drop_first(), b)[j]);
                }
                assert forall|j: int| 0 <= j < spec_path_views(ps, b).len() implies num_ok(
                    (#[trigger] spec_path_views(ps, b)[j]).1,
                ) by {
                    assert(spec_path_views(ps, b)[j] == spec_path_views(ps.drop_first(), b)[j]);
                }
            },
        }
    }
}

/// A footprint built from a well-formed model serializes.
#[verifier::rlimit(100)]
proof fn lemma_built_footprint_ser_ok(
    kf: KiFootprint,
    f: FootprintModel,
    b: BBox,
    name: Seq<char>,
    mt: Option<Seq<char>>,
    project_relative: bool,
)
    requires
        footprint_built(kf, f, b, name, mt, project_relative),
        footprint_wf(f),
        bbox_wf(b),
    ensures
        footprint_ser_ok(kf),
{
    let np = f.pads@.len() as int;
    let nh = f.holes@.len() as int;
    let nv = f.vias@.len() as int;
    assert forall|i: int| 0 <= i < kf.pads@.len() implies crate::serialize_footprint::pad_ser_ok(
        #[trigger] kf.pads@[i],
    ) by {
        if i < np {
            assert(crate::footprint_builder::pad_built(kf.pads@[i], f.pads@[i], b));
            assert(crate::geom::pad_wf(f.pads@[i]));
            if crate::footprint_builder::spec_pad_has_polygon(f.pads@[i]) {
                crate::parse::lemma_coord_list_in_range(
                    crate::parse::spec_tokenize(f.pads@[i].points@),
                );
            }
        } else if i < np + nh {
            assert(kf.pads@[np + (i - np)] == kf.pads@[i]);
            assert(crate::footprint_builder::hole_pad_built(kf.pads@[i], f.holes@[i - np], b));
            assert(crate::geom::hole_wf(f.holes@[i - np]));
        } else {
            assert(kf.pads@[np + nh + (i - np - nh)] == kf.pads@[i]);
            assert(crate::footprint_builder::via_pad_built(kf.pads@[i], f.vias@[i - np - nh], b));
            assert(crate::geom::via_wf(f.vias@[i - np - nh]));
        }
    }
    lemma_all_track_lines_ser_ok(f.tracks@, b);
    lemma_all_rect_lines_ser_ok(f.rectangles@, b);
    assert forall|i: int| 0 <= i < kf.lines@.len() implies crate::serialize_footprint::line_ser_ok(
        #[trigger] kf.lines@[i],
    ) by {
        let tl = crate::footprint_builder::spec_all_track_lines(f.tracks@, b);
        let rl = crate::footprint_builder::spec_all_rect_lines(f.rectangles@, b);
        if i < tl.len() {
            assert(kf.lines@[i] == tl[i]);
        } else {
            assert(kf.lines@[i] == rl[i - tl.len()]);
        }
    }
    assert forall|i: int| 0 <= i < kf.circles@.len() implies
        crate::serialize_footprint::fp_circle_ser_ok(#[trigger] kf.circles@[i]) by {
        assert(crate::footprint_builder::fp_circle_built(kf.circles@[i], f.circles@[i], b));
        assert(crate::geom::fp_circle_wf(f.circles@[i]));
    }
    lemma_fp_arc_seq_ser_ok(f.arcs@, b);
    assert forall|i: int| 0 <= i < kf.texts@.len() implies crate::serialize_footprint::text_ser_ok(
        #[trigger] kf.texts@[i],
    ) by {
        assert(crate::footprint_builder::text_built(kf.texts@[i], f.texts@[i], b));
        assert(crate::geom::fp_text_wf(f.texts@[i]));
    }
}

/// Converts one component's footprint the same way, returning the built
/// entity beside its text.
pub fn convert_footprint(
    f: &FootprintModel,
    b: BBox,
    name: &str,
    model_title: Option<&String>,
    project_relative: bool,
) -> (r: (KiFootprint, String))
    requires
        footprint_wf(*f),
        bbox_wf(b),
    ensures
        footprint_built(
            r.0,
            *f,
            b,
            name@,
            match model_title {
                Some(t) => Some(t@),
                None => None,
            },
            project_relative,
        ),
        r.1@ == spec_export_footprint(r.0),
{
    let kf = build_footprint(f, b, name, model_title, project_relative);
    proof {
        lemma_built_footprint_ser_ok(
            kf,
            *f,
            b,
            name@,
            match model_title {
                Some(t) => Some(t@),
                None => None,
            },
            project_relative,
        );
    }
    let out = export_footprint(&kf);
    (kf, out)
}

/// Every track segment serializes: its endpoints are parsed in-range numbers
/// after one shift.
proof fn lemma_all_track_lines_ser_ok(ts: Seq<crate::geom::Track>, b: BBox)
    requires
        bbox_wf(b),
        forall|i: int| 0 <= i < ts.len() ==> crate::geom::track_wf(#[trigger] ts[i]),
    ensures
        forall|i: int|
            0 <= i < crate::footprint_builder::spec_all_track_lines(ts, b).len() ==>
                crate::serialize_footprint::line_ser_ok(
                #[trigger] crate::footprint_builder::spec_all_track_lines(ts, b)[i],
            ),
    decreases ts.len(),
{
    if ts.len() > 0 {
        assert(forall|i: int|
            0 <= i < ts.drop_first().len() ==> crate::geom::track_wf(
                #[trigger] ts.drop_first()[i],
            ));
        lemma_all_track_lines_ser_ok(ts.drop_first(), b);
        let seg = crate::footprint_builder::spec_track_lines(ts[0], b);
        crate::parse::lemma_coord_list_in_range(crate::parse::spec_tokenize(ts[0].points@));
        assert(forall|i: int|
            0 <= i < seg.len() ==> crate::serialize_footprint::line_ser_ok(#[trigger] seg[i]));
        assert forall|i: int|
            0 <= i < crate::footprint_builder::spec_all_track_lines(ts, b).len() implies
            crate::serialize_footprint::line_ser_ok(
            #[trigger] crate::footprint_builder::spec_all_track_lines(ts, b)[i],
        ) by {
            if i < seg.len() {
                assert(crate::footprint_builder::spec_all_track_lines(ts, b)[i] == seg[i]);
            } else {
                assert(crate::footprint_builder::spec_all_track_lines(ts, b)[i]
                    == crate::footprint_builder::spec_all_track_lines(ts.drop_first(), b)[i
                    - seg.len()]);
            }
        }
    }
}

/// Every rectangle line serializes.
proof fn lemma_all_rect_lines_ser_ok(rs: Seq<crate::geom::FpRect>, b: BBox)
    requires
        bbox_wf(b),
        forall|i: int| 0 <= i < rs.len() ==> crate::geom::fp_rect_wf(#[trigger] rs[i]),
    ensures
        forall|i: int|
            0 <= i < crate::footprint_builder::spec_all_rect_lines(rs, b).len() ==>
                crate::serialize_footprint::line_ser_ok(
                #[trigger] crate::footprint_builder::spec_all_rect_lines(rs, b)[i],
            ),
    decreases rs.len(),
{
    if rs.len() > 0 {
        assert(forall|i: int|
            0 <= i < rs.drop_first().len() ==> crate::geom::fp_rect_wf(
                #[trigger] rs.drop_first()[i],
            ));
        lemma_all_rect_lines_ser_ok(rs.drop_first(), b);
        let seg = crate::footprint_builder::spec_rect_lines(rs[0], b);
        assert(forall|i: int|
            0 <= i < seg.len() ==> crate::serialize_footprint::line_ser_ok(#[trigger] seg[i]));
        assert forall|i: int|
            0 <= i < crate::footprint_builder::spec_all_rect_lines(rs, b).len() implies
            crate::serialize_footprint::line_ser_ok(
            #[trigger] crate::footprint_builder::spec_all_rect_lines(rs, b)[i],
        ) by {
            if i < seg.len() {
                assert(crate::footprint_builder::spec_all_rect_lines(rs, b)[i] == seg[i]);
            } else {
                assert(crate::footprint_builder::spec_all_rect_lines(rs, b)[i]
                    == crate::footprint_builder::spec_all_rect_lines(rs.drop_first(), b)[i
                    - seg.len()]);
            }
        }
    }
}

} // verus!
