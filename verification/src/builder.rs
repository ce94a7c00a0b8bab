//! The target builders: pure projections from the normalized intermediate
//! geometry to target entities.
//!
//! Builders are total — a primitive whose numbers cannot be carried (an arc
//! whose offsets leave the coordinate range, a path with fewer than two
//! points) is dropped on its own, never fatal for the component.

use vstd::prelude::*;
use crate::num::spec_round_div;
use crate::num::round_div_i128;
use crate::geom::Point;
use crate::geom::BBox;
use crate::geom::Pin;
use crate::geom::RectShape;
use crate::geom::CircleShape;
use crate::geom::EllipseShape;
use crate::geom::ArcShape;
use crate::geom::PolyShape;
use crate::geom::PathShape;
use crate::geom::SymbolModel;
use crate::geom::ComponentMeta;
use crate::geom::bbox_wf;
use crate::geom::pin_wf;
use crate::geom::rect_wf;
use crate::geom::circle_wf;
use crate::geom::ellipse_wf;
use crate::geom::arc_wf;
use crate::geom::poly_wf;
use crate::geom::path_wf;
use crate::geom::symbol_wf;
use crate::geom::point_wf;
use crate::kicad::KiPin;
use crate::kicad::KiRectangle;
use crate::kicad::KiCircle;
use crate::kicad::SymbolArc;
use crate::kicad::KiPolyline;
use crate::kicad::KiSymbol;
use crate::kicad::spec_pin_type;
use crate::kicad::spec_pin_style;
use crate::kicad::pin_type_from_code;
use crate::kicad::pin_style_from_flags;
use crate::transform::spec_norm_sym_x;
use crate::transform::spec_norm_sym_y;
use crate::transform::spec_norm_pin_y;
use crate::transform::spec_arc_points;
use crate::transform::arc_points;
use crate::path::spec_parse_path;
use crate::path::parse_path;
use vstd::arithmetic::div_mod::lemma_fundamental_div_mod_converse;
use vstd::arithmetic::div_mod::lemma_div_is_ordered;
use vstd::string::StringExecFns;

verus! {

/// The target pin a source pin projects to.
pub open spec fn pin_built(kp: KiPin, p: Pin, b: BBox) -> bool {
    &&& kp.number@ == p.number@
    &&& kp.name@ == p.name@
    &&& kp.pin_type == spec_pin_type(p.electric_type)
    &&& kp.style == spec_pin_style(p.dot, p.clock)
    &&& kp.pos.x as int == spec_norm_sym_x(p.x as int, b)
    &&& kp.pos.y as int == spec_norm_pin_y(p.y as int, b)
    &&& kp.rotation == p.rotation
    &&& kp.length == p.length
}

/// Builds one target pin; position per the pin rule (no net flip).
pub fn build_pin(p: &Pin, b: BBox) -> (r: KiPin)
    requires
        pin_wf(*p),
        bbox_wf(b),
    ensures
        pin_built(r, *p, b),
{
    KiPin {
        number: p.number.clone(),
        name: p.name.clone(),
        pin_type: pin_type_from_code(p.electric_type),
        style: pin_style_from_flags(p.dot, p.clock),
        pos: Point { x: p.x - b.x, y: p.y - b.y },
        rotation: p.rotation,
        length: p.length,
    }
}

/// The target rectangle a source rectangle projects to; the first rectangle
/// of a symbol is the body outline and is always filled.
pub open spec fn rect_built(kr: KiRectangle, r: RectShape, b: BBox, first: bool) -> bool {
    &&& kr.x1 as int == spec_norm_sym_x(r.x as int, b)
    &&& kr.y1 as int == spec_norm_sym_y(r.y as int, b)
    &&& kr.x2 as int == spec_norm_sym_x(r.x as int + r.width as int, b)
    &&& kr.y2 as int == spec_norm_sym_y(r.y as int + r.height as int, b)
    &&& kr.stroke_width == r.stroke_width
    &&& kr.fill == (first || r.fill)
}

/// Builds one target rectangle.
pub fn build_rect(r: &RectShape, b: BBox, first: bool) -> (kr: KiRectangle)
    requires
        rect_wf(*r),
        bbox_wf(b),
    ensures
        rect_built(kr, *r, b, first),
{
    KiRectangle {
        x1: r.x - b.x,
        y1: b.y - r.y,
        x2: (r.x + r.width) - b.x,
        y2: b.y - (r.y + r.height),
        stroke_width: r.stroke_width,
        fill: first || r.fill,
    }
}

/// The target circle a source circle projects to.
pub open spec fn circle_built(kc: KiCircle, c: CircleShape, b: BBox) -> bool {
    &&& kc.cx as int == spec_norm_sym_x(c.cx as int, b)
    &&& kc.cy as int == spec_norm_sym_y(c.cy as int, b)
    &&& kc.radius == c.radius
    &&& kc.stroke_width == c.stroke_width
    &&& kc.fill == c.fill
}

/// Builds one target circle.
pub fn build_circle(c: &CircleShape, b: BBox) -> (kc: KiCircle)
    requires
        circle_wf(*c),
        bbox_wf(b),
    ensures
        circle_built(kc, *c, b),
{
    KiCircle {
        cx: c.cx - b.x,
        cy: b.y - c.cy,
        radius: c.radius,
        stroke_width: c.stroke_width,
        fill: c.fill,
    }
}

/// The circle a source ellipse degrades to: the mean of its two radii.
pub open spec fn ellipse_built(kc: KiCircle, e: EllipseShape, b: BBox) -> bool {
    &&& kc.cx as int == spec_norm_sym_x(e.cx as int, b)
    &&& kc.cy as int == spec_norm_sym_y(e.cy as int, b)
    &&& kc.radius as int == spec_round_div(e.rx as int + e.ry as int, 2)
    &&& kc.stroke_width == e.stroke_width
    &&& kc.fill == e.fill
}

/// Builds the stand-in circle for a source ellipse.
pub fn build_ellipse(e: &EllipseShape, b: BBox) -> (kc: KiCircle)
    requires
        ellipse_wf(*e),
        bbox_wf(b),
    ensures
        ellipse_built(kc, *e, b),
{
    let r128: i128 = round_div_i128((e.rx as i128) + (e.ry as i128), 2);
    proof {
        let x = e.rx as int + e.ry as int;
        let mx = 2 * (crate::num::MAX_COORD as int) + 1;
        lemma_fundamental_div_mod_converse(mx, 2, crate::num::MAX_COORD as int, 1);
        lemma_fundamental_div_mod_converse(0, 2, 0, 0);
        if x >= 0 {
            lemma_div_is_ordered(x + 1, mx, 2);
            lemma_div_is_ordered(0, x + 1, 2);
        } else {
            lemma_div_is_ordered(-x + 1, mx, 2);
            lemma_div_is_ordered(0, -x + 1, 2);
        }
    }
    KiCircle {
        cx: e.cx - b.x,
        cy: b.y - e.cy,
        radius: r128 as i64,
        stroke_width: e.stroke_width,
        fill: e.fill,
    }
}

/// A raw arc boundary point after symbol normalization.
pub open spec fn spec_norm_sym_point(p: Point, b: BBox) -> Point {
    Point { x: (p.x - b.x) as i64, y: (b.y - p.y) as i64 }
}

/// The target arc a source arc projects to, when its three boundary points
/// can be carried.
pub open spec fn spec_build_arc(a: ArcShape, b: BBox) -> Option<SymbolArc> {
    match spec_arc_points(a) {
        Some(pts) => Some(
            SymbolArc {
                start: spec_norm_sym_point(pts.0, b),
                mid: spec_norm_sym_point(pts.1, b),
                end: spec_norm_sym_point(pts.2, b),
                stroke_width: a.stroke_width,
            },
        ),
        None => None,
    }
}

/// Builds one target arc from center and angles; drops it when an offset
/// leaves the coordinate range.
pub fn build_arc(a: &ArcShape, b: BBox) -> (r: Option<SymbolArc>)
    requires
        arc_wf(*a),
        bbox_wf(b),
    ensures
        r == spec_build_arc(*a, b),
{
    match arc_points(a) {
        Some((s, m, e)) => Some(
            SymbolArc {
                start: Point { x: s.x - b.x, y: b.y - s.y },
                mid: Point { x: m.x - b.x, y: b.y - m.y },
                end: Point { x: e.x - b.x, y: b.y - e.y },
                stroke_width: a.stroke_width,
            },
        ),
        None => None,
    }
}

/// The kept target arcs of a source arc list, in order.
pub open spec fn spec_arc_seq(arcs: Seq<ArcShape>, b: BBox) -> Seq<SymbolArc>
    decreases arcs.len(),
{
    if arcs.len() == 0 {
        Seq::empty()
    } else {
        match spec_build_arc(arcs[0], b) {
            Some(ka) => seq![ka] + spec_arc_seq(arcs.drop_first(), b),
            None => spec_arc_seq(arcs.drop_first(), b),
        }
    }
}

/// Points after symbol normalization, in order.
pub open spec fn spec_norm_pts_sym(pts: Seq<Point>, b: BBox) -> Seq<Point> {
    pts.map_values(|p: Point| spec_norm_sym_point(p, b))
}

/// Normalizes a vertex list with the symbol shape rule.
fn norm_points_sym(pts: &Vec<Point>, b: BBox) -> (r: Vec<Point>)
    requires
        bbox_wf(b),
        forall|i: int| 0 <= i < pts@.len() ==> point_wf(#[trigger] pts@[i]),
    ensures
        r@ == spec_norm_pts_sym(pts@, b),
{
    let mut r: Vec<Point> = Vec::new();
    let n = pts.len();
    let mut i: usize = 0;
    while i < n
        invariant
            0 <= i <= n,
            n == pts@.len(),
            bbox_wf(b),
            forall|k: int| 0 <= k < n ==> point_wf(#[trigger] pts@[k]),
            r@ =~= spec_norm_pts_sym(pts@, b).take(i as int),
        decreases n - i,
    {
        let p = pts[i];
        r.push(Point { x: p.x - b.x, y: b.y - p.y });
        proof {
            assert(r@ =~= spec_norm_pts_sym(pts@, b).take(i + 1));
        }
        i += 1;
    }
    proof {
        assert(spec_norm_pts_sym(pts@, b).take(n as int) =~= spec_norm_pts_sym(pts@, b));
    }
    r
}

/// The target polyline a source polyline or polygon projects to: vertices
/// normalized; a polyline is never filled, a polygon keeps its source flag.
pub open spec fn poly_built(kp: KiPolyline, p: PolyShape, b: BBox, keep_fill: bool) -> bool {
    &&& kp.points@ == spec_norm_pts_sym(p.points@, b)
    &&& kp.stroke_width == p.stroke_width
    &&& kp.fill == (keep_fill && p.fill)
}

/// Builds the target polyline for a source polyline or polygon.
pub fn build_poly(p: &PolyShape, b: BBox, keep_fill: bool) -> (kp: KiPolyline)
    requires
        poly_wf(*p),
        bbox_wf(b),
    ensures
        poly_built(kp, *p, b, keep_fill),
{
    KiPolyline {
        points: norm_points_sym(&p.points, b),
        stroke_width: p.stroke_width,
        fill: keep_fill && p.fill,
    }
}

/// What a path contributes: its normalized vertex list with stroke and fill,
/// or nothing when it yields fewer than two points.
pub open spec fn spec_path_view(p: PathShape, b: BBox) -> Option<(Seq<Point>, i64, bool)> {
    let raw = spec_parse_path(p.data@);
    if raw.len() >= 2 {
        Some((spec_norm_pts_sym(raw, b), p.stroke_width, p.fill))
    } else {
        None
    }
}

/// The kept path contributions of a path list, in order.
pub open spec fn spec_path_views(ps: Seq<PathShape>, b: BBox) -> Seq<(Seq<Point>, i64, bool)>
    decreases ps.len(),
{
    if ps.len() == 0 {
        Seq::empty()
    } else {
        match spec_path_view(ps[0], b) {
            Some(v) => seq![v] + spec_path_views(ps.drop_first(), b),
            None => spec_path_views(ps.drop_first(), b),
        }
    }
}

/// A target polyline carrying exactly a path contribution.
pub open spec fn poly_view_match(kp: KiPolyline, v: (Seq<Point>, i64, bool)) -> bool {
    &&& kp.points@ == v.0
    &&& kp.stroke_width == v.1
    &&& kp.fill == v.2
}

/// Interprets one path and builds its target polyline; a path yielding fewer
/// than two points is dropped.
pub fn build_path(p: &PathShape, b: BBox) -> (r: Option<KiPolyline>)
    requires
        path_wf(*p),
        bbox_wf(b),
    ensures
        spec_path_view(*p, b) is Some ==> r is Some && poly_view_match(
            r->0,
            spec_path_view(*p, b)->0,
        ),
        spec_path_view(*p, b) is None ==> r is None,
{
    let raw = parse_path(p.data.as_slice());
    if raw.len() >= 2 {
        let pts = norm_points_sym(&raw, b);
        Some(KiPolyline { points: pts, stroke_width: p.stroke_width, fill: p.fill })
    } else {
        None
    }
}

/// Everything `build_symbol` promises of its result, relative to the inputs.
pub open spec fn symbol_built(
    r: KiSymbol,
    meta: ComponentMeta,
    s: SymbolModel,
    b: BBox,
    name: Seq<char>,
    fp_name: Seq<char>,
) -> bool {
    &&& r.name@ == name
    &&& r.reference@ == s.prefix@
    &&& r.value@ == meta.title@
    &&& r.footprint@ == "e2k:"@ + fp_name
    &&& r.datasheet@ == meta.datasheet@
    &&& r.manufacturer@ == meta.manufacturer@
    &&& r.lcsc_id@ == meta.lcsc_id@
    &&& r.jlc_id@ == meta.jlc_id@
    &&& r.pins@.len() == s.pins@.len()
    &&& forall|i: int|
        0 <= i < s.pins@.len() ==> pin_built(#[trigger] r.pins@[i], s.pins@[i], b)
    &&& r.rectangles@.len() == s.rectangles@.len()
    &&& forall|i: int|
        0 <= i < s.rectangles@.len() ==> rect_built(
            #[trigger] r.rectangles@[i],
            s.rectangles@[i],
            b,
            i == 0,
        )
    &&& r.circles@.len() == s.circles@.len() + s.ellipses@.len()
    &&& forall|i: int|
        0 <= i < s.circles@.len() ==> circle_built(#[trigger] r.circles@[i], s.circles@[i], b)
    &&& forall|i: int|
        0 <= i < s.ellipses@.len() ==> ellipse_built(
            #[trigger] r.circles@[s.circles@.len() + i],
            s.ellipses@[i],
            b,
        )
    &&& r.arcs@ == spec_arc_seq(s.arcs@, b)
    &&& r.polylines@.len() == s.polylines@.len() + s.polygons@.len() + spec_path_views(
        s.paths@,
        b,
    ).len()
    &&& forall|i: int|
        0 <= i < s.polylines@.len() ==> poly_built(
            #[trigger] r.polylines@[i],
            s.polylines@[i],
            b,
            false,
        )
    &&& forall|i: int|
        0 <= i < s.polygons@.len() ==> poly_built(
            #[trigger] r.polylines@[s.polylines@.len() + i],
            s.polygons@[i],
            b,
            true,
        )
    &&& forall|i: int|
        0 <= i < spec_path_views(s.paths@, b).len() ==> poly_view_match(
            #[trigger] r.polylines@[s.polylines@.len() + s.polygons@.len() + i],
            spec_path_views(s.paths@, b)[i],
        )
}

/// Builds the whole target symbol: metadata projected, every primitive
/// normalized per the symbol rules, in source order.
pub fn build_symbol(
    meta: &ComponentMeta,
    s: &SymbolModel,
    b: BBox,
    name: &str,
    fp_name: &str,
) -> (r: KiSymbol)
    requires
        symbol_wf(*s),
        bbox_wf(b),
    ensures
        symbol_built(r, *meta, *s, b, name@, fp_name@),
{
    let mut footprint = String::new();
    proof {
        reveal_strlit("e2k:");
    }
    footprint.append("e2k:");
    proof {
        assert(footprint@ =~= "e2k:"@);
    }
    footprint.append(fp_name);

    let mut pins: Vec<KiPin> = Vec::new();
    let mut i: usize = 0;
    while i < s.pins.len()
        invariant
            0 <= i <= s.pins@.len(),
            symbol_wf(*s),
            bbox_wf(b),
            pins@.len() == i,
            forall|k: int| 0 <= k < i ==> pin_built(#[trigger] pins@[k], s.pins@[k], b),
        decreases s.pins@.len() - i,
    {
        pins.push(build_pin(&s.pins[i], b));
        i += 1;
    }

    let mut rectangles: Vec<KiRectangle> = Vec::new();
    let mut i: usize = 0;
    while i < s.rectangles.len()
        invariant
            0 <= i <= s.rectangles@.len(),
            symbol_wf(*s),
            bbox_wf(b),
            rectangles@.len() == i,
            forall|k: int|
                0 <= k < i ==> rect_built(#[trigger] rectangles@[k], s.rectangles@[k], b, k == 0),
        decreases s.rectangles@.len() - i,
    {
        rectangles.push(build_rect(&s.rectangles[i], b, i == 0));
        i += 1;
    }

    let mut circles: Vec<KiCircle> = Vec::new();
    let mut i: usize = 0;
    while i < s.circles.len()
        invariant
            0 <= i <= s.circles@.len(),
            symbol_wf(*s),
            bbox_wf(b),
            circles@.len() == i,
            forall|k: int| 0 <= k < i ==> circle_built(#[trigger] circles@[k], s.circles@[k], b),
        decreases s.circles@.len() - i,
    {
        circles.push(build_circle(&s.circles[i], b));
        i += 1;
    }
    let ghost nc = s.circles@.len() as int;
    let mut i: usize = 0;
    while i < s.ellipses.len()
        invariant
            0 <= i <= s.ellipses@.len(),
            symbol_wf(*s),
            bbox_wf(b),
            circles@.len() == nc + i,
            nc == s.circles@.len(),
            forall|k: int| 0 <= k < nc ==> circle_built(#[trigger] circles@[k], s.circles@[k], b),
            forall|k: int|
                0 <= k < i ==> ellipse_built(#[trigger] circles@[nc + k], s.ellipses@[k], b),
        decreases s.ellipses@.len() - i,
    {
        circles.push(build_ellipse(&s.ellipses[i], b));
        i += 1;
    }

    let mut arcs: Vec<SymbolArc> = Vec::new();
    let ghost arcs_full = s.arcs@;
    let mut i: usize = 0;
    proof {
        assert(arcs_full.skip(0) =~= arcs_full);
    }
    while i < s.arcs.len()
        invariant
            0 <= i <= s.arcs@.len(),
            symbol_wf(*s),
            bbox_wf(b),
            arcs_full == s.arcs@,
            spec_arc_seq(arcs_full, b) == arcs@ + spec_arc_seq(arcs_full.skip(i as int), b),
        decreases s.arcs@.len() - i,
    {
        proof {
            assert(arcs_full.skip(i as int)[0] == arcs_full[i as int]);
            assert(arcs_full.skip(i as int).drop_first() =~= arcs_full.skip(i + 1));
        }
        match build_arc(&s.arcs[i], b) {
            Some(ka) => {
                let ghost old_arcs = arcs@;
                arcs.push(ka);
                proof {
                    assert(arcs@ =~= old_arcs + seq![ka]);
                    assert((old_arcs + seq![ka]) + spec_arc_seq(arcs_full.skip(i + 1), b)
                        =~= old_arcs + (seq![ka] + spec_arc_seq(arcs_full.skip(i + 1), b)));
                }
            },
            None => {},
        }
        i += 1;
    }
    proof {
        assert(arcs_full.skip(s.arcs@.len() as int) =~= Seq::<ArcShape>::empty());
        assert(arcs@ + Seq::<SymbolArc>::empty() =~= arcs@);
    }

    let mut polylines: Vec<KiPolyline> = Vec::new();
    let mut i: usize = 0;
    while i < s.polylines.len()
        invariant
            0 <= i <= s.polylines@.len(),
            symbol_wf(*s),
            bbox_wf(b),
            polylines@.len() == i,
            forall|k: int|
                0 <= k < i ==> poly_built(#[trigger] polylines@[k], s.polylines@[k], b, false),
        decreases s.polylines@.len() - i,
    {
        polylines.push(build_poly(&s.polylines[i], b, false));
        i += 1;
    }
    let ghost np = s.polylines@.len() as int;
    let mut i: usize = 0;
    while i < s.polygons.len()
        invariant
            0 <= i <= s.polygons@.len(),
            symbol_wf(*s),
            bbox_wf(b),
            polylines@.len() == np + i,
            np == s.polylines@.len(),
            forall|k: int|
                0 <= k < np ==> poly_built(#[trigger] polylines@[k], s.polylines@[k], b, false),
            forall|k: int|
                0 <= k < i ==> poly_built(#[trigger] polylines@[np + k], s.polygons@[k], b, true),
        decreases s.polygons@.len() - i,
    {
        polylines.push(build_poly(&s.polygons[i], b, true));
        i += 1;
    }
    let ghost ng = s.polygons@.len() as int;
    let ghost paths_full = s.paths@;
    let ghost pv = spec_path_views(s.paths@, b);
    let ghost base = polylines@;
    let ghost mut pv_done: Seq<(Seq<Point>, i64, bool)> = Seq::empty();
    let mut i: usize = 0;
    proof {
        assert(paths_full.skip(0) =~= paths_full);
        assert(pv_done + spec_path_views(paths_full, b) =~= spec_path_views(paths_full, b));
    }
    while i < s.paths.len()
        invariant
            0 <= i <= s.paths@.len(),
            symbol_wf(*s),
            bbox_wf(b),
            paths_full == s.paths@,
            np == s.polylines@.len(),
            ng == s.polygons@.len(),
            base.len() == np + ng,
            polylines@.len() == base.len() + pv_done.len(),
            forall|k: int| 0 <= k < base.len() ==> #[trigger] polylines@[k] == base[k],
            forall|k: int|
                0 <= k < np ==> poly_built(#[trigger] polylines@[k], s.polylines@[k], b, false),
            forall|k: int|
                0 <= k < ng ==> poly_built(#[trigger] polylines@[np + k], s.polygons@[k], b, true),
            forall|k: int|
                0 <= k < pv_done.len() ==> poly_view_match(
                    #[trigger] polylines@[base.len() + k],
                    pv_done[k],
                ),
            pv == pv_done + spec_path_views(paths_full.skip(i as int), b),
        decreases s.paths@.len() - i,
    {
        proof {
            assert(paths_full.skip(i as int)[0] == paths_full[i as int]);
            assert(paths_full.skip(i as int).drop_first() =~= paths_full.skip(i + 1));
        }
        match build_path(&s.paths[i], b) {
            Some(kp) => {
                polylines.push(kp);
                proof {
                    let v = spec_path_view(paths_full[i as int], b)->0;
                    let prev = pv_done;
                    pv_done = pv_done + seq![v];
                    assert((pv_done + spec_path_views(paths_full.skip(i + 1), b)) =~= (prev + (
                    seq![v] + spec_path_views(paths_full.skip(i + 1), b))));
                }
            },
            None => {},
        }
        i += 1;
    }
    proof {
        assert(paths_full.skip(s.paths@.len() as int) =~= Seq::<PathShape>::empty());
        assert(pv =~= pv_done);
    }

    KiSymbol {
        name: name.to_owned(),
        reference: s.prefix.clone(),
        value: meta.title.clone(),
        footprint,
        datasheet: meta.datasheet.clone(),
        manufacturer: meta.manufacturer.clone(),
        lcsc_id: meta.lcsc_id.clone(),
        jlc_id: meta.jlc_id.clone(),
        pins,
        rectangles,
        circles,
        arcs,
        polylines,
    }
}

} // verus!
