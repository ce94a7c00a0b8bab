//! The footprint-side target builders: pads with drills and layer sets, the
//! polygon-pad fallback, tracks and rectangles as line segments, holes and
//! vias as through pads, arcs, circles and texts.

use vstd::prelude::*;
use crate::num::in_range;
use crate::geom::Point;
use crate::geom::BBox;
use crate::geom::Pad;
use crate::geom::Track;
use crate::geom::FpCircle;
use crate::geom::ArcShape;
use crate::geom::FpRect;
use crate::geom::Hole;
use crate::geom::Via;
use crate::geom::FpText;
use crate::geom::FootprintModel;
use crate::geom::SourcePadShape;
use crate::geom::bbox_wf;
use crate::geom::pad_wf;
use crate::geom::track_wf;
use crate::geom::fp_circle_wf;
use crate::geom::arc_wf;
use crate::geom::fp_rect_wf;
use crate::geom::hole_wf;
use crate::geom::via_wf;
use crate::geom::fp_text_wf;
use crate::geom::footprint_wf;
use crate::kicad::PadType;
use crate::kicad::PadShape;
use crate::kicad::Layer;
use crate::kicad::Drill;
use crate::kicad::KiPad;
use crate::kicad::KiLine;
use crate::kicad::FpKiCircle;
use crate::kicad::FpKiArc;
use crate::kicad::KiText;
use crate::kicad::Ki3dModel;
use crate::kicad::KiFootprint;
use crate::kicad::spec_pad_shape;
use crate::kicad::spec_pad_layers_tht;
use crate::kicad::spec_pad_layers_smd;
use crate::kicad::spec_map_layer;
use crate::kicad::pad_shape_from_source;
use crate::kicad::map_pad_layers_tht;
use crate::kicad::map_pad_layers_smd;
use crate::kicad::map_layer;
use crate::transform::spec_norm_fp_x;
use crate::transform::spec_norm_fp_y;
use crate::transform::spec_arc_points;
use crate::transform::arc_points;
use crate::parse::spec_coord_list;
use crate::parse::spec_tokenize;
use crate::parse::parse_coords;
use crate::naming::spec_sanitize;
use crate::naming::sanitize_name;

verus! {

/// Copper size of a polygon pad, whose true geometry lives in its outline:
/// a minimal placeholder, five thousandths of a unit.
pub const POLY_PAD_SIZE: i64 = 5_000;

/// Silkscreen text stroke, fifteen hundredths of a unit.
pub const TEXT_THICKNESS: i64 = 150_000;

/// A present hole makes a pad plated through-hole, otherwise surface-mount.
pub open spec fn spec_pad_type(p: Pad) -> PadType {
    if p.hole_radius is Some {
        PadType::ThroughHole
    } else {
        PadType::Smd
    }
}

/// The drill of a pad. A slot compares the pad's margins over the slot's
/// largest extent: the larger margin picks the orientation, which decides
/// whether the hole diameter or the slot length is the primary size. This is
/// the source convention's heuristic, kept as-is.
pub open spec fn spec_pad_drill(p: Pad) -> Option<Drill> {
    match p.hole_radius {
        Option::Some(hr) => match p.hole_length {
            Option::Some(hl) => {
                let two_r = 2 * (hr as int);
                let maxd: int = if two_r >= hl as int {
                    two_r
                } else {
                    hl as int
                };
                if p.height as int - maxd > p.width as int - maxd {
                    Some(Drill { diameter: two_r as i64, width: Some(hl) })
                } else {
                    Some(Drill { diameter: hl, width: Some(two_r as i64) })
                }
            },
            Option::None => Some(Drill { diameter: (2 * (hr as int)) as i64, width: None }),
        },
        Option::None => None,
    }
}

/// Computes a pad's drill.
pub fn pad_drill(p: &Pad) -> (r: Option<Drill>)
    requires
        pad_wf(*p),
    ensures
        r == spec_pad_drill(*p),
{
    match p.hole_radius {
        Some(hr) => match p.hole_length {
            Some(hl) => {
                let two_r = 2 * hr;
                let maxd = if two_r >= hl {
                    two_r
                } else {
                    hl
                };
                if p.height - maxd > p.width - maxd {
                    Some(Drill { diameter: two_r, width: Some(hl) })
                } else {
                    Some(Drill { diameter: hl, width: Some(two_r) })
                }
            },
            None => Some(Drill { diameter: 2 * hr, width: None }),
        },
        None => None,
    }
}

/// The numbers parsed out of a pad's polygon text.
pub open spec fn spec_pad_coords(p: Pad) -> Seq<i64> {
    spec_coord_list(spec_tokenize(p.points@))
}

/// A pad emits its polygon outline only when it is polygon-shaped and its
/// text yields at least two coordinate pairs.
pub open spec fn spec_pad_has_polygon(p: Pad) -> bool {
    p.shape == SourcePadShape::Polygon && spec_pad_coords(p).len() >= 4
}

/// The outline vertices of a polygon pad, relative to the pad's own
/// normalized position; a dangling odd coordinate is ignored.
pub open spec fn spec_rel_points(cs: Seq<i64>, b: BBox, px: int, py: int) -> Seq<Point> {
    Seq::new(
        (cs.len() / 2) as nat,
        |k: int|
            Point {
                x: (cs[2 * k] as int - b.x as int - px) as i64,
                y: (cs[2 * k + 1] as int - b.y as int - py) as i64,
            },
    )
}

/// Everything a built pad promises relative to its source pad.
pub open spec fn pad_built(kp: KiPad, p: Pad, b: BBox) -> bool {
    let px = spec_norm_fp_x(p.x as int, b);
    let py = spec_norm_fp_y(p.y as int, b);
    &&& kp.number@ == p.number@
    &&& kp.pad_type == spec_pad_type(p)
    &&& kp.shape == spec_pad_shape(p.shape)
    &&& kp.pos.x as int == px
    &&& kp.pos.y as int == py
    &&& kp.layers@ == if spec_pad_type(p) is ThroughHole {
        spec_pad_layers_tht(p.layer_id as int)
    } else {
        spec_pad_layers_smd(p.layer_id as int)
    }
    &&& kp.drill == spec_pad_drill(p)
    &&& if spec_pad_has_polygon(p) {
        &&& kp.size_x == POLY_PAD_SIZE
        &&& kp.size_y == POLY_PAD_SIZE
        &&& kp.rotation == 0
        &&& kp.polygon is Some
        &&& kp.polygon->0@ == spec_rel_points(spec_pad_coords(p), b, px, py)
    } else {
        &&& kp.size_x == p.width
        &&& kp.size_y == p.height
        &&& kp.rotation == p.rotation
        &&& kp.polygon is None
    }
}

/// Builds one target pad: position normalized, layer set from the mounting
/// kind, drill from the slot heuristic; a polygon pad falls back to its
/// declared size and rotation when its outline has fewer than two pairs.
pub fn build_pad(p: &Pad, b: BBox) -> (kp: KiPad)
    requires
        pad_wf(*p),
        bbox_wf(b),
    ensures
        pad_built(kp, *p, b),
{
    let pos = Point { x: p.x - b.x, y: p.y - b.y };
    let is_tht = match p.hole_radius {
        Some(_) => true,
        None => false,
    };
    let pad_type = if is_tht {
        PadType::ThroughHole
    } else {
        PadType::Smd
    };
    let layers = if is_tht {
        map_pad_layers_tht(p.layer_id)
    } else {
        map_pad_layers_smd(p.layer_id)
    };
    let drill = pad_drill(p);
    let is_poly = match p.shape {
        SourcePadShape::Polygon => true,
        _ => false,
    };
    let mut polygon: Option<Vec<Point>> = None;
    if is_poly {
        let cs = parse_coords(p.points.as_slice());
        if cs.len() >= 4 {
            let m = cs.len();
            let mut rel: Vec<Point> = Vec::new();
            let mut i: usize = 0;
            while i + 1 < m
                invariant
                    0 <= i <= m,
                    i % 2 == 0,
                    m == cs@.len(),
                    bbox_wf(b),
                    in_range(p.x as int),
                    in_range(p.y as int),
                    forall|k: int| 0 <= k < m ==> in_range(#[trigger] cs@[k] as int),
                    pos.x as int == p.x as int - b.x as int,
                    pos.y as int == p.y as int - b.y as int,
                    rel@ =~= spec_rel_points(cs@, b, pos.x as int, pos.y as int).take(i as int / 2),
                decreases m - i,
            {
                rel.push(
                    Point { x: cs[i] - b.x - pos.x, y: cs[i + 1] - b.y - pos.y },
                );
                proof {
                    assert(rel@ =~= spec_rel_points(cs@, b, pos.x as int, pos.y as int).take(
                        i as int / 2 + 1,
                    ));
                    assert((i + 2) as int / 2 == i as int / 2 + 1);
                }
                i += 2;
            }
            proof {
                assert(i as int / 2 == cs@.len() as int / 2);
                assert(spec_rel_points(cs@, b, pos.x as int, pos.y as int).take(cs@.len() as int / 2)
                    =~= spec_rel_points(cs@, b, pos.x as int, pos.y as int));
            }
            polygon = Some(rel);
        }
    }
    match polygon {
        Some(rel) => KiPad {
            number: p.number.clone(),
            pad_type,
            shape: pad_shape_from_source(p.shape),
            pos,
            size_x: POLY_PAD_SIZE,
            size_y: POLY_PAD_SIZE,
            rotation: 0,
            layers,
            drill,
            polygon: Some(rel),
        },
        None => KiPad {
            number: p.number.clone(),
            pad_type,
            shape: pad_shape_from_source(p.shape),
            pos,
            size_x: p.width,
            size_y: p.height,
            rotation: p.rotation,
            layers,
            drill,
            polygon: None,
        },
    }
}

/// The line segments a track's point list yields: consecutive pairs, each
/// normalized, on the track's mapped layer.
pub open spec fn spec_track_lines(t: Track, b: BBox) -> Seq<KiLine> {
    let cs = spec_coord_list(spec_tokenize(t.points@));
    let m = cs.len() as int;
    Seq::new(
        if m >= 4 {
            ((m - 2) / 2) as nat
        } else {
            0
        },
        |k: int|
            KiLine {
                start: Point {
                    x: (cs[2 * k] as int - b.x as int) as i64,
                    y: (cs[2 * k + 1] as int - b.y as int) as i64,
                },
                end: Point {
                    x: (cs[2 * k + 2] as int - b.x as int) as i64,
                    y: (cs[2 * k + 3] as int - b.y as int) as i64,
                },
                width: t.stroke_width,
                layer: spec_map_layer(t.layer_id as int),
            },
    )
}

/// Converts one track to its line segments.
pub fn build_track_lines(t: &Track, b: BBox) -> (r: Vec<KiLine>)
    requires
        track_wf(*t),
        bbox_wf(b),
    ensures
        r@ == spec_track_lines(*t, b),
{
    let cs = parse_coords(t.points.as_slice());
    let layer = map_layer(t.layer_id);
    let m = cs.len();
    let mut r: Vec<KiLine> = Vec::new();
    if m < 4 {
        proof {
            assert(r@ =~= spec_track_lines(*t, b));
        }
        return r;
    }
    let mut i: usize = 0;
    while i < m - 3
        invariant
            0 <= i <= m - 2,
            i % 2 == 0,
            m == cs@.len(),
            m >= 4,
            bbox_wf(b),
            track_wf(*t),
            layer == spec_map_layer(t.layer_id as int),
            cs@ == spec_coord_list(spec_tokenize(t.points@)),
            forall|k: int| 0 <= k < m ==> in_range(#[trigger] cs@[k] as int),
            r@ =~= spec_track_lines(*t, b).take(i as int / 2),
        decreases m - i,
    {
        r.push(
            KiLine {
                start: Point { x: cs[i] - b.x, y: cs[i + 1] - b.y },
                end: Point { x: cs[i + 2] - b.x, y: cs[i + 3] - b.y },
                width: t.stroke_width,
                layer,
            },
        );
        proof {
            assert(r@ =~= spec_track_lines(*t, b).take(i as int / 2 + 1));
            assert((i + 2) as int / 2 == i as int / 2 + 1);
        }
        i += 2;
    }
    proof {
        assert(i as int / 2 == (m as int - 2) / 2);
        assert(spec_track_lines(*t, b).take((m as int - 2) / 2) =~= spec_track_lines(*t, b));
    }
    r
}

/// The target circle a footprint circle projects to: center normalized, the
/// rim point one radius to the right, on the front silkscreen.
pub open spec fn fp_circle_built(kc: FpKiCircle, c: FpCircle, b: BBox) -> bool {
    &&& kc.center.x as int == spec_norm_fp_x(c.cx as int, b)
    &&& kc.center.y as int == spec_norm_fp_y(c.cy as int, b)
    &&& kc.end.x as int == spec_norm_fp_x(c.cx as int, b) + c.radius as int
    &&& kc.end.y as int == spec_norm_fp_y(c.cy as int, b)
    &&& kc.width == c.stroke_width
    &&& kc.layer == Layer::FSilkS
    &&& kc.fill == c.fill
}

/// Builds one footprint circle.
pub fn build_fp_circle(c: &FpCircle, b: BBox) -> (kc: FpKiCircle)
    requires
        fp_circle_wf(*c),
        bbox_wf(b),
    ensures
        fp_circle_built(kc, *c, b),
{
    let cx = c.cx - b.x;
    let cy = c.cy - b.y;
    FpKiCircle {
        center: Point { x: cx, y: cy },
        end: Point { x: cx + c.radius, y: cy },
        width: c.stroke_width,
        layer: Layer::FSilkS,
        fill: c.fill,
    }
}

/// The non-plated through pad a drilled hole becomes: zero extra copper, the
/// pad size equal to the drill diameter.
pub open spec fn hole_pad_built(kp: KiPad, h: Hole, b: BBox) -> bool {
    &&& kp.number@ == Seq::<char>::empty()
    &&& kp.pad_type == PadType::NpThroughHole
    &&& kp.shape == PadShape::Circle
    &&& kp.pos.x as int == spec_norm_fp_x(h.x as int, b)
    &&& kp.pos.y as int == spec_norm_fp_y(h.y as int, b)
    &&& kp.size_x as int == 2 * h.radius as int
    &&& kp.size_y as int == 2 * h.radius as int
    &&& kp.rotation == 0
    &&& kp.layers@ == spec_pad_layers_tht(0)
    &&& kp.drill == Some(Drill { diameter: (2 * h.radius as int) as i64, width: None })
    &&& kp.polygon is None
}

/// Builds the stand-in pad for a drilled hole.
pub fn build_hole_pad(h: &Hole, b: BBox) -> (kp: KiPad)
    requires
        hole_wf(*h),
        bbox_wf(b),
    ensures
        hole_pad_built(kp, *h, b),
{
    let d = 2 * h.radius;
    KiPad {
        number: String::new(),
        pad_type: PadType::NpThroughHole,
        shape: PadShape::Circle,
        pos: Point { x: h.x - b.x, y: h.y - b.y },
        size_x: d,
        size_y: d,
        rotation: 0,
        layers: map_pad_layers_tht(0),
        drill: Some(Drill { diameter: d, width: None }),
        polygon: None,
    }
}

/// The plated through pad a via becomes: copper size from its diameter, the
/// drill twice its hole radius.
pub open spec fn via_pad_built(kp: KiPad, v: Via, b: BBox) -> bool {
    &&& kp.number@ == Seq::<char>::empty()
    &&& kp.pad_type == PadType::ThroughHole
    &&& kp.shape == PadShape::Circle
    &&& kp.pos.x as int == spec_norm_fp_x(v.x as int, b)
    &&& kp.pos.y as int == spec_norm_fp_y(v.y as int, b)
    &&& kp.size_x == v.diameter
    &&& kp.size_y == v.diameter
    &&& kp.rotation == 0
    &&& kp.layers@ == spec_pad_layers_tht(0)
    &&& kp.drill == Some(Drill { diameter: (2 * v.radius as int) as i64, width: None })
    &&& kp.polygon is None
}

/// Builds the stand-in pad for a via.
pub fn build_via_pad(v: &Via, b: BBox) -> (kp: KiPad)
    requires
        via_wf(*v),
        bbox_wf(b),
    ensures
        via_pad_built(kp, *v, b),
{
    KiPad {
        number: String::new(),
        pad_type: PadType::ThroughHole,
        shape: PadShape::Circle,
        pos: Point { x: v.x - b.x, y: v.y - b.y },
        size_x: v.diameter,
        size_y: v.diameter,
        rotation: 0,
        layers: map_pad_layers_tht(0),
        drill: Some(Drill { diameter: 2 * v.radius, width: None }),
        polygon: None,
    }
}

/// A raw arc boundary point after footprint normalization.
pub open spec fn spec_norm_fp_point(p: Point, b: BBox) -> Point {
    Point { x: (p.x - b.x) as i64, y: (p.y - b.y) as i64 }
}

/// The target arc a footprint arc projects to, when its boundary points can
/// be carried; it lands on the front silkscreen.
pub open spec fn spec_build_fp_arc(a: ArcShape, b: BBox) -> Option<FpKiArc> {
    match spec_arc_points(a) {
        Some(pts) => Some(
            FpKiArc {
                start: spec_norm_fp_point(pts.0, b),
                mid: spec_norm_fp_point(pts.1, b),
                end: spec_norm_fp_point(pts.2, b),
                width: a.stroke_width,
                layer: Layer::FSilkS,
            },
        ),
        None => None,
    }
}

/// Builds one footprint arc.
pub fn build_fp_arc(a: &ArcShape, b: BBox) -> (r: Option<FpKiArc>)
    requires
        arc_wf(*a),
        bbox_wf(b),
    ensures
        r == spec_build_fp_arc(*a, b),
{
    match arc_points(a) {
        Some((s, m, e)) => Some(
            FpKiArc {
                start: Point { x: s.x - b.x, y: s.y - b.y },
                mid: Point { x: m.x - b.x, y: m.y - b.y },
                end: Point { x: e.x - b.x, y: e.y - b.y },
                width: a.stroke_width,
                layer: Layer::FSilkS,
            },
        ),
        None => None,
    }
}

/// The kept target arcs of a footprint arc list, in order.
pub open spec fn spec_fp_arc_seq(arcs: Seq<ArcShape>, b: BBox) -> Seq<FpKiArc>
    decreases arcs.len(),
{
    if arcs.len() == 0 {
        Seq::empty()
    } else {
        match spec_build_fp_arc(arcs[0], b) {
            Some(ka) => seq![ka] + spec_fp_arc_seq(arcs.drop_first(), b),
            None => spec_fp_arc_seq(arcs.drop_first(), b),
        }
    }
}

/// The four silkscreen lines a footprint rectangle draws: top, right, bottom,
/// left, in that order.
pub open spec fn spec_rect_lines(r: FpRect, b: BBox) -> Seq<KiLine> {
    let x1 = (r.x as int - b.x as int) as i64;
    let y1 = (r.y as int - b.y as int) as i64;
    let x2 = (r.x as int + r.width as int - b.x as int) as i64;
    let y2 = (r.y as int + r.height as int - b.y as int) as i64;
    seq![
        KiLine {
            start: Point { x: x1, y: y1 },
            end: Point { x: x2, y: y1 },
            width: r.stroke_width,
            layer: Layer::FSilkS,
        },
        KiLine {
            start: Point { x: x2, y: y1 },
            end: Point { x: x2, y: y2 },
            width: r.stroke_width,
            layer: Layer::FSilkS,
        },
        KiLine {
            start: Point { x: x2, y: y2 },
            end: Point { x: x1, y: y2 },
            width: r.stroke_width,
            layer: Layer::FSilkS,
        },
        KiLine {
            start: Point { x: x1, y: y2 },
            end: Point { x: x1, y: y1 },
            width: r.stroke_width,
            layer: Layer::FSilkS,
        },
    ]
}

/// Draws a footprint rectangle as four lines.
pub fn build_rect_lines(r: &FpRect, b: BBox) -> (ls: Vec<KiLine>)
    requires
        fp_rect_wf(*r),
        bbox_wf(b),
    ensures
        ls@ == spec_rect_lines(*r, b),
{
    let x1 = r.x - b.x;
    let y1 = r.y - b.y;
    let x2 = (r.x + r.width) - b.x;
    let y2 = (r.y + r.height) - b.y;
    let mut ls: Vec<KiLine> = Vec::new();
    ls.push(
        KiLine {
            start: Point { x: x1, y: y1 },
            end: Point { x: x2, y: y1 },
            width: r.stroke_width,
            layer: Layer::FSilkS,
        },
    );
    ls.push(
        KiLine {
            start: Point { x: x2, y: y1 },
            end: Point { x: x2, y: y2 },
            width: r.stroke_width,
            layer: Layer::FSilkS,
        },
    );
    ls.push(
        KiLine {
            start: Point { x: x2, y: y2 },
            end: Point { x: x1, y: y2 },
            width: r.stroke_width,
            layer: Layer::FSilkS,
        },
    );
    ls.push(
        KiLine {
            start: Point { x: x1, y: y2 },
            end: Point { x: x1, y: y1 },
            width: r.stroke_width,
            layer: Layer::FSilkS,
        },
    );
    proof {
        assert(ls@ =~= spec_rect_lines(*r, b));
    }
    ls
}

/// The target text a silkscreen text projects to, with the fixed stroke.
pub open spec fn text_built(kt: KiText, t: FpText, b: BBox) -> bool {
    &&& kt.text@ == t.text@
    &&& kt.pos.x as int == spec_norm_fp_x(t.x as int, b)
    &&& kt.pos.y as int == spec_norm_fp_y(t.y as int, b)
    &&& kt.rotation == t.rotation
    &&& kt.size == t.font_size
    &&& kt.thickness == TEXT_THICKNESS
}

/// Builds one footprint text.
pub fn build_text(t: &FpText, b: BBox) -> (kt: KiText)
    requires
        fp_text_wf(*t),
        bbox_wf(b),
    ensures
        text_built(kt, *t, b),
{
    KiText {
        text: t.text.clone(),
        pos: Point { x: t.x - b.x, y: t.y - b.y },
        rotation: t.rotation,
        size: t.font_size,
        thickness: TEXT_THICKNESS,
    }
}

/// The recorded 3D model path: the model directory under one of the two path
/// variables, then the sanitized model title.
pub open spec fn spec_model_path(title: Seq<char>, project_relative: bool) -> Seq<char> {
    let head = if project_relative {
        "${KIPRJMOD}/e2k.3dshapes/"@
    } else {
        "${KICAD6_3DMODEL_DIR}/e2k.3dshapes/"@
    };
    head + spec_sanitize(title) + ".wrl"@
}

/// Builds the 3D model path for the selected path-variable convention.
pub fn build_model_path(title: &str, project_relative: bool) -> (r: String)
    ensures
        r@ == spec_model_path(title@, project_relative),
{
    let mut r = String::new();
    if project_relative {
        r.append("${KIPRJMOD}/e2k.3dshapes/");
        proof {
            assert(r@ =~= "${KIPRJMOD}/e2k.3dshapes/"@);
        }
    } else {
        r.append("${KICAD6_3DMODEL_DIR}/e2k.3dshapes/");
        proof {
            assert(r@ =~= "${KICAD6_3DMODEL_DIR}/e2k.3dshapes/"@);
        }
    }
    let name = sanitize_name(title);
    r.append(name.as_str());
    r.append(".wrl");
    r
}

/// The flattened line segments of all tracks, in order.
pub open spec fn spec_all_track_lines(ts: Seq<Track>, b: BBox) -> Seq<KiLine>
    decreases ts.len(),
{
    if ts.len() == 0 {
        Seq::empty()
    } else {
        spec_track_lines(ts[0], b) + spec_all_track_lines(ts.drop_first(), b)
    }
}

/// The flattened silkscreen lines of all rectangles, in order.
pub open spec fn spec_all_rect_lines(rs: Seq<FpRect>, b: BBox) -> Seq<KiLine>
    decreases rs.len(),
{
    if rs.len() == 0 {
        Seq::empty()
    } else {
        spec_rect_lines(rs[0], b) + spec_all_rect_lines(rs.drop_first(), b)
    }
}

/// Everything `build_footprint` promises of its result.
pub open spec fn footprint_built(
    r: KiFootprint,
    f: FootprintModel,
    b: BBox,
    name: Seq<char>,
    model_title: Option<Seq<char>>,
    project_relative: bool,
) -> bool {
    let np = f.pads@.len() as int;
    let nh = f.holes@.len() as int;
    let nv = f.vias@.len() as int;
    &&& r.name@ == name
    &&& r.pads@.len() == np + nh + nv
    &&& forall|i: int| 0 <= i < np ==> pad_built(#[trigger] r.pads@[i], f.pads@[i], b)
    &&& forall|i: int| 0 <= i < nh ==> hole_pad_built(#[trigger] r.pads@[np + i], f.holes@[i], b)
    &&& forall|i: int|
        0 <= i < nv ==> via_pad_built(#[trigger] r.pads@[np + nh + i], f.vias@[i], b)
    &&& r.lines@ == spec_all_track_lines(f.tracks@, b) + spec_all_rect_lines(f.rectangles@, b)
    &&& r.circles@.len() == f.circles@.len()
    &&& forall|i: int|
        0 <= i < f.circles@.len() ==> fp_circle_built(#[trigger] r.circles@[i], f.circles@[i], b)
    &&& r.arcs@ == spec_fp_arc_seq(f.arcs@, b)
    &&& r.texts@.len() == f.texts@.len()
    &&& forall|i: int|
        0 <= i < f.texts@.len() ==> text_built(#[trigger] r.texts@[i], f.texts@[i], b)
    &&& match model_title {
        Some(t) => r.model_3d is Some && r.model_3d->0.path@ == spec_model_path(
            t,
            project_relative,
        ),
        None => r.model_3d is None,
    }
}

/// Builds the whole target footprint: pads first, then holes and vias as
/// stand-in pads; track segments before rectangle outlines among the lines;
/// everything normalized with the footprint rule (no flip).
pub fn build_footprint(
    f: &FootprintModel,
    b: BBox,
    name: &str,
    model_title: Option<&String>,
    project_relative: bool,
) -> (r: KiFootprint)
    requires
        footprint_wf(*f),
        bbox_wf(b),
    ensures
        footprint_built(
            r,
            *f,
            b,
            name@,
            match model_title {
                Some(t) => Some(t@),
                None => None,
            },
            project_relative,
        ),
{
    let mut pads: Vec<KiPad> = Vec::new();
    let mut i: usize = 0;
    while i < f.pads.len()
        invariant
            0 <= i <= f.pads@.len(),
            footprint_wf(*f),
            bbox_wf(b),
            pads@.len() == i,
            forall|k: int| 0 <= k < i ==> pad_built(#[trigger] pads@[k], f.pads@[k], b),
        decreases f.pads@.len() - i,
    {
        pads.push(build_pad(&f.pads[i], b));
        i += 1;
    }
    let ghost np = f.pads@.len() as int;
    let mut i: usize = 0;
    while i < f.holes.len()
        invariant
            0 <= i <= f.holes@.len(),
            footprint_wf(*f),
            bbox_wf(b),
            pads@.len() == np + i,
            np == f.pads@.len(),
            forall|k: int| 0 <= k < np ==> pad_built(#[trigger] pads@[k], f.pads@[k], b),
            forall|k: int| 0 <= k < i ==> hole_pad_built(#[trigger] pads@[np + k], f.holes@[k], b),
        decreases f.holes@.len() - i,
    {
        pads.push(build_hole_pad(&f.holes[i], b));
        i += 1;
    }
    let ghost nh = f.holes@.len() as int;
    let mut i: usize = 0;
    while i < f.vias.len()
        invariant
            0 <= i <= f.vias@.len(),
            footprint_wf(*f),
            bbox_wf(b),
            pads@.len() == np + nh + i,
            np == f.pads@.len(),
            nh == f.holes@.len(),
            forall|k: int| 0 <= k < np ==> pad_built(#[trigger] pads@[k], f.pads@[k], b),
            forall|k: int|
                0 <= k < nh ==> hole_pad_built(#[trigger] pads@[np + k], f.holes@[k], b),
            forall|k: int|
                0 <= k < i ==> via_pad_built(#[trigger] pads@[np + nh + k], f.vias@[k], b),
        decreases f.vias@.len() - i,
    {
        pads.push(build_via_pad(&f.vias[i], b));
        i += 1;
    }

    let mut lines: Vec<KiLine> = Vec::new();
    let ghost tracks_full = f.tracks@;
    let mut i: usize = 0;
    proof {
        assert(tracks_full.skip(0) =~= tracks_full);
    }
    while i < f.tracks.len()
        invariant
            0 <= i <= f.tracks@.len(),
            footprint_wf(*f),
            bbox_wf(b),
            tracks_full == f.tracks@,
            spec_all_track_lines(tracks_full, b) == lines@ + spec_all_track_lines(
                tracks_full.skip(i as int),
                b,
            ),
        decreases f.tracks@.len() - i,
    {
        proof {
            assert(tracks_full.skip(i as int)[0] == tracks_full[i as int]);
            assert(tracks_full.skip(i as int).drop_first() =~= tracks_full.skip(i + 1));
        }
        let ghost old_lines = lines@;
        let mut seg = build_track_lines(&f.tracks[i], b);
        let ghost segv = seg@;
        lines.append(&mut seg);
        proof {
            assert(lines@ =~= old_lines + segv);
            assert((old_lines + segv) + spec_all_track_lines(tracks_full.skip(i + 1), b)
                =~= old_lines + (segv + spec_all_track_lines(tracks_full.skip(i + 1), b)));
        }
        i += 1;
    }
    proof {
        assert(tracks_full.skip(f.tracks@.len() as int) =~= Seq::<Track>::empty());
        assert(lines@ + Seq::<KiLine>::empty() =~= lines@);
    }
    let ghost track_lines = lines@;
    let ghost rects_full = f.rectangles@;
    let mut i: usize = 0;
    proof {
        assert(rects_full.skip(0) =~= rects_full);
        assert(track_lines + Seq::<KiLine>::empty() =~= track_lines);
    }
    while i < f.rectangles.len()
        invariant
            0 <= i <= f.rectangles@.len(),
            footprint_wf(*f),
            bbox_wf(b),
            rects_full == f.rectangles@,
            track_lines == spec_all_track_lines(f.tracks@, b),
            lines@.len() >= track_lines.len(),
            track_lines + spec_all_rect_lines(rects_full, b) == lines@ + spec_all_rect_lines(
                rects_full.skip(i as int),
                b,
            ),
        decreases f.rectangles@.len() - i,
    {
        proof {
            assert(rects_full.skip(i as int)[0] == rects_full[i as int]);
            assert(rects_full.skip(i as int).drop_first() =~= rects_full.skip(i + 1));
        }
        let ghost old_lines = lines@;
        let mut seg = build_rect_lines(&f.rectangles[i], b);
        let ghost segv = seg@;
        lines.append(&mut seg);
        proof {
            assert(lines@ =~= old_lines + segv);
            assert((old_lines + segv) + spec_all_rect_lines(rects_full.skip(i + 1), b) =~= old_lines
                + (segv + spec_all_rect_lines(rects_full.skip(i + 1), b)));
        }
        i += 1;
    }
    proof {
        assert(rects_full.skip(f.rectangles@.len() as int) =~= Seq::<FpRect>::empty());
        assert(lines@ + Seq::<KiLine>::empty() =~= lines@);
    }

    let mut circles: Vec<FpKiCircle> = Vec::new();
    let mut i: usize = 0;
    while i < f.circles.len()
        invariant
            0 <= i <= f.circles@.len(),
            footprint_wf(*f),
            bbox_wf(b),
            circles@.len() == i,
            forall|k: int| 0 <= k < i ==> fp_circle_built(#[trigger] circles@[k], f.circles@[k], b),
        decreases f.circles@.len() - i,
    {
        circles.push(build_fp_circle(&f.circles[i], b));
        i += 1;
    }

    let mut arcs: Vec<FpKiArc> = Vec::new();
    let ghost arcs_full = f.arcs@;
    let mut i: usize = 0;
    proof {
        assert(arcs_full.skip(0) =~= arcs_full);
    }
    while i < f.arcs.len()
        invariant
            0 <= i <= f.arcs@.len(),
            footprint_wf(*f),
            bbox_wf(b),
            arcs_full == f.arcs@,
            spec_fp_arc_seq(arcs_full, b) == arcs@ + spec_fp_arc_seq(arcs_full.skip(i as int), b),
        decreases f.arcs@.len() - i,
    {
        proof {
            assert(arcs_full.skip(i as int)[0] == arcs_full[i as int]);
            assert(arcs_full.skip(i as int).drop_first() =~= arcs_full.skip(i + 1));
        }
        match build_fp_arc(&f.arcs[i], b) {
            Some(ka) => {
                let ghost old_arcs = arcs@;
                arcs.push(ka);
                proof {
                    assert(arcs@ =~= old_arcs + seq![ka]);
                    assert((old_arcs + seq![ka]) + spec_fp_arc_seq(arcs_full.skip(i + 1), b)
                        =~= old_arcs + (seq![ka] + spec_fp_arc_seq(arcs_full.skip(i + 1), b)));
                }
            },
            None => {},
        }
        i += 1;
    }
    proof {
        assert(arcs_full.skip(f.arcs@.len() as int) =~= Seq::<ArcShape>::empty());
        assert(arcs@ + Seq::<FpKiArc>::empty() =~= arcs@);
    }

    let mut texts: Vec<KiText> = Vec::new();
    let mut i: usize = 0;
    while i < f.texts.len()
        invariant
            0 <= i <= f.texts@.len(),
            footprint_wf(*f),
            bbox_wf(b),
            texts@.len() == i,
            forall|k: int| 0 <= k < i ==> text_built(#[trigger] texts@[k], f.texts@[k], b),
        decreases f.texts@.len() - i,
    {
        texts.push(build_text(&f.texts[i], b));
        i += 1;
    }

    let model_3d = match model_title {
        Some(t) => Some(Ki3dModel { path: build_model_path(t.as_str(), project_relative) }),
        None => None,
    };

    KiFootprint { name: name.to_owned(), pads, lines, circles, arcs, texts, model_3d }
}

} // verus!
