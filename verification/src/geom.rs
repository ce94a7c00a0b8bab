//! The intermediate geometry model: vendor-neutral primitives for the symbol
//! and footprint domains, plus the component metadata that rides along.
//!
//! Every coordinate, length and angle is an `i64` in micro-units and must lie
//! in the engine's range (see `num::in_range`); the `*_wf` predicates say so
//! for whole primitives and are the `requires` of the transform and builder
//! layers.

use vstd::prelude::*;
use crate::num::in_range;

verus! {

/// A point in micro-units.
#[derive(Clone, Copy, PartialEq, Eq, Structural, Debug)]
pub struct Point {
    pub x: i64,
    pub y: i64,
}

pub open spec fn point_wf(p: Point) -> bool {
    in_range(p.x as int) && in_range(p.y as int)
}

/// A domain's bounding-box origin. Symbol and footprint domains each carry
/// their own and they are never mixed.
#[derive(Clone, Copy, PartialEq, Eq, Structural, Debug)]
pub struct BBox {
    pub x: i64,
    pub y: i64,
}

pub open spec fn bbox_wf(b: BBox) -> bool {
    in_range(b.x as int) && in_range(b.y as int)
}

/// A symbol pin.
#[derive(Clone, Debug)]
pub struct Pin {
    pub number: String,
    pub name: String,
    /// Electric type code of the source format (0 unspecified, 1 input,
    /// 2 output, 3 bidirectional, 4 power); anything else maps to unspecified.
    pub electric_type: u8,
    pub x: i64,
    pub y: i64,
    pub rotation: i64,
    pub length: i64,
    /// Inversion bubble; wins over `clock` for the pin style.
    pub dot: bool,
    pub clock: bool,
}

pub open spec fn pin_wf(p: Pin) -> bool {
    &&& in_range(p.x as int)
    &&& in_range(p.y as int)
    &&& in_range(p.rotation as int)
    &&& in_range(p.length as int)
}

/// A symbol rectangle; `x, y` is one corner, `width, height` extend it.
#[derive(Clone, Copy, PartialEq, Eq, Structural, Debug)]
pub struct RectShape {
    pub x: i64,
    pub y: i64,
    pub width: i64,
    pub height: i64,
    pub stroke_width: i64,
    pub fill: bool,
}

pub open spec fn rect_wf(r: RectShape) -> bool {
    &&& in_range(r.x as int)
    &&& in_range(r.y as int)
    &&& in_range(r.width as int)
    &&& in_range(r.height as int)
    &&& in_range(r.stroke_width as int)
}

/// A symbol circle.
#[derive(Clone, Copy, PartialEq, Eq, Structural, Debug)]
pub struct CircleShape {
    pub cx: i64,
    pub cy: i64,
    pub radius: i64,
    pub stroke_width: i64,
    pub fill: bool,
}

pub open spec fn circle_wf(c: CircleShape) -> bool {
    &&& in_range(c.cx as int)
    &&& in_range(c.cy as int)
    &&& in_range(c.radius as int)
    &&& in_range(c.stroke_width as int)
}

/// A symbol ellipse; the engine degrades it to a circle of the mean radius.
#[derive(Clone, Copy, PartialEq, Eq, Structural, Debug)]
pub struct EllipseShape {
    pub cx: i64,
    pub cy: i64,
    pub rx: i64,
    pub ry: i64,
    pub stroke_width: i64,
    pub fill: bool,
}

pub open spec fn ellipse_wf(e: EllipseShape) -> bool {
    &&& in_range(e.cx as int)
    &&& in_range(e.cy as int)
    &&& in_range(e.rx as int)
    &&& in_range(e.ry as int)
    &&& in_range(e.stroke_width as int)
}

/// An arc stored as center, radius and a swept angle range in micro-degrees.
#[derive(Clone, Copy, PartialEq, Eq, Structural, Debug)]
pub struct ArcShape {
    pub cx: i64,
    pub cy: i64,
    pub radius: i64,
    pub start_deg: i64,
    pub end_deg: i64,
    pub stroke_width: i64,
}

pub open spec fn arc_wf(a: ArcShape) -> bool {
    &&& in_range(a.cx as int)
    &&& in_range(a.cy as int)
    &&& in_range(a.radius as int)
    &&& in_range(a.start_deg as int)
    &&& in_range(a.end_deg as int)
    &&& in_range(a.stroke_width as int)
}

/// A polyline or polygon: raw vertices in source coordinates.
#[derive(Clone, Debug)]
pub struct PolyShape {
    pub points: Vec<Point>,
    pub stroke_width: i64,
    pub fill: bool,
}

pub open spec fn poly_wf(p: PolyShape) -> bool {
    &&& in_range(p.stroke_width as int)
    &&& forall|i: int| 0 <= i < p.points@.len() ==> point_wf(#[trigger] p.points@[i])
}

/// A freeform path in the restricted move/line/close mini-language.
#[derive(Clone, Debug)]
pub struct PathShape {
    pub data: Vec<u8>,
    pub stroke_width: i64,
    pub fill: bool,
}

pub open spec fn path_wf(p: PathShape) -> bool {
    in_range(p.stroke_width as int)
}

/// A whole symbol in source coordinates.
#[derive(Clone, Debug)]
pub struct SymbolModel {
    pub prefix: String,
    pub pins: Vec<Pin>,
    pub rectangles: Vec<RectShape>,
    pub circles: Vec<CircleShape>,
    pub ellipses: Vec<EllipseShape>,
    pub arcs: Vec<ArcShape>,
    pub polylines: Vec<PolyShape>,
    pub polygons: Vec<PolyShape>,
    pub paths: Vec<PathShape>,
}

pub open spec fn symbol_wf(s: SymbolModel) -> bool {
    &&& forall|i: int| 0 <= i < s.pins@.len() ==> pin_wf(#[trigger] s.pins@[i])
    &&& forall|i: int| 0 <= i < s.rectangles@.len() ==> rect_wf(#[trigger] s.rectangles@[i])
    &&& forall|i: int| 0 <= i < s.circles@.len() ==> circle_wf(#[trigger] s.circles@[i])
    &&& forall|i: int| 0 <= i < s.ellipses@.len() ==> ellipse_wf(#[trigger] s.ellipses@[i])
    &&& forall|i: int| 0 <= i < s.arcs@.len() ==> arc_wf(#[trigger] s.arcs@[i])
    &&& forall|i: int| 0 <= i < s.polylines@.len() ==> poly_wf(#[trigger] s.polylines@[i])
    &&& forall|i: int| 0 <= i < s.polygons@.len() ==> poly_wf(#[trigger] s.polygons@[i])
    &&& forall|i: int| 0 <= i < s.paths@.len() ==> path_wf(#[trigger] s.paths@[i])
}

/// The pad outline kinds of the source format, as a closed set with an
/// explicit fallback arm.
#[derive(Clone, Copy, PartialEq, Eq, Structural, Debug)]
pub enum SourcePadShape {
    Ellipse,
    Oval,
    Rect,
    Polygon,
    Unknown,
}

/// A footprint pad. A present `hole_radius` makes it plated through-hole,
/// an absent one surface-mount; `points` carries the raw polygon vertex text
/// for polygon-shaped pads.
#[derive(Clone, Debug)]
pub struct Pad {
    pub number: String,
    pub shape: SourcePadShape,
    pub x: i64,
    pub y: i64,
    pub width: i64,
    pub height: i64,
    pub rotation: i64,
    pub hole_radius: Option<i64>,
    pub hole_length: Option<i64>,
    pub layer_id: i64,
    pub points: Vec<u8>,
}

pub open spec fn pad_wf(p: Pad) -> bool {
    &&& in_range(p.x as int)
    &&& in_range(p.y as int)
    &&& in_range(p.width as int)
    &&& in_range(p.height as int)
    &&& in_range(p.rotation as int)
    &&& (p.hole_radius is Some ==> in_range(p.hole_radius->0 as int))
    &&& (p.hole_length is Some ==> in_range(p.hole_length->0 as int))
}

/// A copper track: the raw point-list text describes an open polyline.
#[derive(Clone, Debug)]
pub struct Track {
    pub points: Vec<u8>,
    pub stroke_width: i64,
    pub layer_id: i64,
}

pub open spec fn track_wf(t: Track) -> bool {
    in_range(t.stroke_width as int)
}

/// A footprint circle.
#[derive(Clone, Copy, PartialEq, Eq, Structural, Debug)]
pub struct FpCircle {
    pub cx: i64,
    pub cy: i64,
    pub radius: i64,
    pub stroke_width: i64,
    pub fill: bool,
}

pub open spec fn fp_circle_wf(c: FpCircle) -> bool {
    &&& in_range(c.cx as int)
    &&& in_range(c.cy as int)
    &&& in_range(c.radius as int)
    &&& in_range(c.stroke_width as int)
}

/// A drilled hole without plating.
#[derive(Clone, Copy, PartialEq, Eq, Structural, Debug)]
pub struct Hole {
    pub x: i64,
    pub y: i64,
    pub radius: i64,
}

pub open spec fn hole_wf(h: Hole) -> bool {
    &&& in_range(h.x as int)
    &&& in_range(h.y as int)
    &&& in_range(h.radius as int)
}

/// A via: `diameter` is the copper size, `radius` the drill radius.
#[derive(Clone, Copy, PartialEq, Eq, Structural, Debug)]
pub struct Via {
    pub x: i64,
    pub y: i64,
    pub diameter: i64,
    pub radius: i64,
}

pub open spec fn via_wf(v: Via) -> bool {
    &&& in_range(v.x as int)
    &&& in_range(v.y as int)
    &&& in_range(v.diameter as int)
    &&& in_range(v.radius as int)
}

/// A silkscreen text.
#[derive(Clone, Debug)]
pub struct FpText {
    pub text: String,
    pub x: i64,
    pub y: i64,
    pub rotation: i64,
    pub font_size: i64,
}

pub open spec fn fp_text_wf(t: FpText) -> bool {
    &&& in_range(t.x as int)
    &&& in_range(t.y as int)
    &&& in_range(t.rotation as int)
    &&& in_range(t.font_size as int)
}

/// A footprint rectangle, drawn as four silkscreen lines.
#[derive(Clone, Copy, PartialEq, Eq, Structural, Debug)]
pub struct FpRect {
    pub x: i64,
    pub y: i64,
    pub width: i64,
    pub height: i64,
    pub stroke_width: i64,
}

pub open spec fn fp_rect_wf(r: FpRect) -> bool {
    &&& in_range(r.x as int)
    &&& in_range(r.y as int)
    &&& in_range(r.width as int)
    &&& in_range(r.height as int)
    &&& in_range(r.stroke_width as int)
}

/// A whole footprint in source coordinates.
#[derive(Clone, Debug)]
pub struct FootprintModel {
    pub pads: Vec<Pad>,
    pub tracks: Vec<Track>,
    pub circles: Vec<FpCircle>,
    pub arcs: Vec<ArcShape>,
    pub rectangles: Vec<FpRect>,
    pub holes: Vec<Hole>,
    pub vias: Vec<Via>,
    pub texts: Vec<FpText>,
}

pub open spec fn footprint_wf(f: FootprintModel) -> bool {
    &&& forall|i: int| 0 <= i < f.pads@.len() ==> pad_wf(#[trigger] f.pads@[i])
    &&& forall|i: int| 0 <= i < f.tracks@.len() ==> track_wf(#[trigger] f.tracks@[i])
    &&& forall|i: int| 0 <= i < f.circles@.len() ==> fp_circle_wf(#[trigger] f.circles@[i])
    &&& forall|i: int| 0 <= i < f.arcs@.len() ==> arc_wf(#[trigger] f.arcs@[i])
    &&& forall|i: int| 0 <= i < f.rectangles@.len() ==> fp_rect_wf(#[trigger] f.rectangles@[i])
    &&& forall|i: int| 0 <= i < f.holes@.len() ==> hole_wf(#[trigger] f.holes@[i])
    &&& forall|i: int| 0 <= i < f.vias@.len() ==> via_wf(#[trigger] f.vias@[i])
    &&& forall|i: int| 0 <= i < f.texts@.len() ==> fp_text_wf(#[trigger] f.texts@[i])
}

/// Reference to a component's 3D model in the source vendor's store.
#[derive(Clone, Debug)]
pub struct Model3dInfo {
    pub uuid: String,
    pub title: String,
}

/// Component metadata fetched with the raw geometry.
#[derive(Clone, Debug)]
pub struct ComponentMeta {
    pub title: String,
    pub manufacturer: String,
    pub datasheet: String,
    pub lcsc_id: String,
    pub jlc_id: String,
    pub model_3d: Option<Model3dInfo>,
}

} // verus!
