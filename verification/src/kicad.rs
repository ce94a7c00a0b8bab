//! The target library model: symbol and footprint entities as the target CAD
//! format wants them, and the fixed mapping tables from source attributes to
//! target ones (pin types, pad shapes, layer sets).
//!
//! Entities are pure projections of the normalized geometry plus metadata;
//! they own no resources and are immutable once built.

use vstd::prelude::*;
use crate::geom::Point;
use crate::geom::SourcePadShape;

verus! {

/// Electrical type of a target pin.
#[derive(Clone, Copy, PartialEq, Eq, Structural, Debug)]
pub enum PinType {
    Unspecified,
    Input,
    Output,
    Bidirectional,
    Power,
}

/// The fixed mapping from the source format's electric-type codes.
pub open spec fn spec_pin_type(code: u8) -> PinType {
    if code == 1 {
        PinType::Input
    } else if code == 2 {
        PinType::Output
    } else if code == 3 {
        PinType::Bidirectional
    } else if code == 4 {
        PinType::Power
    } else {
        PinType::Unspecified
    }
}

/// Maps a source electric-type code; unknown codes fall back to unspecified.
pub fn pin_type_from_code(code: u8) -> (r: PinType)
    ensures
        r == spec_pin_type(code),
{
    match code {
        1 => PinType::Input,
        2 => PinType::Output,
        3 => PinType::Bidirectional,
        4 => PinType::Power,
        _ => PinType::Unspecified,
    }
}

/// Graphic style of a target pin.
#[derive(Clone, Copy, PartialEq, Eq, Structural, Debug)]
pub enum PinStyle {
    Line,
    Inverted,
    Clock,
}

/// The inversion bubble wins over the clock mark; otherwise a plain line.
pub open spec fn spec_pin_style(dot: bool, clock: bool) -> PinStyle {
    if dot {
        PinStyle::Inverted
    } else if clock {
        PinStyle::Clock
    } else {
        PinStyle::Line
    }
}

/// Derives the pin style from the source flags.
pub fn pin_style_from_flags(dot: bool, clock: bool) -> (r: PinStyle)
    ensures
        r == spec_pin_style(dot, clock),
{
    if dot {
        PinStyle::Inverted
    } else if clock {
        PinStyle::Clock
    } else {
        PinStyle::Line
    }
}

/// Mounting kind of a target pad.
#[derive(Clone, Copy, PartialEq, Eq, Structural, Debug)]
pub enum PadType {
    ThroughHole,
    Smd,
    NpThroughHole,
}

/// Outline of a target pad.
#[derive(Clone, Copy, PartialEq, Eq, Structural, Debug)]
pub enum PadShape {
    Circle,
    Oval,
    Rect,
    Custom,
}

/// The fixed mapping from source pad outlines; the unknown arm falls back to
/// a rectangle.
pub open spec fn spec_pad_shape(s: SourcePadShape) -> PadShape {
    match s {
        SourcePadShape::Ellipse => PadShape::Circle,
        SourcePadShape::Oval => PadShape::Oval,
        SourcePadShape::Rect => PadShape::Rect,
        SourcePadShape::Polygon => PadShape::Custom,
        SourcePadShape::Unknown => PadShape::Rect,
    }
}

/// Maps a source pad outline to the target one.
pub fn pad_shape_from_source(s: SourcePadShape) -> (r: PadShape)
    ensures
        r == spec_pad_shape(s),
{
    match s {
        SourcePadShape::Ellipse => PadShape::Circle,
        SourcePadShape::Oval => PadShape::Oval,
        SourcePadShape::Rect => PadShape::Rect,
        SourcePadShape::Polygon => PadShape::Custom,
        SourcePadShape::Unknown => PadShape::Rect,
    }
}

/// A drawing layer of the target format. The starred variants stand for the
/// whole copper or mask stack of a through-hole pad.
#[derive(Clone, Copy, PartialEq, Eq, Structural, Debug)]
pub enum Layer {
    FCu,
    BCu,
    FSilkS,
    BSilkS,
    FPaste,
    BPaste,
    FMask,
    BMask,
    EdgeCuts,
    FFab,
    AllCu,
    AllMask,
}

/// The fixed lookup from source layer ids to drawing layers; unknown ids
/// default to the front silkscreen.
pub open spec fn spec_map_layer(id: int) -> Layer {
    if id == 1 {
        Layer::FCu
    } else if id == 2 {
        Layer::BCu
    } else if id == 3 {
        Layer::FSilkS
    } else if id == 4 {
        Layer::BSilkS
    } else if id == 5 {
        Layer::FPaste
    } else if id == 6 {
        Layer::BPaste
    } else if id == 7 {
        Layer::FMask
    } else if id == 8 {
        Layer::BMask
    } else if id == 10 {
        Layer::EdgeCuts
    } else if id == 12 {
        Layer::FFab
    } else {
        Layer::FSilkS
    }
}

/// Maps a source layer id to a drawing layer.
pub fn map_layer(id: i64) -> (r: Layer)
    ensures
        r == spec_map_layer(id as int),
{
    if id == 1 {
        Layer::FCu
    } else if id == 2 {
        Layer::BCu
    } else if id == 3 {
        Layer::FSilkS
    } else if id == 4 {
        Layer::BSilkS
    } else if id == 5 {
        Layer::FPaste
    } else if id == 6 {
        Layer::BPaste
    } else if id == 7 {
        Layer::FMask
    } else if id == 8 {
        Layer::BMask
    } else if id == 10 {
        Layer::EdgeCuts
    } else if id == 12 {
        Layer::FFab
    } else {
        Layer::FSilkS
    }
}

/// The layer set of a surface-mount pad: the side's copper, paste and mask
/// for the two conductor ids, the front silkscreen for anything else.
pub open spec fn spec_pad_layers_smd(id: int) -> Seq<Layer> {
    if id == 1 {
        seq![Layer::FCu, Layer::FPaste, Layer::FMask]
    } else if id == 2 {
        seq![Layer::BCu, Layer::BPaste, Layer::BMask]
    } else {
        seq![Layer::FSilkS]
    }
}

/// Layer set for a surface-mount pad.
pub fn map_pad_layers_smd(id: i64) -> (r: Vec<Layer>)
    ensures
        r@ == spec_pad_layers_smd(id as int),
{
    let mut v: Vec<Layer> = Vec::new();
    if id == 1 {
        v.push(Layer::FCu);
        v.push(Layer::FPaste);
        v.push(Layer::FMask);
        proof {
            assert(v@ =~= seq![Layer::FCu, Layer::FPaste, Layer::FMask]);
        }
    } else if id == 2 {
        v.push(Layer::BCu);
        v.push(Layer::BPaste);
        v.push(Layer::BMask);
        proof {
            assert(v@ =~= seq![Layer::BCu, Layer::BPaste, Layer::BMask]);
        }
    } else {
        v.push(Layer::FSilkS);
        proof {
            assert(v@ =~= seq![Layer::FSilkS]);
        }
    }
    v
}

/// The layer set of a plated through-hole pad: the whole copper and mask
/// stacks, whatever the source layer id says.
pub open spec fn spec_pad_layers_tht(id: int) -> Seq<Layer> {
    seq![Layer::AllCu, Layer::AllMask]
}

/// Layer set for a plated through-hole pad.
pub fn map_pad_layers_tht(id: i64) -> (r: Vec<Layer>)
    ensures
        r@ == spec_pad_layers_tht(id as int),
{
    let mut v: Vec<Layer> = Vec::new();
    v.push(Layer::AllCu);
    v.push(Layer::AllMask);
    proof {
        assert(v@ =~= seq![Layer::AllCu, Layer::AllMask]);
    }
    v
}

/// A target symbol pin.
#[derive(Clone, Debug)]
pub struct KiPin {
    pub number: String,
    pub name: String,
    pub pin_type: PinType,
    pub style: PinStyle,
    pub pos: Point,
    pub rotation: i64,
    pub length: i64,
}

/// A target symbol rectangle between two corners.
#[derive(Clone, Copy, PartialEq, Eq, Structural, Debug)]
pub struct KiRectangle {
    pub x1: i64,
    pub y1: i64,
    pub x2: i64,
    pub y2: i64,
    pub stroke_width: i64,
    pub fill: bool,
}

/// A target symbol circle.
#[derive(Clone, Copy, PartialEq, Eq, Structural, Debug)]
pub struct KiCircle {
    pub cx: i64,
    pub cy: i64,
    pub radius: i64,
    pub stroke_width: i64,
    pub fill: bool,
}

/// A target symbol arc through three boundary points.
#[derive(Clone, Copy, PartialEq, Eq, Structural, Debug)]
pub struct SymbolArc {
    pub start: Point,
    pub mid: Point,
    pub end: Point,
    pub stroke_width: i64,
}

/// A target symbol polyline.
#[derive(Clone, Debug)]
pub struct KiPolyline {
    pub points: Vec<Point>,
    pub stroke_width: i64,
    pub fill: bool,
}

/// A whole target symbol with its metadata fields.
#[derive(Clone, Debug)]
pub struct KiSymbol {
    pub name: String,
    pub reference: String,
    pub value: String,
    pub footprint: String,
    pub datasheet: String,
    pub manufacturer: String,
    pub lcsc_id: String,
    pub jlc_id: String,
    pub pins: Vec<KiPin>,
    pub rectangles: Vec<KiRectangle>,
    pub circles: Vec<KiCircle>,
    pub arcs: Vec<SymbolArc>,
    pub polylines: Vec<KiPolyline>,
}

/// A drill: round when `width` is absent, a slot when present. This engine
/// never uses drill offsets.
#[derive(Clone, Copy, PartialEq, Eq, Structural, Debug)]
pub struct Drill {
    pub diameter: i64,
    pub width: Option<i64>,
}

/// A target footprint pad. A polygon-shaped pad carries its outline as
/// vertices relative to the pad position.
#[derive(Clone, Debug)]
pub struct KiPad {
    pub number: String,
    pub pad_type: PadType,
    pub shape: PadShape,
    pub pos: Point,
    pub size_x: i64,
    pub size_y: i64,
    pub rotation: i64,
    pub layers: Vec<Layer>,
    pub drill: Option<Drill>,
    pub polygon: Option<Vec<Point>>,
}

/// A target footprint line segment.
#[derive(Clone, Copy, PartialEq, Eq, Structural, Debug)]
pub struct KiLine {
    pub start: Point,
    pub end: Point,
    pub width: i64,
    pub layer: Layer,
}

/// A target footprint circle, given as center and a point on the rim.
#[derive(Clone, Copy, PartialEq, Eq, Structural, Debug)]
pub struct FpKiCircle {
    pub center: Point,
    pub end: Point,
    pub width: i64,
    pub layer: Layer,
    pub fill: bool,
}

/// A target footprint arc through three boundary points.
#[derive(Clone, Copy, PartialEq, Eq, Structural, Debug)]
pub struct FpKiArc {
    pub start: Point,
    pub mid: Point,
    pub end: Point,
    pub width: i64,
    pub layer: Layer,
}

/// A target footprint text.
#[derive(Clone, Debug)]
pub struct KiText {
    pub text: String,
    pub pos: Point,
    pub rotation: i64,
    pub size: i64,
    pub thickness: i64,
}

/// The recorded path of a component's 3D model.
#[derive(Clone, Debug)]
pub struct Ki3dModel {
    pub path: String,
}

/// A whole target footprint.
#[derive(Clone, Debug)]
pub struct KiFootprint {
    pub name: String,
    pub pads: Vec<KiPad>,
    pub lines: Vec<KiLine>,
    pub circles: Vec<FpKiCircle>,
    pub arcs: Vec<FpKiArc>,
    pub texts: Vec<KiText>,
    pub model_3d: Option<Ki3dModel>,
}

} // verus!
