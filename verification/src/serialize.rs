//! The serializers: target entities to library text, in the two symbol
//! dialects and the footprint module format.
//!
//! Serialization is a pure function of the entity — same entity, same text —
//! which is what makes the merge manager's duplicate detection reliable.
//! A symbol record's first line is the record marker the merge layer scans
//! for, carrying the record key.

use vstd::prelude::*;
use vstd::string::StringExecFns;
use crate::fmt::spec_fmt_micro;
use crate::fmt::fmt_micro;
use crate::fmt::FMT_MAX;
use crate::geom::Point;
use crate::kicad::PinType;
use crate::kicad::PinStyle;
use crate::kicad::Layer;
use crate::kicad::KiPin;
use crate::kicad::KiRectangle;
use crate::kicad::KiCircle;
use crate::kicad::SymbolArc;
use crate::kicad::KiPolyline;
use crate::kicad::KiSymbol;
use crate::cli::KicadVersion;

verus! {

/// A number the formatter accepts.
pub open spec fn num_ok(v: i64) -> bool {
    -FMT_MAX <= v <= FMT_MAX
}

pub open spec fn point_ok(p: Point) -> bool {
    num_ok(p.x) && num_ok(p.y)
}

/// Appends a formatted number.
pub(crate) fn push_micro(out: &mut String, v: i64)
    requires
        num_ok(v),
    ensures
        final (out)@ == old(out)@ + spec_fmt_micro(v as int),
{
    let s = fmt_micro(v);
    out.append(s.as_str());
}

/// The dialect word for a pin's electrical type.
pub open spec fn spec_pin_type_name(t: PinType) -> Seq<char> {
    match t {
        PinType::Unspecified => "passive"@,
        PinType::Input => "input"@,
        PinType::Output => "output"@,
        PinType::Bidirectional => "bidirectional"@,
        PinType::Power => "power_in"@,
    }
}

fn pin_type_name(t: PinType) -> (r: &'static str)
    ensures
        r@ == spec_pin_type_name(t),
{
    match t {
        PinType::Unspecified => "passive",
        PinType::Input => "input",
        PinType::Output => "output",
        PinType::Bidirectional => "bidirectional",
        PinType::Power => "power_in",
    }
}

/// The dialect word for a pin's graphic style.
pub open spec fn spec_pin_style_name(s: PinStyle) -> Seq<char> {
    match s {
        PinStyle::Line => "line"@,
        PinStyle::Inverted => "inverted"@,
        PinStyle::Clock => "clock"@,
    }
}

fn pin_style_name(s: PinStyle) -> (r: &'static str)
    ensures
        r@ == spec_pin_style_name(s),
{
    match s {
        PinStyle::Line => "line",
        PinStyle::Inverted => "inverted",
        PinStyle::Clock => "clock",
    }
}

/// The legacy letter for a pin's electrical type.
pub open spec fn spec_pin_type_letter(t: PinType) -> Seq<char> {
    match t {
        PinType::Unspecified => "U"@,
        PinType::Input => "I"@,
        PinType::Output => "O"@,
        PinType::Bidirectional => "B"@,
        PinType::Power => "W"@,
    }
}

fn pin_type_letter(t: PinType) -> (r: &'static str)
    ensures
        r@ == spec_pin_type_letter(t),
{
    match t {
        PinType::Unspecified => "U",
        PinType::Input => "I",
        PinType::Output => "O",
        PinType::Bidirectional => "B",
        PinType::Power => "W",
    }
}

/// The legacy letter for a pin's graphic style.
pub open spec fn spec_pin_style_letter(s: PinStyle) -> Seq<char> {
    match s {
        PinStyle::Line => "N"@,
        PinStyle::Inverted => "I"@,
        PinStyle::Clock => "C"@,
    }
}

fn pin_style_letter(s: PinStyle) -> (r: &'static str)
    ensures
        r@ == spec_pin_style_letter(s),
{
    match s {
        PinStyle::Line => "N",
        PinStyle::Inverted => "I",
        PinStyle::Clock => "C",
    }
}

/// The dialect word for a fill flag.
pub open spec fn spec_fill_word(f: bool) -> Seq<char> {
    if f {
        "yes"@
    } else {
        "no"@
    }
}

pub(crate) fn fill_word(f: bool) -> (r: &'static str)
    ensures
        r@ == spec_fill_word(f),
{
    if f {
        "yes"
    } else {
        "no"
    }
}

/// The legacy letter for a fill flag.
pub open spec fn spec_fill_letter(f: bool) -> Seq<char> {
    if f {
        "F"@
    } else {
        "N"@
    }
}

fn fill_letter(f: bool) -> (r: &'static str)
    ensures
        r@ == spec_fill_letter(f),
{
    if f {
        "F"
    } else {
        "N"
    }
}

/// The name of a drawing layer.
pub open spec fn spec_layer_name(l: Layer) -> Seq<char> {
    match l {
        Layer::FCu => "F.Cu"@,
        Layer::BCu => "B.Cu"@,
        Layer::FSilkS => "F.SilkS"@,
        Layer::BSilkS => "B.SilkS"@,
        Layer::FPaste => "F.Paste"@,
        Layer::BPaste => "B.Paste"@,
        Layer::FMask => "F.Mask"@,
        Layer::BMask => "B.Mask"@,
        Layer::EdgeCuts => "Edge.Cuts"@,
        Layer::FFab => "F.Fab"@,
        Layer::AllCu => "*.Cu"@,
        Layer::AllMask => "*.Mask"@,
    }
}

pub(crate) fn layer_name(l: Layer) -> (r: &'static str)
    ensures
        r@ == spec_layer_name(l),
{
    match l {
        Layer::FCu => "F.Cu",
        Layer::BCu => "B.Cu",
        Layer::FSilkS => "F.SilkS",
        Layer::BSilkS => "B.SilkS",
        Layer::FPaste => "F.Paste",
        Layer::BPaste => "B.Paste",
        Layer::FMask => "F.Mask",
        Layer::BMask => "B.Mask",
        Layer::EdgeCuts => "Edge.Cuts",
        Layer::FFab => "F.Fab",
        Layer::AllCu => "*.Cu",
        Layer::AllMask => "*.Mask",
    }
}

/// A vertex list as ` (xy X Y)` items.
pub open spec fn spec_xy_list(pts: Seq<Point>) -> Seq<char>
    decreases pts.len(),
{
    if pts.len() == 0 {
        Seq::empty()
    } else {
        " (xy "@ + spec_fmt_micro(pts[0].x as int) + " "@ + spec_fmt_micro(pts[0].y as int) + ")"@
            + spec_xy_list(pts.drop_first())
    }
}

/// Appends a vertex list.
pub(crate) fn push_xy_list(out: &mut String, pts: &Vec<Point>)
    requires
        forall|i: int| 0 <= i < pts@.len() ==> point_ok(#[trigger] pts@[i]),
    ensures
        final (out)@ == old(out)@ + spec_xy_list(pts@),
{
    let ghost base = out@;
    let ghost full = pts@;
    let mut i: usize = 0;
    proof {
        assert(full.skip(0) =~= full);
    }
    while i < pts.len()
        invariant
            0 <= i <= pts@.len(),
            full == pts@,
            forall|k: int| 0 <= k < full.len() ==> point_ok(#[trigger] full[k]),
            base + spec_xy_list(full) == out@ + spec_xy_list(full.skip(i as int)),
        decreases pts@.len() - i,
    {
        proof {
            assert(full.skip(i as int)[0] == full[i as int]);
            assert(full.skip(i as int).drop_first() =~= full.skip(i + 1));
        }
        let p = pts[i];
        out.append(" (xy ");
        push_micro(out, p.x);
        out.append(" ");
        push_micro(out, p.y);
        out.append(")");
        i += 1;
    }
    proof {
        assert(full.skip(full.len() as int) =~= Seq::<Point>::empty());
        assert(out@ + Seq::<char>::empty() =~= out@);
        assert(base + spec_xy_list(full) =~= out@);
    }
}

/// A layer list as ` NAME` items.
pub open spec fn spec_layer_list(ls: Seq<Layer>) -> Seq<char>
    decreases ls.len(),
{
    if ls.len() == 0 {
        Seq::empty()
    } else {
        " "@ + spec_layer_name(ls[0]) + spec_layer_list(ls.drop_first())
    }
}

/// Appends a layer list.
pub(crate) fn push_layer_list(out: &mut String, ls: &Vec<Layer>)
    ensures
        final (out)@ == old(out)@ + spec_layer_list(ls@),
{
    let ghost base = out@;
    let ghost full = ls@;
    let mut i: usize = 0;
    proof {
        assert(full.skip(0) =~= full);
    }
    while i < ls.len()
        invariant
            0 <= i <= ls@.len(),
            full == ls@,
            base + spec_layer_list(full) == out@ + spec_layer_list(full.skip(i as int)),
        decreases ls@.len() - i,
    {
        proof {
            assert(full.skip(i as int)[0] == full[i as int]);
            assert(full.skip(i as int).drop_first() =~= full.skip(i + 1));
        }
        out.append(" ");
        out.append(layer_name(ls[i]));
        i += 1;
    }
    proof {
        assert(full.skip(full.len() as int) =~= Seq::<Layer>::empty());
        assert(out@ + Seq::<char>::empty() =~= out@);
        assert(base + spec_layer_list(full) =~= out@);
    }
}

pub open spec fn pin_ser_ok(p: KiPin) -> bool {
    point_ok(p.pos) && num_ok(p.rotation) && num_ok(p.length)
}

pub open spec fn rect_ser_ok(r: KiRectangle) -> bool {
    num_ok(r.x1) && num_ok(r.y1) && num_ok(r.x2) && num_ok(r.y2) && num_ok(r.stroke_width)
}

pub open spec fn circle_ser_ok(c: KiCircle) -> bool {
    num_ok(c.cx) && num_ok(c.cy) && num_ok(c.radius) && num_ok(c.stroke_width)
}

pub open spec fn arc_ser_ok(a: SymbolArc) -> bool {
    point_ok(a.start) && point_ok(a.mid) && point_ok(a.end) && num_ok(a.stroke_width)
}

pub open spec fn poly_ser_ok(p: KiPolyline) -> bool {
    num_ok(p.stroke_width) && forall|i: int| 0 <= i < p.points@.len() ==> point_ok(
        #[trigger] p.points@[i],
    )
}

/// Every number of the symbol is within the formatter's range.
pub open spec fn symbol_ser_ok(s: KiSymbol) -> bool {
    &&& forall|i: int| 0 <= i < s.pins@.len() ==> pin_ser_ok(#[trigger] s.pins@[i])
    &&& forall|i: int| 0 <= i < s.rectangles@.len() ==> rect_ser_ok(#[trigger] s.rectangles@[i])
    &&& forall|i: int| 0 <= i < s.circles@.len() ==> circle_ser_ok(#[trigger] s.circles@[i])
    &&& forall|i: int| 0 <= i < s.arcs@.len() ==> arc_ser_ok(#[trigger] s.arcs@[i])
    &&& forall|i: int| 0 <= i < s.polylines@.len() ==> poly_ser_ok(#[trigger] s.polylines@[i])
}

/// One pin line, current dialect.
pub open spec fn spec_pin_v6(p: KiPin) -> Seq<char> {
    "\t\t(pin "@ + spec_pin_type_name(p.pin_type) + " "@ + spec_pin_style_name(p.style) + " (at "@
        + spec_fmt_micro(p.pos.x as int) + " "@ + spec_fmt_micro(p.pos.y as int) + " "@
        + spec_fmt_micro(p.rotation as int) + ") (length "@ + spec_fmt_micro(p.length as int)
        + ") (name \""@ + p.name@ + "\") (number \""@ + p.number@ + "\"))\n"@
}

#[verifier::rlimit(100)]
fn push_pin_v6(out: &mut String, p: &KiPin)
    requires
        pin_ser_ok(*p),
    ensures
        final (out)@ == old(out)@ + spec_pin_v6(*p),
{
    out.append("\t\t(pin ");
    out.append(pin_type_name(p.pin_type));
    out.append(" ");
    out.append(pin_style_name(p.style));
    out.append(" (at ");
    push_micro(out, p.pos.x);
    out.append(" ");
    push_micro(out, p.pos.y);
    out.append(" ");
    push_micro(out, p.rotation);
    out.append(") (length ");
    push_micro(out, p.length);
    out.append(") (name \"");
    out.append(p.name.as_str());
    out.append("\") (number \"");
    out.append(p.number.as_str());
    out.append("\"))\n");
}

/// One rectangle line, current dialect.
pub open spec fn spec_rect_v6(r: KiRectangle) -> Seq<char> {
    "\t\t(rectangle (start "@ + spec_fmt_micro(r.x1 as int) + " "@ + spec_fmt_micro(r.y1 as int)
        + ") (end "@ + spec_fmt_micro(r.x2 as int) + " "@ + spec_fmt_micro(r.y2 as int)
        + ") (stroke (width "@ + spec_fmt_micro(r.stroke_width as int) + ")) (fill "@
        + spec_fill_word(r.fill) + "))\n"@
}

#[verifier::rlimit(100)]
fn push_rect_v6(out: &mut String, r: &KiRectangle)
    requires
        rect_ser_ok(*r),
    ensures
        final (out)@ == old(out)@ + spec_rect_v6(*r),
{
    out.append("\t\t(rectangle (start ");
    push_micro(out, r.x1);
    out.append(" ");
    push_micro(out, r.y1);
    out.append(") (end ");
    push_micro(out, r.x2);
    out.append(" ");
    push_micro(out, r.y2);
    out.append(") (stroke (width ");
    push_micro(out, r.stroke_width);
    out.append(")) (fill ");
    out.append(fill_word(r.fill));
    out.append("))\n");
}

/// One circle line, current dialect.
pub open spec fn spec_circle_v6(c: KiCircle) -> Seq<char> {
    "\t\t(circle (center "@ + spec_fmt_micro(c.cx as int) + " "@ + spec_fmt_micro(c.cy as int)
        + ") (radius "@ + spec_fmt_micro(c.radius as int) + ") (stroke (width "@ + spec_fmt_micro(
        c.stroke_width as int,
    ) + ")) (fill "@ + spec_fill_word(c.fill) + "))\n"@
}

#[verifier::rlimit(100)]
fn push_circle_v6(out: &mut String, c: &KiCircle)
    requires
        circle_ser_ok(*c),
    ensures
        final (out)@ == old(out)@ + spec_circle_v6(*c),
{
    out.append("\t\t(circle (center ");
    push_micro(out, c.cx);
    out.append(" ");
    push_micro(out, c.cy);
    out.append(") (radius ");
    push_micro(out, c.radius);
    out.append(") (stroke (width ");
    push_micro(out, c.stroke_width);
    out.append(")) (fill ");
    out.append(fill_word(c.fill));
    out.append("))\n");
}

/// One arc line, current dialect.
pub open spec fn spec_arc_v6(a: SymbolArc) -> Seq<char> {
    "\t\t(arc (start "@ + spec_fmt_micro(a.start.x as int) + " "@ + spec_fmt_micro(a.start.y as int)
        + ") (mid "@ + spec_fmt_micro(a.mid.x as int) + " "@ + spec_fmt_micro(a.mid.y as int)
        + ") (end "@ + spec_fmt_micro(a.end.x as int) + " "@ + spec_fmt_micro(a.end.y as int)
        + ") (stroke (width "@ + spec_fmt_micro(a.stroke_width as int) + ")))\n"@
}

#[verifier::rlimit(100)]
fn push_arc_v6(out: &mut String, a: &SymbolArc)
    requires
        arc_ser_ok(*a),
    ensures
        final (out)@ == old(out)@ + spec_arc_v6(*a),
{
    out.append("\t\t(arc (start ");
    push_micro(out, a.start.x);
    out.append(" ");
    push_micro(out, a.start.y);
    out.append(") (mid ");
    push_micro(out, a.mid.x);
    out.append(" ");
    push_micro(out, a.mid.y);
    out.append(") (end ");
    push_micro(out, a.end.x);
    out.append(" ");
    push_micro(out, a.end.y);
    out.append(") (stroke (width ");
    push_micro(out, a.stroke_width);
    out.append(")))\n");
}

/// One polyline, current dialect.
pub open spec fn spec_poly_v6(p: KiPolyline) -> Seq<char> {
    "\t\t(polyline (pts"@ + spec_xy_list(p.points@) + ") (stroke (width "@ + spec_fmt_micro(
        p.stroke_width as int,
    ) + ")) (fill "@ + spec_fill_word(p.fill) + "))\n"@
}

#[verifier::rlimit(100)]
fn push_poly_v6(out: &mut String, p: &KiPolyline)
    requires
        poly_ser_ok(*p),
    ensures
        final (out)@ == old(out)@ + spec_poly_v6(*p),
{
    out.append("\t\t(polyline (pts");
    push_xy_list(out, &p.points);
    out.append(") (stroke (width ");
    push_micro(out, p.stroke_width);
    out.append(")) (fill ");
    out.append(fill_word(p.fill));
    out.append("))\n");
}

/// One pin line, legacy dialect.
pub open spec fn spec_pin_v5(p: KiPin) -> Seq<char> {
    "X "@ + p.number@ + " "@ + p.name@ + " "@ + spec_fmt_micro(p.pos.x as int) + " "@
        + spec_fmt_micro(p.pos.y as int) + " "@ + spec_fmt_micro(p.length as int) + " "@
        + spec_fmt_micro(p.rotation as int) + " "@ + spec_pin_type_letter(p.pin_type) + " "@
        + spec_pin_style_letter(p.style) + "\n"@
}

#[verifier::rlimit(100)]
fn push_pin_v5(out: &mut String, p: &KiPin)
    requires
        pin_ser_ok(*p),
    ensures
        final (out)@ == old(out)@ + spec_pin_v5(*p),
{
    out.append("X ");
    out.append(p.number.as_str());
    out.append(" ");
    out.append(p.name.as_str());
    out.append(" ");
    push_micro(out, p.pos.x);
    out.append(" ");
    push_micro(out, p.pos.y);
    out.append(" ");
    push_micro(out, p.length);
    out.append(" ");
    push_micro(out, p.rotation);
    out.append(" ");
    out.append(pin_type_letter(p.pin_type));
    out.append(" ");
    out.append(pin_style_letter(p.style));
    out.append("\n");
}

/// One rectangle line, legacy dialect.
pub open spec fn spec_rect_v5(r: KiRectangle) -> Seq<char> {
    "S "@ + spec_fmt_micro(r.x1 as int) + " "@ + spec_fmt_micro(r.y1 as int) + " "@
        + spec_fmt_micro(r.x2 as int) + " "@ + spec_fmt_micro(r.y2 as int) + " "@ + spec_fmt_micro(
        r.stroke_width as int,
    ) + " "@ + spec_fill_letter(r.fill) + "\n"@
}

#[verifier::rlimit(100)]
fn push_rect_v5(out: &mut String, r: &KiRectangle)
    requires
        rect_ser_ok(*r),
    ensures
        final (out)@ == old(out)@ + spec_rect_v5(*r),
{
    out.append("S ");
    push_micro(out, r.x1);
    out.append(" ");
    push_micro(out, r.y1);
    out.append(" ");
    push_micro(out, r.x2);
    out.append(" ");
    push_micro(out, r.y2);
    out.append(" ");
    push_micro(out, r.stroke_width);
    out.append(" ");
    out.append(fill_letter(r.fill));
    out.append("\n");
}

/// One circle line, legacy dialect.
pub open spec fn spec_circle_v5(c: KiCircle) -> Seq<char> {
    "C "@ + spec_fmt_micro(c.cx as int) + " "@ + spec_fmt_micro(c.cy as int) + " "@
        + spec_fmt_micro(c.radius as int) + " "@ + spec_fmt_micro(c.stroke_width as int) + " "@
        + spec_fill_letter(c.fill) + "\n"@
}

#[verifier::rlimit(100)]
fn push_circle_v5(out: &mut String, c: &KiCircle)
    requires
        circle_ser_ok(*c),
    ensures
        final (out)@ == old(out)@ + spec_circle_v5(*c),
{
    out.append("C ");
    push_micro(out, c.cx);
    out.append(" ");
    push_micro(out, c.cy);
    out.append(" ");
    push_micro(out, c.radius);
    out.append(" ");
    push_micro(out, c.stroke_width);
    out.append(" ");
    out.append(fill_letter(c.fill));
    out.append("\n");
}

/// One arc line, legacy dialect.
pub open spec fn spec_arc_v5(a: SymbolArc) -> Seq<char> {
    "A "@ + spec_fmt_micro(a.start.x as int) + " "@ + spec_fmt_micro(a.start.y as int) + " "@
        + spec_fmt_micro(a.mid.x as int) + " "@ + spec_fmt_micro(a.mid.y as int) + " "@
        + spec_fmt_micro(a.end.x as int) + " "@ + spec_fmt_micro(a.end.y as int) + " "@
        + spec_fmt_micro(a.stroke_width as int) + "\n"@
}

#[verifier::rlimit(100)]
fn push_arc_v5(out: &mut String, a: &SymbolArc)
    requires
        arc_ser_ok(*a),
    ensures
        final (out)@ == old(out)@ + spec_arc_v5(*a),
{
    out.append("A ");
    push_micro(out, a.start.x);
    out.append(" ");
    push_micro(out, a.start.y);
    out.append(" ");
    push_micro(out, a.mid.x);
    out.append(" ");
    push_micro(out, a.mid.y);
    out.append(" ");
    push_micro(out, a.end.x);
    out.append(" ");
    push_micro(out, a.end.y);
    out.append(" ");
    push_micro(out, a.stroke_width);
    out.append("\n");
}

/// One polyline, legacy dialect.
pub open spec fn spec_poly_v5(p: KiPolyline) -> Seq<char> {
    "P"@ + spec_xy_list(p.points@) + " "@ + spec_fmt_micro(p.stroke_width as int) + " "@
        + spec_fill_letter(p.fill) + "\n"@
}

#[verifier::rlimit(100)]
fn push_poly_v5(out: &mut String, p: &KiPolyline)
    requires
        poly_ser_ok(*p),
    ensures
        final (out)@ == old(out)@ + spec_poly_v5(*p),
{
    out.append("P");
    push_xy_list(out, &p.points);
    out.append(" ");
    push_micro(out, p.stroke_width);
    out.append(" ");
    out.append(fill_letter(p.fill));
    out.append("\n");
}

/// The records' entity text, per list. Each is the concatenation of its
/// members' lines, in order.
pub open spec fn spec_pins_text(ps: Seq<KiPin>, v: KicadVersion) -> Seq<char>
    decreases ps.len(),
{
    if ps.len() == 0 {
        Seq::empty()
    } else {
        (match v {
            KicadVersion::V5 => spec_pin_v5(ps[0]),
            KicadVersion::V6 => spec_pin_v6(ps[0]),
        }) + spec_pins_text(ps.drop_first(), v)
    }
}

pub open spec fn spec_rects_text(rs: Seq<KiRectangle>, v: KicadVersion) -> Seq<char>
    decreases rs.len(),
{
    if rs.len() == 0 {
        Seq::empty()
    } else {
        (match v {
            KicadVersion::V5 => spec_rect_v5(rs[0]),
            KicadVersion::V6 => spec_rect_v6(rs[0]),
        }) + spec_rects_text(rs.drop_first(), v)
    }
}

pub open spec fn spec_circles_text(cs: Seq<KiCircle>, v: KicadVersion) -> Seq<char>
    decreases cs.len(),
{
    if cs.len() == 0 {
        Seq::empty()
    } else {
        (match v {
            KicadVersion::V5 => spec_circle_v5(cs[0]),
            KicadVersion::V6 => spec_circle_v6(cs[0]),
        }) + spec_circles_text(cs.drop_first(), v)
    }
}

pub open spec fn spec_arcs_text(arcs: Seq<SymbolArc>, v: KicadVersion) -> Seq<char>
    decreases arcs.len(),
{
    if arcs.len() == 0 {
        Seq::empty()
    } else {
        (match v {
            KicadVersion::V5 => spec_arc_v5(arcs[0]),
            KicadVersion::V6 => spec_arc_v6(arcs[0]),
        }) + spec_arcs_text(arcs.drop_first(), v)
    }
}

pub open spec fn spec_polys_text(ps: Seq<KiPolyline>, v: KicadVersion) -> Seq<char>
    decreases ps.len(),
{
    if ps.len() == 0 {
        Seq::empty()
    } else {
        (match v {
            KicadVersion::V5 => spec_poly_v5(ps[0]),
            KicadVersion::V6 => spec_poly_v6(ps[0]),
        }) + spec_polys_text(ps.drop_first(), v)
    }
}

/// The record head carrying the symbol's metadata; its first line is the
/// record marker of the dialect, naming the record key.
pub open spec fn spec_symbol_head(s: KiSymbol, v: KicadVersion) -> Seq<char> {
    match v {
        KicadVersion::V5 => "DEF "@ + s.name@ + " "@ + s.reference@ + " 0 40 Y Y 1 F N\n"@
            + "F1 \""@ + s.value@ + "\"\nF2 \""@ + s.footprint@ + "\"\nF3 \""@ + s.datasheet@
            + "\"\nF4 \""@ + s.manufacturer@ + "\"\nF5 \""@ + s.lcsc_id@ + "\"\nF6 \""@
            + s.jlc_id@ + "\"\n"@,
        KicadVersion::V6 => "(symbol \""@ + s.name@ + "\" (reference \""@ + s.reference@
            + "\") (value \""@ + s.value@ + "\") (footprint \""@ + s.footprint@
            + "\") (datasheet \""@ + s.datasheet@ + "\") (manufacturer \""@ + s.manufacturer@
            + "\") (lcsc \""@ + s.lcsc_id@ + "\") (jlc \""@ + s.jlc_id@ + "\")\n"@,
    }
}

/// The record tail closing the symbol.
pub open spec fn spec_symbol_tail(v: KicadVersion) -> Seq<char> {
    match v {
        KicadVersion::V5 => "ENDDEF\n"@,
        KicadVersion::V6 => ")\n"@,
    }
}

/// A whole symbol record: head, pins, rectangles, circles, arcs, polylines,
/// tail.
pub open spec fn spec_export_symbol(s: KiSymbol, v: KicadVersion) -> Seq<char> {
    spec_symbol_head(s, v) + spec_pins_text(s.pins@, v) + spec_rects_text(s.rectangles@, v)
        + spec_circles_text(s.circles@, v) + spec_arcs_text(s.arcs@, v) + spec_polys_text(
        s.polylines@,
        v,
    ) + spec_symbol_tail(v)
}

/// Renders a whole symbol record in the selected dialect. Deterministic by
/// construction: the text is a function of the entity alone.
#[verifier::rlimit(100)]
pub fn export_symbol(s: &KiSymbol, v: KicadVersion) -> (r: String)
    requires
        symbol_ser_ok(*s),
    ensures
        r@ == spec_export_symbol(*s, v),
{
    let mut out = String::new();
    match v {
        KicadVersion::V5 => {
            out.append("DEF ");
            out.append(s.name.as_str());
            out.append(" ");
            out.append(s.reference.as_str());
            out.append(" 0 40 Y Y 1 F N\n");
            out.append("F1 \"");
            out.append(s.value.as_str());
            out.append("\"\nF2 \"");
            out.append(s.footprint.as_str());
            out.append("\"\nF3 \"");
            out.append(s.datasheet.as_str());
            out.append("\"\nF4 \"");
            out.append(s.manufacturer.as_str());
            out.append("\"\nF5 \"");
            out.append(s.lcsc_id.as_str());
            out.append("\"\nF6 \"");
            out.append(s.jlc_id.as_str());
            out.append("\"\n");
        },
        KicadVersion::V6 => {
            out.append("(symbol \"");
            out.append(s.name.as_str());
            out.append("\" (reference \"");
            out.append(s.reference.as_str());
            out.append("\") (value \"");
            out.append(s.value.as_str());
            out.append("\") (footprint \"");
            out.append(s.footprint.as_str());
            out.append("\") (datasheet \"");
            out.append(s.datasheet.as_str());
            out.append("\") (manufacturer \"");
            out.append(s.manufacturer.as_str());
            out.append("\") (lcsc \"");
            out.append(s.lcsc_id.as_str());
            out.append("\") (jlc \"");
            out.append(s.jlc_id.as_str());
            out.append("\")\n");
        },
    }
    proof {
        assert(out@ == spec_symbol_head(*s, v));
    }
    let ghost h0 = out@;
    let ghost pins_full = s.pins@;
    let mut i: usize = 0;
    proof {
        assert(pins_full.skip(0) =~= pins_full);
    }
    while i < s.pins.len()
        invariant
            0 <= i <= s.pins@.len(),
            pins_full == s.pins@,
            symbol_ser_ok(*s),
            h0 + spec_pins_text(pins_full, v) == out@ + spec_pins_text(
                pins_full.skip(i as int),
                v,
            ),
        decreases s.pins@.len() - i,
    {
        proof {
            assert(pins_full.skip(i as int)[0] == pins_full[i as int]);
            assert(pins_full.skip(i as int).drop_first() =~= pins_full.skip(i + 1));
        }
        match v {
            KicadVersion::V5 => push_pin_v5(&mut out, &s.pins[i]),
            KicadVersion::V6 => push_pin_v6(&mut out, &s.pins[i]),
        }
        i += 1;
    }
    proof {
        assert(pins_full.skip(pins_full.len() as int) =~= Seq::<KiPin>::empty());
        assert(out@ + Seq::<char>::empty() =~= out@);
        assert(out@ =~= h0 + spec_pins_text(pins_full, v));
    }
    let ghost h1 = out@;
    let ghost rects_full = s.rectangles@;
    let mut i: usize = 0;
    proof {
        assert(rects_full.skip(0) =~= rects_full);
    }
    while i < s.rectangles.len()
        invariant
            0 <= i <= s.rectangles@.len(),
            rects_full == s.rectangles@,
            symbol_ser_ok(*s),
            h1 + spec_rects_text(rects_full, v) == out@ + spec_rects_text(
                rects_full.skip(i as int),
                v,
            ),
        decreases s.rectangles@.len() - i,
    {
        proof {
            assert(rects_full.skip(i as int)[0] == rects_full[i as int]);
            assert(rects_full.skip(i as int).drop_first() =~= rects_full.skip(i + 1));
        }
        match v {
            KicadVersion::V5 => push_rect_v5(&mut out, &s.rectangles[i]),
            KicadVersion::V6 => push_rect_v6(&mut out, &s.rectangles[i]),
        }
        i += 1;
    }
    proof {
        assert(rects_full.skip(rects_full.len() as int) =~= Seq::<KiRectangle>::empty());
        assert(out@ + Seq::<char>::empty() =~= out@);
        assert(out@ =~= h1 + spec_rects_text(rects_full, v));
    }
    let ghost h2 = out@;
    let ghost circles_full = s.circles@;
    let mut i: usize = 0;
    proof {
        assert(circles_full.skip(0) =~= circles_full);
    }
    while i < s.circles.len()
        invariant
            0 <= i <= s.circles@.len(),
            circles_full == s.circles@,
            symbol_ser_ok(*s),
            h2 + spec_circles_text(circles_full, v) == out@ + spec_circles_text(
                circles_full.skip(i as int),
                v,
            ),
        decreases s.circles@.len() - i,
    {
        proof {
            assert(circles_full.skip(i as int)[0] == circles_full[i as int]);
            assert(circles_full.skip(i as int).drop_first() =~= circles_full.skip(i + 1));
        }
        match v {
            KicadVersion::V5 => push_circle_v5(&mut out, &s.circles[i]),
            KicadVersion::V6 => push_circle_v6(&mut out, &s.circles[i]),
        }
        i += 1;
    }
    proof {
        assert(circles_full.skip(circles_full.len() as int) =~= Seq::<KiCircle>::empty());
        assert(out@ + Seq::<char>::empty() =~= out@);
        assert(out@ =~= h2 + spec_circles_text(circles_full, v));
    }
    let ghost h3 = out@;
    let ghost arcs_full = s.arcs@;
    let mut i: usize = 0;
    proof {
        assert(arcs_full.skip(0) =~= arcs_full);
    }
    while i < s.arcs.len()
        invariant
            0 <= i <= s.arcs@.len(),
            arcs_full == s.arcs@,
            symbol_ser_ok(*s),
            h3 + spec_arcs_text(arcs_full, v) == out@ + spec_arcs_text(
                arcs_full.skip(i as int),
                v,
            ),
        decreases s.arcs@.len() - i,
    {
        proof {
            assert(arcs_full.skip(i as int)[0] == arcs_full[i as int]);
            assert(arcs_full.skip(i as int).drop_first() =~= arcs_full.skip(i + 1));
        }
        match v {
            KicadVersion::V5 => push_arc_v5(&mut out, &s.arcs[i]),
            KicadVersion::V6 => push_arc_v6(&mut out, &s.arcs[i]),
        }
        i += 1;
    }
    proof {
        assert(arcs_full.skip(arcs_full.len() as int) =~= Seq::<SymbolArc>::empty());
        assert(out@ + Seq::<char>::empty() =~= out@);
        assert(out@ =~= h3 + spec_arcs_text(arcs_full, v));
    }
    let ghost h4 = out@;
    let ghost polys_full = s.polylines@;
    let mut i: usize = 0;
    proof {
        assert(polys_full.skip(0) =~= polys_full);
    }
    while i < s.polylines.len()
        invariant
            0 <= i <= s.polylines@.len(),
            polys_full == s.polylines@,
            symbol_ser_ok(*s),
            h4 + spec_polys_text(polys_full, v) == out@ + spec_polys_text(
                polys_full.skip(i as int),
                v,
            ),
        decreases s.polylines@.len() - i,
    {
        proof {
            assert(polys_full.skip(i as int)[0] == polys_full[i as int]);
            assert(polys_full.skip(i as int).drop_first() =~= polys_full.skip(i + 1));
        }
        match v {
            KicadVersion::V5 => push_poly_v5(&mut out, &s.polylines[i]),
            KicadVersion::V6 => push_poly_v6(&mut out, &s.polylines[i]),
        }
        i += 1;
    }
    proof {
        assert(polys_full.skip(polys_full.len() as int) =~= Seq::<KiPolyline>::empty());
        assert(out@ + Seq::<char>::empty() =~= out@);
        assert(out@ =~= h4 + spec_polys_text(polys_full, v));
    }
    match v {
        KicadVersion::V5 => out.append("ENDDEF\n"),
        KicadVersion::V6 => out.append(")\n"),
    }
    out
}

} // verus!
