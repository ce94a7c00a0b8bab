//! The footprint serializer: one self-contained module record per component,
//! so the per-component footprint files never contend with each other.

use vstd::prelude::*;
use vstd::string::StringExecFns;
use crate::fmt::spec_fmt_micro;
use crate::geom::Point;
use crate::kicad::PadType;
use crate::kicad::PadShape;
use crate::kicad::Drill;
use crate::kicad::KiPad;
use crate::kicad::KiLine;
use crate::kicad::FpKiCircle;
use crate::kicad::FpKiArc;
use crate::kicad::KiText;
use crate::kicad::KiFootprint;
use crate::serialize::num_ok;
use crate::serialize::point_ok;
use crate::serialize::spec_layer_name;
use crate::serialize::spec_fill_word;
use crate::serialize::spec_xy_list;
use crate::serialize::spec_layer_list;

verus! {

/// The dialect word for a pad's mounting kind.
pub open spec fn spec_pad_type_name(t: PadType) -> Seq<char> {
    match t {
        PadType::ThroughHole => "thru_hole"@,
        PadType::Smd => "smd"@,
        PadType::NpThroughHole => "np_thru_hole"@,
    }
}

fn pad_type_name(t: PadType) -> (r: &'static str)
    ensures
        r@ == spec_pad_type_name(t),
{
    match t {
        PadType::ThroughHole => "thru_hole",
        PadType::Smd => "smd",
        PadType::NpThroughHole => "np_thru_hole",
    }
}

/// The dialect word for a pad's outline.
pub open spec fn spec_pad_shape_name(s: PadShape) -> Seq<char> {
    match s {
        PadShape::Circle => "circle"@,
        PadShape::Oval => "oval"@,
        PadShape::Rect => "rect"@,
        PadShape::Custom => "custom"@,
    }
}

fn pad_shape_name(s: PadShape) -> (r: &'static str)
    ensures
        r@ == spec_pad_shape_name(s),
{
    match s {
        PadShape::Circle => "circle",
        PadShape::Oval => "oval",
        PadShape::Rect => "rect",
        PadShape::Custom => "custom",
    }
}

/// The drill clause: nothing, a round drill, or an oblong slot.
pub open spec fn spec_drill_text(d: Option<Drill>) -> Seq<char> {
    match d {
        Option::None => Seq::empty(),
        Option::Some(dr) => match dr.width {
            Option::None => " (drill "@ + spec_fmt_micro(dr.diameter as int) + ")"@,
            Option::Some(w) => " (drill oval "@ + spec_fmt_micro(dr.diameter as int) + " "@
                + spec_fmt_micro(w as int) + ")"@,
        },
    }
}

pub open spec fn drill_ser_ok(d: Option<Drill>) -> bool {
    match d {
        Option::None => true,
        Option::Some(dr) => num_ok(dr.diameter) && (dr.width is Some ==> num_ok(dr.width->0)),
    }
}

/// The polygon clause of a custom pad.
pub open spec fn spec_pad_poly_text(pg: Option<Seq<Point>>) -> Seq<char> {
    match pg {
        Option::None => Seq::empty(),
        Option::Some(ps) => " (primitives (gr_poly (pts"@ + spec_xy_list(ps)
            + ") (width 0.10)))"@,
    }
}

pub open spec fn pad_ser_ok(p: KiPad) -> bool {
    &&& point_ok(p.pos)
    &&& num_ok(p.size_x)
    &&& num_ok(p.size_y)
    &&& num_ok(p.rotation)
    &&& drill_ser_ok(p.drill)
    &&& match p.polygon {
        Option::None => true,
        Option::Some(ps) => forall|i: int| 0 <= i < ps@.len() ==> point_ok(#[trigger] ps@[i]),
    }
}

/// The polygon view of a pad.
pub open spec fn spec_pad_poly_view(p: KiPad) -> Option<Seq<Point>> {
    match p.polygon {
        Option::None => None,
        Option::Some(ps) => Some(ps@),
    }
}

/// The head of a pad line: number, kind, outline, position and size.
pub open spec fn spec_pad_head(p: KiPad) -> Seq<char> {
    "\t(pad \""@ + p.number@ + "\" "@ + spec_pad_type_name(p.pad_type) + " "@
        + spec_pad_shape_name(p.shape) + " (at "@ + spec_fmt_micro(p.pos.x as int) + " "@
        + spec_fmt_micro(p.pos.y as int) + " "@ + spec_fmt_micro(p.rotation as int) + ") (size "@
        + spec_fmt_micro(p.size_x as int) + " "@ + spec_fmt_micro(p.size_y as int) + ")"@
}

/// One pad line: the head, then the drill, layer and polygon clauses.
pub open spec fn spec_pad_text(p: KiPad) -> Seq<char> {
    spec_pad_head(p) + spec_drill_text(p.drill) + " (layers"@ + spec_layer_list(p.layers@) + ")"@
        + spec_pad_poly_text(spec_pad_poly_view(p)) + ")\n"@
}

/// The drill clause of a pad.
fn drill_clause(d: &Option<Drill>) -> (r: String)
    requires
        drill_ser_ok(*d),
    ensures
        r@ == spec_drill_text(*d),
{
    let mut out = String::new();
    match d {
        Some(dr) => {
            match dr.width {
                Some(w) => {
                    out.append(" (drill oval ");
                    crate::serialize::push_micro(&mut out, dr.diameter);
                    out.append(" ");
                    crate::serialize::push_micro(&mut out, w);
                    out.append(")");
                },
                None => {
                    out.append(" (drill ");
                    crate::serialize::push_micro(&mut out, dr.diameter);
                    out.append(")");
                },
            }
        },
        None => {},
    }
    out
}

/// The polygon clause of a custom pad.
fn poly_clause(pg: &Option<Vec<Point>>) -> (r: String)
    requires
        match pg {
            Option::Some(ps) => forall|i: int|
                0 <= i < ps@.len() ==> point_ok(#[trigger] ps@[i]),
            Option::None => true,
        },
    ensures
        r@ == spec_pad_poly_text(
            match pg {
                Option::Some(ps) => Some(ps@),
                Option::None => None,
            },
        ),
{
    let mut out = String::new();
    match pg {
        Some(ps) => {
            out.append(" (primitives (gr_poly (pts");
            crate::serialize::push_xy_list(&mut out, ps);
            out.append(") (width 0.10)))");
        },
        None => {},
    }
    out
}

/// Appends one pad.
#[verifier::rlimit(100)]
fn push_pad(out: &mut String, p: &KiPad)
    requires
        pad_ser_ok(*p),
    ensures
        final (out)@ == old(out)@ + spec_pad_text(*p),
{
    out.append("\t(pad \"");
    out.append(p.number.as_str());
    out.append("\" ");
    out.append(pad_type_name(p.pad_type));
    out.append(" ");
    out.append(pad_shape_name(p.shape));
    out.append(" (at ");
    crate::serialize::push_micro(out, p.pos.x);
    out.append(" ");
    crate::serialize::push_micro(out, p.pos.y);
    out.append(" ");
    crate::serialize::push_micro(out, p.rotation);
    out.append(") (size ");
    crate::serialize::push_micro(out, p.size_x);
    out.append(" ");
    crate::serialize::push_micro(out, p.size_y);
    out.append(")");
    proof {
        assert(out@ == old(out)@ + spec_pad_head(*p));
    }
    let dc = drill_clause(&p.drill);
    out.append(dc.as_str());
    out.append(" (layers");
    crate::serialize::push_layer_list(out, &p.layers);
    out.append(")");
    let pc = poly_clause(&p.polygon);
    out.append(pc.as_str());
    out.append(")\n");
}

/// One line segment.
pub open spec fn spec_line_text(l: KiLine) -> Seq<char> {
    "\t(fp_line (start "@ + spec_fmt_micro(l.start.x as int) + " "@ + spec_fmt_micro(
        l.start.y as int,
    ) + ") (end "@ + spec_fmt_micro(l.end.x as int) + " "@ + spec_fmt_micro(l.end.y as int)
        + ") (layer "@ + spec_layer_name(l.layer) + ") (width "@ + spec_fmt_micro(l.width as int)
        + "))\n"@
}

pub open spec fn line_ser_ok(l: KiLine) -> bool {
    point_ok(l.start) && point_ok(l.end) && num_ok(l.width)
}

#[verifier::rlimit(100)]
fn push_line(out: &mut String, l: &KiLine)
    requires
        line_ser_ok(*l),
    ensures
        final (out)@ == old(out)@ + spec_line_text(*l),
{
    out.append("\t(fp_line (start ");
    crate::serialize::push_micro(out, l.start.x);
    out.append(" ");
    crate::serialize::push_micro(out, l.start.y);
    out.append(") (end ");
    crate::serialize::push_micro(out, l.end.x);
    out.append(" ");
    crate::serialize::push_micro(out, l.end.y);
    out.append(") (layer ");
    out.append(crate::serialize::layer_name(l.layer));
    out.append(") (width ");
    crate::serialize::push_micro(out, l.width);
    out.append("))\n");
}

/// One footprint circle.
pub open spec fn spec_fp_circle_text(c: FpKiCircle) -> Seq<char> {
    "\t(fp_circle (center "@ + spec_fmt_micro(c.center.x as int) + " "@ + spec_fmt_micro(
        c.center.y as int,
    ) + ") (end "@ + spec_fmt_micro(c.end.x as int) + " "@ + spec_fmt_micro(c.end.y as int)
        + ") (layer "@ + spec_layer_name(c.layer) + ") (width "@ + spec_fmt_micro(c.width as int)
        + ") (fill "@ + spec_fill_word(c.fill) + "))\n"@
}

pub open spec fn fp_circle_ser_ok(c: FpKiCircle) -> bool {
    point_ok(c.center) && point_ok(c.end) && num_ok(c.width)
}

#[verifier::rlimit(100)]
fn push_fp_circle(out: &mut String, c: &FpKiCircle)
    requires
        fp_circle_ser_ok(*c),
    ensures
        final (out)@ == old(out)@ + spec_fp_circle_text(*c),
{
    out.append("\t(fp_circle (center ");
    crate::serialize::push_micro(out, c.center.x);
    out.append(" ");
    crate::serialize::push_micro(out, c.center.y);
    out.append(") (end ");
    crate::serialize::push_micro(out, c.end.x);
    out.append(" ");
    crate::serialize::push_micro(out, c.end.y);
    out.append(") (layer ");
    out.append(crate::serialize::layer_name(c.layer));
    out.append(") (width ");
    crate::serialize::push_micro(out, c.width);
    out.append(") (fill ");
    out.append(crate::serialize::fill_word(c.fill));
    out.append("))\n");
}

/// One footprint arc.
pub open spec fn spec_fp_arc_text(a: FpKiArc) -> Seq<char> {
    "\t(fp_arc (start "@ + spec_fmt_micro(a.start.x as int) + " "@ + spec_fmt_micro(
        a.start.y as int,
    ) + ") (mid "@ + spec_fmt_micro(a.mid.x as int) + " "@ + spec_fmt_micro(a.mid.y as int)
        + ") (end "@ + spec_fmt_micro(a.end.x as int) + " "@ + spec_fmt_micro(a.end.y as int)
        + ") (layer "@ + spec_layer_name(a.layer) + ") (width "@ + spec_fmt_micro(a.width as int)
        + "))\n"@
}

pub open spec fn fp_arc_ser_ok(a: FpKiArc) -> bool {
    point_ok(a.start) && point_ok(a.mid) && point_ok(a.end) && num_ok(a.width)
}

#[verifier::rlimit(100)]
fn push_fp_arc(out: &mut String, a: &FpKiArc)
    requires
        fp_arc_ser_ok(*a),
    ensures
        final (out)@ == old(out)@ + spec_fp_arc_text(*a),
{
    out.append("\t(fp_arc (start ");
    crate::serialize::push_micro(out, a.start.x);
    out.append(" ");
    crate::serialize::push_micro(out, a.start.y);
    out.append(") (mid ");
    crate::serialize::push_micro(out, a.mid.x);
    out.append(" ");
    crate::serialize::push_micro(out, a.mid.y);
    out.append(") (end ");
    crate::serialize::push_micro(out, a.end.x);
    out.append(" ");
    crate::serialize::push_micro(out, a.end.y);
    out.append(") (layer ");
    out.append(crate::serialize::layer_name(a.layer));
    out.append(") (width ");
    crate::serialize::push_micro(out, a.width);
    out.append("))\n");
}

/// One text, always on the front silkscreen.
pub open spec fn spec_text_text(t: KiText) -> Seq<char> {
    "\t(fp_text user \""@ + t.text@ + "\" (at "@ + spec_fmt_micro(t.pos.x as int) + " "@
        + spec_fmt_micro(t.pos.y as int) + " "@ + spec_fmt_micro(t.rotation as int)
        + ") (layer F.SilkS) (effects (font (size "@ + spec_fmt_micro(t.size as int) + " "@
        + spec_fmt_micro(t.size as int) + ") (thickness "@ + spec_fmt_micro(t.thickness as int)
        + "))))\n"@
}

pub open spec fn text_ser_ok(t: KiText) -> bool {
    point_ok(t.pos) && num_ok(t.rotation) && num_ok(t.size) && num_ok(t.thickness)
}

#[verifier::rlimit(100)]
fn push_text(out: &mut String, t: &KiText)
    requires
        text_ser_ok(*t),
    ensures
        final (out)@ == old(out)@ + spec_text_text(*t),
{
    out.append("\t(fp_text user \"");
    out.append(t.text.as_str());
    out.append("\" (at ");
    crate::serialize::push_micro(out, t.pos.x);
    out.append(" ");
    crate::serialize::push_micro(out, t.pos.y);
    out.append(" ");
    crate::serialize::push_micro(out, t.rotation);
    out.append(") (layer F.SilkS) (effects (font (size ");
    crate::serialize::push_micro(out, t.size);
    out.append(" ");
    crate::serialize::push_micro(out, t.size);
    out.append(") (thickness ");
    crate::serialize::push_micro(out, t.thickness);
    out.append("))))\n");
}

/// The recorded 3D model clause.
pub open spec fn spec_model_text(path: Seq<char>) -> Seq<char> {
    "\t(model "@ + path + " (offset (xyz 0 0 0)) (scale (xyz 1 1 1)) (rotate (xyz 0 0 0)))\n"@
}

pub open spec fn spec_pads_text(ps: Seq<KiPad>) -> Seq<char>
    decreases ps.len(),
{
    if ps.len() == 0 {
        Seq::empty()
    } else {
        spec_pad_text(ps[0]) + spec_pads_text(ps.drop_first())
    }
}

pub open spec fn spec_lines_text(ls: Seq<KiLine>) -> Seq<char>
    decreases ls.len(),
{
    if ls.len() == 0 {
        Seq::empty()
    } else {
        spec_line_text(ls[0]) + spec_lines_text(ls.drop_first())
    }
}

pub open spec fn spec_fp_circles_text(cs: Seq<FpKiCircle>) -> Seq<char>
    decreases cs.len(),
{
    if cs.len() == 0 {
        Seq::empty()
    } else {
        spec_fp_circle_text(cs[0]) + spec_fp_circles_text(cs.drop_first())
    }
}

pub open spec fn spec_fp_arcs_text(arcs: Seq<FpKiArc>) -> Seq<char>
    decreases arcs.len(),
{
    if arcs.len() == 0 {
        Seq::empty()
    } else {
        spec_fp_arc_text(arcs[0]) + spec_fp_arcs_text(arcs.drop_first())
    }
}

pub open spec fn spec_texts_text(ts: Seq<KiText>) -> Seq<char>
    decreases ts.len(),
{
    if ts.len() == 0 {
        Seq::empty()
    } else {
        spec_text_text(ts[0]) + spec_texts_text(ts.drop_first())
    }
}

/// Every number of the footprint is within the formatter's range.
pub open spec fn footprint_ser_ok(f: KiFootprint) -> bool {
    &&& forall|i: int| 0 <= i < f.pads@.len() ==> pad_ser_ok(#[trigger] f.pads@[i])
    &&& forall|i: int| 0 <= i < f.lines@.len() ==> line_ser_ok(#[trigger] f.lines@[i])
    &&& forall|i: int| 0 <= i < f.circles@.len() ==> fp_circle_ser_ok(#[trigger] f.circles@[i])
    &&& forall|i: int| 0 <= i < f.arcs@.len() ==> fp_arc_ser_ok(#[trigger] f.arcs@[i])
    &&& forall|i: int| 0 <= i < f.texts@.len() ==> text_ser_ok(#[trigger] f.texts@[i])
}

/// The whole footprint module: head, pads, lines, circles, arcs, texts, the
/// optional model clause, tail.
pub open spec fn spec_export_footprint(f: KiFootprint) -> Seq<char> {
    "(module "@ + f.name@ + " (layer F.Cu)\n"@ + spec_pads_text(f.pads@) + spec_lines_text(
        f.lines@,
    ) + spec_fp_circles_text(f.circles@) + spec_fp_arcs_text(f.arcs@) + spec_texts_text(f.texts@)
        + (match f.model_3d {
        Option::Some(m) => spec_model_text(m.path@),
        Option::None => Seq::<char>::empty(),
    }) + ")\n"@
}

/// Renders a whole footprint module. Deterministic by construction.
#[verifier::rlimit(100)]
pub fn export_footprint(f: &KiFootprint) -> (r: String)
    requires
        footprint_ser_ok(*f),
    ensures
        r@ == spec_export_footprint(*f),
{
    let mut out = String::new();
    out.append("(module ");
    out.append(f.name.as_str());
    out.append(" (layer F.Cu)\n");
    let ghost h0 = out@;
    let ghost pads_full = f.pads@;
    let mut i: usize = 0;
    proof {
        assert(pads_full.skip(0) =~= pads_full);
    }
    while i < f.pads.len()
        invariant
            0 <= i <= f.pads@.len(),
            pads_full == f.pads@,
            footprint_ser_ok(*f),
            h0 + spec_pads_text(pads_full) == out@ + spec_pads_text(pads_full.skip(i as int)),
        decreases f.pads@.len() - i,
    {
        proof {
            assert(pads_full.skip(i as int)[0] == pads_full[i as int]);
            assert(pads_full.skip(i as int).drop_first() =~= pads_full.skip(i + 1));
        }
        push_pad(&mut out, &f.pads[i]);
        i += 1;
    }
    proof {
        assert(pads_full.skip(pads_full.len() as int) =~= Seq::<KiPad>::empty());
        assert(out@ + Seq::<char>::empty() =~= out@);
    }
    let ghost h1 = out@;
    let ghost lines_full = f.lines@;
    let mut i: usize = 0;
    proof {
        assert(lines_full.skip(0) =~= lines_full);
    }
    while i < f.lines.len()
        invariant
            0 <= i <= f.lines@.len(),
            lines_full == f.lines@,
            footprint_ser_ok(*f),
            h1 + spec_lines_text(lines_full) == out@ + spec_lines_text(lines_full.skip(i as int)),
        decreases f.lines@.len() - i,
    {
        proof {
            assert(lines_full.skip(i as int)[0] == lines_full[i as int]);
            assert(lines_full.skip(i as int).drop_first() =~= lines_full.skip(i + 1));
        }
        push_line(&mut out, &f.lines[i]);
        i += 1;
    }
    proof {
        assert(lines_full.skip(lines_full.len() as int) =~= Seq::<KiLine>::empty());
        assert(out@ + Seq::<char>::empty() =~= out@);
    }
    let ghost h2 = out@;
    let ghost circles_full = f.circles@;
    let mut i: usize = 0;
    proof {
        assert(circles_full.skip(0) =~= circles_full);
    }
    while i < f.circles.len()
        invariant
            0 <= i <= f.circles@.len(),
            circles_full == f.circles@,
            footprint_ser_ok(*f),
            h2 + spec_fp_circles_text(circles_full) == out@ + spec_fp_circles_text(
                circles_full.skip(i as int),
            ),
        decreases f.circles@.len() - i,
    {
        proof {
            assert(circles_full.skip(i as int)[0] == circles_full[i as int]);
            assert(circles_full.skip(i as int).drop_first() =~= circles_full.skip(i + 1));
        }
        push_fp_circle(&mut out, &f.circles[i]);
        i += 1;
    }
    proof {
        assert(circles_full.skip(circles_full.len() as int) =~= Seq::<FpKiCircle>::empty());
        assert(out@ + Seq::<char>::empty() =~= out@);
    }
    let ghost h3 = out@;
    let ghost arcs_full = f.arcs@;
    let mut i: usize = 0;
    proof {
        assert(arcs_full.skip(0) =~= arcs_full);
    }
    while i < f.arcs.len()
        invariant
            0 <= i <= f.arcs@.len(),
            arcs_full == f.arcs@,
            footprint_ser_ok(*f),
            h3 + spec_fp_arcs_text(arcs_full) == out@ + spec_fp_arcs_text(
                arcs_full.skip(i as int),
            ),
        decreases f.arcs@.len() - i,
    {
        proof {
            assert(arcs_full.skip(i as int)[0] == arcs_full[i as int]);
            assert(arcs_full.skip(i as int).drop_first() =~= arcs_full.skip(i + 1));
        }
        push_fp_arc(&mut out, &f.arcs[i]);
        i += 1;
    }
    proof {
        assert(arcs_full.skip(arcs_full.len() as int) =~= Seq::<FpKiArc>::empty());
        assert(out@ + Seq::<char>::empty() =~= out@);
    }
    let ghost h4 = out@;
    let ghost texts_full = f.texts@;
    let mut i: usize = 0;
    proof {
        assert(texts_full.skip(0) =~= texts_full);
    }
    while i < f.texts.len()
        invariant
            0 <= i <= f.texts@.len(),
            texts_full == f.texts@,
            footprint_ser_ok(*f),
            h4 + spec_texts_text(texts_full) == out@ + spec_texts_text(texts_full.skip(i as int)),
        decreases f.texts@.len() - i,
    {
        proof {
            assert(texts_full.skip(i as int)[0] == texts_full[i as int]);
            assert(texts_full.skip(i as int).drop_first() =~= texts_full.skip(i + 1));
        }
        push_text(&mut out, &f.texts[i]);
        i += 1;
    }
    proof {
        assert(texts_full.skip(texts_full.len() as int) =~= Seq::<KiText>::empty());
        assert(out@ + Seq::<char>::empty() =~= out@);
    }
    match &f.model_3d {
        Some(m) => {
            out.append("\t(model ");
            out.append(m.path.as_str());
            out.append(" (offset (xyz 0 0 0)) (scale (xyz 1 1 1)) (rotate (xyz 0 0 0)))\n");
        },
        None => {},
    }
    out.append(")\n");
    out
}

} // verus!
