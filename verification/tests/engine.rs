//! Tests of the geometry engine: number parsing and formatting, coordinate
//! transforms, arc reconstruction, the path mini-language and the builders.

use e2k::builder::{build_rect, build_symbol};
use e2k::cli::KicadVersion;
use e2k::fmt::fmt_micro;
use e2k::footprint_builder::{build_hole_pad, build_pad, build_track_lines, build_via_pad, pad_drill};
use e2k::geom::{
    ArcShape, BBox, ComponentMeta, FootprintModel, Hole, Pad, Point, RectShape, SourcePadShape,
    SymbolModel, Track, Via,
};
use e2k::kicad::{map_layer, map_pad_layers_smd, map_pad_layers_tht, Layer, PadShape, PadType};
use e2k::naming::{component_key, sanitize_name};
use e2k::num::MICRO;
use e2k::parse::{parse_coords, parse_micro};
use e2k::path::parse_path;
use e2k::pipeline::{convert_footprint, convert_symbol};
use e2k::transform::{
    arc_points, denormalize_pin_point, denormalize_symbol_point, normalize_footprint_point,
    normalize_pin_point, normalize_symbol_point, wrap_deg,
};

fn empty_symbol() -> SymbolModel {
    SymbolModel {
        prefix: String::from("U"),
        pins: Vec::new(),
        rectangles: Vec::new(),
        circles: Vec::new(),
        ellipses: Vec::new(),
        arcs: Vec::new(),
        polylines: Vec::new(),
        polygons: Vec::new(),
        paths: Vec::new(),
    }
}

fn empty_meta() -> ComponentMeta {
    ComponentMeta {
        title: String::from("Part"),
        manufacturer: String::from("Maker"),
        datasheet: String::from("ds.pdf"),
        lcsc_id: String::from("C42"),
        jlc_id: String::from("J42"),
        model_3d: None,
    }
}

fn empty_footprint() -> FootprintModel {
    FootprintModel {
        pads: Vec::new(),
        tracks: Vec::new(),
        circles: Vec::new(),
        arcs: Vec::new(),
        rectangles: Vec::new(),
        holes: Vec::new(),
        vias: Vec::new(),
        texts: Vec::new(),
    }
}

#[test]
fn parse_micro_accepts_plain_numbers() {
    assert_eq!(parse_micro(b"10"), Some(10 * MICRO));
    assert_eq!(parse_micro(b"10.5"), Some(10_500_000));
    assert_eq!(parse_micro(b"-3.25"), Some(-3_250_000));
    assert_eq!(parse_micro(b"+7"), Some(7 * MICRO));
    assert_eq!(parse_micro(b"10."), Some(10 * MICRO));
    assert_eq!(parse_micro(b".5"), Some(500_000));
    assert_eq!(parse_micro(b"0.1234567"), Some(123_456));
}

#[test]
fn parse_micro_rejects_malformed_tokens() {
    assert_eq!(parse_micro(b""), None);
    assert_eq!(parse_micro(b"abc"), None);
    assert_eq!(parse_micro(b"1.2.3"), None);
    assert_eq!(parse_micro(b"."), None);
    assert_eq!(parse_micro(b"-"), None);
    assert_eq!(parse_micro(b"10000000000000"), None);
}

#[test]
fn parse_coords_skips_bad_tokens() {
    let cs = parse_coords(b"1 x 2.5  -3");
    assert_eq!(cs, vec![1_000_000, 2_500_000, -3_000_000]);
}

#[test]
fn fmt_micro_prints_two_decimals() {
    assert_eq!(fmt_micro(10_500_000), "10.50");
    assert_eq!(fmt_micro(0), "0.00");
    assert_eq!(fmt_micro(-40), "0.00");
    assert_eq!(fmt_micro(-1_234_999), "-1.23");
    assert_eq!(fmt_micro(9_995_000), "10.00");
    assert_eq!(fmt_micro(-10_000_000), "-10.00");
}

#[test]
fn normalize_symbol_round_trip() {
    let b = BBox { x: 400_000_000, y: 300_000_000 };
    let raw = (123_456_789, -987_654_321);
    let p = normalize_symbol_point(raw.0, raw.1, b);
    let back = denormalize_symbol_point(p, b);
    assert_eq!((back.x, back.y), raw);
    let q = normalize_pin_point(raw.0, raw.1, b);
    let back_pin = denormalize_pin_point(q, b);
    assert_eq!((back_pin.x, back_pin.y), raw);
}

#[test]
fn normalization_asymmetry_between_pins_and_shapes() {
    let b = BBox { x: 100 * MICRO, y: 200 * MICRO };
    let shape = normalize_symbol_point(10 * MICRO, 30 * MICRO, b);
    let pin = normalize_pin_point(10 * MICRO, 30 * MICRO, b);
    // the shape flips its vertical axis, the pin does not (net effect)
    assert_eq!(shape.y, 170 * MICRO);
    assert_eq!(pin.y, -170 * MICRO);
    assert_eq!(shape.x, pin.x);
    // the footprint domain never flips
    let fp = normalize_footprint_point(10 * MICRO, 30 * MICRO, b);
    assert_eq!((fp.x, fp.y), (-90 * MICRO, -170 * MICRO));
}

#[test]
fn wrap_deg_stays_in_half_turn() {
    assert_eq!(wrap_deg(0), 0);
    assert_eq!(wrap_deg(180_000_000), 180_000_000);
    assert_eq!(wrap_deg(-180_000_000), 180_000_000);
    assert_eq!(wrap_deg(360_000_000), 0);
    assert_eq!(wrap_deg(270_000_000), -90_000_000);
    assert_eq!(wrap_deg(-450_000_000), -90_000_000);
}

#[test]
fn arc_reconstruction_quarter_circle() {
    // center at the origin, radius 10 units, swept from 0 to 90 degrees
    let a = ArcShape {
        cx: 0,
        cy: 0,
        radius: 10 * MICRO,
        start_deg: 0,
        end_deg: 90_000_000,
        stroke_width: MICRO / 4,
    };
    let (start, mid, end) = arc_points(&a).expect("arc in range");
    let tol = 1; // one micro-unit
    assert!((start.x - 10 * MICRO).abs() <= tol, "start.x = {}", start.x);
    assert!(start.y.abs() <= tol, "start.y = {}", start.y);
    assert!(end.x.abs() <= tol, "end.x = {}", end.x);
    assert!((end.y - 10 * MICRO).abs() <= tol, "end.y = {}", end.y);
    // the midpoint sits at the arithmetic mean angle of 45 degrees
    assert!((mid.x - 7_071_068).abs() <= tol, "mid.x = {}", mid.x);
    assert!((mid.y - 7_071_068).abs() <= tol, "mid.y = {}", mid.y);
}

#[test]
fn path_parses_move_line_close() {
    let pts = parse_path(b"M 0,0 L 10,0 L 10,10 Z");
    let expected = vec![
        Point { x: 0, y: 0 },
        Point { x: 10 * MICRO, y: 0 },
        Point { x: 10 * MICRO, y: 10 * MICRO },
        Point { x: 0, y: 0 },
    ];
    assert_eq!(pts, expected);
}

#[test]
fn path_accepts_space_separated_coordinates() {
    let with_comma = parse_path(b"M 0,0 L 10,0");
    let with_space = parse_path(b"M 0 0 L 10 0");
    assert_eq!(with_comma, with_space);
    assert_eq!(with_comma.len(), 2);
}

#[test]
fn path_skips_unparsable_tokens() {
    let pts = parse_path(b"M 0,0 Q 9 9 L 1,1 L x,y Z");
    // the unknown command and the bad pair are skipped, the rest survives
    assert_eq!(
        pts,
        vec![
            Point { x: 0, y: 0 },
            Point { x: MICRO, y: MICRO },
            Point { x: 0, y: 0 },
        ]
    );
}

#[test]
fn first_rectangle_is_always_filled() {
    let b = BBox { x: 0, y: 0 };
    let r0 = RectShape { x: 0, y: 0, width: MICRO, height: MICRO, stroke_width: 0, fill: false };
    let built_first = build_rect(&r0, b, true);
    let built_later = build_rect(&r0, b, false);
    assert!(built_first.fill);
    assert!(!built_later.fill);

    let mut sym = empty_symbol();
    sym.rectangles.push(r0.clone());
    sym.rectangles.push(r0.clone());
    let ks = build_symbol(&empty_meta(), &sym, b, "Part_C42", "Part_C42");
    assert!(ks.rectangles[0].fill);
    assert!(!ks.rectangles[1].fill);
    let (_, text) = convert_symbol(
        &empty_meta(),
        &sym,
        b,
        "Part_C42",
        "Part_C42",
        KicadVersion::V6,
    );
    let first_fill = text.find("(fill yes)").expect("body outline filled");
    let second_fill = text.find("(fill no)").expect("second keeps its flag");
    assert!(first_fill < second_fill);
}

#[test]
fn polygon_pad_with_too_few_points_falls_back() {
    let b = BBox { x: 0, y: 0 };
    let pad = Pad {
        number: String::from("1"),
        shape: SourcePadShape::Polygon,
        x: MICRO,
        y: 2 * MICRO,
        width: 3 * MICRO,
        height: 4 * MICRO,
        rotation: 90 * MICRO,
        hole_radius: None,
        hole_length: None,
        layer_id: 1,
        points: b"0 0".to_vec(),
    };
    let kp = build_pad(&pad, b);
    assert_eq!(kp.size_x, 3 * MICRO);
    assert_eq!(kp.size_y, 4 * MICRO);
    assert_eq!(kp.rotation, 90 * MICRO);
    assert!(kp.polygon.is_none());
}

#[test]
fn polygon_pad_with_enough_points_uses_relative_outline() {
    let b = BBox { x: MICRO, y: MICRO };
    let pad = Pad {
        number: String::from("1"),
        shape: SourcePadShape::Polygon,
        x: 2 * MICRO,
        y: 2 * MICRO,
        width: 3 * MICRO,
        height: 4 * MICRO,
        rotation: 90 * MICRO,
        hole_radius: None,
        hole_length: None,
        layer_id: 1,
        points: b"2 2 4 2 4 4".to_vec(),
    };
    let kp = build_pad(&pad, b);
    assert_eq!(kp.size_x, 5_000);
    assert_eq!(kp.size_y, 5_000);
    assert_eq!(kp.rotation, 0);
    let poly = kp.polygon.expect("outline kept");
    // pad position normalizes to (1, 1); vertices are relative to it
    assert_eq!(
        poly,
        vec![
            Point { x: 0, y: 0 },
            Point { x: 2 * MICRO, y: 0 },
            Point { x: 2 * MICRO, y: 2 * MICRO },
        ]
    );
}

#[test]
fn slot_drill_orientation_heuristic() {
    let mut pad = Pad {
        number: String::from("1"),
        shape: SourcePadShape::Oval,
        x: 0,
        y: 0,
        width: 10 * MICRO,
        height: 3 * MICRO,
        rotation: 0,
        hole_radius: Some(MICRO),
        hole_length: Some(4 * MICRO),
        layer_id: 11,
        points: Vec::new(),
    };
    // wide pad: the slot lies horizontally, the length is the primary size
    let d = pad_drill(&pad).expect("through hole");
    assert_eq!(d.diameter, 4 * MICRO);
    assert_eq!(d.width, Some(2 * MICRO));
    // tall pad: vertical slot, hole diameter first
    pad.width = 3 * MICRO;
    pad.height = 10 * MICRO;
    let d2 = pad_drill(&pad).expect("through hole");
    assert_eq!(d2.diameter, 2 * MICRO);
    assert_eq!(d2.width, Some(4 * MICRO));
    // no slot length: a round drill
    pad.hole_length = None;
    let d3 = pad_drill(&pad).expect("through hole");
    assert_eq!(d3.diameter, 2 * MICRO);
    assert_eq!(d3.width, None);
}

#[test]
fn holes_and_vias_become_pads() {
    let b = BBox { x: 0, y: 0 };
    let h = Hole { x: MICRO, y: MICRO, radius: MICRO };
    let hp = build_hole_pad(&h, b);
    assert_eq!(hp.pad_type, PadType::NpThroughHole);
    assert_eq!(hp.shape, PadShape::Circle);
    assert_eq!(hp.size_x, 2 * MICRO);
    assert_eq!(hp.drill.unwrap().diameter, 2 * MICRO);
    assert_eq!(hp.number, "");

    let v = Via { x: 0, y: 0, diameter: 3 * MICRO, radius: MICRO };
    let vp = build_via_pad(&v, b);
    assert_eq!(vp.pad_type, PadType::ThroughHole);
    assert_eq!(vp.size_x, 3 * MICRO);
    assert_eq!(vp.drill.unwrap().diameter, 2 * MICRO);
}

#[test]
fn track_points_become_segments() {
    let b = BBox { x: 0, y: 0 };
    let t = Track { points: b"0 0 10 0 10 10".to_vec(), stroke_width: MICRO / 4, layer_id: 3 };
    let lines = build_track_lines(&t, b);
    assert_eq!(lines.len(), 2);
    assert_eq!(lines[0].start, Point { x: 0, y: 0 });
    assert_eq!(lines[0].end, Point { x: 10 * MICRO, y: 0 });
    assert_eq!(lines[1].start, Point { x: 10 * MICRO, y: 0 });
    assert_eq!(lines[1].end, Point { x: 10 * MICRO, y: 10 * MICRO });
    assert_eq!(lines[0].layer, Layer::FSilkS);
}

#[test]
fn layer_tables() {
    assert_eq!(map_layer(1), Layer::FCu);
    assert_eq!(map_layer(2), Layer::BCu);
    assert_eq!(map_layer(3), Layer::FSilkS);
    assert_eq!(map_layer(10), Layer::EdgeCuts);
    assert_eq!(map_layer(99), Layer::FSilkS);
    assert_eq!(map_pad_layers_smd(1), vec![Layer::FCu, Layer::FPaste, Layer::FMask]);
    assert_eq!(map_pad_layers_smd(2), vec![Layer::BCu, Layer::BPaste, Layer::BMask]);
    assert_eq!(map_pad_layers_smd(7), vec![Layer::FSilkS]);
    assert_eq!(map_pad_layers_tht(11), vec![Layer::AllCu, Layer::AllMask]);
}

#[test]
fn sanitize_and_keys() {
    assert_eq!(sanitize_name("AB-c d/e"), "AB-c_d_e");
    assert_eq!(sanitize_name("R_10k"), "R_10k");
    assert_eq!(component_key("a b", "C7", false), "a_b");
    assert_eq!(component_key("a b", "C7", true), "a_b_C7");
}

#[test]
fn sanitize_keeps_every_alphanumeric_character() {
    // letters and digits far beyond ASCII survive; symbols do not
    assert_eq!(sanitize_name("R\u{e9}sistance 10\u{3a9}"), "R\u{e9}sistance_10\u{3a9}");
    assert_eq!(sanitize_name("a\u{2116}b"), "a_b");
}

#[test]
fn empty_footprint_exports_exactly() {
    let b = BBox { x: 0, y: 0 };
    let (_, text) = convert_footprint(&empty_footprint(), b, "Part_C42", None, false);
    assert_eq!(text, "(module Part_C42 (layer F.Cu)\n)\n");
}

#[test]
fn model_path_follows_the_flag() {
    let b = BBox { x: 0, y: 0 };
    let title = String::from("Body 3d");
    let (_, with_project) =
        convert_footprint(&empty_footprint(), b, "P", Some(&title), true);
    assert!(with_project.contains("(model ${KIPRJMOD}/e2k.3dshapes/Body_3d.wrl "));
    let (_, with_global) =
        convert_footprint(&empty_footprint(), b, "P", Some(&title), false);
    assert!(with_global.contains("(model ${KICAD6_3DMODEL_DIR}/e2k.3dshapes/Body_3d.wrl "));
}

#[test]
fn empty_symbol_exports_exactly_in_the_legacy_dialect() {
    let b = BBox { x: 0, y: 0 };
    let (_, text) = convert_symbol(
        &empty_meta(),
        &empty_symbol(),
        b,
        "Part_C42",
        "Part_C42",
        KicadVersion::V5,
    );
    let expected = "DEF Part_C42 U 0 40 Y Y 1 F N\nF1 \"Part\"\nF2 \"e2k:Part_C42\"\nF3 \"ds.pdf\"\nF4 \"Maker\"\nF5 \"C42\"\nF6 \"J42\"\nENDDEF\n";
    assert_eq!(text, expected);
}

#[test]
fn ellipse_degrades_to_mean_radius_circle() {
    let b = BBox { x: 0, y: 0 };
    let mut sym = empty_symbol();
    sym.ellipses.push(e2k::geom::EllipseShape {
        cx: 0,
        cy: 0,
        rx: 4 * MICRO,
        ry: 2 * MICRO,
        stroke_width: 0,
        fill: false,
    });
    let ks = build_symbol(&empty_meta(), &sym, b, "P", "P");
    assert_eq!(ks.circles.len(), 1);
    assert_eq!(ks.circles[0].radius, 3 * MICRO);
}
