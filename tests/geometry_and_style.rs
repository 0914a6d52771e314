use country_logger::decoder::{PathCommand, Position};
use country_logger::geometry::{Point, Polygon, UNIT};
use country_logger::models::Country;
use country_logger::projector::{FramePoint, ViewportTransform};
use country_logger::registry::{code_from_file_name, scale_polygon, Registry, SourceDocument, SVG_HEIGHT, SVG_WIDTH};
use country_logger::style::{is_letter_code_text, Color, CountryRenderStyle};

fn country(name: &str, iso2: &str, iso3: &str) -> Country {
    Country { id: 1, name: name.to_string(), iso2: iso2.to_string(), iso3: iso3.to_string(), description: None }
}

fn square_doc(name: &str, x: i32) -> SourceDocument {
    SourceDocument {
        file_name: name.to_string(),
        paths: vec![vec![
            PathCommand::Move(Position::Absolute, vec![x, 0]),
            PathCommand::Line(Position::Absolute, vec![x + 20, 0, x + 20, 8570]),
            PathCommand::Close,
        ]],
    }
}

#[test]
fn normalization_values() {
    let p = scale_polygon(&Polygon(vec![Point(10000, 10000), Point(-1, -1), Point(19999999, 8569999), Point(0, 0)]));
    assert_eq!(p.0, vec![Point(500, 1166), Point(-1, -1), Point(999999, 999999), Point(0, 0)]);
}

#[test]
fn normalized_points_stay_in_unit_square() {
    let w = (SVG_WIDTH * 10000) as i32;
    let h = (SVG_HEIGHT * 10000) as i32;
    let p = scale_polygon(&Polygon(vec![Point(w - 1, h - 1), Point(0, 0), Point(w / 2, h / 3)]));
    for q in &p.0 {
        assert!(q.0 >= 0 && (q.0 as i64) < UNIT);
        assert!(q.1 >= 0 && (q.1 as i64) < UNIT);
    }
}

#[test]
fn codes_from_file_names() {
    assert_eq!(code_from_file_name("de.svg"), Some("DE".to_string()));
    assert_eq!(code_from_file_name("Fr-x.svg"), Some("FR".to_string()));
    assert_eq!(code_from_file_name("a"), None);
}

#[test]
fn registry_lookup() {
    let docs = vec![
        square_doc("de.svg", 0),
        square_doc("x", 0),
        SourceDocument {
            file_name: "zz.svg".to_string(),
            paths: vec![vec![PathCommand::Move(Position::Relative, vec![1, 1])]],
        },
        square_doc("at.svg", 200),
    ];
    let reg = Registry::build(&docs);
    let de = reg.geometry_for("DE").unwrap();
    assert_eq!(de.len(), 1);
    assert_eq!(de[0].0, vec![Point(0, 0), Point(1, 0), Point(1, 1000)]);
    let at = reg.geometry_for("AT").unwrap();
    assert_eq!(at[0].0, vec![Point(10, 0), Point(11, 0), Point(11, 1000)]);
    assert!(reg.geometry_for("ZZ").is_none());
    assert!(reg.geometry_for("X").is_none());
    assert!(reg.geometry_for("de").is_none());
}

#[test]
fn registry_later_document_wins() {
    let reg = Registry::build(&vec![square_doc("de.svg", 0), square_doc("DE2.svg", 200)]);
    assert_eq!(reg.geometry_for("DE").unwrap()[0].0[0], Point(10, 0));
}

#[test]
fn fit_wide_source() {
    let t = ViewportTransform::fit(2000, 857, 1000, 1000);
    assert_eq!(t, ViewportTransform { den: 4000, rendered_w: 4000000, rendered_h: 1714000, offset_x: 0, offset_y: 1143000 });
    let p = t.project(Point(0, 0));
    assert_eq!(p, FramePoint { x: 0, y: 1143000 * 1000000, den: 4000 * 1000000 });
}

#[test]
fn fit_same_aspect() {
    let t = ViewportTransform::fit(2, 1, 400, 200);
    assert_eq!(t.offset_x, 0);
    assert_eq!(t.offset_y, 0);
    let origin = t.project(Point(0, 0));
    assert_eq!((origin.x, origin.y), (0, 0));
    let corner = t.project(Point(UNIT as i32, UNIT as i32));
    assert_eq!(corner.x, 400 * corner.den as i128);
    assert_eq!(corner.y, 200 * corner.den as i128);
}

#[test]
fn fit_letterbox_square_source() {
    let t = ViewportTransform::fit(1, 1, 200, 100);
    assert!(t.offset_x > 0);
    assert_eq!(t.offset_y, 0);
    assert_eq!(t.rendered_w, 100 * t.den);
    assert_eq!(t.offset_x * 2, 100 * t.den);
}

#[test]
fn project_polygon_maps_each_point() {
    let t = ViewportTransform::fit(1, 1, 100, 100);
    let pts = t.project_polygon(&Polygon(vec![Point(0, 0), Point(500000, 250000)]));
    assert_eq!(pts.len(), 2);
    assert_eq!(pts[1].x * 2, pts[1].den as i128 * 100);
    assert_eq!(pts[1].y * 4, pts[1].den as i128 * 100);
}

#[test]
fn colors_from_codes() {
    assert_eq!(CountryRenderStyle::Selected.get_fill_color(&country("A", "AA", "AAA")), Color { r: 0, g: 0, b: 0 });
    assert_eq!(CountryRenderStyle::Selected.get_fill_color(&country("Z", "ZZ", "ZZZ")), Color { r: 250, g: 250, b: 250 });
    assert_eq!(CountryRenderStyle::Normal(true).get_fill_color(&country("D", "DE", "DEU")), Color { r: 30, g: 40, b: 200 });
    assert_eq!(CountryRenderStyle::Normal(false).get_fill_color(&country("A", "AA", "AAA")), Color { r: 220, g: 220, b: 220 });
    assert_eq!(CountryRenderStyle::Normal(false).get_fill_color(&country("Z", "ZZ", "ZZZ")), Color { r: 250, g: 250, b: 250 });
    assert_eq!(CountryRenderStyle::Unselected.get_fill_color(&country("x", "x", "x")), Color { r: 182, g: 182, b: 182 });
}

#[test]
fn fill_color_is_deterministic() {
    let c = country("Germany", "DE", "DEU");
    let a = CountryRenderStyle::Normal(false).get_fill_color(&c);
    let b = CountryRenderStyle::Normal(false).get_fill_color(&c);
    assert_eq!(a, b);
}

#[test]
fn stroke_colors() {
    assert_eq!(CountryRenderStyle::Selected.get_stroke_style(), Color { r: 0, g: 260, b: 0 });
    assert_eq!(CountryRenderStyle::Unselected.get_stroke_style(), Color { r: 0, g: 0, b: 0 });
    assert_eq!(CountryRenderStyle::Normal(true).get_stroke_style(), Color { r: 0, g: 0, b: 0 });
}

#[test]
fn letter_codes() {
    assert!(is_letter_code_text("DEU"));
    assert!(!is_letter_code_text("DE"));
    assert!(!is_letter_code_text("DeU"));
    assert!(!is_letter_code_text("DEUT"));
}
