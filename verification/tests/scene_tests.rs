use ponchi::ieee::Ieee32;
use ponchi::scene::{
    default_background, role_palette, validate_color, Canvas, Coord, Counted, Edge, EdgeStyle,
    ElementKind, Endpoint, Node, Point, Role, Scene, Shape, TextField, ValidationError,
    MAX_CANVAS_DIM, SCHEMA_VERSION,
};

fn f(v: f32) -> Ieee32 {
    Ieee32 { bits: v.to_bits() }
}

fn minimal_scene() -> Scene {
    Scene {
        schema_version: SCHEMA_VERSION.to_string(),
        title: "t".to_string(),
        seed: 1,
        canvas: Canvas { w: 200, h: 100, background: "#ffffff".to_string() },
        nodes: vec![Node {
            id: "a".to_string(),
            label: "A".to_string(),
            shape: Shape::Rect,
            x: f(10.0),
            y: f(10.0),
            w: f(100.0),
            h: f(50.0),
            role: Some(Role::Input),
        }],
        edges: vec![],
        zones: vec![],
        texts: vec![],
    }
}

fn edge(id: &str, from: &str, to: &str) -> Edge {
    Edge {
        id: id.to_string(),
        from: from.to_string(),
        to: to.to_string(),
        from_port: None,
        to_port: None,
        style: EdgeStyle::Arrow,
        dashed: false,
        waypoints: vec![],
        label: None,
        label_pos: f(0.5),
        label_dx: f(0.0),
        label_dy: f(0.0),
        route: None,
        label_anchor: None,
    }
}

#[test]
fn minimal_scene_is_valid() {
    assert!(minimal_scene().validate().is_ok());
}

#[test]
fn rejects_bad_schema_version() {
    let mut s = minimal_scene();
    s.schema_version = "nope".into();
    assert!(s.validate().is_err());
    assert_eq!(
        s.validate(),
        Err(ValidationError::SchemaVersion { found: "nope".to_string() })
    );
}

#[test]
fn rejects_duplicate_node_id() {
    let mut s = minimal_scene();
    let mut dup = s.nodes[0].clone();
    dup.label = "B".into();
    s.nodes.push(dup);
    assert!(s.validate().is_err());
    assert_eq!(
        s.validate(),
        Err(ValidationError::DuplicateId { kind: ElementKind::Node, id: "a".to_string() })
    );
}

#[test]
fn rejects_dangling_edge() {
    let mut s = minimal_scene();
    s.edges.push(edge("e1", "a", "ghost"));
    assert!(s.validate().is_err());
    assert_eq!(
        s.validate(),
        Err(ValidationError::UnknownNode {
            edge: "e1".to_string(),
            end: Endpoint::To,
            node: "ghost".to_string(),
        })
    );
}

#[test]
fn rejects_huge_canvas() {
    let mut s = minimal_scene();
    s.canvas.w = MAX_CANVAS_DIM + 1;
    assert!(s.validate().is_err());
    assert_eq!(s.validate(), Err(ValidationError::CanvasTooLarge));
}

#[test]
fn rejects_empty_canvas() {
    let mut s = minimal_scene();
    s.canvas.h = 0;
    assert_eq!(s.validate(), Err(ValidationError::EmptyCanvas));
}

#[test]
fn rejects_bad_background() {
    let mut s = minimal_scene();
    s.canvas.background = "url(#x)".to_string();
    assert_eq!(
        s.validate(),
        Err(ValidationError::BadColor {
            what: "canvas.background".to_string(),
            value: "url(#x)".to_string(),
        })
    );
}

#[test]
fn rejects_degenerate_node_size() {
    let mut s = minimal_scene();
    s.nodes[0].w = f(0.0);
    assert!(s.validate().is_err());
    let mut s2 = minimal_scene();
    s2.nodes[0].h = f(-1.0);
    assert!(s2.validate().is_err());
    assert_eq!(
        s2.validate(),
        Err(ValidationError::NonPositiveSize { kind: ElementKind::Node, id: "a".to_string() })
    );
}

#[test]
fn rejects_non_finite_node_coordinate() {
    let mut s = minimal_scene();
    s.nodes[0].y = f(f32::INFINITY);
    assert_eq!(
        s.validate(),
        Err(ValidationError::NotFinite {
            kind: ElementKind::Node,
            id: "a".to_string(),
            coord: Coord::Y,
        })
    );
}

#[test]
fn rejects_non_finite_label_offset() {
    let mut s = minimal_scene();
    let mut e = edge("e1", "a", "a");
    e.label = Some("x".into());
    e.label_dx = f(f32::NAN);
    s.edges.push(e);
    assert!(s.validate().is_err());
    assert_eq!(
        s.validate(),
        Err(ValidationError::NotFinite {
            kind: ElementKind::Edge,
            id: "e1".to_string(),
            coord: Coord::LabelDx,
        })
    );
}

#[test]
fn rejects_degenerate_route() {
    let mut single = minimal_scene();
    let mut e = edge("e1", "a", "a");
    e.route = Some(vec![Point { x: f(1.0), y: f(2.0) }]);
    single.edges.push(e);
    assert!(single.validate().is_err());
    assert_eq!(
        single.validate(),
        Err(ValidationError::RouteTooShort { edge: "e1".to_string(), len: 1 })
    );

    let mut ok = minimal_scene();
    let mut e = edge("e1", "a", "a");
    e.route = Some(vec![Point { x: f(1.0), y: f(2.0) }, Point { x: f(3.0), y: f(4.0) }]);
    ok.edges.push(e);
    assert!(ok.validate().is_ok());
}

#[test]
fn rejects_empty_and_long_ids() {
    let mut s = minimal_scene();
    s.nodes[0].id = String::new();
    assert_eq!(s.validate(), Err(ValidationError::EmptyId { kind: ElementKind::Node }));
    let mut s2 = minimal_scene();
    s2.nodes[0].id = "x".repeat(4097);
    assert_eq!(s2.validate(), Err(ValidationError::IdTooLong { kind: ElementKind::Node }));
}

#[test]
fn rejects_long_title_by_bytes() {
    let mut s = minimal_scene();
    // 2000 characters of two bytes each: 4000 bytes is fine, 4098 is not.
    s.title = "é".repeat(2000);
    assert!(s.validate().is_ok());
    s.title = "é".repeat(2049);
    assert_eq!(
        s.validate(),
        Err(ValidationError::TooLong { field: TextField::Title, len: 4098 })
    );
}

#[test]
fn rejects_too_many_waypoints() {
    let mut s = minimal_scene();
    let mut e = edge("e1", "a", "a");
    e.waypoints = vec![Point { x: f(1.0), y: f(1.0) }; 65];
    s.edges.push(e);
    assert_eq!(
        s.validate(),
        Err(ValidationError::TooMany { items: Counted::Waypoints, n: 65, max: 64 })
    );
}

#[test]
fn first_problem_is_reported() {
    // Both the canvas and a node are wrong: the canvas is checked first.
    let mut s = minimal_scene();
    s.canvas.w = 0;
    s.nodes[0].w = f(-3.0);
    assert_eq!(s.validate(), Err(ValidationError::EmptyCanvas));
}

#[test]
fn rejects_invalid_color() {
    assert!(validate_color("red", "x").is_err());
    assert!(validate_color("#12g", "x").is_err());
    assert!(validate_color("url(#x)", "x").is_err());
    assert!(validate_color("#fff", "x").is_ok());
    assert!(validate_color("#ffffff", "x").is_ok());
    assert!(validate_color("#ffffffff", "x").is_ok());
}

#[test]
fn invalid_color_names_field_and_value() {
    assert_eq!(
        validate_color("#12345", "fill"),
        Err(ValidationError::BadColor { what: "fill".to_string(), value: "#12345".to_string() })
    );
    assert!(validate_color("#ABCDEF", "x").is_ok());
    assert!(validate_color("", "x").is_err());
}

#[test]
fn role_palette_distinct_and_neutral_default() {
    let neutral = role_palette(None);
    let input = role_palette(Some(Role::Input));
    assert_ne!(neutral, input);
    for r in [
        None,
        Some(Role::Input),
        Some(Role::Process),
        Some(Role::External),
        Some(Role::Persistence),
        Some(Role::Transformation),
    ] {
        let (s, f) = role_palette(r);
        assert!(validate_color(s, "stroke").is_ok());
        assert!(validate_color(f, "fill").is_ok());
        if r.is_some() {
            assert_ne!(role_palette(r), neutral);
        }
    }
}

#[test]
fn role_palette_exact_colors() {
    assert_eq!(role_palette(Some(Role::Process)), ("#9a6700", "#fff4d6"));
    assert_eq!(role_palette(None), ("#3a3a3a", "#f6f6f6"));
}

#[test]
fn default_background_is_white() {
    assert_eq!(default_background(), "#ffffff");
}
