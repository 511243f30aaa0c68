use ponchi::ieee::{Ieee32, Ieee64};
use ponchi::report::Number;
use ponchi::scene::{
    validate_color, Coord, Counted, ElementKind, Endpoint, LayoutParamName, ParamProblem, TextField,
    ValidationError,
};

fn text_of(e: &ValidationError) -> String {
    let nums: Vec<String> = e
        .numbers()
        .iter()
        .map(|n| match n {
            Number::Single(v) => format!("{}", f32::from_bits(v.bits)),
            Number::Double(v) => format!("{}", f64::from_bits(v.bits)),
        })
        .collect();
    e.message(&nums)
}

#[test]
fn schema_and_canvas_messages() {
    let e = ValidationError::SchemaVersion { found: "v9".to_string() };
    assert_eq!(text_of(&e), "unexpected schema_version \"v9\", expected \"ponchi.scene/v0\"");
    assert_eq!(text_of(&ValidationError::EmptyCanvas), "canvas dimensions must be > 0");
    assert_eq!(text_of(&ValidationError::CanvasTooLarge), "canvas dimension exceeds max 8192");
}

#[test]
fn color_message_quotes_the_value() {
    let e = validate_color("url(\"x\")", "node.fill").unwrap_err();
    assert_eq!(text_of(&e), "node.fill must be a #hex color, got \"url(\\\"x\\\")\"");
}

#[test]
fn id_and_count_messages() {
    let e = ValidationError::TooMany { items: Counted::Nodes, n: 2001, max: 2000 };
    assert_eq!(text_of(&e), "too many nodes: 2001 > 2000");
    let e = ValidationError::TooMany { items: Counted::Waypoints, n: 65, max: 64 };
    assert_eq!(text_of(&e), "too many edge.waypoints: 65 > 64");
    assert_eq!(text_of(&ValidationError::EmptyId { kind: ElementKind::Zone }), "zone id must not be empty");
    assert_eq!(text_of(&ValidationError::IdTooLong { kind: ElementKind::Text }), "text id too long");
    let e = ValidationError::DuplicateId { kind: ElementKind::Node, id: "a".to_string() };
    assert_eq!(text_of(&e), "duplicate node id \"a\"");
    let e = ValidationError::UnknownNode {
        edge: "e1".to_string(),
        end: Endpoint::To,
        node: "ghost".to_string(),
    };
    assert_eq!(text_of(&e), "edge \"e1\" references unknown to node \"ghost\"");
    let e = ValidationError::TooLong { field: TextField::Title, len: 5000 };
    assert_eq!(text_of(&e), "title too long (5000 bytes)");
}

#[test]
fn geometry_messages() {
    let e = ValidationError::NotFinite { kind: ElementKind::Edge, id: "e".to_string(), coord: Coord::WaypointX(3) };
    assert_eq!(text_of(&e), "edge \"e\" waypoint 3 x must be finite");
    let e = ValidationError::NotFinite { kind: ElementKind::Edge, id: "e".to_string(), coord: Coord::LabelPos };
    assert_eq!(text_of(&e), "edge \"e\" label_pos not finite");
    let e = ValidationError::NotFinite { kind: ElementKind::Node, id: "n".to_string(), coord: Coord::H };
    assert_eq!(text_of(&e), "n h must be finite");
    let e = ValidationError::NotFinite { kind: ElementKind::Text, id: "t".to_string(), coord: Coord::Y };
    assert_eq!(text_of(&e), "text \"t\" y must be finite");
    let e = ValidationError::NonPositiveSize { kind: ElementKind::Zone, id: "z".to_string() };
    assert_eq!(text_of(&e), "z w/h must be > 0");
    let e = ValidationError::RouteTooShort { edge: "e".to_string(), len: 1 };
    assert_eq!(text_of(&e), "edge \"e\" route must have at least 2 points, got 1");
}

#[test]
fn layout_messages_write_their_numbers() {
    let e = ValidationError::BadLayoutParam {
        name: LayoutParamName::NodeSep,
        problem: ParamProblem::Negative(Ieee64 { bits: (-5.0f64).to_bits() }),
    };
    assert_eq!(text_of(&e), "layout.node_sep must be >= 0, got -5");
    let e = ValidationError::BadLayoutParam {
        name: LayoutParamName::Margin,
        problem: ParamProblem::TooLarge(Ieee64 { bits: 5000.5f64.to_bits() }),
    };
    assert_eq!(text_of(&e), "layout.margin (5000.5) exceeds max 4096");
    let e = ValidationError::BadLayoutParam { name: LayoutParamName::RankSep, problem: ParamProblem::NotFinite };
    assert_eq!(text_of(&e), "layout.rank_sep must be finite");
    let e = ValidationError::DoesNotFit {
        needed_w: Ieee32 { bits: 812.5f32.to_bits() },
        needed_h: Ieee32 { bits: 300.0f32.to_bits() },
        canvas_w: 400,
        canvas_h: 200,
    };
    assert_eq!(
        text_of(&e),
        "layout (812.5x300) does not fit fixed canvas (400x200); use fit \"grow\" or enlarge the canvas"
    );
}

#[test]
fn mode_messages() {
    assert_eq!(text_of(&ValidationError::ManualNeedsCanvas), "manual mode requires a canvas");
    assert_eq!(text_of(&ValidationError::FixedNeedsCanvas), "fit \"fixed\" requires a canvas");
    let e = ValidationError::MissingGeometry { node: "a".to_string() };
    assert_eq!(
        text_of(&e),
        "node \"a\" requires x, y, w, h in manual mode (add a layout block for auto placement)"
    );
    let e = ValidationError::AutoHasCoords { node: "a".to_string() };
    assert!(text_of(&e).contains("auto"));
}
