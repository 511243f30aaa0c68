use ponchi::ieee::{Ieee32, Ieee64};
use ponchi::report::Number;
use ponchi::input::{
    default_label_pos, default_margin, default_node_sep, default_rank_sep, finish_auto,
    resolve_scene, CanvasMeasure, Fit, InputCanvas, InputEdge, InputNode, InputScene, Layout,
    LayoutDirection, LayoutEngine, LayoutMode, Resolution,
};
use ponchi::layout::{Direction, LaidOut};
use ponchi::scene::{
    Canvas, EdgeStyle, LayoutParamName, Node, ParamProblem, Shape, ValidationError,
    SCHEMA_VERSION,
};

fn f(v: f32) -> Ieee32 {
    Ieee32 { bits: v.to_bits() }
}

fn d(v: f64) -> Ieee64 {
    Ieee64 { bits: v.to_bits() }
}

fn inode(id: &str, geom: Option<(f32, f32, f32, f32)>) -> InputNode {
    InputNode {
        id: id.to_string(),
        label: id.to_uppercase(),
        shape: Shape::Rect,
        x: geom.map(|g| f(g.0)),
        y: geom.map(|g| f(g.1)),
        w: geom.map(|g| f(g.2)),
        h: geom.map(|g| f(g.3)),
        role: None,
    }
}

fn iedge(id: &str, from: &str, to: &str) -> InputEdge {
    InputEdge {
        id: id.to_string(),
        from: from.to_string(),
        to: to.to_string(),
        from_port: None,
        to_port: None,
        style: EdgeStyle::Arrow,
        dashed: false,
        waypoints: vec![],
        label: None,
        label_pos: default_label_pos(),
        label_dx: f(0.0),
        label_dy: f(0.0),
    }
}

fn auto_layout(fit: Fit) -> Layout {
    Layout {
        mode: LayoutMode::Auto,
        engine: LayoutEngine::Layered,
        direction: LayoutDirection::Lr,
        node_sep: default_node_sep(),
        rank_sep: default_rank_sep(),
        margin: default_margin(),
        fit,
    }
}

fn input(layout: Option<Layout>, canvas: Option<(u32, u32)>, nodes: Vec<InputNode>, edges: Vec<InputEdge>) -> InputScene {
    InputScene {
        schema_version: SCHEMA_VERSION.to_string(),
        title: String::new(),
        seed: 0,
        layout,
        canvas: canvas.map(|(w, h)| InputCanvas { w, h, background: "#ffffff".to_string() }),
        nodes,
        edges,
        zones: vec![],
        texts: vec![],
    }
}

fn err_of(r: Result<Resolution, ValidationError>) -> ValidationError {
    match r {
        Err(e) => e,
        Ok(_) => panic!("expected an error"),
    }
}

fn text_of(e: &ValidationError) -> String {
    let nums: Vec<String> = e
        .numbers()
        .iter()
        .map(|n| match n {
            Number::Single(v) => format!("{}", f32::from_bits(v.bits)),
            Number::Double(v) => format!("{}", f64::from_bits(v.bits)),
        })
        .collect();
    e.message(&nums)
}

#[test]
fn manual_mode_backward_compatible() {
    let inp = input(None, Some((200, 200)), vec![inode("a", Some((0.0, 0.0, 50.0, 30.0)))], vec![]);
    match resolve_scene(inp) {
        Ok(Resolution::Ready(scene)) => {
            assert_eq!(scene.nodes.len(), 1);
            assert_eq!(f32::from_bits(scene.nodes[0].x.bits), 0.0);
            assert!(scene.edges.is_empty());
            assert_eq!(scene.canvas, Canvas { w: 200, h: 200, background: "#ffffff".to_string() });
        }
        _ => panic!("expected a ready scene"),
    }
}

#[test]
fn manual_mode_missing_geometry_is_error() {
    let inp = input(None, Some((200, 200)), vec![inode("a", None)], vec![]);
    assert_eq!(
        err_of(resolve_scene(inp)),
        ValidationError::MissingGeometry { node: "a".to_string() }
    );
}

#[test]
fn manual_mode_needs_canvas() {
    let inp = input(None, None, vec![inode("a", Some((0.0, 0.0, 5.0, 5.0)))], vec![]);
    assert_eq!(err_of(resolve_scene(inp)), ValidationError::ManualNeedsCanvas);
}

#[test]
fn manual_mode_validates_result() {
    let inp = input(None, Some((200, 200)), vec![inode("a", Some((0.0, 0.0, 0.0, 5.0)))], vec![]);
    assert!(matches!(err_of(resolve_scene(inp)), ValidationError::NonPositiveSize { .. }));
}

#[test]
fn auto_mode_rejects_explicit_coords() {
    let mut n = inode("a", None);
    n.x = Some(f(10.0));
    n.y = Some(f(20.0));
    let inp = input(Some(auto_layout(Fit::Grow)), None, vec![n], vec![]);
    let err = err_of(resolve_scene(inp));
    assert_eq!(err, ValidationError::AutoHasCoords { node: "a".to_string() });
    assert!(text_of(&err).contains("auto"), "got {}", text_of(&err));
}

#[test]
fn auto_mode_rejects_unknown_edge_endpoint() {
    let inp = input(Some(auto_layout(Fit::Grow)), None, vec![inode("a", None)], vec![iedge("e1", "a", "ghost")]);
    let err = err_of(resolve_scene(inp));
    assert!(matches!(&err, ValidationError::UnknownNode { node, .. } if node == "ghost"));
    assert!(text_of(&err).contains("ghost"), "got {}", text_of(&err));
}

#[test]
fn auto_mode_rejects_duplicate_node_id() {
    let inp = input(Some(auto_layout(Fit::Grow)), None, vec![inode("a", None), inode("a", None)], vec![]);
    let err = err_of(resolve_scene(inp));
    assert!(matches!(&err, ValidationError::DuplicateId { id, .. } if id == "a"));
    assert!(text_of(&err).contains("duplicate"), "got {}", text_of(&err));
}

#[test]
fn auto_mode_rejects_nan_and_negative_layout_params() {
    let mut l = auto_layout(Fit::Grow);
    l.node_sep = d(-5.0);
    let inp = input(Some(l), None, vec![inode("a", None)], vec![]);
    assert_eq!(
        err_of(resolve_scene(inp)),
        ValidationError::BadLayoutParam {
            name: LayoutParamName::NodeSep,
            problem: ParamProblem::Negative(d(-5.0)),
        }
    );
    let mut l = auto_layout(Fit::Grow);
    l.margin = d(1000000.0);
    let inp = input(Some(l), None, vec![inode("a", None)], vec![]);
    assert!(resolve_scene(inp).is_err());
    let mut l = auto_layout(Fit::Grow);
    l.rank_sep = d(f64::NAN);
    let inp = input(Some(l), None, vec![inode("a", None)], vec![]);
    assert_eq!(
        err_of(resolve_scene(inp)),
        ValidationError::BadLayoutParam { name: LayoutParamName::RankSep, problem: ParamProblem::NotFinite }
    );
}

#[test]
fn auto_mode_asks_for_layout_of_the_graph() {
    let mut l = auto_layout(Fit::Grow);
    l.direction = LayoutDirection::Tb;
    let inp = input(Some(l), None, vec![inode("a", None), inode("b", None)], vec![iedge("e1", "a", "b")]);
    match resolve_scene(inp) {
        Ok(Resolution::NeedsLayout { nodes, edges, params, .. }) => {
            assert_eq!(nodes.len(), 2);
            assert_eq!(nodes[1].id, "b");
            assert_eq!(edges.len(), 1);
            assert_eq!(edges[0].from, "a");
            assert_eq!(params.direction, Direction::Tb);
            assert_eq!(f64::from_bits(params.margin.bits), 30.0);
        }
        _ => panic!("expected a layout request"),
    }
}

fn laid_two() -> LaidOut {
    let node = |id: &str, x: f32| Node {
        id: id.to_string(),
        label: id.to_string(),
        shape: Shape::Rect,
        x: f(x),
        y: f(30.0),
        w: f(90.0),
        h: f(54.0),
        role: None,
    };
    LaidOut { nodes: vec![node("a", 30.0), node("b", 210.0)], edges: vec![], max_x: f(300.0), max_y: f(84.0) }
}

fn measure(fits: bool) -> CanvasMeasure {
    CanvasMeasure { grow_w: 330, grow_h: 114, needed_w: f(330.0), needed_h: f(114.0), fits }
}

#[test]
fn grow_fit_sizes_canvas_from_measure() {
    let inp = input(Some(auto_layout(Fit::Grow)), None, vec![inode("a", None), inode("b", None)], vec![]);
    let s = finish_auto(inp, laid_two(), measure(false)).unwrap();
    assert_eq!(s.canvas, Canvas { w: 330, h: 114, background: "#ffffff".to_string() });
    assert_eq!(s.nodes.len(), 2);
}

#[test]
fn grow_fit_caps_canvas() {
    let inp = input(Some(auto_layout(Fit::Grow)), None, vec![], vec![]);
    let mut m = measure(true);
    m.grow_w = 100_000;
    let s = finish_auto(inp, LaidOut { nodes: vec![], edges: vec![], max_x: f(0.0), max_y: f(0.0) }, m).unwrap();
    assert_eq!(s.canvas.w, 8192);
}

#[test]
fn fixed_fit_too_small_is_error() {
    let inp = input(Some(auto_layout(Fit::Fixed)), Some((10, 10)), vec![inode("a", None), inode("b", None)], vec![]);
    assert_eq!(
        finish_auto(inp, laid_two(), measure(false)),
        Err(ValidationError::DoesNotFit { needed_w: f(330.0), needed_h: f(114.0), canvas_w: 10, canvas_h: 10 })
    );
}

#[test]
fn fixed_fit_needs_canvas_and_keeps_it() {
    let inp = input(Some(auto_layout(Fit::Fixed)), None, vec![], vec![]);
    let empty = LaidOut { nodes: vec![], edges: vec![], max_x: f(0.0), max_y: f(0.0) };
    assert_eq!(finish_auto(inp, empty.clone(), measure(true)), Err(ValidationError::FixedNeedsCanvas));
    let inp = input(Some(auto_layout(Fit::Fixed)), Some((4000, 4000)), vec![], vec![]);
    let s = finish_auto(inp, empty, measure(true)).unwrap();
    assert_eq!((s.canvas.w, s.canvas.h), (4000, 4000));
}
