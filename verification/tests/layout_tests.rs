use ponchi::ieee::Ieee32;
use ponchi::layout::{
    canonical_edge_order, canonical_node_order, label_metrics, laid_edge, laid_node, Direction, LayoutEdge,
    LayoutNode, LayoutParams, HALF_BITS,
};
use ponchi::scene::{EdgeStyle, Point, Role, Shape};

fn n(id: &str) -> LayoutNode {
    LayoutNode {
        id: id.to_string(),
        label: id.to_uppercase(),
        shape: Shape::Rect,
        role: Some(Role::Process),
        w: None,
        h: None,
    }
}

fn e(id: &str, from: &str, to: &str, label: Option<&str>) -> LayoutEdge {
    LayoutEdge {
        id: id.to_string(),
        from: from.to_string(),
        to: to.to_string(),
        label: label.map(|l| l.to_string()),
        dashed: false,
        style: EdgeStyle::Arrow,
    }
}

fn f(v: f32) -> Ieee32 {
    Ieee32 { bits: v.to_bits() }
}

#[test]
fn node_order_sorts_by_id() {
    let nodes = vec![n("c"), n("a"), n("b")];
    assert_eq!(canonical_node_order(&nodes), vec![1, 2, 0]);
}

#[test]
fn node_order_is_stable_for_equal_ids() {
    let nodes = vec![n("b"), n("a"), n("b"), n("a")];
    assert_eq!(canonical_node_order(&nodes), vec![1, 3, 0, 2]);
}

#[test]
fn node_order_shuffle_invariant() {
    let one = vec![n("a"), n("b"), n("c")];
    let two = vec![n("c"), n("a"), n("b")];
    let ids = |v: &Vec<LayoutNode>| {
        canonical_node_order(v).iter().map(|&i| v[i].id.clone()).collect::<Vec<_>>()
    };
    assert_eq!(ids(&one), ids(&two));
    assert_eq!(ids(&one), vec!["a", "b", "c"]);
}

#[test]
fn edge_order_by_from_to_label() {
    let edges = vec![
        e("e0", "b", "a", None),
        e("e1", "a", "c", Some("y")),
        e("e2", "a", "c", None),
        e("e3", "a", "b", Some("x")),
        e("e4", "a", "c", Some("x")),
    ];
    // Unlabelled sorts before labelled, as `None < Some(_)`.
    assert_eq!(canonical_edge_order(&edges), vec![3, 2, 4, 1, 0]);
}

#[test]
fn edge_order_compares_code_points() {
    let edges = vec![e("e0", "é", "a", None), e("e1", "z", "a", None), e("e2", "Z", "a", None)];
    assert_eq!(canonical_edge_order(&edges), vec![2, 1, 0]);
}

#[test]
fn label_metrics_counts_lines_and_columns() {
    assert_eq!(label_metrics("one"), (1, 3));
    assert_eq!(label_metrics("one\ntwo"), (2, 3));
    assert_eq!(label_metrics(""), (1, 0));
    assert_eq!(label_metrics("a\n"), (2, 1));
    // Wide characters take two columns each.
    assert_eq!(label_metrics("下書き\nab"), (2, 6));
}

#[test]
fn multi_line_label_has_more_lines() {
    assert!(label_metrics("one\ntwo").0 > label_metrics("one").0);
}

#[test]
fn laid_edge_keeps_identity_and_engine_geometry() {
    let le = e("e1", "a", "b", Some("go"));
    let route = vec![Point { x: f(1.0), y: f(2.0) }, Point { x: f(3.0), y: f(4.0) }];
    let anchor = Some(Point { x: f(5.0), y: f(6.0) });
    let out = laid_edge(&le, route.clone(), anchor);
    assert_eq!(out.id, "e1");
    assert_eq!(out.from, "a");
    assert_eq!(out.to, "b");
    assert_eq!(out.label.as_deref(), Some("go"));
    assert_eq!(out.route, Some(route));
    assert_eq!(out.label_anchor, anchor);
    assert_eq!(out.label_pos.bits, HALF_BITS);
    assert_eq!(f32::from_bits(HALF_BITS), 0.5);
    assert!(out.waypoints.is_empty());
}

#[test]
fn laid_edge_drops_short_route_and_unlabelled_anchor() {
    let le = e("e1", "a", "b", Some(""));
    let out = laid_edge(&le, vec![Point { x: f(1.0), y: f(2.0) }], Some(Point { x: f(0.0), y: f(0.0) }));
    assert_eq!(out.route, None);
    assert_eq!(out.label_anchor, None);
}

#[test]
fn default_layout_params() {
    let p = LayoutParams::default();
    assert_eq!(p.direction, Direction::Lr);
    assert_eq!(f64::from_bits(p.node_sep.bits), 55.0);
    assert_eq!(f64::from_bits(p.rank_sep.bits), 90.0);
    assert_eq!(f64::from_bits(p.margin.bits), 30.0);
}

#[test]
fn laid_node_keeps_identity_and_engine_box() {
    let mut ln = n("db");
    ln.shape = Shape::Diamond;
    ln.role = Some(Role::Persistence);
    let out = laid_node(&ln, f(10.0), f(20.0), f(120.0), f(60.0));
    assert_eq!(out.id, "db");
    assert_eq!(out.label, "DB");
    assert_eq!(out.shape, Shape::Diamond);
    assert_eq!(out.role, Some(Role::Persistence));
    assert_eq!((out.x, out.y, out.w, out.h), (f(10.0), f(20.0), f(120.0), f(60.0)));
}
