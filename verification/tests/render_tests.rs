use ponchi::ieee::Ieee32;
use ponchi::render::{draw_plan, safe_color, svg_close, svg_prelude, xml_escape, Draw};
use ponchi::scene::{Canvas, Edge, EdgeStyle, Node, Point, Scene, Shape, Text, Zone, SCHEMA_VERSION};

fn f(v: f32) -> Ieee32 {
    Ieee32 { bits: v.to_bits() }
}

fn node(id: &str, label: &str) -> Node {
    Node {
        id: id.to_string(),
        label: label.to_string(),
        shape: Shape::Rect,
        x: f(0.0),
        y: f(0.0),
        w: f(100.0),
        h: f(60.0),
        role: None,
    }
}

fn edge(id: &str, from: &str, to: &str, label: Option<&str>) -> Edge {
    Edge {
        id: id.to_string(),
        from: from.to_string(),
        to: to.to_string(),
        from_port: None,
        to_port: None,
        style: EdgeStyle::Arrow,
        dashed: false,
        waypoints: vec![],
        label: label.map(|l| l.to_string()),
        label_pos: f(0.5),
        label_dx: f(0.0),
        label_dy: f(0.0),
        route: None,
        label_anchor: None,
    }
}

fn scene(nodes: Vec<Node>, edges: Vec<Edge>) -> Scene {
    Scene {
        schema_version: SCHEMA_VERSION.to_string(),
        title: String::new(),
        seed: 1,
        canvas: Canvas { w: 400, h: 300, background: "#ffffff".to_string() },
        nodes,
        edges,
        zones: vec![],
        texts: vec![],
    }
}

#[test]
fn escapes_xml_special_chars() {
    assert_eq!(
        xml_escape(r#"<a> & "b" 'c'"#),
        "&lt;a&gt; &amp; &quot;b&quot; &apos;c&apos;"
    );
}

#[test]
fn escape_leaves_other_text_alone() {
    assert_eq!(xml_escape("plain 日本語"), "plain 日本語");
    assert_eq!(xml_escape(""), "");
}

#[test]
fn safe_color_falls_back() {
    assert_eq!(safe_color("#abc", "#ffffff"), "#abc");
    assert_eq!(safe_color("url(#x)", "#ffffff"), "#ffffff");
    assert_eq!(safe_color("red", "#222222"), "#222222");
}

#[test]
fn draw_plan_layers_in_order() {
    let mut s = scene(
        vec![node("a", "A"), node("b", "")],
        vec![edge("e1", "a", "b", Some("go")), edge("e2", "b", "a", None)],
    );
    s.zones.push(Zone {
        id: "z".to_string(),
        label: "grp".to_string(),
        x: f(0.0),
        y: f(0.0),
        w: f(10.0),
        h: f(10.0),
    });
    s.texts.push(Text { id: "t".to_string(), text: "note".to_string(), x: f(1.0), y: f(2.0) });
    let plan = draw_plan(&s);
    assert_eq!(
        plan,
        vec![
            Draw::Zone(0),
            Draw::ZoneLabel(0),
            Draw::Edge(0, 0, 1),
            Draw::Edge(1, 1, 0),
            Draw::Node(0),
            Draw::NodeLabel(0),
            Draw::Node(1),
            Draw::EdgeLabel(0, 0, 1),
            Draw::Text(0),
        ]
    );
}

#[test]
fn draw_plan_skips_unresolvable_edges() {
    let mut short = edge("e2", "a", "a", Some("x"));
    short.route = Some(vec![Point { x: f(1.0), y: f(1.0) }]);
    let s = scene(
        vec![node("a", "")],
        vec![edge("e1", "a", "ghost", Some("lost")), short],
    );
    assert_eq!(draw_plan(&s), vec![Draw::Node(0)]);
}

#[test]
fn draw_plan_uses_last_node_of_duplicate_id() {
    let s = scene(vec![node("a", ""), node("a", "")], vec![edge("e", "a", "a", None)]);
    assert_eq!(draw_plan(&s), vec![Draw::Edge(0, 1, 1), Draw::Node(0), Draw::Node(1)]);
}

#[test]
fn prelude_and_close() {
    let mut s = scene(vec![], vec![]);
    s.title = "a<b".to_string();
    assert_eq!(
        svg_prelude(&s),
        "<svg xmlns=\"http://www.w3.org/2000/svg\" width=\"400\" height=\"300\" viewBox=\"0 0 400 300\">\n<title>a&lt;b</title>\n<rect width=\"400\" height=\"300\" fill=\"#ffffff\"/>\n"
    );
    s.title = String::new();
    s.canvas.background = "javascript:x".to_string();
    assert_eq!(
        svg_prelude(&s),
        "<svg xmlns=\"http://www.w3.org/2000/svg\" width=\"400\" height=\"300\" viewBox=\"0 0 400 300\">\n<rect width=\"400\" height=\"300\" fill=\"#ffffff\"/>\n"
    );
    assert_eq!(svg_close(), "</svg>\n");
}

fn unescape(s: &str) -> String {
    s.replace("&lt;", "<")
        .replace("&gt;", ">")
        .replace("&quot;", "\"")
        .replace("&apos;", "'")
        .replace("&amp;", "&")
}

#[test]
fn escape_is_undone_by_the_five_entities() {
    for s in ["", "a<b>&c", "&amp;lt;", "\"'\"'", "x & y < z", "&lt;script&gt;"] {
        let e = xml_escape(s);
        assert!(!e.contains('<') && !e.contains('>') && !e.contains('"') && !e.contains('\''));
        assert_eq!(unescape(&e), s);
    }
}

#[test]
fn escape_distributes_over_concatenation() {
    let (a, b) = ("if a < b ", "&& c > \"d\"");
    assert_eq!(xml_escape(&format!("{a}{b}")), format!("{}{}", xml_escape(a), xml_escape(b)));
}

#[test]
fn escape_changes_text_exactly_when_it_has_a_special_character() {
    for s in ["plain", "a<b", "x&y", "it's", "say \"hi\"", "1>0", "日本"] {
        let special = s.chars().any(|c| "<>&\"'".contains(c));
        assert_eq!(xml_escape(s) == s, !special, "{s}");
    }
}
