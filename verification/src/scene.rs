//! Scene schema: a declarative description of a diagram, and the validation
//! that rejects anything which would break rendering or the local-only
//! invariant (no raw string can reach an SVG attribute unchecked).
//!
//! Coordinates are IEEE-754 binary32 values carried by their bit patterns
//! (see [`crate::ieee`]); validation only classifies them.

use vstd::prelude::*;
use crate::ieee::{Ieee32, Ieee64, finite32, positive32};
use crate::strings::{byte_len, push_char, str_byte_len, to_owned_string};

verus! {

/// Schema version string expected in [`Scene::schema_version`].
pub const SCHEMA_VERSION: &'static str = "ponchi.scene/v0";

/// Upper bound on each canvas dimension (keeps pixmap allocation bounded).
pub const MAX_CANVAS_DIM: u32 = 8192;
/// Upper bound on the number of nodes.
pub const MAX_NODES: usize = 2000;
/// Upper bound on the number of edges.
pub const MAX_EDGES: usize = 4000;
/// Upper bound on the number of zones.
pub const MAX_ZONES: usize = 500;
/// Upper bound on the number of free texts.
pub const MAX_TEXTS: usize = 2000;
/// Upper bound on waypoints (and route points) of one edge.
pub const MAX_WAYPOINTS: usize = 64;
/// Upper bound on the byte length of every user string.
pub const MAX_STRING_LEN: usize = 4096;

/// A point in canvas coordinates.
#[derive(Debug, Clone, Copy, PartialEq)]
pub struct Point {
    pub x: Ieee32,
    pub y: Ieee32,
}

/// Node shape kind.
#[derive(Debug, Clone, Copy, PartialEq, Eq)]
pub enum Shape {
    Rect,
    Ellipse,
    Diamond,
}

/// Connection port on a node boundary.
#[derive(Debug, Clone, Copy, PartialEq, Eq)]
pub enum Port {
    N,
    E,
    S,
    W,
}

/// Edge rendering style.
#[derive(Debug, Clone, Copy, PartialEq, Eq)]
pub enum EdgeStyle {
    Arrow,
    Line,
}

impl Default for EdgeStyle {
    fn default() -> (r: Self)
        ensures
            r == EdgeStyle::Arrow,
    {
        EdgeStyle::Arrow
    }
}

/// Semantic role of a node; drives the color palette.
#[derive(Debug, Clone, Copy, PartialEq, Eq)]
pub enum Role {
    Input,
    Process,
    External,
    Persistence,
    Transformation,
}

/// Canvas dimensions and background color.
#[derive(Debug, Clone, PartialEq)]
pub struct Canvas {
    pub w: u32,
    pub h: u32,
    pub background: String,
}

/// Default canvas background color (`#ffffff`), shared with the input schema.
pub fn default_background() -> (r: String)
    ensures
        r@ == seq!['#', 'f', 'f', 'f', 'f', 'f', 'f'],
{
    let mut s = String::new();
    push_char(&mut s, '#');
    let mut i: usize = 0;
    while i < 6
        invariant
            i <= 6,
            s@ == seq!['#'] + Seq::new(i as nat, |k: int| 'f'),
        decreases 6 - i,
    {
        push_char(&mut s, 'f');
        i += 1;
        proof {
            assert(s@ =~= seq!['#'] + Seq::new(i as nat, |k: int| 'f'));
        }
    }
    proof {
        assert(s@ =~= seq!['#', 'f', 'f', 'f', 'f', 'f', 'f']);
    }
    s
}

/// A diagram node (box/ellipse/diamond) with an optional semantic role.
#[derive(Debug, Clone, PartialEq)]
pub struct Node {
    pub id: String,
    pub label: String,
    pub shape: Shape,
    pub x: Ieee32,
    pub y: Ieee32,
    pub w: Ieee32,
    pub h: Ieee32,
    pub role: Option<Role>,
}

/// An edge connecting two nodes by id, optionally via waypoints, with an
/// optional label positioned along the path.
#[derive(Debug, Clone, PartialEq)]
pub struct Edge {
    pub id: String,
    pub from: String,
    pub to: String,
    pub from_port: Option<Port>,
    pub to_port: Option<Port>,
    pub style: EdgeStyle,
    pub dashed: bool,
    pub waypoints: Vec<Point>,
    pub label: Option<String>,
    pub label_pos: Ieee32,
    pub label_dx: Ieee32,
    pub label_dy: Ieee32,
    /// Fully resolved boundary-to-boundary route, set only by auto-layout.
    pub route: Option<Vec<Point>>,
    /// Engine-computed label anchor, set only by auto-layout.
    pub label_anchor: Option<Point>,
}

/// A labelled rectangular grouping drawn behind nodes.
#[derive(Debug, Clone, PartialEq)]
pub struct Zone {
    pub id: String,
    pub label: String,
    pub x: Ieee32,
    pub y: Ieee32,
    pub w: Ieee32,
    pub h: Ieee32,
}

/// A free-standing text annotation.
#[derive(Debug, Clone, PartialEq)]
pub struct Text {
    pub id: String,
    pub text: String,
    pub x: Ieee32,
    pub y: Ieee32,
}

/// The full declarative scene. Ids are unique within their own kind; edges
/// reference node ids only.
#[derive(Debug, Clone, PartialEq)]
pub struct Scene {
    pub schema_version: String,
    pub title: String,
    pub seed: u64,
    pub canvas: Canvas,
    pub nodes: Vec<Node>,
    pub edges: Vec<Edge>,
    pub zones: Vec<Zone>,
    pub texts: Vec<Text>,
}

/// Which kind of element an error is about.
#[derive(Debug, Clone, Copy, PartialEq, Eq)]
pub enum ElementKind {
    Node,
    Edge,
    Zone,
    Text,
}

/// What a count limit applies to.
#[derive(Debug, Clone, Copy, PartialEq, Eq)]
pub enum Counted {
    Nodes,
    Edges,
    Zones,
    Texts,
    Waypoints,
    Route,
}

/// Which user string a length limit applies to.
#[derive(Debug, Clone, Copy, PartialEq, Eq)]
pub enum TextField {
    NodeLabel,
    EdgeLabel,
    ZoneLabel,
    TextText,
    Title,
}

/// Which end of an edge.
#[derive(Debug, Clone, Copy, PartialEq, Eq)]
pub enum Endpoint {
    From,
    To,
}

/// Which number of an element failed to be finite.
#[derive(Debug, Clone, Copy, PartialEq, Eq)]
pub enum Coord {
    X,
    Y,
    W,
    H,
    WaypointX(usize),
    WaypointY(usize),
    LabelPos,
    LabelDx,
    LabelDy,
    RouteX(usize),
    RouteY(usize),
    AnchorX,
    AnchorY,
}

/// A spacing parameter of the `layout` block.
#[derive(Debug, Clone, Copy, PartialEq, Eq)]
pub enum LayoutParamName {
    NodeSep,
    RankSep,
    Margin,
}

/// Why a layout spacing parameter was refused.
#[derive(Debug, Clone, Copy, PartialEq, Eq)]
pub enum ParamProblem {
    NotFinite,
    Negative(Ieee64),
    TooLarge(Ieee64),
}

/// Why a scene (or an input scene) cannot be safely rendered.
#[derive(Debug, Clone, PartialEq)]
pub enum ValidationError {
    SchemaVersion { found: String },
    EmptyCanvas,
    CanvasTooLarge,
    BadColor { what: String, value: String },
    TooMany { items: Counted, n: usize, max: usize },
    EmptyId { kind: ElementKind },
    IdTooLong { kind: ElementKind },
    DuplicateId { kind: ElementKind, id: String },
    UnknownNode { edge: String, end: Endpoint, node: String },
    TooLong { field: TextField, len: usize },
    NotFinite { kind: ElementKind, id: String, coord: Coord },
    NonPositiveSize { kind: ElementKind, id: String },
    RouteTooShort { edge: String, len: usize },
    ManualNeedsCanvas,
    MissingGeometry { node: String },
    AutoHasCoords { node: String },
    BadLayoutParam { name: LayoutParamName, problem: ParamProblem },
    FixedNeedsCanvas,
    DoesNotFit { needed_w: Ieee32, needed_h: Ieee32, canvas_w: u32, canvas_h: u32 },
}

/// [`ValidationError`] with its strings taken as character sequences.
pub enum ErrorView {
    SchemaVersion { found: Seq<char> },
    EmptyCanvas,
    CanvasTooLarge,
    BadColor { what: Seq<char>, value: Seq<char> },
    TooMany { items: Counted, n: nat, max: nat },
    EmptyId { kind: ElementKind },
    IdTooLong { kind: ElementKind },
    DuplicateId { kind: ElementKind, id: Seq<char> },
    UnknownNode { edge: Seq<char>, end: Endpoint, node: Seq<char> },
    TooLong { field: TextField, len: nat },
    NotFinite { kind: ElementKind, id: Seq<char>, coord: Coord },
    NonPositiveSize { kind: ElementKind, id: Seq<char> },
    RouteTooShort { edge: Seq<char>, len: nat },
    ManualNeedsCanvas,
    MissingGeometry { node: Seq<char> },
    AutoHasCoords { node: Seq<char> },
    BadLayoutParam { name: LayoutParamName, problem: ParamProblem },
    FixedNeedsCanvas,
    DoesNotFit { needed_w: Ieee32, needed_h: Ieee32, canvas_w: u32, canvas_h: u32 },
}

impl View for ValidationError {
    type V = ErrorView;

    open spec fn view(&self) -> ErrorView {
        match self {
            ValidationError::SchemaVersion { found } => ErrorView::SchemaVersion { found: found@ },
            ValidationError::EmptyCanvas => ErrorView::EmptyCanvas,
            ValidationError::CanvasTooLarge => ErrorView::CanvasTooLarge,
            ValidationError::BadColor { what, value } => ErrorView::BadColor {
                what: what@,
                value: value@,
            },
            ValidationError::TooMany { items, n, max } => ErrorView::TooMany {
                items: *items,
                n: *n as nat,
                max: *max as nat,
            },
            ValidationError::EmptyId { kind } => ErrorView::EmptyId { kind: *kind },
            ValidationError::IdTooLong { kind } => ErrorView::IdTooLong { kind: *kind },
            ValidationError::DuplicateId { kind, id } => ErrorView::DuplicateId {
                kind: *kind,
                id: id@,
            },
            ValidationError::UnknownNode { edge, end, node } => ErrorView::UnknownNode {
                edge: edge@,
                end: *end,
                node: node@,
            },
            ValidationError::TooLong { field, len } => ErrorView::TooLong {
                field: *field,
                len: *len as nat,
            },
            ValidationError::NotFinite { kind, id, coord } => ErrorView::NotFinite {
                kind: *kind,
                id: id@,
                coord: *coord,
            },
            ValidationError::NonPositiveSize { kind, id } => ErrorView::NonPositiveSize {
                kind: *kind,
                id: id@,
            },
            ValidationError::RouteTooShort { edge, len } => ErrorView::RouteTooShort {
                edge: edge@,
                len: *len as nat,
            },
            ValidationError::ManualNeedsCanvas => ErrorView::ManualNeedsCanvas,
            ValidationError::MissingGeometry { node } => ErrorView::MissingGeometry {
                node: node@,
            },
            ValidationError::AutoHasCoords { node } => ErrorView::AutoHasCoords { node: node@ },
            ValidationError::BadLayoutParam { name, problem } => ErrorView::BadLayoutParam {
                name: *name,
                problem: *problem,
            },
            ValidationError::FixedNeedsCanvas => ErrorView::FixedNeedsCanvas,
            ValidationError::DoesNotFit { needed_w, needed_h, canvas_w, canvas_h } =>
                ErrorView::DoesNotFit {
                needed_w: *needed_w,
                needed_h: *needed_h,
                canvas_w: *canvas_w,
                canvas_h: *canvas_h,
            },
        }
    }
}

/// An ASCII hexadecimal digit.
pub open spec fn is_hex_digit(c: char) -> bool {
    ('0' <= c && c <= '9') || ('a' <= c && c <= 'f') || ('A' <= c && c <= 'F')
}

/// `#rgb`, `#rrggbb` or `#rrggbbaa`: a `#` followed by 3, 6 or 8 hex digits.
pub open spec fn hex_color(s: Seq<char>) -> bool {
    &&& (s.len() == 4 || s.len() == 7 || s.len() == 9)
    &&& s[0] == '#'
    &&& forall|i: int| 1 <= i < s.len() ==> #[trigger] is_hex_digit(s[i])
}

fn hex_digit(c: char) -> (r: bool)
    ensures
        r == is_hex_digit(c),
{
    ('0' <= c && c <= '9') || ('a' <= c && c <= 'f') || ('A' <= c && c <= 'F')
}

/// Accept only `#rgb`, `#rrggbb`, or `#rrggbbaa` hex colors. This keeps raw,
/// attacker-controlled strings out of SVG attributes: no `url(...)` or
/// external reference can slip through a color field.
pub fn validate_color(c: &str, what: &str) -> (r: Result<(), ValidationError>)
    ensures
        r is Ok <==> hex_color(c@),
        r matches Err(e) ==> e@ == (ErrorView::BadColor { what: what@, value: c@ }),
        r matches Err(e) ==> crate::report::validation_message(e@, Seq::empty()) == what@
            + " must be a #hex color, got "@ + crate::strings::debug_text(c@),
{
    // `n` counts characters, saturating at 10 (any count above 9 is refused).
    let mut n: usize = 0;
    let mut ok = true;
    for ch in it: c.chars()
        invariant
            it.seq() == c@,
            n == if it.index() < 10 { it.index() as int } else { 10 },
            ok <==> (forall|i: int| 0 <= i < it.index() ==> #[trigger] color_char_ok(c@, i)),
    {
        let good = if n == 0 { ch == '#' } else { hex_digit(ch) };
        proof {
            assert(ch == c@[it.index() as int]);
            if ok && good {
                assert forall|i: int| 0 <= i < it.index() + 1 implies #[trigger] color_char_ok(c@, i) by {
                }
            }
            if !good {
                assert(!color_char_ok(c@, it.index() as int));
            }
        }
        ok = ok && good;
        if n < 10 {
            n = n + 1;
        }
    }
    let len_ok = n == 4 || n == 7 || n == 9;
    proof {
        if ok && len_ok {
            assert(color_char_ok(c@, 0));
            assert forall|i: int| 1 <= i < c@.len() implies #[trigger] is_hex_digit(c@[i]) by {
                assert(color_char_ok(c@, i));
            }
        }
        if hex_color(c@) {
            assert forall|i: int| 0 <= i < c@.len() implies #[trigger] color_char_ok(c@, i) by {
                if i > 0 {
                    assert(is_hex_digit(c@[i]));
                }
            }
        }
    }
    if ok && len_ok {
        Ok(())
    } else {
        Err(ValidationError::BadColor { what: to_owned_string(what), value: to_owned_string(c) })
    }
}

/// Character `i` of a color string is acceptable for its position.
pub open spec fn color_char_ok(s: Seq<char>, i: int) -> bool {
    if i == 0 {
        s[i] == '#'
    } else {
        is_hex_digit(s[i])
    }
}

/// `(stroke, fill)` hex colors for a node role; unspecified roles get a
/// neutral palette.
pub open spec fn palette(role: Option<Role>) -> (Seq<char>, Seq<char>) {
    match role {
        None => ("#3a3a3a"@, "#f6f6f6"@),
        Some(Role::Input) => ("#1f6feb"@, "#dbeafe"@),
        Some(Role::Process) => ("#9a6700"@, "#fff4d6"@),
        Some(Role::External) => ("#6e40c9"@, "#ede7f6"@),
        Some(Role::Persistence) => ("#1a7f37"@, "#dcfce7"@),
        Some(Role::Transformation) => ("#cf222e"@, "#ffe3e3"@),
    }
}

/// Map a node role to `(stroke, fill)` hex colors.
pub fn role_palette(role: Option<Role>) -> (r: (&'static str, &'static str))
    ensures
        r.0@ == palette(role).0,
        r.1@ == palette(role).1,
{
    match role {
        None => ("#3a3a3a", "#f6f6f6"),
        Some(Role::Input) => ("#1f6feb", "#dbeafe"),
        Some(Role::Process) => ("#9a6700", "#fff4d6"),
        Some(Role::External) => ("#6e40c9", "#ede7f6"),
        Some(Role::Persistence) => ("#1a7f37", "#dcfce7"),
        Some(Role::Transformation) => ("#cf222e", "#ffe3e3"),
    }
}

/// Every role's stroke and fill are accepted by [`validate_color`], and the
/// neutral palette differs from every role's palette: roles are visually
/// distinguishable and no palette color can be refused at render time.
pub proof fn lemma_palette_valid_and_distinct(role: Option<Role>)
    ensures
        hex_color(palette(role).0),
        hex_color(palette(role).1),
        role is Some ==> palette(role) != palette(None),
{
    reveal_strlit("#3a3a3a");
    reveal_strlit("#f6f6f6");
    reveal_strlit("#1f6feb");
    reveal_strlit("#dbeafe");
    reveal_strlit("#9a6700");
    reveal_strlit("#fff4d6");
    reveal_strlit("#6e40c9");
    reveal_strlit("#ede7f6");
    reveal_strlit("#1a7f37");
    reveal_strlit("#dcfce7");
    reveal_strlit("#cf222e");
    reveal_strlit("#ffe3e3");
    let (s, f) = palette(role);
    assert forall|i: int| 1 <= i < s.len() implies #[trigger] is_hex_digit(s[i]) by {}
    assert forall|i: int| 1 <= i < f.len() implies #[trigger] is_hex_digit(f[i]) by {}
    if role is Some {
        assert(s[1] != palette(None).0[1] || s[2] != palette(None).0[2]);
    }
}

/// Elements that carry a string id.
pub trait Identified {
    spec fn ident(&self) -> Seq<char>;

    fn id_ref(&self) -> (r: &String)
        ensures
            r@ == self.ident(),
    ;
}

impl Identified for Node {
    open spec fn ident(&self) -> Seq<char> {
        self.id@
    }

    fn id_ref(&self) -> (r: &String) {
        &self.id
    }
}

impl Identified for Edge {
    open spec fn ident(&self) -> Seq<char> {
        self.id@
    }

    fn id_ref(&self) -> (r: &String) {
        &self.id
    }
}

impl Identified for Zone {
    open spec fn ident(&self) -> Seq<char> {
        self.id@
    }

    fn id_ref(&self) -> (r: &String) {
        &self.id
    }
}

impl Identified for Text {
    open spec fn ident(&self) -> Seq<char> {
        self.id@
    }

    fn id_ref(&self) -> (r: &String) {
        &self.id
    }
}

/// The first of two possible problems.
pub open spec fn or_else(a: Option<ErrorView>, b: Option<ErrorView>) -> Option<ErrorView> {
    if a is Some {
        a
    } else {
        b
    }
}

/// The problem at the lowest index below `k`, where `f` gives the problem (if
/// any) at each index.
pub open spec fn first_issue(k: int, f: spec_fn(int) -> Option<ErrorView>) -> Option<ErrorView>
    decreases k,
{
    if k <= 0 {
        None
    } else {
        or_else(first_issue(k - 1, f), f(k - 1))
    }
}

/// Once some index has a problem, later prefixes report that same problem.
pub proof fn lemma_first_issue_stable(i: int, k: int, f: spec_fn(int) -> Option<ErrorView>)
    requires
        0 <= i < k,
        first_issue(i, f) is None,
        f(i) is Some,
    ensures
        first_issue(k, f) == f(i),
    decreases k,
{
    if k > i + 1 {
        lemma_first_issue_stable(i, k - 1, f);
    }
}

/// Some element before index `i` has the same id as element `i`.
pub open spec fn dup_before<T: Identified>(items: Seq<T>, i: int) -> bool {
    exists|j: int| 0 <= j < i && #[trigger] items[j].ident() == items[i].ident()
}

/// Some node carries id `id`.
pub open spec fn has_node(nodes: Seq<Node>, id: Seq<char>) -> bool {
    exists|j: int| 0 <= j < nodes.len() && #[trigger] nodes[j].id@ == id
}

/// Problem with an id: empty, or longer than [`MAX_STRING_LEN`] bytes.
pub open spec fn id_issue(kind: ElementKind, id: Seq<char>) -> Option<ErrorView> {
    if id.len() == 0 {
        Some(ErrorView::EmptyId { kind })
    } else if byte_len(id) > MAX_STRING_LEN {
        Some(ErrorView::IdTooLong { kind })
    } else {
        None
    }
}

/// Problem with a user string: longer than [`MAX_STRING_LEN`] bytes.
pub open spec fn text_issue(what: TextField, s: Seq<char>) -> Option<ErrorView> {
    if byte_len(s) > MAX_STRING_LEN {
        Some(ErrorView::TooLong { field: what, len: byte_len(s) })
    } else {
        None
    }
}

/// Problem with a count: above its maximum.
pub open spec fn count_issue(what: Counted, n: nat, max: nat) -> Option<ErrorView> {
    if n > max {
        Some(ErrorView::TooMany { items: what, n, max })
    } else {
        None
    }
}

/// Problem with one number: not finite.
pub open spec fn finite_issue(kind: ElementKind, id: Seq<char>, v: Ieee32, coord: Coord) -> Option<
    ErrorView,
> {
    if !finite32(v.bits) {
        Some(ErrorView::NotFinite { kind, id, coord })
    } else {
        None
    }
}

/// Problem with a rectangle: a non-finite coordinate (x, y, w, h in that
/// order), or a width or height that is not strictly positive.
pub open spec fn rect_issue(
    kind: ElementKind,
    id: Seq<char>,
    x: Ieee32,
    y: Ieee32,
    w: Ieee32,
    h: Ieee32,
) -> Option<ErrorView> {
    or_else(
        finite_issue(kind, id, x, Coord::X),
        or_else(
            finite_issue(kind, id, y, Coord::Y),
            or_else(
                finite_issue(kind, id, w, Coord::W),
                or_else(
                    finite_issue(kind, id, h, Coord::H),
                    if !positive32(w.bits) || !positive32(h.bits) {
                        Some(ErrorView::NonPositiveSize { kind, id })
                    } else {
                        None
                    },
                ),
            ),
        ),
    )
}

/// Problem with the `k`-th point of an edge's waypoints (`route == false`) or
/// route (`route == true`).
pub open spec fn point_issue(id: Seq<char>, pts: Seq<Point>, k: int, route: bool) -> Option<
    ErrorView,
> {
    let (cx, cy) = if route {
        (Coord::RouteX(k as usize), Coord::RouteY(k as usize))
    } else {
        (Coord::WaypointX(k as usize), Coord::WaypointY(k as usize))
    };
    or_else(
        finite_issue(ElementKind::Edge, id, pts[k].x, cx),
        finite_issue(ElementKind::Edge, id, pts[k].y, cy),
    )
}

/// First problem among the points of an edge.
pub open spec fn points_issue(id: Seq<char>, pts: Seq<Point>, route: bool) -> Option<ErrorView> {
    first_issue(pts.len() as int, |k: int| point_issue(id, pts, k, route))
}

/// Problem with node `i`.
pub open spec fn node_issue(nodes: Seq<Node>, i: int) -> Option<ErrorView> {
    let n = nodes[i];
    or_else(
        id_issue(ElementKind::Node, n.id@),
        or_else(
            if dup_before(nodes, i) {
                Some(ErrorView::DuplicateId { kind: ElementKind::Node, id: n.id@ })
            } else {
                None
            },
            or_else(
                text_issue(TextField::NodeLabel, n.label@),
                rect_issue(ElementKind::Node, n.id@, n.x, n.y, n.w, n.h),
            ),
        ),
    )
}

/// Problem with the engine-populated route or label anchor of an edge.
pub open spec fn geometry_issue(e: Edge) -> Option<ErrorView> {
    or_else(
        match e.route {
            Some(r) => if r@.len() < 2 {
                Some(ErrorView::RouteTooShort { edge: e.id@, len: r@.len() })
            } else {
                or_else(
                    count_issue(Counted::Route, r@.len(), MAX_WAYPOINTS as nat),
                    points_issue(e.id@, r@, true),
                )
            },
            None => None,
        },
        match e.label_anchor {
            Some(a) => or_else(
                finite_issue(ElementKind::Edge, e.id@, a.x, Coord::AnchorX),
                finite_issue(ElementKind::Edge, e.id@, a.y, Coord::AnchorY),
            ),
            None => None,
        },
    )
}

/// Problem with the label placement numbers of an edge.
pub open spec fn label_offset_issue(e: Edge) -> Option<ErrorView> {
    or_else(
        finite_issue(ElementKind::Edge, e.id@, e.label_pos, Coord::LabelPos),
        or_else(
            finite_issue(ElementKind::Edge, e.id@, e.label_dx, Coord::LabelDx),
            finite_issue(ElementKind::Edge, e.id@, e.label_dy, Coord::LabelDy),
        ),
    )
}

/// Problem with the id and node references of edge `i`.
pub open spec fn edge_ref_issue(nodes: Seq<Node>, edges: Seq<Edge>, i: int) -> Option<ErrorView> {
    let e = edges[i];
    or_else(
        id_issue(ElementKind::Edge, e.id@),
        or_else(
            if dup_before(edges, i) {
                Some(ErrorView::DuplicateId { kind: ElementKind::Edge, id: e.id@ })
            } else {
                None
            },
            or_else(
                if !has_node(nodes, e.from@) {
                    Some(ErrorView::UnknownNode { edge: e.id@, end: Endpoint::From, node: e.from@ })
                } else {
                    None
                },
                if !has_node(nodes, e.to@) {
                    Some(ErrorView::UnknownNode { edge: e.id@, end: Endpoint::To, node: e.to@ })
                } else {
                    None
                },
            ),
        ),
    )
}

/// Problem with the label, waypoints and geometry of an edge.
pub open spec fn edge_content_issue(e: Edge) -> Option<ErrorView> {
    or_else(
        match e.label {
            Some(l) => text_issue(TextField::EdgeLabel, l@),
            None => None,
        },
        or_else(
            count_issue(Counted::Waypoints, e.waypoints@.len(), MAX_WAYPOINTS as nat),
            or_else(
                points_issue(e.id@, e.waypoints@, false),
                or_else(label_offset_issue(e), geometry_issue(e)),
            ),
        ),
    )
}

/// Problem with edge `i`, given the scene's nodes.
pub open spec fn edge_issue(nodes: Seq<Node>, edges: Seq<Edge>, i: int) -> Option<ErrorView> {
    or_else(edge_ref_issue(nodes, edges, i), edge_content_issue(edges[i]))
}

/// Problem with zone `i`.
pub open spec fn zone_issue(zones: Seq<Zone>, i: int) -> Option<ErrorView> {
    let z = zones[i];
    or_else(
        id_issue(ElementKind::Zone, z.id@),
        or_else(
            if dup_before(zones, i) {
                Some(ErrorView::DuplicateId { kind: ElementKind::Zone, id: z.id@ })
            } else {
                None
            },
            or_else(
                text_issue(TextField::ZoneLabel, z.label@),
                rect_issue(ElementKind::Zone, z.id@, z.x, z.y, z.w, z.h),
            ),
        ),
    )
}

/// Problem with free text `i`.
pub open spec fn text_elem_issue(texts: Seq<Text>, i: int) -> Option<ErrorView> {
    let t = texts[i];
    or_else(
        id_issue(ElementKind::Text, t.id@),
        or_else(
            if dup_before(texts, i) {
                Some(ErrorView::DuplicateId { kind: ElementKind::Text, id: t.id@ })
            } else {
                None
            },
            or_else(
                text_issue(TextField::TextText, t.text@),
                or_else(
                    finite_issue(ElementKind::Text, t.id@, t.x, Coord::X),
                    finite_issue(ElementKind::Text, t.id@, t.y, Coord::Y),
                ),
            ),
        ),
    )
}

/// Problem with the canvas: a zero or oversized dimension, or a background
/// that is not a hex color.
pub open spec fn canvas_issue(c: Canvas) -> Option<ErrorView> {
    if c.w == 0 || c.h == 0 {
        Some(ErrorView::EmptyCanvas)
    } else if c.w > MAX_CANVAS_DIM || c.h > MAX_CANVAS_DIM {
        Some(ErrorView::CanvasTooLarge)
    } else if !hex_color(c.background@) {
        Some(ErrorView::BadColor { what: "canvas.background"@, value: c.background@ })
    } else {
        None
    }
}

/// Problem with the element counts.
pub open spec fn counts_issue(s: Scene) -> Option<ErrorView> {
    or_else(
        count_issue(Counted::Nodes, s.nodes@.len(), MAX_NODES as nat),
        or_else(
            count_issue(Counted::Edges, s.edges@.len(), MAX_EDGES as nat),
            or_else(
                count_issue(Counted::Zones, s.zones@.len(), MAX_ZONES as nat),
                count_issue(Counted::Texts, s.texts@.len(), MAX_TEXTS as nat),
            ),
        ),
    )
}

/// First problem among the nodes.
pub open spec fn nodes_issue(s: Scene) -> Option<ErrorView> {
    first_issue(s.nodes@.len() as int, |i: int| node_issue(s.nodes@, i))
}

/// First problem among the edges.
pub open spec fn edges_issue(s: Scene) -> Option<ErrorView> {
    first_issue(s.edges@.len() as int, |i: int| edge_issue(s.nodes@, s.edges@, i))
}

/// First problem among the zones.
pub open spec fn zones_issue(s: Scene) -> Option<ErrorView> {
    first_issue(s.zones@.len() as int, |i: int| zone_issue(s.zones@, i))
}

/// First problem among the free texts.
pub open spec fn texts_issue(s: Scene) -> Option<ErrorView> {
    first_issue(s.texts@.len() as int, |i: int| text_elem_issue(s.texts@, i))
}

/// Problem among the edges, zones, texts and the title.
pub open spec fn later_issue(s: Scene) -> Option<ErrorView> {
    or_else(
        edges_issue(s),
        or_else(zones_issue(s), or_else(texts_issue(s), text_issue(TextField::Title, s.title@))),
    )
}

/// The problem [`Scene::validate`] reports for a scene, checked in this order:
/// schema version, canvas, element counts, each node, each edge, each zone,
/// each text, then the title. `None` means the scene is valid.
pub open spec fn scene_issue(s: Scene) -> Option<ErrorView> {
    if s.schema_version@ != SCHEMA_VERSION@ {
        Some(ErrorView::SchemaVersion { found: s.schema_version@ })
    } else {
        or_else(
            canvas_issue(s.canvas),
            or_else(counts_issue(s), or_else(nodes_issue(s), later_issue(s))),
        )
    }
}

/// A scene that [`Scene::validate`] accepts.
pub open spec fn scene_valid(s: Scene) -> bool {
    scene_issue(s) is None
}

/// No index below `k` has a problem exactly when no problem is found below
/// `k`.
pub proof fn lemma_first_issue_none_iff(k: int, f: spec_fn(int) -> Option<ErrorView>)
    ensures
        (first_issue(k, f) is None) <==> (forall|i: int| 0 <= i < k ==> #[trigger] f(i) is None),
    decreases k,
{
    if k > 0 {
        lemma_first_issue_none_iff(k - 1, f);
    }
}

/// An id that validation accepts: not empty, at most [`MAX_STRING_LEN`] bytes.
pub open spec fn good_id(id: Seq<char>) -> bool {
    id.len() > 0 && byte_len(id) <= MAX_STRING_LEN
}

/// A user string within [`MAX_STRING_LEN`] bytes.
pub open spec fn fits(s: Seq<char>) -> bool {
    byte_len(s) <= MAX_STRING_LEN
}

/// A rectangle with finite coordinates and a strictly positive size.
pub open spec fn good_rect(x: Ieee32, y: Ieee32, w: Ieee32, h: Ieee32) -> bool {
    finite32(x.bits) && finite32(y.bits) && finite32(w.bits) && finite32(h.bits) && positive32(
        w.bits,
    ) && positive32(h.bits)
}

/// Every point has finite coordinates.
pub open spec fn finite_points(pts: Seq<Point>) -> bool {
    forall|k: int| 0 <= k < pts.len() ==> finite32(#[trigger] pts[k].x.bits) && finite32(pts[k].y.bits)
}

/// No two items share an id.
pub open spec fn unique_ids<T: Identified>(items: Seq<T>) -> bool {
    forall|i: int, j: int| 0 <= j < i < items.len() ==> #[trigger] items[j].ident() != #[trigger] items[i].ident()
}

/// An edge that validation accepts, given the scene's nodes.
pub open spec fn good_edge(nodes: Seq<Node>, e: Edge) -> bool {
    &&& good_id(e.id@)
    &&& has_node(nodes, e.from@)
    &&& has_node(nodes, e.to@)
    &&& (e.label matches Some(l) ==> fits(l@))
    &&& e.waypoints@.len() <= MAX_WAYPOINTS
    &&& finite_points(e.waypoints@)
    &&& finite32(e.label_pos.bits) && finite32(e.label_dx.bits) && finite32(e.label_dy.bits)
    &&& (e.route matches Some(r) ==> 2 <= r@.len() <= MAX_WAYPOINTS && finite_points(r@))
    &&& (e.label_anchor matches Some(a) ==> finite32(a.x.bits) && finite32(a.y.bits))
}

/// Everything validation asks of a scene, stated directly: the schema
/// version; a canvas of 1 to [`MAX_CANVAS_DIM`] pixels a side with a hex
/// background; the element counts within their caps; ids non-empty, within
/// [`MAX_STRING_LEN`] bytes and unique within their kind; edge ends naming
/// nodes; every user string within [`MAX_STRING_LEN`] bytes; every number
/// finite; node and zone sizes strictly positive; at most
/// [`MAX_WAYPOINTS`] waypoints; and a route, where there is one, of 2 to
/// [`MAX_WAYPOINTS`] points.
pub open spec fn scene_conditions(s: Scene) -> bool {
    &&& s.schema_version@ == SCHEMA_VERSION@
    &&& 1 <= s.canvas.w <= MAX_CANVAS_DIM && 1 <= s.canvas.h <= MAX_CANVAS_DIM
    &&& hex_color(s.canvas.background@)
    &&& s.nodes@.len() <= MAX_NODES && s.edges@.len() <= MAX_EDGES
    &&& s.zones@.len() <= MAX_ZONES && s.texts@.len() <= MAX_TEXTS
    &&& forall|i: int| 0 <= i < s.nodes@.len() ==> {
        let n = #[trigger] s.nodes@[i];
        good_id(n.id@) && fits(n.label@) && good_rect(n.x, n.y, n.w, n.h)
    }
    &&& unique_ids(s.nodes@)
    &&& forall|i: int| 0 <= i < s.edges@.len() ==> good_edge(s.nodes@, #[trigger] s.edges@[i])
    &&& unique_ids(s.edges@)
    &&& forall|i: int| 0 <= i < s.zones@.len() ==> {
        let z = #[trigger] s.zones@[i];
        good_id(z.id@) && fits(z.label@) && good_rect(z.x, z.y, z.w, z.h)
    }
    &&& unique_ids(s.zones@)
    &&& forall|i: int| 0 <= i < s.texts@.len() ==> {
        let t = #[trigger] s.texts@[i];
        good_id(t.id@) && fits(t.text@) && finite32(t.x.bits) && finite32(t.y.bits)
    }
    &&& unique_ids(s.texts@)
    &&& fits(s.title@)
}

proof fn lemma_unique_iff<T: Identified>(items: Seq<T>)
    ensures
        unique_ids(items) <==> (forall|i: int| 0 <= i < items.len() ==> !#[trigger] dup_before(items, i)),
{
    if unique_ids(items) {
        assert forall|i: int| 0 <= i < items.len() implies !#[trigger] dup_before(items, i) by {
            if dup_before(items, i) {
                let j = choose|j: int| 0 <= j < i && #[trigger] items[j].ident() == items[i].ident();
            }
        }
    }
    if forall|i: int| 0 <= i < items.len() ==> !#[trigger] dup_before(items, i) {
        assert forall|i: int, j: int| 0 <= j < i < items.len() implies #[trigger] items[j].ident()
            != #[trigger] items[i].ident() by {
            assert(!dup_before(items, i));
        }
    }
}

proof fn lemma_points_iff(id: Seq<char>, pts: Seq<Point>, route: bool)
    ensures
        (points_issue(id, pts, route) is None) <==> finite_points(pts),
{
    let f = |k: int| point_issue(id, pts, k, route);
    lemma_first_issue_none_iff(pts.len() as int, f);
    if finite_points(pts) {
        assert forall|k: int| 0 <= k < pts.len() implies #[trigger] f(k) is None by {
            assert(finite32(pts[k].x.bits) && finite32(pts[k].y.bits));
        }
    }
    if points_issue(id, pts, route) is None {
        assert forall|k: int| 0 <= k < pts.len() implies finite32(#[trigger] pts[k].x.bits)
            && finite32(pts[k].y.bits) by {
            assert(f(k) is None);
        }
    }
}

proof fn lemma_edge_iff(nodes: Seq<Node>, edges: Seq<Edge>, i: int)
    requires
        0 <= i < edges.len(),
    ensures
        (edge_issue(nodes, edges, i) is None) <==> (good_edge(nodes, edges[i]) && !dup_before(
            edges,
            i,
        )),
{
    let e = edges[i];
    lemma_points_iff(e.id@, e.waypoints@, false);
    if let Some(r) = e.route {
        lemma_points_iff(e.id@, r@, true);
    }
}

proof fn lemma_nodes_iff(s: Scene)
    ensures
        (nodes_issue(s) is None) <==> ((forall|i: int| 0 <= i < s.nodes@.len() ==> {
            let n = #[trigger] s.nodes@[i];
            good_id(n.id@) && fits(n.label@) && good_rect(n.x, n.y, n.w, n.h)
        }) && unique_ids(s.nodes@)),
{
    let f = |i: int| node_issue(s.nodes@, i);
    lemma_first_issue_none_iff(s.nodes@.len() as int, f);
    lemma_unique_iff(s.nodes@);
    assert forall|i: int| 0 <= i < s.nodes@.len() implies (#[trigger] f(i) is None) <==> ({
        let n = s.nodes@[i];
        good_id(n.id@) && fits(n.label@) && good_rect(n.x, n.y, n.w, n.h)
    } && !dup_before(s.nodes@, i)) by {}
    if nodes_issue(s) is None {
        assert forall|i: int| 0 <= i < s.nodes@.len() implies !#[trigger] dup_before(s.nodes@, i) by {
            assert(f(i) is None);
        }
        assert forall|i: int| 0 <= i < s.nodes@.len() implies #[trigger] s.nodes@[i] == s.nodes@[i] && (good_id(s.nodes@[i].id@) && fits(s.nodes@[i].label@) && good_rect(s.nodes@[i].x, s.nodes@[i].y, s.nodes@[i].w, s.nodes@[i].h)) by {
            assert(f(i) is None);
        }
    }
    if unique_ids(s.nodes@) && (forall|i: int| 0 <= i < s.nodes@.len() ==> #[trigger] s.nodes@[i] == s.nodes@[i] && (good_id(s.nodes@[i].id@) && fits(s.nodes@[i].label@) && good_rect(s.nodes@[i].x, s.nodes@[i].y, s.nodes@[i].w, s.nodes@[i].h))) {
        assert forall|i: int| 0 <= i < s.nodes@.len() implies #[trigger] f(i) is None by {
            assert(s.nodes@[i] == s.nodes@[i]);
            assert(!dup_before(s.nodes@, i));
        }
    }
}

proof fn lemma_edges_iff(s: Scene)
    ensures
        (edges_issue(s) is None) <==> ((forall|i: int|
            0 <= i < s.edges@.len() ==> good_edge(s.nodes@, #[trigger] s.edges@[i])) && unique_ids(
            s.edges@,
        )),
{
    let f = |i: int| edge_issue(s.nodes@, s.edges@, i);
    lemma_first_issue_none_iff(s.edges@.len() as int, f);
    lemma_unique_iff(s.edges@);
    assert forall|i: int| 0 <= i < s.edges@.len() implies (#[trigger] f(i) is None) <==> (
    good_edge(s.nodes@, s.edges@[i]) && !dup_before(s.edges@, i)) by {
        lemma_edge_iff(s.nodes@, s.edges@, i);
    }
    if edges_issue(s) is None {
        assert forall|i: int| 0 <= i < s.edges@.len() implies !#[trigger] dup_before(s.edges@, i) by {
            assert(f(i) is None);
        }
        assert forall|i: int| 0 <= i < s.edges@.len() implies #[trigger] s.edges@[i] == s.edges@[i] && (good_edge(s.nodes@, s.edges@[i])) by {
            assert(f(i) is None);
        }
    }
    if unique_ids(s.edges@) && (forall|i: int| 0 <= i < s.edges@.len() ==> #[trigger] s.edges@[i] == s.edges@[i] && (good_edge(s.nodes@, s.edges@[i]))) {
        assert forall|i: int| 0 <= i < s.edges@.len() implies #[trigger] f(i) is None by {
            assert(s.edges@[i] == s.edges@[i]);
            assert(!dup_before(s.edges@, i));
        }
    }
}

proof fn lemma_zones_iff(s: Scene)
    ensures
        (zones_issue(s) is None) <==> ((forall|i: int| 0 <= i < s.zones@.len() ==> {
            let z = #[trigger] s.zones@[i];
            good_id(z.id@) && fits(z.label@) && good_rect(z.x, z.y, z.w, z.h)
        }) && unique_ids(s.zones@)),
{
    let f = |i: int| zone_issue(s.zones@, i);
    lemma_first_issue_none_iff(s.zones@.len() as int, f);
    lemma_unique_iff(s.zones@);
    assert forall|i: int| 0 <= i < s.zones@.len() implies (#[trigger] f(i) is None) <==> ({
        let z = s.zones@[i];
        good_id(z.id@) && fits(z.label@) && good_rect(z.x, z.y, z.w, z.h)
    } && !dup_before(s.zones@, i)) by {}
    if zones_issue(s) is None {
        assert forall|i: int| 0 <= i < s.zones@.len() implies !#[trigger] dup_before(s.zones@, i) by {
            assert(f(i) is None);
        }
        assert forall|i: int| 0 <= i < s.zones@.len() implies #[trigger] s.zones@[i] == s.zones@[i] && (good_id(s.zones@[i].id@) && fits(s.zones@[i].label@) && good_rect(s.zones@[i].x, s.zones@[i].y, s.zones@[i].w, s.zones@[i].h)) by {
            assert(f(i) is None);
        }
    }
    if unique_ids(s.zones@) && (forall|i: int| 0 <= i < s.zones@.len() ==> #[trigger] s.zones@[i] == s.zones@[i] && (good_id(s.zones@[i].id@) && fits(s.zones@[i].label@) && good_rect(s.zones@[i].x, s.zones@[i].y, s.zones@[i].w, s.zones@[i].h))) {
        assert forall|i: int| 0 <= i < s.zones@.len() implies #[trigger] f(i) is None by {
            assert(s.zones@[i] == s.zones@[i]);
            assert(!dup_before(s.zones@, i));
        }
    }
}

proof fn lemma_texts_iff(s: Scene)
    ensures
        (texts_issue(s) is None) <==> ((forall|i: int| 0 <= i < s.texts@.len() ==> {
            let t = #[trigger] s.texts@[i];
            good_id(t.id@) && fits(t.text@) && finite32(t.x.bits) && finite32(t.y.bits)
        }) && unique_ids(s.texts@)),
{
    let f = |i: int| text_elem_issue(s.texts@, i);
    lemma_first_issue_none_iff(s.texts@.len() as int, f);
    lemma_unique_iff(s.texts@);
    assert forall|i: int| 0 <= i < s.texts@.len() implies (#[trigger] f(i) is None) <==> ({
        let t = s.texts@[i];
        good_id(t.id@) && fits(t.text@) && finite32(t.x.bits) && finite32(t.y.bits)
    } && !dup_before(s.texts@, i)) by {}
    if texts_issue(s) is None {
        assert forall|i: int| 0 <= i < s.texts@.len() implies !#[trigger] dup_before(s.texts@, i) by {
            assert(f(i) is None);
        }
        assert forall|i: int| 0 <= i < s.texts@.len() implies #[trigger] s.texts@[i] == s.texts@[i] && (good_id(s.texts@[i].id@) && fits(s.texts@[i].text@) && finite32(s.texts@[i].x.bits) && finite32(s.texts@[i].y.bits)) by {
            assert(f(i) is None);
        }
    }
    if unique_ids(s.texts@) && (forall|i: int| 0 <= i < s.texts@.len() ==> #[trigger] s.texts@[i] == s.texts@[i] && (good_id(s.texts@[i].id@) && fits(s.texts@[i].text@) && finite32(s.texts@[i].x.bits) && finite32(s.texts@[i].y.bits))) {
        assert forall|i: int| 0 <= i < s.texts@.len() implies #[trigger] f(i) is None by {
            assert(s.texts@[i] == s.texts@[i]);
            assert(!dup_before(s.texts@, i));
        }
    }
}

/// A scene passes validation exactly when it meets [`scene_conditions`].
pub proof fn lemma_scene_valid_iff(s: Scene)
    ensures
        scene_valid(s) <==> scene_conditions(s),
{
    lemma_nodes_iff(s);
    lemma_edges_iff(s);
    lemma_zones_iff(s);
    lemma_texts_iff(s);
}

/// The outcome of a check against the problem it is meant to report.
pub open spec fn reports(r: Result<(), ValidationError>, issue: Option<ErrorView>) -> bool {
    match r {
        Ok(_) => issue is None,
        Err(e) => issue == Some(e@),
    }
}

/// Whether an element before index `i` has the same id as element `i`.
fn seen_before<T: Identified>(items: &Vec<T>, i: usize) -> (r: bool)
    requires
        i < items@.len(),
    ensures
        r == dup_before(items@, i as int),
{
    let id = items[i].id_ref();
    let mut j: usize = 0;
    while j < i
        invariant
            j <= i,
            i < items@.len(),
            id@ == items@[i as int].ident(),
            forall|k: int| 0 <= k < j ==> #[trigger] items@[k].ident() != items@[i as int].ident(),
        decreases i - j,
    {
        if *items[j].id_ref() == *id {
            return true;
        }
        j += 1;
    }
    false
}

/// Whether some node carries id `id`.
fn node_exists(nodes: &Vec<Node>, id: &String) -> (r: bool)
    ensures
        r == has_node(nodes@, id@),
{
    let mut j: usize = 0;
    while j < nodes.len()
        invariant
            j <= nodes@.len(),
            forall|k: int| 0 <= k < j ==> #[trigger] nodes@[k].id@ != id@,
        decreases nodes@.len() - j,
    {
        if nodes[j].id == *id {
            return true;
        }
        j += 1;
    }
    false
}

fn check_count(n: usize, max: usize, what: Counted) -> (r: Result<(), ValidationError>)
    ensures
        reports(r, count_issue(what, n as nat, max as nat)),
{
    if n > max {
        return Err(ValidationError::TooMany { items: what, n, max });
    }
    Ok(())
}

fn validate_id(id: &String, kind: ElementKind) -> (r: Result<(), ValidationError>)
    ensures
        reports(r, id_issue(kind, id@)),
{
    if id.as_str().is_empty() {
        return Err(ValidationError::EmptyId { kind });
    }
    if str_byte_len(id.as_str()) > MAX_STRING_LEN {
        return Err(ValidationError::IdTooLong { kind });
    }
    Ok(())
}

fn validate_string(s: &String, what: TextField) -> (r: Result<(), ValidationError>)
    ensures
        reports(r, text_issue(what, s@)),
{
    let n = str_byte_len(s.as_str());
    if n > MAX_STRING_LEN {
        return Err(ValidationError::TooLong { field: what, len: n });
    }
    Ok(())
}

fn validate_finite(v: Ieee32, kind: ElementKind, id: &String, coord: Coord) -> (r: Result<
    (),
    ValidationError,
>)
    ensures
        reports(r, finite_issue(kind, id@, v, coord)),
{
    if !v.is_finite() {
        return Err(ValidationError::NotFinite { kind, id: id.clone(), coord });
    }
    Ok(())
}

/// Finite coordinates and a strictly positive size (a degenerate box has no
/// sensible boundary or fill).
fn validate_finite_rect(
    x: Ieee32,
    y: Ieee32,
    w: Ieee32,
    h: Ieee32,
    kind: ElementKind,
    id: &String,
) -> (r: Result<(), ValidationError>)
    ensures
        reports(r, rect_issue(kind, id@, x, y, w, h)),
{
    validate_finite(x, kind, id, Coord::X)?;
    validate_finite(y, kind, id, Coord::Y)?;
    validate_finite(w, kind, id, Coord::W)?;
    validate_finite(h, kind, id, Coord::H)?;
    if !w.is_positive() || !h.is_positive() {
        return Err(ValidationError::NonPositiveSize { kind, id: id.clone() });
    }
    Ok(())
}

/// Check every point of an edge's waypoints or route.
fn validate_points(id: &String, pts: &Vec<Point>, route: bool) -> (r: Result<(), ValidationError>)
    requires
        pts@.len() <= MAX_WAYPOINTS,
    ensures
        reports(r, points_issue(id@, pts@, route)),
{
    let ghost f = |k: int| point_issue(id@, pts@, k, route);
    let mut k: usize = 0;
    while k < pts.len()
        invariant
            k <= pts@.len(),
            pts@.len() <= MAX_WAYPOINTS,
            f == (|k: int| point_issue(id@, pts@, k, route)),
            first_issue(k as int, f) is None,
        decreases pts@.len() - k,
    {
        let p = pts[k];
        let (cx, cy) = if route {
            (Coord::RouteX(k), Coord::RouteY(k))
        } else {
            (Coord::WaypointX(k), Coord::WaypointY(k))
        };
        let step = match validate_finite(p.x, ElementKind::Edge, id, cx) {
            Ok(()) => validate_finite(p.y, ElementKind::Edge, id, cy),
            Err(e) => Err(e),
        };
        proof {
            assert(f(k as int) == point_issue(id@, pts@, k as int, route));
        }
        if let Err(e) = step {
            proof {
                lemma_first_issue_stable(k as int, pts@.len() as int, f);
            }
            return Err(e);
        }
        k += 1;
    }
    Ok(())
}

impl Scene {
    fn check_node(&self, i: usize) -> (r: Result<(), ValidationError>)
        requires
            i < self.nodes@.len(),
        ensures
            reports(r, node_issue(self.nodes@, i as int)),
    {
        let n = &self.nodes[i];
        validate_id(&n.id, ElementKind::Node)?;
        if seen_before(&self.nodes, i) {
            return Err(ValidationError::DuplicateId { kind: ElementKind::Node, id: n.id.clone() });
        }
        validate_string(&n.label, TextField::NodeLabel)?;
        validate_finite_rect(n.x, n.y, n.w, n.h, ElementKind::Node, &n.id)
    }

    fn check_edge_geometry(e: &Edge) -> (r: Result<(), ValidationError>)
        ensures
            reports(r, geometry_issue(*e)),
    {
        if let Some(route) = &e.route {
            if route.len() < 2 {
                return Err(ValidationError::RouteTooShort { edge: e.id.clone(), len: route.len() });
            }
            check_count(route.len(), MAX_WAYPOINTS, Counted::Route)?;
            validate_points(&e.id, route, true)?;
        }
        if let Some(anchor) = &e.label_anchor {
            validate_finite(anchor.x, ElementKind::Edge, &e.id, Coord::AnchorX)?;
            validate_finite(anchor.y, ElementKind::Edge, &e.id, Coord::AnchorY)?;
        }
        Ok(())
    }

    fn check_edge(&self, i: usize) -> (r: Result<(), ValidationError>)
        requires
            i < self.edges@.len(),
        ensures
            reports(r, edge_issue(self.nodes@, self.edges@, i as int)),
    {
        let e = &self.edges[i];
        validate_id(&e.id, ElementKind::Edge)?;
        if seen_before(&self.edges, i) {
            return Err(ValidationError::DuplicateId { kind: ElementKind::Edge, id: e.id.clone() });
        }
        if !node_exists(&self.nodes, &e.from) {
            return Err(
                ValidationError::UnknownNode {
                    edge: e.id.clone(),
                    end: Endpoint::From,
                    node: e.from.clone(),
                },
            );
        }
        if !node_exists(&self.nodes, &e.to) {
            return Err(
                ValidationError::UnknownNode {
                    edge: e.id.clone(),
                    end: Endpoint::To,
                    node: e.to.clone(),
                },
            );
        }
        if let Some(label) = &e.label {
            validate_string(label, TextField::EdgeLabel)?;
        }
        check_count(e.waypoints.len(), MAX_WAYPOINTS, Counted::Waypoints)?;
        validate_points(&e.id, &e.waypoints, false)?;
        validate_finite(e.label_pos, ElementKind::Edge, &e.id, Coord::LabelPos)?;
        validate_finite(e.label_dx, ElementKind::Edge, &e.id, Coord::LabelDx)?;
        validate_finite(e.label_dy, ElementKind::Edge, &e.id, Coord::LabelDy)?;
        Self::check_edge_geometry(e)
    }

    fn check_zone(&self, i: usize) -> (r: Result<(), ValidationError>)
        requires
            i < self.zones@.len(),
        ensures
            reports(r, zone_issue(self.zones@, i as int)),
    {
        let z = &self.zones[i];
        validate_id(&z.id, ElementKind::Zone)?;
        if seen_before(&self.zones, i) {
            return Err(ValidationError::DuplicateId { kind: ElementKind::Zone, id: z.id.clone() });
        }
        validate_string(&z.label, TextField::ZoneLabel)?;
        validate_finite_rect(z.x, z.y, z.w, z.h, ElementKind::Zone, &z.id)
    }

    fn check_text(&self, i: usize) -> (r: Result<(), ValidationError>)
        requires
            i < self.texts@.len(),
        ensures
            reports(r, text_elem_issue(self.texts@, i as int)),
    {
        let t = &self.texts[i];
        validate_id(&t.id, ElementKind::Text)?;
        if seen_before(&self.texts, i) {
            return Err(ValidationError::DuplicateId { kind: ElementKind::Text, id: t.id.clone() });
        }
        validate_string(&t.text, TextField::TextText)?;
        validate_finite(t.x, ElementKind::Text, &t.id, Coord::X)?;
        validate_finite(t.y, ElementKind::Text, &t.id, Coord::Y)
    }

    fn check_canvas(&self) -> (r: Result<(), ValidationError>)
        ensures
            reports(r, canvas_issue(self.canvas)),
    {
        if self.canvas.w == 0 || self.canvas.h == 0 {
            return Err(ValidationError::EmptyCanvas);
        }
        if self.canvas.w > MAX_CANVAS_DIM || self.canvas.h > MAX_CANVAS_DIM {
            return Err(ValidationError::CanvasTooLarge);
        }
        validate_color(self.canvas.background.as_str(), "canvas.background")
    }

    fn check_counts(&self) -> (r: Result<(), ValidationError>)
        ensures
            reports(r, counts_issue(*self)),
    {
        check_count(self.nodes.len(), MAX_NODES, Counted::Nodes)?;
        check_count(self.edges.len(), MAX_EDGES, Counted::Edges)?;
        check_count(self.zones.len(), MAX_ZONES, Counted::Zones)?;
        check_count(self.texts.len(), MAX_TEXTS, Counted::Texts)
    }

    fn check_nodes(&self) -> (r: Result<(), ValidationError>)
        ensures
            reports(r, nodes_issue(*self)),
    {
        let ghost f = |i: int| node_issue(self.nodes@, i);
        let mut i: usize = 0;
        while i < self.nodes.len()
            invariant
                i <= self.nodes@.len(),
                f == (|i: int| node_issue(self.nodes@, i)),
                first_issue(i as int, f) is None,
            decreases self.nodes@.len() - i,
        {
            let step = self.check_node(i);
            proof {
                assert(f(i as int) == node_issue(self.nodes@, i as int));
            }
            if let Err(e) = step {
                proof {
                    lemma_first_issue_stable(i as int, self.nodes@.len() as int, f);
                }
                return Err(e);
            }
            i += 1;
        }
        Ok(())
    }

    fn check_edges(&self) -> (r: Result<(), ValidationError>)
        ensures
            reports(r, edges_issue(*self)),
    {
        let ghost f = |i: int| edge_issue(self.nodes@, self.edges@, i);
        let mut i: usize = 0;
        while i < self.edges.len()
            invariant
                i <= self.edges@.len(),
                f == (|i: int| edge_issue(self.nodes@, self.edges@, i)),
                first_issue(i as int, f) is None,
            decreases self.edges@.len() - i,
        {
            let step = self.check_edge(i);
            proof {
                assert(f(i as int) == edge_issue(self.nodes@, self.edges@, i as int));
            }
            if let Err(e) = step {
                proof {
                    lemma_first_issue_stable(i as int, self.edges@.len() as int, f);
                }
                return Err(e);
            }
            i += 1;
        }
        Ok(())
    }

    fn check_zones(&self) -> (r: Result<(), ValidationError>)
        ensures
            reports(r, zones_issue(*self)),
    {
        let ghost f = |i: int| zone_issue(self.zones@, i);
        let mut i: usize = 0;
        while i < self.zones.len()
            invariant
                i <= self.zones@.len(),
                f == (|i: int| zone_issue(self.zones@, i)),
                first_issue(i as int, f) is None,
            decreases self.zones@.len() - i,
        {
            let step = self.check_zone(i);
            proof {
                assert(f(i as int) == zone_issue(self.zones@, i as int));
            }
            if let Err(e) = step {
                proof {
                    lemma_first_issue_stable(i as int, self.zones@.len() as int, f);
                }
                return Err(e);
            }
            i += 1;
        }
        Ok(())
    }

    fn check_texts(&self) -> (r: Result<(), ValidationError>)
        ensures
            reports(r, texts_issue(*self)),
    {
        let ghost f = |i: int| text_elem_issue(self.texts@, i);
        let mut i: usize = 0;
        while i < self.texts.len()
            invariant
                i <= self.texts@.len(),
                f == (|i: int| text_elem_issue(self.texts@, i)),
                first_issue(i as int, f) is None,
            decreases self.texts@.len() - i,
        {
            let step = self.check_text(i);
            proof {
                assert(f(i as int) == text_elem_issue(self.texts@, i as int));
            }
            if let Err(e) = step {
                proof {
                    lemma_first_issue_stable(i as int, self.texts@.len() as int, f);
                }
                return Err(e);
            }
            i += 1;
        }
        Ok(())
    }

    /// Validate the structural and safety invariants that the type alone
    /// cannot enforce: schema version, canvas size and color, element counts,
    /// id presence and uniqueness, edge references, string lengths, finite
    /// coordinates and positive sizes. The first problem found, in the order of
    /// [`scene_issue`], is reported.
    pub fn validate(&self) -> (r: Result<(), ValidationError>)
        ensures
            reports(r, scene_issue(*self)),
    {
        let expected = to_owned_string(SCHEMA_VERSION);
        if self.schema_version != expected {
            return Err(ValidationError::SchemaVersion { found: self.schema_version.clone() });
        }
        self.check_canvas()?;
        self.check_counts()?;
        self.check_nodes()?;
        self.check_edges()?;
        self.check_zones()?;
        self.check_texts()?;
        validate_string(&self.title, TextField::Title)
    }
}

} // verus!
