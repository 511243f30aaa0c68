//! Input schema (geometry-optional, with an optional `layout` block) and its
//! resolution into a validated, render-ready [`Scene`].
//!
//! - No `layout` block: manual mode. Every node must carry `x`/`y`/`w`/`h`.
//! - A `layout` block: auto mode. Node coordinates are refused (the engine
//!   owns placement), the graph is checked (unique node ids, known edge
//!   endpoints), and a layout request is handed out. Once the engine has
//!   placed the graph, [`finish_auto`] picks the canvas and assembles the
//!   scene. Zones and texts stay manual overlays.
//!
//! Resolution is a two-step exchange: [`resolve_scene`] either finishes
//! (manual mode) or asks for a layout; the caller runs the engine and measures
//! the result, then calls [`finish_auto`].

use vstd::prelude::*;
use crate::ieee::{Ieee32, Ieee64, above64, finite64, negative64};
use crate::layout::{
    DEFAULT_MARGIN_BITS, DEFAULT_NODE_SEP_BITS, DEFAULT_RANK_SEP_BITS, Direction, LaidOut, LayoutEdge,
    LayoutNode, LayoutParams,
};
use crate::scene::{
    Canvas, Edge, EdgeStyle, ElementKind, Endpoint, ErrorView, LayoutParamName, MAX_CANVAS_DIM, Node,
    ParamProblem, Point, Port, Role, Scene, Shape, Text, ValidationError, Zone, default_background,
    first_issue, lemma_first_issue_stable, or_else, reports, scene_issue,
};

verus! {

/// Layout mode selector.
#[derive(Debug, Clone, Copy, PartialEq, Eq)]
pub enum LayoutMode {
    /// Engine places nodes and routes edges.
    Auto,
}

/// Layout engine selector (only the layered engine exists).
#[derive(Debug, Clone, Copy, PartialEq, Eq)]
pub enum LayoutEngine {
    Layered,
}

impl Default for LayoutEngine {
    fn default() -> (r: Self)
        ensures
            r == LayoutEngine::Layered,
    {
        LayoutEngine::Layered
    }
}

/// Layout flow direction as written in the input.
#[derive(Debug, Clone, Copy, PartialEq, Eq)]
pub enum LayoutDirection {
    /// Left to right.
    Lr,
    /// Top to bottom.
    Tb,
}

impl Default for LayoutDirection {
    fn default() -> (r: Self)
        ensures
            r == LayoutDirection::Lr,
    {
        LayoutDirection::Lr
    }
}

/// The layout direction an input direction selects.
pub open spec fn direction_of(d: LayoutDirection) -> Direction {
    match d {
        LayoutDirection::Lr => Direction::Lr,
        LayoutDirection::Tb => Direction::Tb,
    }
}

/// An input direction and the engine direction it selects name the same
/// flow: left to right stays left to right, top to bottom stays top to
/// bottom, and the engine parameters of a `layout` block carry the block's
/// direction.
pub proof fn lemma_layout_keeps_direction(l: Layout)
    ensures
        (l.direction == LayoutDirection::Lr) <==> (layout_params(l).direction == Direction::Lr),
        (l.direction == LayoutDirection::Tb) <==> (layout_params(l).direction == Direction::Tb),
        forall|d: LayoutDirection|
            (d == LayoutDirection::Lr) <==> (#[trigger] direction_of(d) == Direction::Lr),
        forall|d: LayoutDirection|
            (d == LayoutDirection::Tb) <==> (#[trigger] direction_of(d) == Direction::Tb),
{
}

impl From<LayoutDirection> for Direction {
    fn from(d: LayoutDirection) -> (r: Self)
        ensures
            d == LayoutDirection::Lr ==> r == Direction::Lr,
            d == LayoutDirection::Tb ==> r == Direction::Tb,
    {
        match d {
            LayoutDirection::Lr => Direction::Lr,
            LayoutDirection::Tb => Direction::Tb,
        }
    }
}

impl vstd::std_specs::convert::FromSpecImpl<LayoutDirection> for Direction {
    open spec fn obeys_from_spec() -> bool {
        true
    }

    open spec fn from_spec(d: LayoutDirection) -> Direction {
        direction_of(d)
    }
}

/// How the canvas size is chosen in auto mode.
#[derive(Debug, Clone, Copy, PartialEq, Eq)]
pub enum Fit {
    /// Grow the canvas to fit the layout bounding box plus margin.
    Grow,
    /// Use the explicit `canvas`; error if the layout does not fit.
    Fixed,
}

impl Default for Fit {
    fn default() -> (r: Self)
        ensures
            r == Fit::Grow,
    {
        Fit::Grow
    }
}

/// The `layout` block that switches a scene from manual to auto placement.
#[derive(Debug, Clone)]
pub struct Layout {
    pub mode: LayoutMode,
    pub engine: LayoutEngine,
    pub direction: LayoutDirection,
    pub node_sep: Ieee64,
    pub rank_sep: Ieee64,
    pub margin: Ieee64,
    pub fit: Fit,
}

/// Default node separation (55.0).
pub fn default_node_sep() -> (r: Ieee64)
    ensures
        r.bits == DEFAULT_NODE_SEP_BITS,
{
    Ieee64 { bits: DEFAULT_NODE_SEP_BITS }
}

/// Default rank separation (90.0).
pub fn default_rank_sep() -> (r: Ieee64)
    ensures
        r.bits == DEFAULT_RANK_SEP_BITS,
{
    Ieee64 { bits: DEFAULT_RANK_SEP_BITS }
}

/// Default margin (30.0).
pub fn default_margin() -> (r: Ieee64)
    ensures
        r.bits == DEFAULT_MARGIN_BITS,
{
    Ieee64 { bits: DEFAULT_MARGIN_BITS }
}

/// Bit pattern of the binary32 value 0.5, the default edge label position.
pub const DEFAULT_LABEL_POS_BITS: u32 = 0x3F00_0000;

/// Default edge label position (0.5, half way along the path).
pub fn default_label_pos() -> (r: Ieee32)
    ensures
        r.bits == DEFAULT_LABEL_POS_BITS,
{
    Ieee32 { bits: DEFAULT_LABEL_POS_BITS }
}

/// A node as written by the agent: geometry is optional.
#[derive(Debug, Clone)]
pub struct InputNode {
    pub id: String,
    pub label: String,
    pub shape: Shape,
    pub x: Option<Ieee32>,
    pub y: Option<Ieee32>,
    pub w: Option<Ieee32>,
    pub h: Option<Ieee32>,
    pub role: Option<Role>,
}

/// An edge as written by the agent. In auto mode the manual routing and
/// label-offset fields are ignored.
#[derive(Debug, Clone)]
pub struct InputEdge {
    pub id: String,
    pub from: String,
    pub to: String,
    pub from_port: Option<Port>,
    pub to_port: Option<Port>,
    pub style: EdgeStyle,
    pub dashed: bool,
    pub waypoints: Vec<Point>,
    pub label: Option<String>,
    pub label_pos: Ieee32,
    pub label_dx: Ieee32,
    pub label_dy: Ieee32,
}

/// Optional explicit canvas.
#[derive(Debug, Clone)]
pub struct InputCanvas {
    pub w: u32,
    pub h: u32,
    pub background: String,
}

/// The agent-facing scene: like [`Scene`] but geometry-optional and with an
/// optional `layout` block.
#[derive(Debug, Clone)]
pub struct InputScene {
    pub schema_version: String,
    pub title: String,
    pub seed: u64,
    pub layout: Option<Layout>,
    pub canvas: Option<InputCanvas>,
    pub nodes: Vec<InputNode>,
    pub edges: Vec<InputEdge>,
    pub zones: Vec<Zone>,
    pub texts: Vec<Text>,
}

/// Outcome of the first resolution step.
pub enum Resolution {
    /// Manual mode: the validated scene.
    Ready(Scene),
    /// Auto mode: the graph to hand to the layout engine, in input order, and
    /// the input to finish with once the engine has placed it.
    NeedsLayout {
        input: InputScene,
        nodes: Vec<LayoutNode>,
        edges: Vec<LayoutEdge>,
        params: LayoutParams,
    },
}

/// What the caller measured on the engine's result, in binary32 arithmetic,
/// for choosing the canvas in auto mode.
#[derive(Debug, Clone, Copy)]
pub struct CanvasMeasure {
    /// `fit: "grow"` width: the far right extent of the layout, the zones and
    /// the free texts, plus the margin, rounded up, at least 1, converted to
    /// `u32` (saturating).
    pub grow_w: u32,
    /// `fit: "grow"` height, measured like `grow_w`.
    pub grow_h: u32,
    /// `fit: "fixed"` width needed by the laid-out graph alone: its far right
    /// extent plus the margin, rounded up.
    pub needed_w: Ieee32,
    /// `fit: "fixed"` height needed by the laid-out graph alone.
    pub needed_h: Ieee32,
    /// Whether `needed_w`/`needed_h` fit within the input canvas.
    pub fits: bool,
}

/// The manual-mode node for an input node that carries all four numbers.
pub open spec fn manual_node(n: InputNode) -> Node {
    Node {
        id: n.id,
        label: n.label,
        shape: n.shape,
        x: n.x->0,
        y: n.y->0,
        w: n.w->0,
        h: n.h->0,
        role: n.role,
    }
}

/// The scene edge for an input edge: every field carried over, no route and
/// no label anchor.
pub open spec fn manual_edge(e: InputEdge) -> Edge {
    Edge {
        id: e.id,
        from: e.from,
        to: e.to,
        from_port: e.from_port,
        to_port: e.to_port,
        style: e.style,
        dashed: e.dashed,
        waypoints: e.waypoints,
        label: e.label,
        label_pos: e.label_pos,
        label_dx: e.label_dx,
        label_dy: e.label_dy,
        route: None,
        label_anchor: None,
    }
}

/// An input node carries `x`, `y`, `w` and `h`.
pub open spec fn has_geometry(n: InputNode) -> bool {
    n.x is Some && n.y is Some && n.w is Some && n.h is Some
}

/// Problem with input node `i` in manual mode.
pub open spec fn missing_geometry(nodes: Seq<InputNode>, i: int) -> Option<ErrorView> {
    if !has_geometry(nodes[i]) {
        Some(ErrorView::MissingGeometry { node: nodes[i].id@ })
    } else {
        None
    }
}

/// Problem manual mode reports before assembling the scene: no canvas, or
/// the first node lacking geometry.
pub open spec fn manual_issue(input: InputScene) -> Option<ErrorView> {
    if input.canvas is None {
        Some(ErrorView::ManualNeedsCanvas)
    } else {
        first_issue(input.nodes@.len() as int, |i: int| missing_geometry(input.nodes@, i))
    }
}

/// `s` is the scene that manual mode assembles from `input`: the header and
/// overlays carried over, the canvas taken as given, every node and edge
/// converted in order.
pub open spec fn manual_assembly(input: InputScene, s: Scene) -> bool {
    &&& input.canvas is Some
    &&& s.schema_version == input.schema_version
    &&& s.title == input.title
    &&& s.seed == input.seed
    &&& s.canvas.w == input.canvas->0.w
    &&& s.canvas.h == input.canvas->0.h
    &&& s.canvas.background == input.canvas->0.background
    &&& s.nodes@ == input.nodes@.map_values(|n: InputNode| manual_node(n))
    &&& s.edges@ == input.edges@.map_values(|e: InputEdge| manual_edge(e))
    &&& s.zones == input.zones
    &&& s.texts == input.texts
}

/// Bit pattern of the binary64 value 4096.0, the largest accepted spacing.
pub const MAX_LAYOUT_SPACING_BITS: u64 = 0x40B0_0000_0000_0000;

/// Problem with one spacing parameter: not finite, below zero, or above
/// 4096.0.
pub open spec fn param_issue(name: LayoutParamName, v: Ieee64) -> Option<ErrorView> {
    if !finite64(v.bits) {
        Some(ErrorView::BadLayoutParam { name, problem: ParamProblem::NotFinite })
    } else if negative64(v.bits) {
        Some(ErrorView::BadLayoutParam { name, problem: ParamProblem::Negative(v) })
    } else if above64(v.bits, MAX_LAYOUT_SPACING_BITS) {
        Some(ErrorView::BadLayoutParam { name, problem: ParamProblem::TooLarge(v) })
    } else {
        None
    }
}

/// Problem with the spacing parameters, checked in the order node_sep,
/// rank_sep, margin.
pub open spec fn params_issue(l: Layout) -> Option<ErrorView> {
    or_else(
        param_issue(LayoutParamName::NodeSep, l.node_sep),
        or_else(
            param_issue(LayoutParamName::RankSep, l.rank_sep),
            param_issue(LayoutParamName::Margin, l.margin),
        ),
    )
}

/// Problem with input node `i` in auto mode: explicit coordinates.
pub open spec fn has_coords(nodes: Seq<InputNode>, i: int) -> Option<ErrorView> {
    if nodes[i].x is Some || nodes[i].y is Some {
        Some(ErrorView::AutoHasCoords { node: nodes[i].id@ })
    } else {
        None
    }
}

/// Input node `i` repeats the id of an earlier node.
pub open spec fn input_dup(nodes: Seq<InputNode>, i: int) -> Option<ErrorView> {
    if exists|j: int| 0 <= j < i && #[trigger] nodes[j].id@ == nodes[i].id@ {
        Some(ErrorView::DuplicateId { kind: ElementKind::Node, id: nodes[i].id@ })
    } else {
        None
    }
}

/// Some input node carries id `id`.
pub open spec fn has_input_node(nodes: Seq<InputNode>, id: Seq<char>) -> bool {
    exists|j: int| 0 <= j < nodes.len() && #[trigger] nodes[j].id@ == id
}

/// Input edge `i` names a node that does not exist (`from` checked first).
pub open spec fn dangling(nodes: Seq<InputNode>, edges: Seq<InputEdge>, i: int) -> Option<ErrorView> {
    let e = edges[i];
    if !has_input_node(nodes, e.from@) {
        Some(ErrorView::UnknownNode { edge: e.id@, end: Endpoint::From, node: e.from@ })
    } else if !has_input_node(nodes, e.to@) {
        Some(ErrorView::UnknownNode { edge: e.id@, end: Endpoint::To, node: e.to@ })
    } else {
        None
    }
}

/// Problem auto mode reports before running the engine: a bad spacing
/// parameter, then explicit node coordinates, then a duplicate node id, then
/// a dangling edge endpoint.
pub open spec fn auto_issue(input: InputScene) -> Option<ErrorView> {
    or_else(
        params_issue(input.layout->0),
        or_else(
            first_issue(input.nodes@.len() as int, |i: int| has_coords(input.nodes@, i)),
            or_else(
                first_issue(input.nodes@.len() as int, |i: int| input_dup(input.nodes@, i)),
                first_issue(
                    input.edges@.len() as int,
                    |i: int| dangling(input.nodes@, input.edges@, i),
                ),
            ),
        ),
    )
}

/// The engine's node for an input node.
pub open spec fn layout_node(n: InputNode) -> LayoutNode {
    LayoutNode { id: n.id, label: n.label, shape: n.shape, role: n.role, w: n.w, h: n.h }
}

/// The engine's edge for an input edge.
pub open spec fn layout_edge(e: InputEdge) -> LayoutEdge {
    LayoutEdge {
        id: e.id,
        from: e.from,
        to: e.to,
        label: e.label,
        dashed: e.dashed,
        style: e.style,
    }
}

/// The engine parameters a `layout` block selects.
pub open spec fn layout_params(l: Layout) -> LayoutParams {
    LayoutParams {
        direction: direction_of(l.direction),
        node_sep: l.node_sep,
        rank_sep: l.rank_sep,
        margin: l.margin,
    }
}

/// Problem with the canvas choice once the engine has run: `fit: "fixed"`
/// needs an input canvas and a layout that fits it.
pub open spec fn fit_issue(input: InputScene, m: CanvasMeasure) -> Option<ErrorView> {
    match input.layout->0.fit {
        Fit::Grow => None,
        Fit::Fixed => match input.canvas {
            None => Some(ErrorView::FixedNeedsCanvas),
            Some(c) => if !m.fits {
                Some(
                    ErrorView::DoesNotFit {
                        needed_w: m.needed_w,
                        needed_h: m.needed_h,
                        canvas_w: c.w,
                        canvas_h: c.h,
                    },
                )
            } else {
                None
            },
        },
    }
}

/// The smaller of two numbers.
pub open spec fn min32(a: u32, b: u32) -> u32 {
    if a < b {
        a
    } else {
        b
    }
}

/// `c` is the canvas auto mode picks: for `grow`, the measured size capped at
/// [`MAX_CANVAS_DIM`] with the input background (or `#ffffff`); for `fixed`,
/// the input canvas as given.
pub open spec fn auto_canvas(input: InputScene, m: CanvasMeasure, c: Canvas) -> bool {
    match input.layout->0.fit {
        Fit::Grow => {
            &&& c.w == min32(m.grow_w, MAX_CANVAS_DIM)
            &&& c.h == min32(m.grow_h, MAX_CANVAS_DIM)
            &&& match input.canvas {
                Some(ic) => c.background == ic.background,
                None => c.background@ == seq!['#', 'f', 'f', 'f', 'f', 'f', 'f'],
            }
        },
        Fit::Fixed => {
            &&& input.canvas is Some
            &&& c.w == input.canvas->0.w
            &&& c.h == input.canvas->0.h
            &&& c.background == input.canvas->0.background
        },
    }
}

/// `s` is the scene auto mode assembles: the header and overlays of the
/// input, the chosen canvas, and the engine's nodes and edges.
pub open spec fn auto_assembly(input: InputScene, laid: LaidOut, m: CanvasMeasure, s: Scene) -> bool {
    &&& s.schema_version == input.schema_version
    &&& s.title == input.title
    &&& s.seed == input.seed
    &&& auto_canvas(input, m, s.canvas)
    &&& s.nodes == laid.nodes
    &&& s.edges == laid.edges
    &&& s.zones == input.zones
    &&& s.texts == input.texts
}

/// Assemble the manual-mode scene (not yet validated).
fn assemble_manual(input: InputScene) -> (r: Result<Scene, ValidationError>)
    ensures
        match r {
            Ok(s) => manual_issue(input) is None && manual_assembly(input, s),
            Err(e) => manual_issue(input) == Some(e@),
        },
{
    let ghost given = input;
    let ghost f = |i: int| missing_geometry(input.nodes@, i);
    let InputScene { schema_version, title, seed, layout: _, canvas, nodes: in_nodes, edges: in_edges, zones, texts } = input;
    let canvas = match canvas {
        Some(c) => c,
        None => return Err(ValidationError::ManualNeedsCanvas),
    };
    let mut nodes: Vec<Node> = Vec::new();
    for n in it: in_nodes.into_iter()
        invariant
            it.seq() == given.nodes@,
            f == (|i: int| missing_geometry(given.nodes@, i)),
            given == input,
            given.canvas is Some,
            first_issue(it.index() as int, f) is None,
            nodes@ == given.nodes@.take(it.index() as int).map_values(|n: InputNode| manual_node(n)),
    {
        let ghost i = it.index() as int;
        proof {
            assert(n == given.nodes@[i]);
            assert(f(i) == missing_geometry(given.nodes@, i));
        }
        match (n.x, n.y, n.w, n.h) {
            (Some(x), Some(y), Some(w), Some(h)) => {
                nodes.push(
                    Node { id: n.id, label: n.label, shape: n.shape, x, y, w, h, role: n.role },
                );
            },
            _ => {
                proof {
                    assert(f(i) is Some);
                    lemma_first_issue_stable(i, given.nodes@.len() as int, f);
                }
                return Err(ValidationError::MissingGeometry { node: n.id });
            },
        }
        proof {
            assert(given.nodes@.take(i + 1).map_values(|n: InputNode| manual_node(n))
                =~= given.nodes@.take(i).map_values(|n: InputNode| manual_node(n)).push(
                manual_node(given.nodes@[i]),
            ));
        }
    }
    let mut edges: Vec<Edge> = Vec::new();
    for e in it: in_edges.into_iter()
        invariant
            it.seq() == given.edges@,
            edges@ == given.edges@.take(it.index() as int).map_values(|e: InputEdge| manual_edge(e)),
    {
        let ghost k = it.index() as int;
        proof {
            assert(e == given.edges@[k]);
        }
        edges.push(
            Edge {
                id: e.id,
                from: e.from,
                to: e.to,
                from_port: e.from_port,
                to_port: e.to_port,
                style: e.style,
                dashed: e.dashed,
                waypoints: e.waypoints,
                label: e.label,
                label_pos: e.label_pos,
                label_dx: e.label_dx,
                label_dy: e.label_dy,
                route: None,
                label_anchor: None,
            },
        );
        proof {
            assert(given.edges@.take(k + 1).map_values(|e: InputEdge| manual_edge(e))
                =~= given.edges@.take(k).map_values(|e: InputEdge| manual_edge(e)).push(
                manual_edge(given.edges@[k]),
            ));
        }
    }
    proof {
        assert(given.nodes@.take(given.nodes@.len() as int) =~= given.nodes@);
        assert(given.edges@.take(given.edges@.len() as int) =~= given.edges@);
    }
    Ok(
        Scene {
            schema_version,
            title,
            seed,
            canvas: Canvas { w: canvas.w, h: canvas.h, background: canvas.background },
            nodes,
            edges,
            zones,
            texts,
        },
    )
}

/// Refuse non-finite, negative or oversized layout spacing: a NaN would
/// collapse the canvas, a negative value would pull content off-canvas.
fn validate_layout_params(l: &Layout) -> (r: Result<(), ValidationError>)
    ensures
        reports(r, params_issue(*l)),
{
    validate_param(LayoutParamName::NodeSep, l.node_sep)?;
    validate_param(LayoutParamName::RankSep, l.rank_sep)?;
    validate_param(LayoutParamName::Margin, l.margin)
}

fn validate_param(name: LayoutParamName, v: Ieee64) -> (r: Result<(), ValidationError>)
    ensures
        reports(r, param_issue(name, v)),
{
    if !v.is_finite() {
        return Err(ValidationError::BadLayoutParam { name, problem: ParamProblem::NotFinite });
    }
    if v.is_negative() {
        return Err(ValidationError::BadLayoutParam { name, problem: ParamProblem::Negative(v) });
    }
    if v.is_above(MAX_LAYOUT_SPACING_BITS) {
        return Err(ValidationError::BadLayoutParam { name, problem: ParamProblem::TooLarge(v) });
    }
    Ok(())
}

/// Whether an input node before `i` carries the id of node `i`.
fn input_seen_before(nodes: &Vec<InputNode>, i: usize) -> (r: bool)
    requires
        i < nodes@.len(),
    ensures
        r == exists|j: int| 0 <= j < i && #[trigger] nodes@[j].id@ == nodes@[i as int].id@,
{
    let mut j: usize = 0;
    while j < i
        invariant
            j <= i,
            i < nodes@.len(),
            forall|k: int| 0 <= k < j ==> #[trigger] nodes@[k].id@ != nodes@[i as int].id@,
        decreases i - j,
    {
        if nodes[j].id == nodes[i].id {
            return true;
        }
        j += 1;
    }
    false
}

/// Whether some input node carries id `id`.
fn input_node_exists(nodes: &Vec<InputNode>, id: &String) -> (r: bool)
    ensures
        r == has_input_node(nodes@, id@),
{
    let mut j: usize = 0;
    while j < nodes.len()
        invariant
            j <= nodes@.len(),
            forall|k: int| 0 <= k < j ==> #[trigger] nodes@[k].id@ != id@,
        decreases nodes@.len() - j,
    {
        if nodes[j].id == *id {
            return true;
        }
        j += 1;
    }
    false
}

/// The auto-mode checks that run before the engine, and the graph handed to
/// it (nodes and edges in input order).
fn plan_auto(input: &InputScene) -> (r: Result<(Vec<LayoutNode>, Vec<LayoutEdge>, LayoutParams), ValidationError>)
    requires
        input.layout is Some,
    ensures
        match r {
            Ok((nodes, edges, params)) => {
                &&& auto_issue(*input) is None
                &&& nodes@ == input.nodes@.map_values(|n: InputNode| layout_node(n))
                &&& edges@ == input.edges@.map_values(|e: InputEdge| layout_edge(e))
                &&& params == layout_params(input.layout->0)
            },
            Err(e) => auto_issue(*input) == Some(e@),
        },
{
    let layout = match &input.layout {
        Some(l) => l,
        None => return Err(ValidationError::ManualNeedsCanvas),
    };
    validate_layout_params(layout)?;

    // Explicit coordinates are refused: the engine owns placement, so an
    // `x`/`y` would otherwise be silently dropped.
    let ghost fc = |i: int| has_coords(input.nodes@, i);
    let mut i: usize = 0;
    while i < input.nodes.len()
        invariant
            i <= input.nodes@.len(),
            fc == (|i: int| has_coords(input.nodes@, i)),
            first_issue(i as int, fc) is None,
            input.layout is Some,
            params_issue(input.layout->0) is None,
        decreases input.nodes@.len() - i,
    {
        proof {
            assert(fc(i as int) == has_coords(input.nodes@, i as int));
        }
        if input.nodes[i].x.is_some() || input.nodes[i].y.is_some() {
            proof {
                lemma_first_issue_stable(i as int, input.nodes@.len() as int, fc);
            }
            return Err(ValidationError::AutoHasCoords { node: input.nodes[i].id.clone() });
        }
        i += 1;
    }

    // The engine would invent a phantom node for an unknown endpoint and
    // merge duplicate ids, so both are refused up front.
    let ghost fd = |i: int| input_dup(input.nodes@, i);
    let mut i: usize = 0;
    while i < input.nodes.len()
        invariant
            i <= input.nodes@.len(),
            fd == (|i: int| input_dup(input.nodes@, i)),
            first_issue(i as int, fd) is None,
            fc == (|i: int| has_coords(input.nodes@, i)),
            input.layout is Some,
            params_issue(input.layout->0) is None,
            first_issue(input.nodes@.len() as int, fc) is None,
        decreases input.nodes@.len() - i,
    {
        proof {
            assert(fd(i as int) == input_dup(input.nodes@, i as int));
        }
        if input_seen_before(&input.nodes, i) {
            proof {
                lemma_first_issue_stable(i as int, input.nodes@.len() as int, fd);
            }
            return Err(
                ValidationError::DuplicateId { kind: ElementKind::Node, id: input.nodes[i].id.clone() },
            );
        }
        i += 1;
    }
    let ghost fe = |i: int| dangling(input.nodes@, input.edges@, i);
    let mut k: usize = 0;
    while k < input.edges.len()
        invariant
            k <= input.edges@.len(),
            fe == (|i: int| dangling(input.nodes@, input.edges@, i)),
            first_issue(k as int, fe) is None,
            fc == (|i: int| has_coords(input.nodes@, i)),
            fd == (|i: int| input_dup(input.nodes@, i)),
            input.layout is Some,
            params_issue(input.layout->0) is None,
            first_issue(input.nodes@.len() as int, fc) is None,
            first_issue(input.nodes@.len() as int, fd) is None,
        decreases input.edges@.len() - k,
    {
        let e = &input.edges[k];
        proof {
            assert(fe(k as int) == dangling(input.nodes@, input.edges@, k as int));
        }
        if !input_node_exists(&input.nodes, &e.from) {
            proof {
                lemma_first_issue_stable(k as int, input.edges@.len() as int, fe);
            }
            return Err(
                ValidationError::UnknownNode {
                    edge: e.id.clone(),
                    end: Endpoint::From,
                    node: e.from.clone(),
                },
            );
        }
        if !input_node_exists(&input.nodes, &e.to) {
            proof {
                lemma_first_issue_stable(k as int, input.edges@.len() as int, fe);
            }
            return Err(
                ValidationError::UnknownNode { edge: e.id.clone(), end: Endpoint::To, node: e.to.clone() },
            );
        }
        k += 1;
    }

    let mut lnodes: Vec<LayoutNode> = Vec::new();
    let mut i: usize = 0;
    while i < input.nodes.len()
        invariant
            i <= input.nodes@.len(),
            lnodes@ == input.nodes@.take(i as int).map_values(|n: InputNode| layout_node(n)),
        decreases input.nodes@.len() - i,
    {
        let n = &input.nodes[i];
        lnodes.push(
            LayoutNode {
                id: n.id.clone(),
                label: n.label.clone(),
                shape: n.shape,
                role: n.role,
                w: n.w,
                h: n.h,
            },
        );
        proof {
            assert(input.nodes@.take(i + 1).map_values(|n: InputNode| layout_node(n))
                =~= input.nodes@.take(i as int).map_values(|n: InputNode| layout_node(n)).push(
                layout_node(input.nodes@[i as int]),
            ));
        }
        i += 1;
    }
    let mut ledges: Vec<LayoutEdge> = Vec::new();
    let mut k: usize = 0;
    while k < input.edges.len()
        invariant
            k <= input.edges@.len(),
            ledges@ == input.edges@.take(k as int).map_values(|e: InputEdge| layout_edge(e)),
        decreases input.edges@.len() - k,
    {
        let e = &input.edges[k];
        ledges.push(
            LayoutEdge {
                id: e.id.clone(),
                from: e.from.clone(),
                to: e.to.clone(),
                label: e.label.clone(),
                dashed: e.dashed,
                style: e.style,
            },
        );
        proof {
            assert(input.edges@.take(k + 1).map_values(|e: InputEdge| layout_edge(e))
                =~= input.edges@.take(k as int).map_values(|e: InputEdge| layout_edge(e)).push(
                layout_edge(input.edges@[k as int]),
            ));
        }
        k += 1;
    }
    proof {
        assert(input.nodes@.take(input.nodes@.len() as int) =~= input.nodes@);
        assert(input.edges@.take(input.edges@.len() as int) =~= input.edges@);
    }
    let params = LayoutParams {
        direction: Direction::from(layout.direction),
        node_sep: layout.node_sep,
        rank_sep: layout.rank_sep,
        margin: layout.margin,
    };
    Ok((lnodes, ledges, params))
}

/// Resolve an input scene, first step. Manual mode (no `layout` block)
/// finishes here with the assembled and validated scene. Auto mode runs the
/// pre-engine checks and asks for a layout of the graph.
pub fn resolve_scene(input: InputScene) -> (r: Result<Resolution, ValidationError>)
    ensures
        input.layout is None ==> match r {
            Ok(Resolution::Ready(s)) => {
                &&& manual_issue(input) is None
                &&& manual_assembly(input, s)
                &&& scene_issue(s) is None
            },
            Ok(Resolution::NeedsLayout { .. }) => false,
            Err(e) => manual_issue(input) == Some(e@) || (manual_issue(input) is None && exists|s: Scene|
                manual_assembly(input, s) && #[trigger] scene_issue(s) == Some(e@)),
        },
        input.layout is Some ==> match r {
            Ok(Resolution::Ready(_)) => false,
            Ok(Resolution::NeedsLayout { input: back, nodes, edges, params }) => {
                &&& auto_issue(input) is None
                &&& back == input
                &&& nodes@ == input.nodes@.map_values(|n: InputNode| layout_node(n))
                &&& edges@ == input.edges@.map_values(|e: InputEdge| layout_edge(e))
                &&& params == layout_params(input.layout->0)
            },
            Err(e) => auto_issue(input) == Some(e@),
        },
{
    if input.layout.is_none() {
        let ghost given = input;
        let scene = assemble_manual(input)?;
        let checked = scene.validate();
        match checked {
            Ok(()) => Ok(Resolution::Ready(scene)),
            Err(e) => {
                proof {
                    assert(manual_assembly(given, scene) && scene_issue(scene) == Some(e@));
                }
                Err(e)
            },
        }
    } else {
        let (nodes, edges, params) = plan_auto(&input)?;
        Ok(Resolution::NeedsLayout { input, nodes, edges, params })
    }
}

/// Resolve an input scene, second step (auto mode): choose the canvas from
/// the measured layout, assemble the scene from the engine's nodes and edges
/// and the input's header and overlays, and validate it.
pub fn finish_auto(input: InputScene, laid: LaidOut, m: CanvasMeasure) -> (r: Result<
    Scene,
    ValidationError,
>)
    requires
        input.layout is Some,
    ensures
        match r {
            Ok(s) => {
                &&& fit_issue(input, m) is None
                &&& auto_assembly(input, laid, m, s)
                &&& scene_issue(s) is None
            },
            Err(e) => fit_issue(input, m) == Some(e@) || (fit_issue(input, m) is None && exists|s: Scene|
                auto_assembly(input, laid, m, s) && #[trigger] scene_issue(s) == Some(e@)),
        },
{
    let ghost given = input;
    let fit = match &input.layout {
        Some(l) => l.fit,
        None => Fit::Grow,
    };
    let InputScene { schema_version, title, seed, layout: _, canvas: in_canvas, nodes: _, edges: _, zones, texts } = input;
    let canvas = match fit {
        Fit::Grow => {
            let background = match in_canvas {
                Some(c) => c.background,
                None => default_background(),
            };
            Canvas {
                w: if m.grow_w < MAX_CANVAS_DIM { m.grow_w } else { MAX_CANVAS_DIM },
                h: if m.grow_h < MAX_CANVAS_DIM { m.grow_h } else { MAX_CANVAS_DIM },
                background,
            }
        },
        Fit::Fixed => {
            let c = match in_canvas {
                Some(c) => c,
                None => return Err(ValidationError::FixedNeedsCanvas),
            };
            if !m.fits {
                return Err(
                    ValidationError::DoesNotFit {
                        needed_w: m.needed_w,
                        needed_h: m.needed_h,
                        canvas_w: c.w,
                        canvas_h: c.h,
                    },
                );
            }
            Canvas { w: c.w, h: c.h, background: c.background }
        },
    };
    let scene = Scene {
        schema_version,
        title,
        seed,
        canvas,
        nodes: laid.nodes,
        edges: laid.edges,
        zones,
        texts,
    };
    match scene.validate() {
        Ok(()) => Ok(scene),
        Err(e) => {
            proof {
                assert(auto_assembly(given, laid, m, scene) && scene_issue(scene) == Some(e@));
            }
            Err(e)
        },
    }
}

} // verus!
