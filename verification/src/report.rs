//! The words of a [`ValidationError`]: which element, field or limit it is
//! about, with ids quoted as `{:?}` quotes them. The few errors that carry a
//! float (a layout parameter, the size a layout needs) take its text from the
//! caller, which asks [`ValidationError::numbers`] which numbers to write.

use vstd::prelude::*;
use crate::ieee::{Ieee32, Ieee64};
use crate::scene::{
    Coord, Counted, ElementKind, Endpoint, ErrorView, LayoutParamName, ParamProblem, TextField,
    ValidationError, SCHEMA_VERSION,
};
use crate::strings::{debug_quoted, debug_text, decimal, decimal_string, push_all};

verus! {

/// A float an error carries, by its bits.
#[derive(Debug, Clone, Copy, PartialEq, Eq)]
pub enum Number {
    Single(Ieee32),
    Double(Ieee64),
}

/// The floats an error's message writes, in the order it writes them.
pub open spec fn numbers_of(e: ErrorView) -> Seq<Number> {
    match e {
        ErrorView::BadLayoutParam { problem: ParamProblem::Negative(v), .. } => seq![Number::Double(v)],
        ErrorView::BadLayoutParam { problem: ParamProblem::TooLarge(v), .. } => seq![Number::Double(v)],
        ErrorView::DoesNotFit { needed_w, needed_h, .. } => seq![
            Number::Single(needed_w),
            Number::Single(needed_h),
        ],
        _ => Seq::empty(),
    }
}

pub open spec fn kind_word(k: ElementKind) -> Seq<char> {
    match k {
        ElementKind::Node => "node"@,
        ElementKind::Edge => "edge"@,
        ElementKind::Zone => "zone"@,
        ElementKind::Text => "text"@,
    }
}

pub open spec fn counted_word(c: Counted) -> Seq<char> {
    match c {
        Counted::Nodes => "nodes"@,
        Counted::Edges => "edges"@,
        Counted::Zones => "zones"@,
        Counted::Texts => "texts"@,
        Counted::Waypoints => "edge.waypoints"@,
        Counted::Route => "edge.route"@,
    }
}

pub open spec fn field_word(f: TextField) -> Seq<char> {
    match f {
        TextField::NodeLabel => "node.label"@,
        TextField::EdgeLabel => "edge.label"@,
        TextField::ZoneLabel => "zone.label"@,
        TextField::TextText => "text.text"@,
        TextField::Title => "title"@,
    }
}

pub open spec fn param_word(p: LayoutParamName) -> Seq<char> {
    match p {
        LayoutParamName::NodeSep => "node_sep"@,
        LayoutParamName::RankSep => "rank_sep"@,
        LayoutParamName::Margin => "margin"@,
    }
}

/// The message for a number of element `id` that is not finite.
pub open spec fn not_finite_message(kind: ElementKind, id: Seq<char>, coord: Coord) -> Seq<char> {
    let q = debug_text(id);
    match (kind, coord) {
        (ElementKind::Edge, Coord::WaypointX(i)) => "edge "@ + q + " waypoint "@ + decimal(i as nat)
            + " x must be finite"@,
        (ElementKind::Edge, Coord::WaypointY(i)) => "edge "@ + q + " waypoint "@ + decimal(i as nat)
            + " y must be finite"@,
        (ElementKind::Edge, Coord::LabelPos) => "edge "@ + q + " label_pos not finite"@,
        (ElementKind::Edge, Coord::LabelDx) => "edge "@ + q + " label_dx must be finite"@,
        (ElementKind::Edge, Coord::LabelDy) => "edge "@ + q + " label_dy must be finite"@,
        (ElementKind::Edge, Coord::RouteX(i)) => "edge "@ + q + " route "@ + decimal(i as nat)
            + " x must be finite"@,
        (ElementKind::Edge, Coord::RouteY(i)) => "edge "@ + q + " route "@ + decimal(i as nat)
            + " y must be finite"@,
        (ElementKind::Edge, Coord::AnchorX) => "edge "@ + q + " label_anchor x must be finite"@,
        (ElementKind::Edge, Coord::AnchorY) => "edge "@ + q + " label_anchor y must be finite"@,
        (ElementKind::Text, Coord::X) => "text "@ + q + " x must be finite"@,
        (ElementKind::Text, Coord::Y) => "text "@ + q + " y must be finite"@,
        (_, Coord::X) => id + " x must be finite"@,
        (_, Coord::Y) => id + " y must be finite"@,
        (_, Coord::W) => id + " w must be finite"@,
        (_, Coord::H) => id + " h must be finite"@,
        _ => id + " must be finite"@,
    }
}

/// The message of an error, with `nums` the texts of [`numbers_of`] it.
pub open spec fn validation_message(e: ErrorView, nums: Seq<Seq<char>>) -> Seq<char> {
    match e {
        ErrorView::SchemaVersion { found } => "unexpected schema_version "@ + debug_text(found)
            + ", expected "@ + debug_text(SCHEMA_VERSION@),
        ErrorView::EmptyCanvas => "canvas dimensions must be > 0"@,
        ErrorView::CanvasTooLarge => "canvas dimension exceeds max 8192"@,
        ErrorView::BadColor { what, value } => what + " must be a #hex color, got "@ + debug_text(
            value,
        ),
        ErrorView::TooMany { items, n, max } => "too many "@ + counted_word(items) + ": "@ + decimal(
            n,
        ) + " > "@ + decimal(max),
        ErrorView::EmptyId { kind } => kind_word(kind) + " id must not be empty"@,
        ErrorView::IdTooLong { kind } => kind_word(kind) + " id too long"@,
        ErrorView::DuplicateId { kind, id } => "duplicate "@ + kind_word(kind) + " id "@
            + debug_text(id),
        ErrorView::UnknownNode { edge, end, node } => "edge "@ + debug_text(edge)
            + " references unknown "@ + (match end {
            Endpoint::From => "from"@,
            Endpoint::To => "to"@,
        }) + " node "@ + debug_text(node),
        ErrorView::TooLong { field, len } => field_word(field) + " too long ("@ + decimal(len)
            + " bytes)"@,
        ErrorView::NotFinite { kind, id, coord } => not_finite_message(kind, id, coord),
        ErrorView::NonPositiveSize { id, .. } => id + " w/h must be > 0"@,
        ErrorView::RouteTooShort { edge, len } => "edge "@ + debug_text(edge)
            + " route must have at least 2 points, got "@ + decimal(len),
        ErrorView::ManualNeedsCanvas => "manual mode requires a canvas"@,
        ErrorView::MissingGeometry { node } => "node "@ + debug_text(node)
            + " requires x, y, w, h in manual mode (add a layout block for auto placement)"@,
        ErrorView::AutoHasCoords { node } => "node "@ + debug_text(node)
            + " has x/y but layout.mode is auto; remove coordinates (the engine places nodes) or drop the layout block for manual mode"@,
        ErrorView::BadLayoutParam { name, problem } => match problem {
            ParamProblem::NotFinite => "layout."@ + param_word(name) + " must be finite"@,
            ParamProblem::Negative(_) => "layout."@ + param_word(name) + " must be >= 0, got "@
                + nums[0],
            ParamProblem::TooLarge(_) => "layout."@ + param_word(name) + " ("@ + nums[0]
                + ") exceeds max 4096"@,
        },
        ErrorView::FixedNeedsCanvas => "fit \"fixed\" requires a canvas"@,
        ErrorView::DoesNotFit { canvas_w, canvas_h, .. } => "layout ("@ + nums[0] + "x"@ + nums[1]
            + ") does not fit fixed canvas ("@ + decimal(canvas_w as nat) + "x"@ + decimal(
            canvas_h as nat,
        ) + "); use fit \"grow\" or enlarge the canvas"@,
    }
}

fn push_quoted(out: &mut String, s: &str)
    ensures
        final(out)@ == old(out)@ + debug_text(s@),
{
    let q = debug_quoted(s);
    push_all(out, q.as_str());
}

fn push_decimal(out: &mut String, n: u64)
    ensures
        final(out)@ == old(out)@ + decimal(n as nat),
{
    let d = decimal_string(n);
    push_all(out, d.as_str());
}

fn push_kind(out: &mut String, k: ElementKind)
    ensures
        final(out)@ == old(out)@ + kind_word(k),
{
    match k {
        ElementKind::Node => push_all(out, "node"),
        ElementKind::Edge => push_all(out, "edge"),
        ElementKind::Zone => push_all(out, "zone"),
        ElementKind::Text => push_all(out, "text"),
    }
}

fn push_counted(out: &mut String, c: Counted)
    ensures
        final(out)@ == old(out)@ + counted_word(c),
{
    match c {
        Counted::Nodes => push_all(out, "nodes"),
        Counted::Edges => push_all(out, "edges"),
        Counted::Zones => push_all(out, "zones"),
        Counted::Texts => push_all(out, "texts"),
        Counted::Waypoints => push_all(out, "edge.waypoints"),
        Counted::Route => push_all(out, "edge.route"),
    }
}

fn push_field(out: &mut String, f: TextField)
    ensures
        final(out)@ == old(out)@ + field_word(f),
{
    match f {
        TextField::NodeLabel => push_all(out, "node.label"),
        TextField::EdgeLabel => push_all(out, "edge.label"),
        TextField::ZoneLabel => push_all(out, "zone.label"),
        TextField::TextText => push_all(out, "text.text"),
        TextField::Title => push_all(out, "title"),
    }
}

fn push_param(out: &mut String, p: LayoutParamName)
    ensures
        final(out)@ == old(out)@ + param_word(p),
{
    match p {
        LayoutParamName::NodeSep => push_all(out, "node_sep"),
        LayoutParamName::RankSep => push_all(out, "rank_sep"),
        LayoutParamName::Margin => push_all(out, "margin"),
    }
}

fn not_finite_text(kind: ElementKind, id: &String, coord: Coord) -> (r: String)
    ensures
        r@ == not_finite_message(kind, id@, coord),
{
    let mut out = String::new();
    match (kind, coord) {
        (ElementKind::Edge, Coord::WaypointX(i)) => {
            push_all(&mut out, "edge ");
            push_quoted(&mut out, id.as_str());
            push_all(&mut out, " waypoint ");
            push_decimal(&mut out, i as u64);
            push_all(&mut out, " x must be finite");
        },
        (ElementKind::Edge, Coord::WaypointY(i)) => {
            push_all(&mut out, "edge ");
            push_quoted(&mut out, id.as_str());
            push_all(&mut out, " waypoint ");
            push_decimal(&mut out, i as u64);
            push_all(&mut out, " y must be finite");
        },
        (ElementKind::Edge, Coord::LabelPos) => {
            push_all(&mut out, "edge ");
            push_quoted(&mut out, id.as_str());
            push_all(&mut out, " label_pos not finite");
        },
        (ElementKind::Edge, Coord::LabelDx) => {
            push_all(&mut out, "edge ");
            push_quoted(&mut out, id.as_str());
            push_all(&mut out, " label_dx must be finite");
        },
        (ElementKind::Edge, Coord::LabelDy) => {
            push_all(&mut out, "edge ");
            push_quoted(&mut out, id.as_str());
            push_all(&mut out, " label_dy must be finite");
        },
        (ElementKind::Edge, Coord::RouteX(i)) => {
            push_all(&mut out, "edge ");
            push_quoted(&mut out, id.as_str());
            push_all(&mut out, " route ");
            push_decimal(&mut out, i as u64);
            push_all(&mut out, " x must be finite");
        },
        (ElementKind::Edge, Coord::RouteY(i)) => {
            push_all(&mut out, "edge ");
            push_quoted(&mut out, id.as_str());
            push_all(&mut out, " route ");
            push_decimal(&mut out, i as u64);
            push_all(&mut out, " y must be finite");
        },
        (ElementKind::Edge, Coord::AnchorX) => {
            push_all(&mut out, "edge ");
            push_quoted(&mut out, id.as_str());
            push_all(&mut out, " label_anchor x must be finite");
        },
        (ElementKind::Edge, Coord::AnchorY) => {
            push_all(&mut out, "edge ");
            push_quoted(&mut out, id.as_str());
            push_all(&mut out, " label_anchor y must be finite");
        },
        (ElementKind::Text, Coord::X) => {
            push_all(&mut out, "text ");
            push_quoted(&mut out, id.as_str());
            push_all(&mut out, " x must be finite");
        },
        (ElementKind::Text, Coord::Y) => {
            push_all(&mut out, "text ");
            push_quoted(&mut out, id.as_str());
            push_all(&mut out, " y must be finite");
        },
        (_, Coord::X) => {
            push_all(&mut out, id.as_str());
            push_all(&mut out, " x must be finite");
        },
        (_, Coord::Y) => {
            push_all(&mut out, id.as_str());
            push_all(&mut out, " y must be finite");
        },
        (_, Coord::W) => {
            push_all(&mut out, id.as_str());
            push_all(&mut out, " w must be finite");
        },
        (_, Coord::H) => {
            push_all(&mut out, id.as_str());
            push_all(&mut out, " h must be finite");
        },
        _ => {
            push_all(&mut out, id.as_str());
            push_all(&mut out, " must be finite");
        },
    }
    proof {
        reveal_strlit("");
        assert(out@ =~= not_finite_message(kind, id@, coord));
    }
    out
}

impl ValidationError {
    /// The floats the message writes, in order; the caller writes each as
    /// `{}` does and hands the texts to [`ValidationError::message`].
    pub fn numbers(&self) -> (r: Vec<Number>)
        ensures
            r@ == numbers_of(self@),
    {
        let mut r: Vec<Number> = Vec::new();
        match self {
            ValidationError::BadLayoutParam { problem: ParamProblem::Negative(v), .. } => {
                r.push(Number::Double(*v));
            },
            ValidationError::BadLayoutParam { problem: ParamProblem::TooLarge(v), .. } => {
                r.push(Number::Double(*v));
            },
            ValidationError::DoesNotFit { needed_w, needed_h, .. } => {
                r.push(Number::Single(*needed_w));
                r.push(Number::Single(*needed_h));
            },
            _ => {},
        }
        proof {
            assert(r@ =~= numbers_of(self@));
        }
        r
    }

    /// The human-readable message of the error; `nums` are the texts of
    /// [`ValidationError::numbers`], in order.
    pub fn message(&self, nums: &Vec<String>) -> (r: String)
        requires
            nums@.len() == numbers_of(self@).len(),
        ensures
            r@ == validation_message(self@, nums@.map_values(|s: String| s@)),
    {
        let ghost ns = nums@.map_values(|s: String| s@);
        let mut out = String::new();
        match self {
            ValidationError::SchemaVersion { found } => {
                push_all(&mut out, "unexpected schema_version ");
                push_quoted(&mut out, found.as_str());
                push_all(&mut out, ", expected ");
                push_quoted(&mut out, SCHEMA_VERSION);
            },
            ValidationError::EmptyCanvas => push_all(&mut out, "canvas dimensions must be > 0"),
            ValidationError::CanvasTooLarge => push_all(
                &mut out,
                "canvas dimension exceeds max 8192",
            ),
            ValidationError::BadColor { what, value } => {
                push_all(&mut out, what.as_str());
                push_all(&mut out, " must be a #hex color, got ");
                push_quoted(&mut out, value.as_str());
            },
            ValidationError::TooMany { items, n, max } => {
                push_all(&mut out, "too many ");
                push_counted(&mut out, *items);
                push_all(&mut out, ": ");
                push_decimal(&mut out, *n as u64);
                push_all(&mut out, " > ");
                push_decimal(&mut out, *max as u64);
            },
            ValidationError::EmptyId { kind } => {
                push_kind(&mut out, *kind);
                push_all(&mut out, " id must not be empty");
            },
            ValidationError::IdTooLong { kind } => {
                push_kind(&mut out, *kind);
                push_all(&mut out, " id too long");
            },
            ValidationError::DuplicateId { kind, id } => {
                push_all(&mut out, "duplicate ");
                push_kind(&mut out, *kind);
                push_all(&mut out, " id ");
                push_quoted(&mut out, id.as_str());
            },
            ValidationError::UnknownNode { edge, end, node } => {
                push_all(&mut out, "edge ");
                push_quoted(&mut out, edge.as_str());
                push_all(&mut out, " references unknown ");
                match end {
                    Endpoint::From => push_all(&mut out, "from"),
                    Endpoint::To => push_all(&mut out, "to"),
                }
                push_all(&mut out, " node ");
                push_quoted(&mut out, node.as_str());
            },
            ValidationError::TooLong { field, len } => {
                push_field(&mut out, *field);
                push_all(&mut out, " too long (");
                push_decimal(&mut out, *len as u64);
                push_all(&mut out, " bytes)");
            },
            ValidationError::NotFinite { kind, id, coord } => {
                let t = not_finite_text(*kind, id, *coord);
                push_all(&mut out, t.as_str());
            },
            ValidationError::NonPositiveSize { id, .. } => {
                push_all(&mut out, id.as_str());
                push_all(&mut out, " w/h must be > 0");
            },
            ValidationError::RouteTooShort { edge, len } => {
                push_all(&mut out, "edge ");
                push_quoted(&mut out, edge.as_str());
                push_all(&mut out, " route must have at least 2 points, got ");
                push_decimal(&mut out, *len as u64);
            },
            ValidationError::ManualNeedsCanvas => push_all(
                &mut out,
                "manual mode requires a canvas",
            ),
            ValidationError::MissingGeometry { node } => {
                push_all(&mut out, "node ");
                push_quoted(&mut out, node.as_str());
                push_all(
                    &mut out,
                    " requires x, y, w, h in manual mode (add a layout block for auto placement)",
                );
            },
            ValidationError::AutoHasCoords { node } => {
                push_all(&mut out, "node ");
                push_quoted(&mut out, node.as_str());
                push_all(
                    &mut out,
                    " has x/y but layout.mode is auto; remove coordinates (the engine places nodes) or drop the layout block for manual mode",
                );
            },
            ValidationError::BadLayoutParam { name, problem } => {
                push_all(&mut out, "layout.");
                push_param(&mut out, *name);
                match problem {
                    ParamProblem::NotFinite => push_all(&mut out, " must be finite"),
                    ParamProblem::Negative(_) => {
                        push_all(&mut out, " must be >= 0, got ");
                        push_all(&mut out, nums[0].as_str());
                    },
                    ParamProblem::TooLarge(_) => {
                        push_all(&mut out, " (");
                        push_all(&mut out, nums[0].as_str());
                        push_all(&mut out, ") exceeds max 4096");
                    },
                }
            },
            ValidationError::FixedNeedsCanvas => push_all(
                &mut out,
                "fit \"fixed\" requires a canvas",
            ),
            ValidationError::DoesNotFit { canvas_w, canvas_h, .. } => {
                push_all(&mut out, "layout (");
                push_all(&mut out, nums[0].as_str());
                push_all(&mut out, "x");
                push_all(&mut out, nums[1].as_str());
                push_all(&mut out, ") does not fit fixed canvas (");
                push_decimal(&mut out, *canvas_w as u64);
                push_all(&mut out, "x");
                push_decimal(&mut out, *canvas_h as u64);
                push_all(&mut out, "); use fit \"grow\" or enlarge the canvas");
            },
        }
        proof {
            reveal_strlit("");
            assert(out@ =~= validation_message(self@, ns));
        }
        out
    }
}

} // verus!
