//! The string side of SVG rendering: every user-supplied string is
//! XML-escaped and every color is checked to be `#hex` before it reaches the
//! document, so no `url(...)`, `<image>` or external reference can leak into
//! the output.

use vstd::prelude::*;
use crate::scene::{
    edge_issue, edges_issue, first_issue, geometry_issue, has_node, hex_color, scene_valid,
    validate_color, Edge, ErrorView, Node, Scene, Zone,
};
use crate::strings::{decimal, decimal_string, push_all, push_char, str_equals, to_owned_string};

verus! {

/// Default label font family (the embedded handwriting font).
pub const DEFAULT_FONT_FAMILY: &'static str = "Yomogi";

/// The escaped form of one character: the five XML special characters become
/// entities, every other character stands for itself.
pub open spec fn escape_char(c: char) -> Seq<char> {
    if c == '&' {
        seq!['&', 'a', 'm', 'p', ';']
    } else if c == '<' {
        seq!['&', 'l', 't', ';']
    } else if c == '>' {
        seq!['&', 'g', 't', ';']
    } else if c == '"' {
        seq!['&', 'q', 'u', 'o', 't', ';']
    } else if c == '\'' {
        seq!['&', 'a', 'p', 'o', 's', ';']
    } else {
        seq![c]
    }
}

/// A string with every character replaced by its escaped form.
pub open spec fn xml_escaped(s: Seq<char>) -> Seq<char>
    decreases s.len(),
{
    if s.len() == 0 {
        Seq::empty()
    } else {
        xml_escaped(s.drop_last()) + escape_char(s.last())
    }
}

/// A character that would let text break out of an element or attribute.
pub open spec fn is_markup(c: char) -> bool {
    c == '<' || c == '>' || c == '"' || c == '\''
}

/// Escaped text holds no `<`, `>`, `"` or `'`, so it can neither open or close
/// an element nor end an attribute value.
pub proof fn lemma_escaped_has_no_markup(s: Seq<char>)
    ensures
        forall|i: int| 0 <= i < xml_escaped(s).len() ==> !is_markup(#[trigger] xml_escaped(s)[i]),
    decreases s.len(),
{
    if s.len() > 0 {
        lemma_escaped_has_no_markup(s.drop_last());
        let prev = xml_escaped(s.drop_last());
        let tail = escape_char(s.last());
        assert forall|i: int| 0 <= i < xml_escaped(s).len() implies !is_markup(
            #[trigger] xml_escaped(s)[i],
        ) by {
            if i >= prev.len() {
                assert(xml_escaped(s)[i] == tail[i - prev.len()]);
            } else {
                assert(xml_escaped(s)[i] == prev[i]);
            }
        }
    }
}

/// One of the five characters escaping replaces.
pub open spec fn is_xml_special(c: char) -> bool {
    c == '&' || c == '<' || c == '>' || c == '"' || c == '\''
}

/// Undo the escaping: read from the front, each of the five entities
/// `&amp;`, `&lt;`, `&gt;`, `&quot;`, `&apos;` stands for its character and
/// every other character for itself.
pub open spec fn xml_unescaped(r: Seq<char>) -> Seq<char>
    decreases r.len(),
{
    if r.len() == 0 {
        Seq::empty()
    } else if r.len() >= 5 && r.take(5) == seq!['&', 'a', 'm', 'p', ';'] {
        seq!['&'] + xml_unescaped(r.skip(5))
    } else if r.len() >= 4 && r.take(4) == seq!['&', 'l', 't', ';'] {
        seq!['<'] + xml_unescaped(r.skip(4))
    } else if r.len() >= 4 && r.take(4) == seq!['&', 'g', 't', ';'] {
        seq!['>'] + xml_unescaped(r.skip(4))
    } else if r.len() >= 6 && r.take(6) == seq!['&', 'q', 'u', 'o', 't', ';'] {
        seq!['"'] + xml_unescaped(r.skip(6))
    } else if r.len() >= 6 && r.take(6) == seq!['&', 'a', 'p', 'o', 's', ';'] {
        seq!['\''] + xml_unescaped(r.skip(6))
    } else {
        seq![r[0]] + xml_unescaped(r.skip(1))
    }
}

/// Escaping a concatenation escapes each part.
pub proof fn lemma_escape_concat(a: Seq<char>, b: Seq<char>)
    ensures
        xml_escaped(a + b) == xml_escaped(a) + xml_escaped(b),
    decreases b.len(),
{
    if b.len() == 0 {
        assert(a + b =~= a);
        assert(xml_escaped(a) + xml_escaped(b) =~= xml_escaped(a));
    } else {
        lemma_escape_concat(a, b.drop_last());
        assert((a + b).drop_last() =~= a + b.drop_last());
        assert((a + b).last() == b.last());
        assert(xml_escaped(a) + xml_escaped(b) =~= xml_escaped(a) + xml_escaped(b.drop_last())
            + escape_char(b.last()));
    }
}

/// Text comes back unchanged from escaping exactly when it holds none of the
/// five special characters.
pub proof fn lemma_escape_unchanged(s: Seq<char>)
    ensures
        xml_escaped(s).len() >= s.len(),
        (xml_escaped(s) == s) <==> (forall|i: int| 0 <= i < s.len() ==> !is_xml_special(s[i])),
    decreases s.len(),
{
    if s.len() > 0 {
        let p = s.drop_last();
        lemma_escape_unchanged(p);
        let c = s.last();
        if forall|i: int| 0 <= i < s.len() ==> !is_xml_special(s[i]) {
            assert forall|i: int| 0 <= i < p.len() implies !is_xml_special(p[i]) by {
                assert(p[i] == s[i]);
            }
            assert(!is_xml_special(s[s.len() - 1]));
            assert(xml_escaped(s) =~= s);
        } else {
            let i = choose|i: int| 0 <= i < s.len() && is_xml_special(s[i]);
            if i == s.len() - 1 {
                assert(escape_char(c).len() > 1);
            } else {
                assert(p[i] == s[i]);
                assert(xml_escaped(p) != p);
                assert(xml_escaped(p).len() > p.len()) by {
                    if xml_escaped(p).len() == p.len() {
                        lemma_escape_same_len(p);
                    }
                }
            }
            assert(xml_escaped(s).len() > s.len());
        }
    } else {
        assert(xml_escaped(s) =~= s);
    }
}

proof fn lemma_escape_same_len(s: Seq<char>)
    requires
        xml_escaped(s).len() == s.len(),
    ensures
        xml_escaped(s) == s,
    decreases s.len(),
{
    if s.len() > 0 {
        lemma_escape_unchanged(s.drop_last());
        lemma_escape_same_len(s.drop_last());
        assert(xml_escaped(s) =~= s);
    } else {
        assert(xml_escaped(s) =~= s);
    }
}

proof fn lemma_unescape_step(c: char, rest: Seq<char>)
    ensures
        xml_unescaped(escape_char(c) + rest) == seq![c] + xml_unescaped(rest),
{
    let r = escape_char(c) + rest;
    let e = escape_char(c);
    assert(r.take(e.len() as int) =~= e);
    assert(r.skip(e.len() as int) =~= rest);
    if !is_xml_special(c) {
        assert(r[0] == c);
        assert(r.skip(1) =~= rest);
        if r.len() >= 4 {
            assert(r.take(4)[0] == c);
        }
        if r.len() >= 5 {
            assert(r.take(5)[0] == c);
        }
        if r.len() >= 6 {
            assert(r.take(6)[0] == c);
        }
    } else if c == '&' {
    } else if c == '<' {
        if r.len() >= 5 {
            assert(r.take(5)[1] == 'l');
        }
    } else if c == '>' {
        if r.len() >= 5 {
            assert(r.take(5)[1] == 'g');
        }
        assert(r.take(4)[1] == 'g');
    } else if c == '"' {
        assert(r.take(5)[1] == 'q');
        assert(r.take(4)[1] == 'q');
    } else {
        assert(r.take(5)[1] == 'a' && r.take(5)[2] == 'p');
        assert(r.take(4)[1] == 'a');
        assert(r.take(6)[1] == 'a' && r.take(6)[2] == 'p');
    }
}

/// Unescaping escaped text gives the text back.
pub proof fn lemma_unescape_escaped(s: Seq<char>)
    ensures
        xml_unescaped(xml_escaped(s)) == s,
    decreases s.len(),
{
    if s.len() == 0 {
    } else {
        let rest = s.drop_first();
        lemma_unescape_escaped(rest);
        assert(s =~= seq![s[0]] + rest);
        lemma_escape_concat(seq![s[0]], rest);
        assert(seq![s[0]].drop_last() =~= Seq::<char>::empty());
        assert(seq![s[0]].last() == s[0]);
        assert(xml_escaped(Seq::<char>::empty()) =~= Seq::<char>::empty());
        assert(xml_escaped(seq![s[0]]) =~= escape_char(s[0]));
        lemma_unescape_step(s[0], xml_escaped(rest));
    }
}

/// Escape the five XML special characters so user text cannot break out of
/// an element or attribute.
pub fn xml_escape(s: &str) -> (r: String)
    ensures
        r@ == xml_escaped(s@),
{
    let mut out = String::new();
    for c in it: s.chars()
        invariant
            it.seq() == s@,
            out@ == xml_escaped(s@.take(it.index() as int)),
    {
        let ghost i = it.index() as int;
        proof {
            assert(s@.take(i + 1).drop_last() =~= s@.take(i));
            assert(s@.take(i + 1).last() == c);
        }
        if c == '&' {
            push_char(&mut out, '&');
            push_char(&mut out, 'a');
            push_char(&mut out, 'm');
            push_char(&mut out, 'p');
            push_char(&mut out, ';');
        } else if c == '<' {
            push_char(&mut out, '&');
            push_char(&mut out, 'l');
            push_char(&mut out, 't');
            push_char(&mut out, ';');
        } else if c == '>' {
            push_char(&mut out, '&');
            push_char(&mut out, 'g');
            push_char(&mut out, 't');
            push_char(&mut out, ';');
        } else if c == '"' {
            push_char(&mut out, '&');
            push_char(&mut out, 'q');
            push_char(&mut out, 'u');
            push_char(&mut out, 'o');
            push_char(&mut out, 't');
            push_char(&mut out, ';');
        } else if c == '\'' {
            push_char(&mut out, '&');
            push_char(&mut out, 'a');
            push_char(&mut out, 'p');
            push_char(&mut out, 'o');
            push_char(&mut out, 's');
            push_char(&mut out, ';');
        } else {
            push_char(&mut out, c);
        }
        proof {
            assert(out@ =~= xml_escaped(s@.take(i)) + escape_char(c));
        }
    }
    proof {
        assert(s@.take(s@.len() as int) =~= s@);
    }
    out
}

/// `color` if it is a valid `#hex` color, otherwise `fallback`: an
/// unvalidated color never reaches an SVG attribute.
pub fn safe_color(color: &str, fallback: &str) -> (r: String)
    ensures
        r@ == (if hex_color(color@) {
            color@
        } else {
            fallback@
        }),
        hex_color(fallback@) ==> hex_color(r@),
{
    if validate_color(color, "color").is_ok() {
        to_owned_string(color)
    } else {
        to_owned_string(fallback)
    }
}


/// One drawing step of a scene, naming the elements it draws by index.
#[derive(Debug, Clone, Copy, PartialEq, Eq)]
pub enum Draw {
    /// The box of zone `i`.
    Zone(usize),
    /// The label of zone `i`.
    ZoneLabel(usize),
    /// Edge `e`, from node `from` to node `to`.
    Edge(usize, usize, usize),
    /// The shape of node `i`.
    Node(usize),
    /// The label of node `i`.
    NodeLabel(usize),
    /// The label of edge `e` (from node `from` to node `to`).
    EdgeLabel(usize, usize, usize),
    /// Free text `i`.
    Text(usize),
}

/// The last node below index `k` whose id is `id` (an id map built in node
/// order keeps the last node of each id).
pub open spec fn last_with_id(nodes: Seq<Node>, id: Seq<char>, k: int) -> Option<int>
    decreases k,
{
    if k <= 0 {
        None
    } else if nodes[k - 1].id@ == id {
        Some(k - 1)
    } else {
        last_with_id(nodes, id, k - 1)
    }
}

/// The nodes an edge is drawn between, when it is drawn at all: both ends name
/// a node, and an explicit route, if any, has at least two points.
pub open spec fn drawn_ends(nodes: Seq<Node>, e: Edge) -> Option<(int, int)> {
    match (last_with_id(nodes, e.from@, nodes.len() as int), last_with_id(
        nodes,
        e.to@,
        nodes.len() as int,
    )) {
        (Some(f), Some(t)) => if e.route matches Some(r) && r@.len() < 2 {
            None
        } else {
            Some((f, t))
        },
        _ => None,
    }
}

/// The drawing steps of zones `0..k`: each box, then its label if it has one.
pub open spec fn zone_draws(zones: Seq<Zone>, k: int) -> Seq<Draw>
    decreases k,
{
    if k <= 0 {
        Seq::empty()
    } else {
        let i = k - 1;
        zone_draws(zones, i) + seq![Draw::Zone(i as usize)] + if zones[i].label@.len() > 0 {
            seq![Draw::ZoneLabel(i as usize)]
        } else {
            Seq::empty()
        }
    }
}

/// The drawing steps of edges `0..k`: each edge that is drawn.
pub open spec fn edge_draws(nodes: Seq<Node>, edges: Seq<Edge>, k: int) -> Seq<Draw>
    decreases k,
{
    if k <= 0 {
        Seq::empty()
    } else {
        let i = k - 1;
        edge_draws(nodes, edges, i) + match drawn_ends(nodes, edges[i]) {
            Some((f, t)) => seq![Draw::Edge(i as usize, f as usize, t as usize)],
            None => Seq::empty(),
        }
    }
}

/// The drawing steps of nodes `0..k`: each shape, then its label if it has
/// one.
pub open spec fn node_draws(nodes: Seq<Node>, k: int) -> Seq<Draw>
    decreases k,
{
    if k <= 0 {
        Seq::empty()
    } else {
        let i = k - 1;
        node_draws(nodes, i) + seq![Draw::Node(i as usize)] + if nodes[i].label@.len() > 0 {
            seq![Draw::NodeLabel(i as usize)]
        } else {
            Seq::empty()
        }
    }
}

/// The labels of edges `0..k`: those of the drawn edges that have a
/// non-empty label.
pub open spec fn edge_label_draws(nodes: Seq<Node>, edges: Seq<Edge>, k: int) -> Seq<Draw>
    decreases k,
{
    if k <= 0 {
        Seq::empty()
    } else {
        let i = k - 1;
        edge_label_draws(nodes, edges, i) + match drawn_ends(nodes, edges[i]) {
            Some((f, t)) => if edges[i].label matches Some(l) && l@.len() > 0 {
                seq![Draw::EdgeLabel(i as usize, f as usize, t as usize)]
            } else {
                Seq::empty()
            },
            None => Seq::empty(),
        }
    }
}

/// The drawing steps of free texts `0..k`.
pub open spec fn text_draws(k: int) -> Seq<Draw>
    decreases k,
{
    if k <= 0 {
        Seq::empty()
    } else {
        text_draws(k - 1) + seq![Draw::Text((k - 1) as usize)]
    }
}

/// Everything drawn for a scene, in drawing order: zones, edges, nodes, edge
/// labels, free texts. Nodes come after the edges so the sketchy lines do not
/// poke over the boxes, and every text comes after every shape.
pub open spec fn draw_order(s: Scene) -> Seq<Draw> {
    zone_draws(s.zones@, s.zones@.len() as int) + edge_draws(s.nodes@, s.edges@, s.edges@.len() as int)
        + node_draws(s.nodes@, s.nodes@.len() as int) + edge_label_draws(
        s.nodes@,
        s.edges@,
        s.edges@.len() as int,
    ) + text_draws(s.texts@.len() as int)
}

/// The index of the last node with id `id`, as an id map built in node order
/// finds it.
fn find_node(nodes: &Vec<Node>, id: &String) -> (r: Option<usize>)
    ensures
        match last_with_id(nodes@, id@, nodes@.len() as int) {
            Some(k) => r == Some(k as usize),
            None => r is None,
        },
{
    let mut k = nodes.len();
    while k > 0
        invariant
            k <= nodes@.len(),
            last_with_id(nodes@, id@, nodes@.len() as int) == last_with_id(nodes@, id@, k as int),
        decreases k,
    {
        if str_equals(nodes[k - 1].id.as_str(), id.as_str()) {
            return Some(k - 1);
        }
        k -= 1;
    }
    None
}

/// The nodes an edge is drawn between, if it is drawn.
fn edge_ends(nodes: &Vec<Node>, e: &Edge) -> (r: Option<(usize, usize)>)
    ensures
        match drawn_ends(nodes@, *e) {
            Some((f, t)) => r == Some((f as usize, t as usize)),
            None => r is None,
        },
{
    let f = find_node(nodes, &e.from);
    let t = find_node(nodes, &e.to);
    match (f, t) {
        (Some(f), Some(t)) => {
            let short = match &e.route {
                Some(r) => r.len() < 2,
                None => false,
            };
            if short {
                None
            } else {
                Some((f, t))
            }
        },
        _ => None,
    }
}

proof fn lemma_node_draws_cover(nodes: Seq<Node>, k: int)
    requires
        k <= nodes.len(),
        nodes.len() <= usize::MAX,
    ensures
        forall|i: int|
            0 <= i < k ==> #[trigger] node_draws(nodes, k).contains(Draw::Node(i as usize)),
        forall|i: int|
            0 <= i < k ==> (#[trigger] node_draws(nodes, k).contains(Draw::NodeLabel(i as usize))
                <==> nodes[i].label@.len() > 0),
    decreases k,
{
    if k > 0 {
        lemma_node_draws_cover(nodes, k - 1);
        let prev = node_draws(nodes, k - 1);
        let tail = seq![Draw::Node((k - 1) as usize)] + if nodes[k - 1].label@.len() > 0 {
            seq![Draw::NodeLabel((k - 1) as usize)]
        } else {
            Seq::empty()
        };
        let all = node_draws(nodes, k);
        assert(all =~= prev + tail);
        assert forall|i: int| 0 <= i < k implies #[trigger] all.contains(Draw::Node(i as usize)) by {
            if i < k - 1 {
                assert(node_draws(nodes, k - 1).contains(Draw::Node(i as usize)));
                let j = choose|j: int| 0 <= j < prev.len() && prev[j] == Draw::Node(i as usize);
                assert(all[j] == prev[j]);
            } else {
                assert(all[prev.len() as int] == Draw::Node(i as usize));
            }
        }
        assert forall|i: int| 0 <= i < k implies (#[trigger] all.contains(Draw::NodeLabel(i as usize)) <==> nodes[i].label@.len() > 0) by {
            if all.contains(Draw::NodeLabel(i as usize)) {
                let j = choose|j: int| 0 <= j < all.len() && all[j] == Draw::NodeLabel(i as usize);
                if j < prev.len() {
                    assert(prev[j] == all[j]);
                    assert(node_draws(nodes, k - 1).contains(Draw::NodeLabel(i as usize)));
                    if i == k - 1 {
                        lemma_node_draws_below(nodes, k - 1);
                        let d = node_draws(nodes, k - 1)[j];
                        assert(d == Draw::NodeLabel(i as usize));
                        assert(false);
                    }
                } else {
                    assert(tail[j - prev.len()] == all[j]);
                    if j - prev.len() == 0 {
                        assert(tail[0] == Draw::Node((k - 1) as usize));
                    } else {
                        assert(tail.len() == 2);
                    }
                }
            }
            if nodes[i].label@.len() > 0 {
                if i < k - 1 {
                    assert(node_draws(nodes, k - 1).contains(Draw::NodeLabel(i as usize)));
                    let j = choose|j: int| 0 <= j < prev.len() && prev[j] == Draw::NodeLabel(
                        i as usize,
                    );
                    assert(all[j] == prev[j]);
                } else {
                    assert(all[prev.len() as int + 1] == Draw::NodeLabel(i as usize));
                }
            }
        }
    }
}

proof fn lemma_node_draws_below(nodes: Seq<Node>, k: int)
    requires
        0 <= k <= nodes.len(),
        nodes.len() <= usize::MAX,
    ensures
        forall|j: int|
            0 <= j < node_draws(nodes, k).len() ==> match #[trigger] node_draws(nodes, k)[j] {
                Draw::Node(i) => i < k,
                Draw::NodeLabel(i) => i < k,
                _ => false,
            },
    decreases k,
{
    if k > 0 {
        lemma_node_draws_below(nodes, k - 1);
        let prev = node_draws(nodes, k - 1);
        let all = node_draws(nodes, k);
        assert forall|j: int| 0 <= j < all.len() implies match #[trigger] all[j] {
            Draw::Node(i) => i < k,
            Draw::NodeLabel(i) => i < k,
            _ => false,
        } by {
            if j < prev.len() {
                assert(all[j] == prev[j]);
            }
        }
    }
}

/// Every node of a scene is drawn, and its label is drawn exactly when it is
/// not empty, whatever the node's shape.
pub proof fn lemma_every_node_and_label_drawn(s: Scene)
    ensures
        forall|i: int|
            0 <= i < s.nodes@.len() ==> #[trigger] draw_order(s).contains(Draw::Node(i as usize)),
        forall|i: int|
            0 <= i < s.nodes@.len() ==> (#[trigger] draw_order(s).contains(Draw::NodeLabel(i as usize)) <==> s.nodes@[i].label@.len() > 0),
{
    let nodes = s.nodes@;
    assert(nodes.len() == s.nodes.len());
    let z = zone_draws(s.zones@, s.zones@.len() as int);
    let e = edge_draws(nodes, s.edges@, s.edges@.len() as int);
    let n = node_draws(nodes, nodes.len() as int);
    let l = edge_label_draws(nodes, s.edges@, s.edges@.len() as int);
    let t = text_draws(s.texts@.len() as int);
    lemma_node_draws_cover(nodes, nodes.len() as int);
    lemma_zone_layer(s.zones@, s.zones@.len() as int);
    lemma_edge_layer(nodes, s.edges@, s.edges@.len() as int);
    lemma_edge_label_layer(nodes, s.edges@, s.edges@.len() as int);
    lemma_text_layer(s.texts@.len() as int);
    let p = draw_order(s);
    assert(p =~= z + e + n + l + t);
    let off = z.len() + e.len();
    assert forall|x: Draw| (x is Node || x is NodeLabel) implies (p.contains(x) <==> n.contains(x)) by {
        if p.contains(x) {
            let j = choose|j: int| 0 <= j < p.len() && p[j] == x;
            if j < z.len() {
                assert(p[j] == z[j]);
                assert(layer(z[j]) == 0);
            } else if j < off {
                assert(p[j] == e[j - z.len()]);
                assert(layer(e[j - z.len()]) == 1);
            } else if j < off + n.len() {
                assert(p[j] == n[j - off]);
            } else if j < off + n.len() + l.len() {
                assert(p[j] == l[j - off - n.len()]);
                assert(layer(l[j - off - n.len()]) == 3);
            } else {
                assert(p[j] == t[j - off - n.len() - l.len()]);
                assert(layer(t[j - off - n.len() - l.len()]) == 4);
            }
        }
        if n.contains(x) {
            let j = choose|j: int| 0 <= j < n.len() && n[j] == x;
            assert(p[off + j] == n[j]);
        }
    }
    assert forall|i: int| 0 <= i < nodes.len() implies #[trigger] p.contains(Draw::Node(i as usize)) by {
        assert(n.contains(Draw::Node(i as usize)));
    }
    assert forall|i: int| 0 <= i < nodes.len() implies (#[trigger] p.contains(Draw::NodeLabel(i as usize)) <==> nodes[i].label@.len() > 0) by {
        assert(n.contains(Draw::NodeLabel(i as usize)) <==> nodes[i].label@.len() > 0);
    }
}

/// The drawing steps of a scene, in the order they are painted.
pub fn draw_plan(s: &Scene) -> (r: Vec<Draw>)
    ensures
        r@ == draw_order(*s),
        forall|i: int|
            0 <= i < s.nodes@.len() ==> (#[trigger] r@.contains(Draw::NodeLabel(i as usize))
                <==> s.nodes@[i].label@.len() > 0),
{
    proof {
        lemma_every_node_and_label_drawn(*s);
    }
    let mut out: Vec<Draw> = Vec::new();
    let mut i: usize = 0;
    while i < s.zones.len()
        invariant
            i <= s.zones@.len(),
            out@ == zone_draws(s.zones@, i as int),
        decreases s.zones@.len() - i,
    {
        out.push(Draw::Zone(i));
        if !s.zones[i].label.as_str().is_empty() {
            out.push(Draw::ZoneLabel(i));
        }
        i += 1;
    }
    let ghost zones_part = out@;
    let mut i: usize = 0;
    while i < s.edges.len()
        invariant
            i <= s.edges@.len(),
            out@ == zones_part + edge_draws(s.nodes@, s.edges@, i as int),
        decreases s.edges@.len() - i,
    {
        if let Some((f, t)) = edge_ends(&s.nodes, &s.edges[i]) {
            out.push(Draw::Edge(i, f, t));
        }
        i += 1;
    }
    let ghost edges_part = out@;
    let mut i: usize = 0;
    while i < s.nodes.len()
        invariant
            i <= s.nodes@.len(),
            out@ == edges_part + node_draws(s.nodes@, i as int),
        decreases s.nodes@.len() - i,
    {
        out.push(Draw::Node(i));
        if !s.nodes[i].label.as_str().is_empty() {
            out.push(Draw::NodeLabel(i));
        }
        i += 1;
    }
    let ghost nodes_part = out@;
    let mut i: usize = 0;
    while i < s.edges.len()
        invariant
            i <= s.edges@.len(),
            out@ == nodes_part + edge_label_draws(s.nodes@, s.edges@, i as int),
        decreases s.edges@.len() - i,
    {
        if let Some((f, t)) = edge_ends(&s.nodes, &s.edges[i]) {
            let labelled = match &s.edges[i].label {
                Some(l) => !l.as_str().is_empty(),
                None => false,
            };
            if labelled {
                out.push(Draw::EdgeLabel(i, f, t));
            }
        }
        i += 1;
    }
    let ghost labels_part = out@;
    let mut i: usize = 0;
    while i < s.texts.len()
        invariant
            i <= s.texts@.len(),
            out@ == labels_part + text_draws(i as int),
        decreases s.texts@.len() - i,
    {
        out.push(Draw::Text(i));
        i += 1;
    }
    out
}

/// The opening tag of the SVG document for a `w` by `h` canvas.
pub open spec fn svg_open(w: u32, h: u32) -> Seq<char> {
    "<svg xmlns=\"http://www.w3.org/2000/svg\" width=\""@ + decimal(w as nat) + "\" height=\""@
        + decimal(h as nat) + "\" viewBox=\"0 0 "@ + decimal(w as nat) + " "@ + decimal(h as nat)
        + "\">\n"@
}

/// The document title element, absent for an empty title.
pub open spec fn title_part(title: Seq<char>) -> Seq<char> {
    if title.len() == 0 {
        Seq::empty()
    } else {
        "<title>"@ + xml_escaped(title) + "</title>\n"@
    }
}

/// The background rectangle: the whole canvas in the background color, or
/// white when that color is not a valid `#hex` color.
pub open spec fn background_part(w: u32, h: u32, background: Seq<char>) -> Seq<char> {
    "<rect width=\""@ + decimal(w as nat) + "\" height=\""@ + decimal(h as nat) + "\" fill=\""@ + (
    if hex_color(background) {
        background
    } else {
        "#ffffff"@
    }) + "\"/>\n"@
}

/// The document prelude ends with the background rectangle's fill: the
/// canvas background itself when it is a valid `#hex` color, white only when
/// it is not.
pub proof fn lemma_prelude_keeps_background(s: Scene)
    ensures
        ({
            let p = svg_open(s.canvas.w, s.canvas.h) + title_part(s.title@) + background_part(
                s.canvas.w,
                s.canvas.h,
                s.canvas.background@,
            );
            let bg = s.canvas.background@;
            &&& p.len() >= 17
            &&& p.subrange(p.len() - 4, p.len() as int) == "\"/>\n"@
            &&& hex_color(bg) ==> p.len() >= bg.len() + 10 && p.subrange(
                p.len() - 4 - bg.len(),
                p.len() - 4,
            ) == bg && p.subrange(p.len() - 10 - bg.len(), p.len() - 4 - bg.len())
                == "fill=\""@
            &&& !hex_color(bg) ==> p.subrange(p.len() - 17, p.len() - 4) == "fill=\"#ffffff"@
        }),
{
    reveal_strlit("\"/>\n");
    reveal_strlit("fill=\"");
    reveal_strlit("fill=\"#ffffff");
    reveal_strlit("#ffffff");
    reveal_strlit("\" fill=\"");
    let w = s.canvas.w;
    let h = s.canvas.h;
    let bg = s.canvas.background@;
    let c = if hex_color(bg) {
        bg
    } else {
        "#ffffff"@
    };
    let head = svg_open(w, h) + title_part(s.title@) + "<rect width=\""@ + decimal(w as nat)
        + "\" height=\""@ + decimal(h as nat);
    let p = svg_open(w, h) + title_part(s.title@) + background_part(w, h, bg);
    assert(p =~= head + "\" fill=\""@ + c + "\"/>\n"@);
    let n = p.len();
    assert(p.subrange(n - 4, n as int) =~= "\"/>\n"@);
    assert(p.subrange(n - 4 - c.len(), n - 4) =~= c);
    assert(p.subrange(n - 10 - c.len(), n - 4 - c.len()) =~= "fill=\""@);
    if !hex_color(bg) {
        assert(p.subrange(n - 17, n - 4) =~= "fill=\"#ffffff"@);
    }
}

/// The start of a scene's SVG document, before anything is drawn: the opening
/// tag, the title, the background.
pub fn svg_prelude(s: &Scene) -> (r: String)
    ensures
        r@ == svg_open(s.canvas.w, s.canvas.h) + title_part(s.title@) + background_part(
            s.canvas.w,
            s.canvas.h,
            s.canvas.background@,
        ),
        hex_color(s.canvas.background@) ==> r@.len() >= s.canvas.background@.len() + 10
            && r@.subrange(r@.len() - 4 - s.canvas.background@.len(), r@.len() - 4)
            == s.canvas.background@,
{
    proof {
        lemma_prelude_keeps_background(*s);
    }
    let w = decimal_string(s.canvas.w as u64);
    let h = decimal_string(s.canvas.h as u64);
    let mut out = String::new();
    push_all(&mut out, "<svg xmlns=\"http://www.w3.org/2000/svg\" width=\"");
    push_all(&mut out, w.as_str());
    push_all(&mut out, "\" height=\"");
    push_all(&mut out, h.as_str());
    push_all(&mut out, "\" viewBox=\"0 0 ");
    push_all(&mut out, w.as_str());
    push_all(&mut out, " ");
    push_all(&mut out, h.as_str());
    push_all(&mut out, "\">\n");
    let ghost open = out@;
    if !s.title.as_str().is_empty() {
        push_all(&mut out, "<title>");
        let t = xml_escape(s.title.as_str());
        push_all(&mut out, t.as_str());
        push_all(&mut out, "</title>\n");
    }
    proof {
        reveal_strlit("");
    }
    let ghost titled = out@;
    assert(titled == open + title_part(s.title@));
    push_all(&mut out, "<rect width=\"");
    push_all(&mut out, w.as_str());
    push_all(&mut out, "\" height=\"");
    push_all(&mut out, h.as_str());
    push_all(&mut out, "\" fill=\"");
    let bg = safe_color(s.canvas.background.as_str(), "#ffffff");
    push_all(&mut out, bg.as_str());
    push_all(&mut out, "\"/>\n");
    out
}

/// The end of the SVG document.
pub fn svg_close() -> (r: String)
    ensures
        r@ == "</svg>\n"@,
{
    to_owned_string("</svg>\n")
}


/// The layer a drawing step belongs to: zones, edges, nodes, edge labels,
/// free texts, bottom to top.
pub open spec fn layer(d: Draw) -> int {
    match d {
        Draw::Zone(_) | Draw::ZoneLabel(_) => 0,
        Draw::Edge(_, _, _) => 1,
        Draw::Node(_) | Draw::NodeLabel(_) => 2,
        Draw::EdgeLabel(_, _, _) => 3,
        Draw::Text(_) => 4,
    }
}

/// Every step of `steps` lies in layer `l`.
pub open spec fn all_in_layer(steps: Seq<Draw>, l: int) -> bool {
    forall|i: int| 0 <= i < steps.len() ==> layer(#[trigger] steps[i]) == l
}

proof fn lemma_zone_layer(zones: Seq<Zone>, k: int)
    ensures
        all_in_layer(zone_draws(zones, k), 0),
    decreases k,
{
    if k > 0 {
        lemma_zone_layer(zones, k - 1);
    }
}

proof fn lemma_edge_layer(nodes: Seq<Node>, edges: Seq<Edge>, k: int)
    ensures
        all_in_layer(edge_draws(nodes, edges, k), 1),
    decreases k,
{
    if k > 0 {
        lemma_edge_layer(nodes, edges, k - 1);
    }
}

proof fn lemma_node_layer(nodes: Seq<Node>, k: int)
    ensures
        all_in_layer(node_draws(nodes, k), 2),
    decreases k,
{
    if k > 0 {
        lemma_node_layer(nodes, k - 1);
    }
}

proof fn lemma_edge_label_layer(nodes: Seq<Node>, edges: Seq<Edge>, k: int)
    ensures
        all_in_layer(edge_label_draws(nodes, edges, k), 3),
    decreases k,
{
    if k > 0 {
        lemma_edge_label_layer(nodes, edges, k - 1);
    }
}

proof fn lemma_text_layer(k: int)
    ensures
        all_in_layer(text_draws(k), 4),
    decreases k,
{
    if k > 0 {
        lemma_text_layer(k - 1);
    }
}

/// The drawing order goes up the layers and never comes back down: zones
/// first, then edges, then nodes on top of the edges, then the edge labels
/// and the free texts on top of every shape.
pub proof fn lemma_draw_order_layers(s: Scene)
    ensures
        forall|i: int, j: int|
            0 <= i < j < draw_order(s).len() ==> layer(#[trigger] draw_order(s)[i]) <= layer(
                #[trigger] draw_order(s)[j],
            ),
{
    let z = zone_draws(s.zones@, s.zones@.len() as int);
    let e = edge_draws(s.nodes@, s.edges@, s.edges@.len() as int);
    let n = node_draws(s.nodes@, s.nodes@.len() as int);
    let l = edge_label_draws(s.nodes@, s.edges@, s.edges@.len() as int);
    let t = text_draws(s.texts@.len() as int);
    lemma_zone_layer(s.zones@, s.zones@.len() as int);
    lemma_edge_layer(s.nodes@, s.edges@, s.edges@.len() as int);
    lemma_node_layer(s.nodes@, s.nodes@.len() as int);
    lemma_edge_label_layer(s.nodes@, s.edges@, s.edges@.len() as int);
    lemma_text_layer(s.texts@.len() as int);
    let p = draw_order(s);
    assert forall|i: int| 0 <= i < p.len() implies layer(#[trigger] p[i]) == (if i < z.len() {
        0int
    } else if i < z.len() + e.len() {
        1int
    } else if i < z.len() + e.len() + n.len() {
        2int
    } else if i < z.len() + e.len() + n.len() + l.len() {
        3int
    } else {
        4int
    }) by {
        if i < z.len() {
            assert(p[i] == z[i]);
        } else if i < z.len() + e.len() {
            assert(p[i] == e[i - z.len()]);
        } else if i < z.len() + e.len() + n.len() {
            assert(p[i] == n[i - z.len() - e.len()]);
        } else if i < z.len() + e.len() + n.len() + l.len() {
            assert(p[i] == l[i - z.len() - e.len() - n.len()]);
        } else {
            assert(p[i] == t[i - z.len() - e.len() - n.len() - l.len()]);
        }
    }
}

proof fn lemma_first_issue_none(k: int, f: spec_fn(int) -> Option<ErrorView>, i: int)
    requires
        first_issue(k, f) is None,
        0 <= i < k,
    ensures
        f(i) is None,
    decreases k,
{
    if i < k - 1 {
        lemma_first_issue_none(k - 1, f, i);
    }
}

proof fn lemma_named_node_found(nodes: Seq<Node>, id: Seq<char>, k: int, j: int)
    requires
        0 <= j < k <= nodes.len(),
        nodes[j].id@ == id,
    ensures
        last_with_id(nodes, id, k) is Some,
    decreases k,
{
    if nodes[k - 1].id@ != id {
        lemma_named_node_found(nodes, id, k - 1, j);
    }
}

/// In a scene that passes validation every edge is drawn: both of its ends
/// name a node and any explicit route has at least two points.
pub proof fn lemma_valid_scene_draws_every_edge(s: Scene)
    requires
        scene_valid(s),
    ensures
        forall|i: int|
            0 <= i < s.edges@.len() ==> #[trigger] drawn_ends(s.nodes@, s.edges@[i]) is Some,
{
    assert forall|i: int| 0 <= i < s.edges@.len() implies #[trigger] drawn_ends(
        s.nodes@,
        s.edges@[i],
    ) is Some by {
        let f = |k: int| edge_issue(s.nodes@, s.edges@, k);
        assert(edges_issue(s) is None);
        lemma_first_issue_none(s.edges@.len() as int, f, i);
        assert(edge_issue(s.nodes@, s.edges@, i) is None);
        let e = s.edges@[i];
        assert(has_node(s.nodes@, e.from@));
        assert(has_node(s.nodes@, e.to@));
        let jf = choose|j: int| 0 <= j < s.nodes@.len() && #[trigger] s.nodes@[j].id@ == e.from@;
        let jt = choose|j: int| 0 <= j < s.nodes@.len() && #[trigger] s.nodes@[j].id@ == e.to@;
        lemma_named_node_found(s.nodes@, e.from@, s.nodes@.len() as int, jf);
        lemma_named_node_found(s.nodes@, e.to@, s.nodes@.len() as int, jt);
        assert(geometry_issue(e) is None);
    }
}

} // verus!
