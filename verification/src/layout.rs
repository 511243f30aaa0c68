//! Auto-layout data: what is handed to the layered layout engine and what
//! comes back, plus the engine-independent parts of a layout run: the
//! canonical insertion order that makes the result independent of how the
//! scene was written, and the label metrics that size the boxes.

use vstd::prelude::*;
use crate::ieee::{Ieee32, Ieee64};
use crate::scene::{Edge, EdgeStyle, Node, Point, Role, Shape};
use crate::strings::{chars_of, push_char, same_chars};

verus! {

/// Layout direction.
#[derive(Debug, Clone, Copy, PartialEq, Eq)]
pub enum Direction {
    /// Left-to-right ranks.
    Lr,
    /// Top-to-bottom ranks.
    Tb,
}

/// Tunable spacing for the layered layout (all in canvas pixels, binary64).
#[derive(Debug, Clone, Copy)]
pub struct LayoutParams {
    pub direction: Direction,
    pub node_sep: Ieee64,
    pub rank_sep: Ieee64,
    pub margin: Ieee64,
}

/// Bit pattern of the binary64 value 55.0, the default node separation.
pub const DEFAULT_NODE_SEP_BITS: u64 = 0x404B_8000_0000_0000;
/// Bit pattern of the binary64 value 90.0, the default rank separation.
pub const DEFAULT_RANK_SEP_BITS: u64 = 0x4056_8000_0000_0000;
/// Bit pattern of the binary64 value 30.0, the default margin.
pub const DEFAULT_MARGIN_BITS: u64 = 0x403E_0000_0000_0000;

impl Default for LayoutParams {
    fn default() -> (r: Self)
        ensures
            r.direction == Direction::Lr,
            r.node_sep.bits == DEFAULT_NODE_SEP_BITS,
            r.rank_sep.bits == DEFAULT_RANK_SEP_BITS,
            r.margin.bits == DEFAULT_MARGIN_BITS,
    {
        LayoutParams {
            direction: Direction::Lr,
            node_sep: Ieee64 { bits: DEFAULT_NODE_SEP_BITS },
            rank_sep: Ieee64 { bits: DEFAULT_RANK_SEP_BITS },
            margin: Ieee64 { bits: DEFAULT_MARGIN_BITS },
        }
    }
}

/// A node to be placed: identity, label (for sizing), shape, role, and an
/// optional caller-supplied size override per dimension.
#[derive(Debug, Clone)]
pub struct LayoutNode {
    pub id: String,
    pub label: String,
    pub shape: Shape,
    pub role: Option<Role>,
    pub w: Option<Ieee32>,
    pub h: Option<Ieee32>,
}

/// An edge to be routed: endpoints by node id, an optional label, and the
/// originating edge id.
#[derive(Debug, Clone)]
pub struct LayoutEdge {
    pub id: String,
    pub from: String,
    pub to: String,
    pub label: Option<String>,
    pub dashed: bool,
    pub style: EdgeStyle,
}

/// The placed result: render-ready nodes and edges (edges carrying an
/// explicit route), plus the largest x and y reached by any node box or route
/// point, for canvas fitting.
#[derive(Debug, Clone)]
pub struct LaidOut {
    pub nodes: Vec<Node>,
    pub edges: Vec<Edge>,
    pub max_x: Ieee32,
    pub max_y: Ieee32,
}

/// Strict lexicographic order on character sequences, comparing characters
/// by code point. This is the order of `str`'s `Ord` (UTF-8 encoding
/// preserves code point order).
pub open spec fn lex_lt(a: Seq<char>, b: Seq<char>) -> bool
    decreases a.len(),
{
    if b.len() == 0 {
        false
    } else if a.len() == 0 {
        true
    } else if a[0] != b[0] {
        a[0] < b[0]
    } else {
        lex_lt(a.drop_first(), b.drop_first())
    }
}

/// No sequence is below itself.
pub proof fn lemma_lex_irreflexive(a: Seq<char>)
    ensures
        !lex_lt(a, a),
    decreases a.len(),
{
    if a.len() > 0 {
        lemma_lex_irreflexive(a.drop_first());
    }
}

/// The lexicographic order is transitive.
pub proof fn lemma_lex_transitive(a: Seq<char>, b: Seq<char>, c: Seq<char>)
    requires
        lex_lt(a, b),
        lex_lt(b, c),
    ensures
        lex_lt(a, c),
    decreases a.len(),
{
    if a.len() > 0 && b.len() > 0 && c.len() > 0 && a[0] == b[0] && b[0] == c[0] {
        lemma_lex_transitive(a.drop_first(), b.drop_first(), c.drop_first());
    }
}

/// Two different sequences are ordered one way or the other.
pub proof fn lemma_lex_total(a: Seq<char>, b: Seq<char>)
    ensures
        a == b || lex_lt(a, b) || lex_lt(b, a),
    decreases a.len(),
{
    if a.len() > 0 && b.len() > 0 && a[0] == b[0] {
        lemma_lex_total(a.drop_first(), b.drop_first());
        if a.drop_first() == b.drop_first() {
            assert(a =~= seq![a[0]] + a.drop_first());
            assert(b =~= seq![b[0]] + b.drop_first());
        }
    } else if a.len() == 0 && b.len() == 0 {
        assert(a =~= b);
    }
}

/// After a common prefix, the order is decided by what follows it.
proof fn lemma_lex_skip(a: Seq<char>, b: Seq<char>, i: int)
    requires
        0 <= i <= a.len(),
        i <= b.len(),
        a.take(i) == b.take(i),
    ensures
        lex_lt(a, b) == lex_lt(a.skip(i), b.skip(i)),
    decreases i,
{
    if i > 0 {
        assert(a[0] == a.take(i)[0] && b[0] == b.take(i)[0]);
        assert(a.drop_first().take(i - 1) =~= a.take(i).drop_first());
        assert(b.drop_first().take(i - 1) =~= b.take(i).drop_first());
        lemma_lex_skip(a.drop_first(), b.drop_first(), i - 1);
        assert(a.drop_first().skip(i - 1) =~= a.skip(i));
        assert(b.drop_first().skip(i - 1) =~= b.skip(i));
    } else {
        assert(a.skip(0) =~= a);
        assert(b.skip(0) =~= b);
    }
}

/// Whether `a` is lexicographically below `b`.
fn lex_less(a: &Vec<char>, b: &Vec<char>) -> (r: bool)
    ensures
        r == lex_lt(a@, b@),
{
    let mut i: usize = 0;
    while i < a.len() && i < b.len() && a[i] == b[i]
        invariant
            i <= a@.len(),
            i <= b@.len(),
            a@.take(i as int) == b@.take(i as int),
        decreases a@.len() - i,
    {
        proof {
            assert(a@.take(i + 1) =~= a@.take(i as int).push(a@[i as int]));
            assert(b@.take(i + 1) =~= b@.take(i as int).push(b@[i as int]));
        }
        i += 1;
    }
    proof {
        lemma_lex_skip(a@, b@, i as int);
    }
    if i < a.len() && i < b.len() {
        a[i] < b[i]
    } else {
        i == a.len() && i < b.len()
    }
}

/// Keys with a strict weak order, for the stable canonical sort.
pub trait SortKey: Sized {
    /// The strict order on keys.
    spec fn key_lt(self, other: Self) -> bool;

    fn less(&self, other: &Self) -> (r: bool)
        ensures
            r == self.key_lt(*other),
    ;

    /// Irreflexive, transitive, and `a < b` implies `a < c` or `c < b`.
    proof fn lemma_weak_order(a: Self, b: Self, c: Self)
        ensures
            !a.key_lt(a),
            a.key_lt(b) && b.key_lt(c) ==> a.key_lt(c),
            a.key_lt(b) ==> a.key_lt(c) || c.key_lt(b),
    ;
}

/// A node's sort key: its id.
pub struct NodeKey {
    pub id: Vec<char>,
}

impl SortKey for NodeKey {
    open spec fn key_lt(self, other: Self) -> bool {
        lex_lt(self.id@, other.id@)
    }

    fn less(&self, other: &Self) -> (r: bool) {
        lex_less(&self.id, &other.id)
    }

    proof fn lemma_weak_order(a: Self, b: Self, c: Self) {
        lemma_lex_irreflexive(a.id@);
        if a.key_lt(b) && b.key_lt(c) {
            lemma_lex_transitive(a.id@, b.id@, c.id@);
        }
        if a.key_lt(b) {
            lemma_lex_total(a.id@, c.id@);
            lemma_lex_total(c.id@, b.id@);
            if lex_lt(c.id@, a.id@) {
                lemma_lex_transitive(c.id@, a.id@, b.id@);
            }
        }
    }
}

/// Order on optional labels: no label before any label, labels by
/// lexicographic order (the order of `Option<&str>`).
pub open spec fn opt_lt(a: Option<Seq<char>>, b: Option<Seq<char>>) -> bool {
    match (a, b) {
        (None, Some(_)) => true,
        (Some(x), Some(y)) => lex_lt(x, y),
        _ => false,
    }
}

/// Order on edge keys `(from, to, label)`, compared component by component
/// (the order of the tuple `(&str, &str, Option<&str>)`).
pub open spec fn edge_key_lt(
    af: Seq<char>,
    at: Seq<char>,
    al: Option<Seq<char>>,
    bf: Seq<char>,
    bt: Seq<char>,
    bl: Option<Seq<char>>,
) -> bool {
    lex_lt(af, bf) || (af == bf && (lex_lt(at, bt) || (at == bt && opt_lt(al, bl))))
}

/// An edge's sort key: `(from, to, label)`.
pub struct EdgeKey {
    pub from: Vec<char>,
    pub to: Vec<char>,
    pub label: Option<Vec<char>>,
}

/// The label part of an edge key, as characters.
pub open spec fn label_view(l: Option<Vec<char>>) -> Option<Seq<char>> {
    match l {
        Some(v) => Some(v@),
        None => None,
    }
}

proof fn lemma_opt_order(a: Option<Seq<char>>, b: Option<Seq<char>>, c: Option<Seq<char>>)
    ensures
        !opt_lt(a, a),
        opt_lt(a, b) && opt_lt(b, c) ==> opt_lt(a, c),
        a == b || opt_lt(a, b) || opt_lt(b, a),
{
    if let Some(x) = a {
        lemma_lex_irreflexive(x);
    }
    if let (Some(x), Some(y), Some(z)) = (a, b, c) {
        if lex_lt(x, y) && lex_lt(y, z) {
            lemma_lex_transitive(x, y, z);
        }
    }
    if let (Some(x), Some(y)) = (a, b) {
        lemma_lex_total(x, y);
    }
}

impl SortKey for EdgeKey {
    open spec fn key_lt(self, other: Self) -> bool {
        edge_key_lt(
            self.from@,
            self.to@,
            label_view(self.label),
            other.from@,
            other.to@,
            label_view(other.label),
        )
    }

    fn less(&self, other: &Self) -> (r: bool) {
        if lex_less(&self.from, &other.from) {
            return true;
        }
        if !same_chars(&self.from, &other.from) {
            return false;
        }
        if lex_less(&self.to, &other.to) {
            return true;
        }
        if !same_chars(&self.to, &other.to) {
            return false;
        }
        match (&self.label, &other.label) {
            (None, Some(_)) => true,
            (Some(x), Some(y)) => lex_less(x, y),
            _ => false,
        }
    }

    proof fn lemma_weak_order(a: Self, b: Self, c: Self) {
        let (af, at, al) = (a.from@, a.to@, label_view(a.label));
        let (bf, bt, bl) = (b.from@, b.to@, label_view(b.label));
        let (cf, ct, cl) = (c.from@, c.to@, label_view(c.label));
        lemma_lex_irreflexive(af);
        lemma_lex_irreflexive(at);
        lemma_opt_order(al, bl, cl);
        lemma_opt_order(al, cl, bl);
        lemma_opt_order(cl, al, bl);
        lemma_opt_order(bl, cl, al);
        lemma_lex_total(af, cf);
        lemma_lex_total(cf, bf);
        lemma_lex_total(at, ct);
        lemma_lex_total(ct, bt);
        if lex_lt(af, bf) && lex_lt(bf, cf) {
            lemma_lex_transitive(af, bf, cf);
        }
        if lex_lt(at, bt) && lex_lt(bt, ct) {
            lemma_lex_transitive(at, bt, ct);
        }
        if lex_lt(af, cf) && lex_lt(cf, bf) {
            lemma_lex_transitive(af, cf, bf);
        }
        if lex_lt(cf, af) && lex_lt(af, bf) {
            lemma_lex_transitive(cf, af, bf);
        }
        if lex_lt(at, ct) && lex_lt(ct, bt) {
            lemma_lex_transitive(at, ct, bt);
        }
        if lex_lt(ct, at) && lex_lt(at, bt) {
            lemma_lex_transitive(ct, at, bt);
        }
        lemma_lex_irreflexive(bf);
        lemma_lex_irreflexive(cf);
    }
}

/// Index `a` goes before index `b`: a smaller key, or an equal key and an
/// earlier position (a stable order).
pub open spec fn goes_before<K: SortKey>(keys: Seq<K>, a: int, b: int) -> bool {
    keys[a].key_lt(keys[b]) || (!keys[b].key_lt(keys[a]) && a < b)
}

/// `order` lists every index of `0..n` exactly once.
pub open spec fn is_permutation(order: Seq<usize>, n: nat) -> bool {
    &&& order.len() == n
    &&& forall|i: int| 0 <= i < order.len() ==> #[trigger] order[i] < n
    &&& forall|i: int, j: int| 0 <= i < j < order.len() ==> order[i] != order[j]
    &&& forall|x: int| 0 <= x < n ==> #[trigger] lists(order, x)
}

/// Index `x` occurs in `order`.
pub open spec fn lists(order: Seq<usize>, x: int) -> bool {
    exists|i: int| 0 <= i < order.len() && order[i] == x
}

/// `order` is sorted by key, equal keys keeping their input order.
pub open spec fn stably_sorted<K: SortKey>(keys: Seq<K>, order: Seq<usize>) -> bool {
    forall|i: int, j: int|
        0 <= i < j < order.len() ==> goes_before(keys, #[trigger] order[i] as int, #[trigger] order[j] as int)
}

/// The stable sort order of `keys`: a permutation of the indices, sorted by
/// key, equal keys in input order. (This is what a stable sort such as
/// `sort_by` produces.)
pub fn stable_order<K: SortKey>(keys: &Vec<K>) -> (order: Vec<usize>)
    ensures
        is_permutation(order@, keys@.len()),
        stably_sorted(keys@, order@),
{
    let mut order: Vec<usize> = Vec::new();
    let mut k: usize = 0;
    while k < keys.len()
        invariant
            k <= keys@.len(),
            is_permutation(order@, k as nat),
            stably_sorted(keys@, order@),
        decreases keys@.len() - k,
    {
        // Walk back over the placed indices whose key is above key `k`.
        let mut p: usize = order.len();
        while p > 0 && keys[k].less(&keys[order[p - 1]])
            invariant
                k < keys@.len(),
                p <= order@.len(),
                order@.len() == k,
                is_permutation(order@, k as nat),
                forall|j: int| p <= j < order@.len() ==> keys@[k as int].key_lt(
                    #[trigger] keys@[order@[j] as int],
                ),
            decreases p,
        {
            p -= 1;
        }
        proof {
            let old = order@;
            if p > 0 {
                assert(!keys@[k as int].key_lt(keys@[old[p - 1] as int]));
                assert forall|i: int| 0 <= i < p implies !keys@[k as int].key_lt(
                    #[trigger] keys@[old[i] as int],
                ) by {
                    if i < p - 1 {
                        let x = old[i] as int;
                        let y = old[p - 1] as int;
                        assert(goes_before(keys@, x, y));
                        K::lemma_weak_order(keys@[k as int], keys@[x], keys@[y]);
                        K::lemma_weak_order(keys@[k as int], keys@[y], keys@[x]);
                    }
                }
            }
        }
        let ghost old = order@;
        order.insert(p, k);
        proof {
            let new = order@;
            assert(new =~= old.insert(p as int, k));
            assert forall|i: int, j: int| 0 <= i < j < new.len() implies goes_before(
                keys@,
                #[trigger] new[i] as int,
                #[trigger] new[j] as int,
            ) by {
                if i < p && j < p {
                    assert(new[i] == old[i] && new[j] == old[j]);
                } else if i < p && j == p {
                    assert(new[i] == old[i]);
                    assert(!keys@[k as int].key_lt(keys@[old[i] as int]));
                } else if i < p && j > p {
                    assert(new[i] == old[i] && new[j] == old[j - 1]);
                } else if i == p {
                    assert(new[j] == old[j - 1]);
                    assert(keys@[k as int].key_lt(keys@[old[j - 1] as int]));
                } else {
                    assert(new[i] == old[i - 1] && new[j] == old[j - 1]);
                }
            }
            assert forall|i: int| 0 <= i < new.len() implies #[trigger] new[i] < k + 1 by {
                if i < p {
                    assert(new[i] == old[i]);
                } else if i > p {
                    assert(new[i] == old[i - 1]);
                }
            }
            assert forall|x: int| 0 <= x < k + 1 implies #[trigger] lists(new, x) by {
                if x == k {
                    assert(new[p as int] == k);
                } else {
                    assert(lists(old, x));
                    let oi = choose|i: int| 0 <= i < old.len() && old[i] == x;
                    if oi < p {
                        assert(new[oi] == x);
                    } else {
                        assert(new[oi + 1] == x);
                    }
                }
            }
            assert forall|i: int, j: int| 0 <= i < j < new.len() implies new[i] != new[j] by {
                if i != p && j != p {
                    let oi = if i < p { i } else { i - 1 };
                    let oj = if j < p { j } else { j - 1 };
                    assert(new[i] == old[oi] && new[j] == old[oj]);
                } else if i == p {
                    assert(new[j] == old[j - 1]);
                } else {
                    assert(new[i] == old[i]);
                }
            }
        }
        k += 1;
    }
    order
}

/// Node `a` goes before node `b` in the canonical order: by id, then by
/// input position.
pub open spec fn node_goes_before(nodes: Seq<LayoutNode>, a: int, b: int) -> bool {
    lex_lt(nodes[a].id@, nodes[b].id@) || (!lex_lt(nodes[b].id@, nodes[a].id@) && a < b)
}

/// The optional label of an edge, as characters.
pub open spec fn edge_label(e: LayoutEdge) -> Option<Seq<char>> {
    match e.label {
        Some(l) => Some(l@),
        None => None,
    }
}

/// Edge `a`'s key is below edge `b`'s.
pub open spec fn edge_lt(edges: Seq<LayoutEdge>, a: int, b: int) -> bool {
    edge_key_lt(
        edges[a].from@,
        edges[a].to@,
        edge_label(edges[a]),
        edges[b].from@,
        edges[b].to@,
        edge_label(edges[b]),
    )
}

/// Edge `a` goes before edge `b` in the canonical order: by
/// `(from, to, label)`, then by input position.
pub open spec fn edge_goes_before(edges: Seq<LayoutEdge>, a: int, b: int) -> bool {
    edge_lt(edges, a, b) || (!edge_lt(edges, b, a) && a < b)
}

/// The canonical insertion order of the nodes: sorted by id, stable. The
/// layered engine is insertion-order sensitive; feeding it this order makes
/// the layout independent of the order the nodes were written in.
pub fn canonical_node_order(nodes: &Vec<LayoutNode>) -> (order: Vec<usize>)
    ensures
        is_permutation(order@, nodes@.len()),
        forall|i: int, j: int|
            0 <= i < j < order@.len() ==> node_goes_before(
                nodes@,
                #[trigger] order@[i] as int,
                #[trigger] order@[j] as int,
            ),
{
    let mut keys: Vec<NodeKey> = Vec::new();
    let mut i: usize = 0;
    while i < nodes.len()
        invariant
            i <= nodes@.len(),
            keys@.len() == i,
            forall|k: int| 0 <= k < i ==> (#[trigger] keys@[k]).id@ == nodes@[k].id@,
        decreases nodes@.len() - i,
    {
        keys.push(NodeKey { id: chars_of(nodes[i].id.as_str()) });
        i += 1;
    }
    let order = stable_order(&keys);
    proof {
        assert forall|i: int, j: int| 0 <= i < j < order@.len() implies node_goes_before(
            nodes@,
            #[trigger] order@[i] as int,
            #[trigger] order@[j] as int,
        ) by {
            assert(goes_before(keys@, order@[i] as int, order@[j] as int));
        }
    }
    order
}

/// The canonical insertion order of the edges: sorted by
/// `(from, to, label)`, stable.
pub fn canonical_edge_order(edges: &Vec<LayoutEdge>) -> (order: Vec<usize>)
    ensures
        is_permutation(order@, edges@.len()),
        forall|i: int, j: int|
            0 <= i < j < order@.len() ==> edge_goes_before(
                edges@,
                #[trigger] order@[i] as int,
                #[trigger] order@[j] as int,
            ),
{
    let mut keys: Vec<EdgeKey> = Vec::new();
    let mut i: usize = 0;
    while i < edges.len()
        invariant
            i <= edges@.len(),
            keys@.len() == i,
            forall|k: int|
                0 <= k < i ==> (#[trigger] keys@[k]).from@ == edges@[k].from@ && keys@[k].to@
                    == edges@[k].to@ && label_view(keys@[k].label) == edge_label(edges@[k]),
        decreases edges@.len() - i,
    {
        let e = &edges[i];
        let label = match &e.label {
            Some(l) => Some(chars_of(l.as_str())),
            None => None,
        };
        keys.push(EdgeKey { from: chars_of(e.from.as_str()), to: chars_of(e.to.as_str()), label });
        i += 1;
    }
    let order = stable_order(&keys);
    proof {
        assert forall|i: int, j: int| 0 <= i < j < order@.len() implies edge_goes_before(
            edges@,
            #[trigger] order@[i] as int,
            #[trigger] order@[j] as int,
        ) by {
            assert(goes_before(keys@, order@[i] as int, order@[j] as int));
        }
    }
    order
}

/// `x` is an element of `t`.
pub open spec fn occurs<T>(t: Seq<T>, x: T) -> bool {
    exists|k: int| 0 <= k < t.len() && t[k] == x
}

/// Two sequences that are both strictly sorted by a strict order and hold the
/// same elements are equal.
proof fn lemma_sorted_same_elements<T>(s: Seq<T>, t: Seq<T>, lt: spec_fn(T, T) -> bool)
    requires
        s.len() == t.len(),
        forall|i: int, j: int| 0 <= i < j < s.len() ==> #[trigger] lt(s[i], s[j]),
        forall|i: int, j: int| 0 <= i < j < t.len() ==> #[trigger] lt(t[i], t[j]),
        forall|x: T| !#[trigger] lt(x, x),
        forall|x: T, y: T, z: T| #[trigger] lt(x, y) && #[trigger] lt(y, z) ==> lt(x, z),
        forall|i: int| 0 <= i < s.len() ==> occurs(t, #[trigger] s[i]),
        forall|i: int| 0 <= i < t.len() ==> occurs(s, #[trigger] t[i]),
    ensures
        s == t,
{
    lemma_sorted_prefix(s, t, lt, s.len() as int);
    assert(s =~= t);
}

proof fn lemma_sorted_prefix<T>(s: Seq<T>, t: Seq<T>, lt: spec_fn(T, T) -> bool, n: int)
    requires
        0 <= n <= s.len(),
        s.len() == t.len(),
        forall|i: int, j: int| 0 <= i < j < s.len() ==> #[trigger] lt(s[i], s[j]),
        forall|i: int, j: int| 0 <= i < j < t.len() ==> #[trigger] lt(t[i], t[j]),
        forall|x: T| !#[trigger] lt(x, x),
        forall|x: T, y: T, z: T| #[trigger] lt(x, y) && #[trigger] lt(y, z) ==> lt(x, z),
        forall|i: int| 0 <= i < s.len() ==> occurs(t, #[trigger] s[i]),
        forall|i: int| 0 <= i < t.len() ==> occurs(s, #[trigger] t[i]),
    ensures
        forall|i: int| 0 <= i < n ==> s[i] == t[i],
    decreases n,
{
    if n > 0 {
        let i = n - 1;
        lemma_sorted_prefix(s, t, lt, i);
        assert(occurs(t, s[i]));
        assert(occurs(s, t[i]));
        let m = choose|k: int| 0 <= k < t.len() && t[k] == s[i];
        let m2 = choose|k: int| 0 <= k < s.len() && s[k] == t[i];
        if m < i {
            assert(t[m] == s[m]);
            assert(lt(s[m], s[i]));
        }
        if m2 < i {
            assert(s[m2] == t[m2]);
            assert(lt(t[m2], t[i]));
        }
        if m != i && m2 != i {
            assert(lt(t[i], t[m]));
            assert(lt(s[i], s[m2]));
            assert(lt(t[i], t[i]));
        }
    }
}

/// The elements of `a` in the order `o`.
pub open spec fn reorder<T>(a: Seq<T>, o: Seq<usize>) -> Seq<T> {
    Seq::new(o.len(), |k: int| a[o[k] as int])
}

/// The canonical node order does not depend on the order the nodes were
/// written in: if `b` lists the nodes of `a` in another order (`b[k]` is
/// `a[p[k]]`) and node ids are distinct, both canonical orders present the
/// same sequence of nodes to the layout engine.
pub proof fn lemma_canonical_nodes_order_independent(
    a: Seq<LayoutNode>,
    b: Seq<LayoutNode>,
    p: Seq<usize>,
    oa: Seq<usize>,
    ob: Seq<usize>,
)
    requires
        is_permutation(p, a.len()),
        b.len() == a.len(),
        forall|k: int| 0 <= k < b.len() ==> #[trigger] b[k] == a[p[k] as int],
        forall|i: int, j: int| 0 <= i < j < a.len() ==> a[i].id@ != a[j].id@,
        is_permutation(oa, a.len()),
        forall|i: int, j: int|
            0 <= i < j < oa.len() ==> node_goes_before(a, #[trigger] oa[i] as int, #[trigger] oa[j] as int),
        is_permutation(ob, b.len()),
        forall|i: int, j: int|
            0 <= i < j < ob.len() ==> node_goes_before(b, #[trigger] ob[i] as int, #[trigger] ob[j] as int),
    ensures
        reorder(a, oa) == reorder(b, ob),
{
    let s = reorder(a, oa);
    let t = reorder(b, ob);
    let lt = |x: LayoutNode, y: LayoutNode| lex_lt(x.id@, y.id@);
    assert forall|x: LayoutNode| !#[trigger] lt(x, x) by {
        lemma_lex_irreflexive(x.id@);
    }
    assert forall|x: LayoutNode, y: LayoutNode, z: LayoutNode| #[trigger] lt(x, y) && #[trigger] lt(
        y,
        z,
    ) implies lt(x, z) by {
        lemma_lex_transitive(x.id@, y.id@, z.id@);
    }
    assert forall|i: int, j: int| 0 <= i < j < s.len() implies #[trigger] lt(s[i], s[j]) by {
        let (x, y) = (oa[i] as int, oa[j] as int);
        assert(node_goes_before(a, x, y));
        lemma_lex_total(a[x].id@, a[y].id@);
        if x < y {
            assert(a[x].id@ != a[y].id@);
        } else {
            assert(x != y);
            assert(a[y].id@ != a[x].id@);
        }
    }
    assert forall|i: int, j: int| 0 <= i < j < t.len() implies #[trigger] lt(t[i], t[j]) by {
        let (x, y) = (ob[i] as int, ob[j] as int);
        assert(node_goes_before(b, x, y));
        let (px, py) = (p[x] as int, p[y] as int);
        assert(b[x] == a[px] && b[y] == a[py]);
        assert(px != py);
        if px < py {
            assert(a[px].id@ != a[py].id@);
        } else {
            assert(a[py].id@ != a[px].id@);
        }
        lemma_lex_total(b[x].id@, b[y].id@);
    }
    assert forall|i: int| 0 <= i < s.len() implies occurs(t, #[trigger] s[i]) by {
        assert(lists(p, oa[i] as int));
        let q = choose|q: int| 0 <= q < p.len() && p[q] == oa[i];
        assert(lists(ob, q));
        let k = choose|k: int| 0 <= k < ob.len() && ob[k] == q;
        assert(t[k] == b[q] && b[q] == a[p[q] as int]);
    }
    assert forall|i: int| 0 <= i < t.len() implies occurs(s, #[trigger] t[i]) by {
        let q = ob[i] as int;
        assert(b[q] == a[p[q] as int]);
        assert(lists(oa, p[q] as int));
        let k = choose|k: int| 0 <= k < oa.len() && oa[k] == p[q];
        assert(s[k] == a[p[q] as int]);
    }
    lemma_sorted_same_elements(s, t, lt);
}

/// The `(from, to, label)` key of an edge.
pub open spec fn edge_key(e: LayoutEdge) -> (Seq<char>, Seq<char>, Option<Seq<char>>) {
    (e.from@, e.to@, edge_label(e))
}

/// Strict order on edge keys.
pub open spec fn edge_key_order(x: LayoutEdge, y: LayoutEdge) -> bool {
    edge_key_lt(x.from@, x.to@, edge_label(x), y.from@, y.to@, edge_label(y))
}

proof fn lemma_edge_key_order(x: LayoutEdge, y: LayoutEdge, z: LayoutEdge)
    ensures
        !edge_key_order(x, x),
        edge_key_order(x, y) && edge_key_order(y, z) ==> edge_key_order(x, z),
        edge_key(x) == edge_key(y) || edge_key_order(x, y) || edge_key_order(y, x),
{
    lemma_lex_irreflexive(x.from@);
    lemma_lex_irreflexive(x.to@);
    lemma_opt_order(edge_label(x), edge_label(y), edge_label(z));
    lemma_opt_order(edge_label(x), edge_label(x), edge_label(x));
    lemma_lex_total(x.from@, y.from@);
    lemma_lex_total(x.to@, y.to@);
    if lex_lt(x.from@, y.from@) && lex_lt(y.from@, z.from@) {
        lemma_lex_transitive(x.from@, y.from@, z.from@);
    }
    if lex_lt(x.to@, y.to@) && lex_lt(y.to@, z.to@) {
        lemma_lex_transitive(x.to@, y.to@, z.to@);
    }
}

/// The canonical edge order does not depend on the order the edges were
/// written in: if `b` lists the edges of `a` in another order (`b[k]` is
/// `a[p[k]]`) and no two edges share the same `(from, to, label)`, both
/// canonical orders present the same sequence of edges to the layout engine.
pub proof fn lemma_canonical_edges_order_independent(
    a: Seq<LayoutEdge>,
    b: Seq<LayoutEdge>,
    p: Seq<usize>,
    oa: Seq<usize>,
    ob: Seq<usize>,
)
    requires
        is_permutation(p, a.len()),
        b.len() == a.len(),
        forall|k: int| 0 <= k < b.len() ==> #[trigger] b[k] == a[p[k] as int],
        forall|i: int, j: int| 0 <= i < j < a.len() ==> edge_key(a[i]) != edge_key(a[j]),
        is_permutation(oa, a.len()),
        forall|i: int, j: int|
            0 <= i < j < oa.len() ==> edge_goes_before(a, #[trigger] oa[i] as int, #[trigger] oa[j] as int),
        is_permutation(ob, b.len()),
        forall|i: int, j: int|
            0 <= i < j < ob.len() ==> edge_goes_before(b, #[trigger] ob[i] as int, #[trigger] ob[j] as int),
    ensures
        reorder(a, oa) == reorder(b, ob),
{
    let s = reorder(a, oa);
    let t = reorder(b, ob);
    let lt = |x: LayoutEdge, y: LayoutEdge| edge_key_order(x, y);
    assert forall|x: LayoutEdge| !#[trigger] lt(x, x) by {
        lemma_edge_key_order(x, x, x);
    }
    assert forall|x: LayoutEdge, y: LayoutEdge, z: LayoutEdge| #[trigger] lt(x, y) && #[trigger] lt(
        y,
        z,
    ) implies lt(x, z) by {
        lemma_edge_key_order(x, y, z);
    }
    assert forall|i: int, j: int| 0 <= i < j < s.len() implies #[trigger] lt(s[i], s[j]) by {
        let (x, y) = (oa[i] as int, oa[j] as int);
        assert(edge_goes_before(a, x, y));
        lemma_edge_key_order(a[x], a[y], a[y]);
        if x < y {
            assert(edge_key(a[x]) != edge_key(a[y]));
        } else {
            assert(x != y);
            assert(edge_key(a[y]) != edge_key(a[x]));
        }
    }
    assert forall|i: int, j: int| 0 <= i < j < t.len() implies #[trigger] lt(t[i], t[j]) by {
        let (x, y) = (ob[i] as int, ob[j] as int);
        assert(edge_goes_before(b, x, y));
        let (px, py) = (p[x] as int, p[y] as int);
        assert(b[x] == a[px] && b[y] == a[py]);
        assert(px != py);
        if px < py {
            assert(edge_key(a[px]) != edge_key(a[py]));
        } else {
            assert(edge_key(a[py]) != edge_key(a[px]));
        }
        lemma_edge_key_order(b[x], b[y], b[y]);
    }
    assert forall|i: int| 0 <= i < s.len() implies occurs(t, #[trigger] s[i]) by {
        assert(lists(p, oa[i] as int));
        let q = choose|q: int| 0 <= q < p.len() && p[q] == oa[i];
        assert(lists(ob, q));
        let k = choose|k: int| 0 <= k < ob.len() && ob[k] == q;
        assert(t[k] == b[q] && b[q] == a[p[q] as int]);
    }
    assert forall|i: int| 0 <= i < t.len() implies occurs(s, #[trigger] t[i]) by {
        let q = ob[i] as int;
        assert(b[q] == a[p[q] as int]);
        assert(lists(oa, p[q] as int));
        let k = choose|k: int| 0 <= k < oa.len() && oa[k] == p[q];
        assert(s[k] == a[p[q] as int]);
    }
    lemma_sorted_same_elements(s, t, lt);
}

/// Display width of a string in terminal columns, as `unicode-width` computes
/// it (East Asian wide characters count 2, combining marks 0).
pub uninterp spec fn display_width(s: Seq<char>) -> nat;

/// `unicode_width::UnicodeWidthStr::width`: the display width of `s`. The
/// width is a function of the characters alone, named [`display_width`]; the
/// call does not fail or panic.
#[verifier::external_body]
fn str_width(s: &str) -> (w: usize)
    ensures
        w as nat == display_width(s@),
{
    unicode_width::UnicodeWidthStr::width(s)
}

/// The lines of a string split at `\n` (what `str::split('\n')` yields: an
/// empty string is one empty line, and a trailing `\n` ends with an empty
/// line).
pub open spec fn split_lines(s: Seq<char>) -> Seq<Seq<char>>
    decreases s.len(),
{
    if s.len() == 0 {
        seq![Seq::<char>::empty()]
    } else {
        let r = split_lines(s.drop_last());
        if s.last() == '\n' {
            r.push(Seq::<char>::empty())
        } else {
            r.update(r.len() - 1, r.last().push(s.last()))
        }
    }
}

/// Every string has at least one line.
pub proof fn lemma_split_lines_nonempty(s: Seq<char>)
    ensures
        split_lines(s).len() >= 1,
    decreases s.len(),
{
    if s.len() > 0 {
        lemma_split_lines_nonempty(s.drop_last());
    }
}

/// The widest display width among some lines (0 for no lines).
pub open spec fn max_width(lines: Seq<Seq<char>>) -> nat
    decreases lines.len(),
{
    if lines.len() == 0 {
        0
    } else {
        let m = max_width(lines.drop_last());
        let w = display_width(lines.last());
        if w > m {
            w
        } else {
            m
        }
    }
}

/// Line count and widest line (in display columns) of a label, the two
/// numbers the box and text extents are computed from.
pub fn label_metrics(label: &str) -> (r: (usize, usize))
    ensures
        r.0 == split_lines(label@).len(),
        r.1 == max_width(split_lines(label@)),
{
    let mut widths: Vec<usize> = Vec::new();
    let mut widest: usize = 0;
    let mut cur = String::new();
    let ghost mut done: Seq<Seq<char>> = Seq::empty();
    for c in it: label.chars()
        invariant
            it.seq() == label@,
            done.push(cur@) == split_lines(label@.take(it.index() as int)),
            widths@.len() == done.len(),
            widest == max_width(done),
    {
        let ghost i = it.index() as int;
        proof {
            assert(label@.take(i + 1).drop_last() =~= label@.take(i));
            assert(label@.take(i + 1).last() == c);
        }
        if c == '\n' {
            let w = str_width(cur.as_str());
            proof {
                assert(done.push(cur@).drop_last() =~= done);
            }
            widest = if w > widest { w } else { widest };
            widths.push(w);
            proof {
                done = done.push(cur@);
            }
            cur = String::new();
            proof {
                assert(done.push(cur@) =~= split_lines(label@.take(i + 1)));
            }
        } else {
            push_char(&mut cur, c);
            proof {
                let old_cur = cur@.drop_last();
                assert(cur@ =~= old_cur.push(c));
                assert(done.push(cur@) =~= done.push(old_cur).update(done.len() as int, old_cur.push(c)));
            }
        }
    }
    let w = str_width(cur.as_str());
    proof {
        assert(label@.take(label@.len() as int) =~= label@);
        assert(done.push(cur@).drop_last() =~= done);
    }
    widest = if w > widest { w } else { widest };
    widths.push(w);
    (widths.len(), widest)
}

/// Bit pattern of the binary32 value 0.5 (label half way along the path).
pub const HALF_BITS: u32 = 0x3F00_0000;

/// A label is present and not empty.
pub open spec fn has_text(l: Option<String>) -> bool {
    l matches Some(s) && s@.len() > 0
}

/// The render-ready edge for a routed layout edge: identity, style and label
/// carried over; no ports, no waypoints, default label placement; the
/// engine's route kept when it has at least two points; the engine's label
/// position kept when the edge has a non-empty label.
pub fn laid_edge(e: &LayoutEdge, route: Vec<Point>, anchor: Option<Point>) -> (r: Edge)
    ensures
        r.id == e.id,
        r.from == e.from,
        r.to == e.to,
        r.from_port is None,
        r.to_port is None,
        r.style == e.style,
        r.dashed == e.dashed,
        r.waypoints@.len() == 0,
        r.label == e.label,
        r.label_pos.bits == HALF_BITS,
        r.label_dx.bits == 0,
        r.label_dy.bits == 0,
        r.route == (if route@.len() >= 2 { Some(route) } else { None::<Vec<Point>> }),
        r.label_anchor == (if has_text(e.label) { anchor } else { None }),
{
    let labelled = match &e.label {
        Some(l) => !l.as_str().is_empty(),
        None => false,
    };
    Edge {
        id: e.id.clone(),
        from: e.from.clone(),
        to: e.to.clone(),
        from_port: None,
        to_port: None,
        style: e.style,
        dashed: e.dashed,
        waypoints: Vec::new(),
        label: e.label.clone(),
        label_pos: Ieee32 { bits: HALF_BITS },
        label_dx: Ieee32 { bits: 0 },
        label_dy: Ieee32 { bits: 0 },
        route: if route.len() >= 2 { Some(route) } else { None },
        label_anchor: if labelled { anchor } else { None },
    }
}


/// The render-ready node for a placed layout node: identity, label, shape
/// and role carried over, at the engine's top-left corner and size.
pub fn laid_node(n: &LayoutNode, x: Ieee32, y: Ieee32, w: Ieee32, h: Ieee32) -> (r: Node)
    ensures
        r.id == n.id,
        r.label == n.label,
        r.shape == n.shape,
        r.role == n.role,
        r.x == x,
        r.y == y,
        r.w == w,
        r.h == h,
{
    Node { id: n.id.clone(), label: n.label.clone(), shape: n.shape, x, y, w, h, role: n.role }
}

} // verus!
