//! The declarative namespace schema: an immutable tree in which each node
//! maps a path segment to either a subtree or a leaf descriptor (numeric
//! code, value shape, mutability), plus the auxiliary lookup tables that some
//! interior nodes consult instead of a literal name match (address families,
//! routing protocol and table numbers).
//!
//! Mutability is inherited top-down: a subtree may set a default and a leaf
//! may override it; the resolver takes the most specific annotation.
//!
//! Lookups take the first matching child, so a duplicated segment name within
//! one node would shadow its successor; schema authors keep names unique.

use vstd::prelude::*;

use crate::shape::ValueShape;

verus! {

/// Which auxiliary table an interior node consults to turn a segment into a
/// numeric code.
#[derive(Clone, Copy, Debug, PartialEq, Eq, Structural)]
pub enum LookupKind {
    /// Address-family names (`inet`, `inet6`, `link`, ...).
    AddrFamily,
    /// Routing protocol numbers.
    RouteProtocol,
    /// Routing table identifiers.
    RouteTable,
}

/// How a schema node matches the path segment at its depth.
pub enum Matcher {
    /// The segment equals `name`; the node contributes `code` to the
    /// address.
    Literal { name: Vec<u8>, code: i32 },
    /// The segment is looked up in an auxiliary table, which also supplies
    /// the code contributed to the address.
    Table { table: LookupKind },
}

/// A node of the schema tree: its matcher plus either children or a leaf
/// descriptor.
pub struct SchemaNode {
    pub matcher: Matcher,
    pub kind: NodeKind,
}

pub enum NodeKind {
    /// An interior node routes to its children; it may set a mutability
    /// default for the subtree below it.
    Interior { default_mutable: Option<bool>, children: Vec<SchemaNode> },
    /// A leaf carries the value's shape and, when it overrides the inherited
    /// default, its own mutability.
    Leaf { shape: ValueShape, mutable: Option<bool> },
}

/// The whole namespace: the top-level nodes and the auxiliary tables.
/// Built once at process start, never mutated afterwards; any number of
/// resolutions may read it concurrently.
pub struct Schema {
    pub root: Vec<SchemaNode>,
    pub families: Vec<(Vec<u8>, i32)>,
    pub protocols: Vec<(Vec<u8>, i32)>,
    pub tables: Vec<(Vec<u8>, i32)>,
}

/// The first table entry whose name equals `seg`, if any.
pub open spec fn spec_assoc(entries: Seq<(Vec<u8>, i32)>, seg: Seq<u8>) -> Option<i32>
    decreases entries.len(),
{
    if entries.len() == 0 {
        None
    } else if entries[0].0@ == seg {
        Some(entries[0].1)
    } else {
        spec_assoc(entries.drop_first(), seg)
    }
}

/// The auxiliary table a lookup kind refers to.
pub open spec fn spec_table_of(s: Schema, k: LookupKind) -> Seq<(Vec<u8>, i32)> {
    match k {
        LookupKind::AddrFamily => s.families@,
        LookupKind::RouteProtocol => s.protocols@,
        LookupKind::RouteTable => s.tables@,
    }
}

/// The first child of `children` that matches `seg`, together with the
/// numeric code the match contributes to the address.
pub open spec fn spec_match_child(s: Schema, children: Seq<SchemaNode>, seg: Seq<u8>) -> Option<
    (i32, SchemaNode),
>
    decreases children.len(),
{
    if children.len() == 0 {
        None
    } else {
        let c = children[0];
        let rest = children.drop_first();
        match c.matcher {
            Matcher::Literal { name, code } => {
                if name@ == seg {
                    Some((code, c))
                } else {
                    spec_match_child(s, rest, seg)
                }
            },
            Matcher::Table { table } => {
                match spec_assoc(spec_table_of(s, table), seg) {
                    Some(code) => Some((code, c)),
                    None => spec_match_child(s, rest, seg),
                }
            },
        }
    }
}

/// A subtree default overridden by a more specific annotation.
pub open spec fn spec_opt_or(o: Option<bool>, inherited: bool) -> bool {
    match o {
        Some(b) => b,
        None => inherited,
    }
}

/// Whether one child matches a segment: literally by name, or through its
/// auxiliary table.
pub open spec fn spec_matches(s: Schema, c: SchemaNode, seg: Seq<u8>) -> bool {
    match c.matcher {
        Matcher::Literal { name, code } => name@ == seg,
        Matcher::Table { table } => spec_assoc(spec_table_of(s, table), seg) is Some,
    }
}

/// The code a matching child contributes to the address.
pub open spec fn spec_code_of(s: Schema, c: SchemaNode, seg: Seq<u8>) -> i32 {
    match c.matcher {
        Matcher::Literal { name, code } => code,
        Matcher::Table { table } => spec_assoc(spec_table_of(s, table), seg)->Some_0,
    }
}

/// The children of an interior node, empty for a leaf.
pub open spec fn kind_children(k: NodeKind) -> Seq<SchemaNode> {
    match k {
        NodeKind::Interior { children, .. } => children@,
        NodeKind::Leaf { .. } => Seq::empty(),
    }
}

/// The mutability default an interior node sets, if any.
pub open spec fn kind_default(k: NodeKind) -> Option<bool> {
    match k {
        NodeKind::Interior { default_mutable, .. } => default_mutable,
        NodeKind::Leaf { .. } => None,
    }
}

pub open spec fn kind_is_interior(k: NodeKind) -> bool {
    k is Interior
}

pub open spec fn kind_is_leaf(k: NodeKind) -> bool {
    k is Leaf
}

/// The shape a leaf declares, for leaves.
pub open spec fn kind_shape(k: NodeKind) -> ValueShape {
    match k {
        NodeKind::Leaf { shape, .. } => shape,
        NodeKind::Interior { .. } => ValueShape::SubtreeMarker,
    }
}

/// The mutability override a leaf declares, for leaves.
pub open spec fn kind_mutable(k: NodeKind) -> Option<bool> {
    match k {
        NodeKind::Leaf { mutable, .. } => mutable,
        NodeKind::Interior { .. } => None,
    }
}

/// The tree below `n` has height at most `d`: leaves fit any non-negative
/// bound, an interior node needs one more level than its children.
pub open spec fn node_bounded(n: SchemaNode, d: int) -> bool
    decreases d,
{
    match n.kind {
        NodeKind::Leaf { .. } => d >= 0,
        NodeKind::Interior { children, .. } => d >= 1 && forall|i: int|
            0 <= i < children@.len() ==> node_bounded(#[trigger] children@[i], d - 1),
    }
}

/// A found child is an element of the list.
pub proof fn lemma_match_child_elem(s: Schema, children: Seq<SchemaNode>, seg: Seq<u8>)
    requires
        spec_match_child(s, children, seg) is Some,
    ensures
        exists|i: int|
            0 <= i < children.len() && children[i] == (#[trigger] spec_match_child(
                s,
                children,
                seg,
            ))->Some_0.1,
    decreases children.len(),
{
    let m = spec_match_child(s, children, seg)->Some_0;
    if spec_matches(s, children[0], seg) {
        assert(children[0] == m.1);
    } else {
        lemma_match_child_elem(s, children.drop_first(), seg);
        let i = choose|i: int|
            0 <= i < children.drop_first().len() && children.drop_first()[i]
                == spec_match_child(s, children.drop_first(), seg)->Some_0.1;
        assert(children[i + 1] == m.1);
    }
}

/// The first match lands on index `i` when nothing before it matches.
pub proof fn lemma_match_child_found(s: Schema, children: Seq<SchemaNode>, seg: Seq<u8>, i: int)
    requires
        0 <= i < children.len(),
        forall|j: int| 0 <= j < i ==> !spec_matches(s, children[j], seg),
        spec_matches(s, children[i], seg),
    ensures
        spec_match_child(s, children, seg) matches Some(m) && m.1 == children[i] && m.0
            == spec_code_of(s, children[i], seg),
    decreases i,
{
    if i > 0 {
        lemma_match_child_found(s, children.drop_first(), seg, i - 1);
        assert(children.drop_first() =~= children.skip(1));
    }
}

/// When no child matches, the lookup finds nothing.
pub proof fn lemma_match_child_none(s: Schema, children: Seq<SchemaNode>, seg: Seq<u8>)
    requires
        forall|j: int| 0 <= j < children.len() ==> !spec_matches(s, children[j], seg),
    ensures
        spec_match_child(s, children, seg) is None,
    decreases children.len(),
{
    if children.len() > 0 {
        assert(forall|j: int|
            0 <= j < children.drop_first().len() ==> children.drop_first()[j] == children[j + 1]);
        lemma_match_child_none(s, children.drop_first(), seg);
    }
}

/// Looking a segment up in a concatenated child list: the front half is
/// searched first.
pub proof fn lemma_match_child_append(s: Schema, a: Seq<SchemaNode>, b: Seq<SchemaNode>, seg: Seq<u8>)
    ensures
        spec_match_child(s, a + b, seg) == (if spec_match_child(s, a, seg) is Some {
            spec_match_child(s, a, seg)
        } else {
            spec_match_child(s, b, seg)
        }),
    decreases a.len(),
{
    if a.len() == 0 {
        assert(a + b =~= b);
    } else {
        assert((a + b)[0] == a[0]);
        assert((a + b).drop_first() =~= a.drop_first() + b);
        lemma_match_child_append(s, a.drop_first(), b, seg);
    }
}

/// The first table hit lands on index `i` when no earlier entry carries the
/// name.
pub proof fn lemma_assoc_found(entries: Seq<(Vec<u8>, i32)>, seg: Seq<u8>, i: int)
    requires
        0 <= i < entries.len(),
        forall|j: int| 0 <= j < i ==> (#[trigger] entries[j]).0@ != seg,
        entries[i].0@ == seg,
    ensures
        spec_assoc(entries, seg) == Some(entries[i].1),
    decreases i,
{
    if i > 0 {
        lemma_assoc_found(entries.drop_first(), seg, i - 1);
        assert(entries.drop_first() =~= entries.skip(1));
    }
}

/// Two byte sequences differing at one index are different.
pub proof fn lemma_bytes_differ(a: Seq<u8>, b: Seq<u8>, k: int)
    requires
        0 <= k < a.len(),
        0 <= k < b.len(),
        a[k] != b[k],
    ensures
        a != b,
{
}

/// Whether two byte vectors hold the same bytes.
pub fn bytes_eq(a: &Vec<u8>, b: &[u8]) -> (r: bool)
    ensures
        r == (a@ == b@),
{
    if a.len() != b.len() {
        proof {
            assert(a@.len() != b@.len());
        }
        return false;
    }
    let mut i: usize = 0;
    while i < a.len()
        invariant
            0 <= i <= a@.len(),
            a@.len() == b@.len(),
            forall|j: int| 0 <= j < i ==> a@[j] == b@[j],
        decreases a@.len() - i,
    {
        if a[i] != b[i] {
            return false;
        }
        i = i + 1;
    }
    proof {
        assert(a@ =~= b@);
    }
    true
}

/// Looks `seg` up in an auxiliary table; first match wins.
#[verifier::loop_isolation(false)]
pub fn assoc_lookup(entries: &Vec<(Vec<u8>, i32)>, seg: &[u8]) -> (r: Option<i32>)
    ensures
        r == spec_assoc(entries@, seg@),
{
    let mut j: usize = 0;
    proof {
        assert(entries@.skip(0) =~= entries@);
    }
    while j < entries.len()
        invariant
            0 <= j <= entries@.len(),
            spec_assoc(entries@, seg@) == spec_assoc(entries@.skip(j as int), seg@),
        decreases entries@.len() - j,
    {
        let ghost rest = entries@.skip(j as int);
        proof {
            assert(rest[0] == entries@[j as int]);
            assert(rest.drop_first() =~= entries@.skip(j as int + 1));
        }
        if bytes_eq(&entries[j].0, seg) {
            return Some(entries[j].1);
        }
        j = j + 1;
    }
    proof {
        assert(entries@.skip(entries@.len() as int) =~= Seq::<(Vec<u8>, i32)>::empty());
    }
    None
}

/// The auxiliary table a lookup kind refers to.
pub fn table_of<'a>(s: &'a Schema, k: LookupKind) -> (r: &'a Vec<(Vec<u8>, i32)>)
    ensures
        r@ == spec_table_of(*s, k),
{
    match k {
        LookupKind::AddrFamily => &s.families,
        LookupKind::RouteProtocol => &s.protocols,
        LookupKind::RouteTable => &s.tables,
    }
}

/// Finds the first child matching `seg`, per [`spec_match_child`].
#[verifier::loop_isolation(false)]
pub fn find_child<'a>(s: &Schema, children: &'a Vec<SchemaNode>, seg: &[u8]) -> (r: Option<
    (i32, &'a SchemaNode),
>)
    ensures
        match r {
            Some((code, node)) => spec_match_child(*s, children@, seg@) == Some((code, *node)),
            None => spec_match_child(*s, children@, seg@) is None,
        },
{
    let mut j: usize = 0;
    proof {
        assert(children@.skip(0) =~= children@);
    }
    while j < children.len()
        invariant
            0 <= j <= children@.len(),
            spec_match_child(*s, children@, seg@) == spec_match_child(
                *s,
                children@.skip(j as int),
                seg@,
            ),
        decreases children@.len() - j,
    {
        let ghost rest = children@.skip(j as int);
        proof {
            assert(rest[0] == children@[j as int]);
            assert(rest.drop_first() =~= children@.skip(j as int + 1));
        }
        let child = &children[j];
        match &child.matcher {
            Matcher::Literal { name, code } => {
                if bytes_eq(name, seg) {
                    return Some((*code, child));
                }
            },
            Matcher::Table { table } => {
                match assoc_lookup(table_of(s, *table), seg) {
                    Some(code) => {
                        return Some((code, child));
                    },
                    None => {},
                }
            },
        }
        j = j + 1;
    }
    proof {
        assert(children@.skip(children@.len() as int) =~= Seq::<SchemaNode>::empty());
    }
    None
}

} // verus!
