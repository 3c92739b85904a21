//! The OpenBSD MIB namespace as a data-driven schema tree: one fixed,
//! versioned table for one OS release family, consumed by the resolver.
//! Numeric codes are the kernel's own `sysctl(2)` numbering; depth and arity
//! are structural properties of the tree, checked uniformly by the one
//! resolution algorithm.
//!
//! Mutability follows the kernel's documented read/write behaviour: leaves
//! mark themselves writable, a few subtrees (`machdep`, `ddb`, `fs`,
//! `net.inet`, ...) set a writable default that individual leaves override.
//! Subtree defaults are a fallback; where the kernel enforces read-only
//! behaviour regardless, the leaf carries its own annotation.
//!
//! Each builder carries a contract that pins the table's content: what the
//! documented names resolve to, which names the root knows, and that the
//! tree is shallow enough for the kernel's address limit. The contract of
//! [`build_schema`] collects those facts for callers.

use vstd::prelude::*;
use vstd::slice::slice_to_vec;
use vstd::string::StringSliceAdditionalSpecFns;

use crate::error::ErrorModel;
use crate::resolve::TargetModel;
use crate::resolve::fails_with;
use crate::resolve::resolves_to;
use crate::resolve::spec_resolve;
use crate::resolve::spec_resolve_from;
use crate::resolve_laws::lemma_resolve_ok_iff_declared;
use crate::resolve_laws::lemma_bounded_resolve_len;
use crate::resolve_laws::lemma_step_interior;
use crate::resolve_laws::lemma_step_leaf;
use crate::resolve_laws::lemma_step_leaf_trailing;
use crate::resolve_laws::lemma_step_none;
use crate::schema::LookupKind;
use crate::schema::Matcher;
use crate::schema::NodeKind;
use crate::schema::Schema;
use crate::schema::SchemaNode;
use crate::schema::kind_children;
use crate::schema::kind_default;
use crate::schema::lemma_assoc_found;
use crate::schema::lemma_match_child_append;
use crate::schema::lemma_bytes_differ;
use crate::schema::lemma_match_child_found;
use crate::schema::lemma_match_child_none;
use crate::schema::node_bounded;
use crate::schema::spec_assoc;
use crate::schema::spec_match_child;
use crate::schema::spec_matches;
use crate::schema::spec_table_of;
use crate::shape::ValueShape;

verus! {

/// Table entry `k` carries this name and code.
pub open spec fn entry_at(es: Seq<(Vec<u8>, i32)>, k: int, name: Seq<u8>, code: i32) -> bool {
    es[k].0@ == name && es[k].1 == code
}

/// Root child `k` is an interior domain with this name and code.
pub open spec fn domain_at(root: Seq<SchemaNode>, k: int, name: Seq<u8>, code: i32) -> bool {
    root[k].matcher matches Matcher::Literal { name: nm, code: c } && nm@ == name && c == code
        && root[k].kind is Interior
}

/// Fixed-arity segment-list constructors, so that facts quantified over
/// schemas or trailing segments can name their paths inside triggers.
pub open spec fn segs1(a: Seq<u8>) -> Seq<Seq<u8>> {
    seq![a]
}

pub open spec fn segs2(a: Seq<u8>, b: Seq<u8>) -> Seq<Seq<u8>> {
    seq![a, b]
}

pub open spec fn segs3(a: Seq<u8>, b: Seq<u8>, c: Seq<u8>) -> Seq<Seq<u8>> {
    seq![a, b, c]
}

pub open spec fn segs4(a: Seq<u8>, b: Seq<u8>, c: Seq<u8>, d: Seq<u8>) -> Seq<Seq<u8>> {
    seq![a, b, c, d]
}

pub open spec fn segs5(a: Seq<u8>, b: Seq<u8>, c: Seq<u8>, d: Seq<u8>, e: Seq<u8>) -> Seq<
    Seq<u8>,
> {
    seq![a, b, c, d, e]
}

pub open spec fn segs6(
    a: Seq<u8>,
    b: Seq<u8>,
    c: Seq<u8>,
    d: Seq<u8>,
    e: Seq<u8>,
    f: Seq<u8>,
) -> Seq<Seq<u8>> {
    seq![a, b, c, d, e, f]
}

/// Fixed-arity address constructors, for the same purpose.
pub open spec fn addr1(a: i32) -> Seq<i32> {
    seq![a]
}

pub open spec fn addr2(a: i32, b: i32) -> Seq<i32> {
    seq![a, b]
}

/// The bytes of a segment name.
fn seg(name: &str) -> (r: Vec<u8>)
    ensures
        r@ == name.spec_bytes(),
{
    slice_to_vec(name.as_bytes())
}

/// A four-byte integer leaf inheriting the subtree's mutability.
fn leaf(name: &str, code: i32) -> (n: SchemaNode)
    ensures
        n.matcher matches Matcher::Literal { name: nm, code: c } && nm@ == name.spec_bytes() && c
            == code,
        n.kind == (NodeKind::Leaf { shape: ValueShape::Int32, mutable: None::<bool> }),
{
    SchemaNode {
        matcher: Matcher::Literal { name: seg(name), code },
        kind: NodeKind::Leaf { shape: ValueShape::Int32, mutable: None },
    }
}

/// A writable four-byte integer leaf.
fn leaf_m(name: &str, code: i32) -> (n: SchemaNode)
    ensures
        n.matcher matches Matcher::Literal { name: nm, code: c } && nm@ == name.spec_bytes() && c
            == code,
        n.kind == (NodeKind::Leaf { shape: ValueShape::Int32, mutable: Some(true) }),
{
    SchemaNode {
        matcher: Matcher::Literal { name: seg(name), code },
        kind: NodeKind::Leaf { shape: ValueShape::Int32, mutable: Some(true) },
    }
}

/// A leaf of the given shape inheriting the subtree's mutability.
fn leaf_s(name: &str, code: i32, shape: ValueShape) -> (n: SchemaNode)
    ensures
        n.matcher matches Matcher::Literal { name: nm, code: c } && nm@ == name.spec_bytes() && c
            == code,
        n.kind == (NodeKind::Leaf { shape, mutable: None::<bool> }),
{
    SchemaNode {
        matcher: Matcher::Literal { name: seg(name), code },
        kind: NodeKind::Leaf { shape, mutable: None },
    }
}

/// A leaf of the given shape with its own mutability annotation.
fn leaf_sm(name: &str, code: i32, shape: ValueShape, mutable: bool) -> (n: SchemaNode)
    ensures
        n.matcher matches Matcher::Literal { name: nm, code: c } && nm@ == name.spec_bytes() && c
            == code,
        n.kind == (NodeKind::Leaf { shape, mutable: Some(mutable) }),
{
    SchemaNode {
        matcher: Matcher::Literal { name: seg(name), code },
        kind: NodeKind::Leaf { shape, mutable: Some(mutable) },
    }
}

/// An interior node inheriting the mutability default.
fn node(name: &str, code: i32, children: Vec<SchemaNode>) -> (n: SchemaNode)
    ensures
        n.matcher matches Matcher::Literal { name: nm, code: c } && nm@ == name.spec_bytes() && c
            == code,
        n.kind matches NodeKind::Interior { default_mutable: dm, children: kids } && dm
            == None::<bool> && kids@ == children@,
{
    SchemaNode {
        matcher: Matcher::Literal { name: seg(name), code },
        kind: NodeKind::Interior { default_mutable: None, children },
    }
}

/// An interior node setting a mutability default for its subtree.
fn node_m(name: &str, code: i32, default_mutable: bool, children: Vec<SchemaNode>) -> (n:
    SchemaNode)
    ensures
        n.matcher matches Matcher::Literal { name: nm, code: c } && nm@ == name.spec_bytes() && c
            == code,
        n.kind matches NodeKind::Interior { default_mutable: dm, children: kids } && dm == Some(
            default_mutable,
        ) && kids@ == children@,
{
    SchemaNode {
        matcher: Matcher::Literal { name: seg(name), code },
        kind: NodeKind::Interior { default_mutable: Some(default_mutable), children },
    }
}

/// An interior node whose segment is resolved through an auxiliary table.
fn tnode(table: LookupKind, children: Vec<SchemaNode>) -> (n: SchemaNode)
    ensures
        n.matcher == (Matcher::Table { table }),
        n.kind matches NodeKind::Interior { default_mutable: dm, children: kids } && dm
            == None::<bool> && kids@ == children@,
{
    SchemaNode {
        matcher: Matcher::Table { table },
        kind: NodeKind::Interior { default_mutable: None, children },
    }
}

/// A leaf whose segment is resolved through an auxiliary table.
fn tleaf(table: LookupKind, shape: ValueShape) -> (n: SchemaNode)
    ensures
        n.matcher == (Matcher::Table { table }),
        n.kind == (NodeKind::Leaf { shape, mutable: None::<bool> }),
{
    SchemaNode { matcher: Matcher::Table { table }, kind: NodeKind::Leaf { shape, mutable: None } }
}

/// One auxiliary-table entry.
fn entry(name: &str, code: i32) -> (r: (Vec<u8>, i32))
    ensures
        r.0@ == name.spec_bytes() && r.1 == code,
{
    (seg(name), code)
}

/// The `kern` domain, assembled from the fact-bearing children in
/// [`kern_front`] and the rest in [`kern_tail`]; lookup order is immaterial,
/// since segment names are unique within one node.
#[verifier::rlimit(100)]
fn kern() -> (n: SchemaNode)
    ensures
        n.matcher matches Matcher::Literal { name: nm, code: c } && nm@
            == "kern".spec_bytes() && c == 1i32,
        n.kind matches NodeKind::Interior { default_mutable: dm, children: kids } && dm
            == None::<bool>,
        forall|s2: Schema| #[trigger] spec_resolve_from(s2, kind_children(n.kind), false, segs1("ostype".spec_bytes()), 1, addr1(1i32)) == Ok::<TargetModel, ErrorModel>((TargetModel { addr: seq![1i32, 1i32], shape: ValueShape::CString, mutable: false })),
        forall|s2: Schema| #[trigger] spec_resolve_from(s2, kind_children(n.kind), false, segs1("version".spec_bytes()), 1, addr1(1i32)) == Ok::<TargetModel, ErrorModel>((TargetModel { addr: seq![1i32, 4i32], shape: ValueShape::CString, mutable: false })),
        forall|s2: Schema| #[trigger] spec_resolve_from(s2, kind_children(n.kind), false, segs1("hostname".spec_bytes()), 1, addr1(1i32)) == Ok::<TargetModel, ErrorModel>((TargetModel { addr: seq![1i32, 10i32], shape: ValueShape::CString, mutable: true })),
        forall|s2: Schema| #[trigger] spec_resolve_from(s2, kind_children(n.kind), false, segs1("malloc".spec_bytes()), 1, addr1(1i32)) == Err::<TargetModel, ErrorModel>(ErrorModel::IncompletePath),
        forall|s2: Schema| #[trigger] spec_resolve_from(s2, kind_children(n.kind), false, segs1("nchstats".spec_bytes()), 1, addr1(1i32)) == Err::<TargetModel, ErrorModel>(ErrorModel::IncompletePath),
        forall|s2: Schema| #[trigger] spec_resolve_from(s2, kind_children(n.kind), false, segs1("forkstat".spec_bytes()), 1, addr1(1i32)) == Err::<TargetModel, ErrorModel>(ErrorModel::IncompletePath),
        forall|s2: Schema| #[trigger] spec_resolve_from(s2, kind_children(n.kind), false, segs1("tty".spec_bytes()), 1, addr1(1i32)) == Err::<TargetModel, ErrorModel>(ErrorModel::IncompletePath),
        forall|s2: Schema| #[trigger] spec_resolve_from(s2, kind_children(n.kind), false, segs1("seminfo".spec_bytes()), 1, addr1(1i32)) == Err::<TargetModel, ErrorModel>(ErrorModel::IncompletePath),
        forall|s2: Schema| #[trigger] spec_resolve_from(s2, kind_children(n.kind), false, segs1("shminfo".spec_bytes()), 1, addr1(1i32)) == Err::<TargetModel, ErrorModel>(ErrorModel::IncompletePath),
        forall|s2: Schema| #[trigger] spec_resolve_from(s2, kind_children(n.kind), false, segs1("watchdog".spec_bytes()), 1, addr1(1i32)) == Err::<TargetModel, ErrorModel>(ErrorModel::IncompletePath),
        forall|s2: Schema| #[trigger] spec_resolve_from(s2, kind_children(n.kind), false, segs1("proc".spec_bytes()), 1, addr1(1i32)) == Err::<TargetModel, ErrorModel>(ErrorModel::IncompletePath),
        forall|s2: Schema| #[trigger] spec_resolve_from(s2, kind_children(n.kind), false, segs1("timecounter".spec_bytes()), 1, addr1(1i32)) == Err::<TargetModel, ErrorModel>(ErrorModel::IncompletePath),
        forall|s2: Schema| #[trigger] spec_resolve_from(s2, kind_children(n.kind), false, segs1("audio".spec_bytes()), 1, addr1(1i32)) == Err::<TargetModel, ErrorModel>(ErrorModel::IncompletePath),
        forall|s2: Schema| #[trigger] spec_resolve_from(s2, kind_children(n.kind), false, segs1("nonexistent".spec_bytes()), 1, addr1(1i32)) == Err::<TargetModel, ErrorModel>((ErrorModel::UnknownName { depth: 1, segment: "nonexistent".spec_bytes() })),
        forall|s2: Schema, rest: Seq<Seq<u8>>| rest.len() >= 1 ==> #[trigger] spec_resolve_from(s2, kind_children(n.kind), false, segs1("ostype".spec_bytes()) + rest, 1, addr1(1i32)) == Err::<TargetModel, ErrorModel>(ErrorModel::TrailingSegments),
        node_bounded(n, 5),
{
    let mut kids = kern_front();
    let ghost fv = kids@;
    let mut t = kern_tail();
    let ghost tv = t@;
    kids.append(&mut t);
    proof {
        assert(kids@ == fv + tv);
        reveal_strlit("kern");
        broadcast use vstd::string::is_ascii_spec_bytes;

        assert(vstd::string::is_ascii("kern"));
        assert forall|s: Schema| #[trigger] spec_resolve_from(s, kids@, false, segs1("ostype".spec_bytes()), 1, addr1(1i32)) == Ok::<TargetModel, ErrorModel>((TargetModel { addr: seq![1i32, 1i32], shape: ValueShape::CString, mutable: false })) by {
            lemma_match_child_append(s, fv, tv, "ostype".spec_bytes());
            lemma_step_leaf(s, kids@, false, segs1("ostype".spec_bytes()), 1, seq![1i32]);
            assert(seq![1i32].push(1i32) =~= seq![1i32, 1i32]);
        }
        assert forall|s: Schema| #[trigger] spec_resolve_from(s, kids@, false, segs1("version".spec_bytes()), 1, addr1(1i32)) == Ok::<TargetModel, ErrorModel>((TargetModel { addr: seq![1i32, 4i32], shape: ValueShape::CString, mutable: false })) by {
            lemma_match_child_append(s, fv, tv, "version".spec_bytes());
            lemma_step_leaf(s, kids@, false, segs1("version".spec_bytes()), 1, seq![1i32]);
            assert(seq![1i32].push(4i32) =~= seq![1i32, 4i32]);
        }
        assert forall|s: Schema| #[trigger] spec_resolve_from(s, kids@, false, segs1("hostname".spec_bytes()), 1, addr1(1i32)) == Ok::<TargetModel, ErrorModel>((TargetModel { addr: seq![1i32, 10i32], shape: ValueShape::CString, mutable: true })) by {
            lemma_match_child_append(s, fv, tv, "hostname".spec_bytes());
            lemma_step_leaf(s, kids@, false, segs1("hostname".spec_bytes()), 1, seq![1i32]);
            assert(seq![1i32].push(10i32) =~= seq![1i32, 10i32]);
        }
        assert forall|s: Schema| #[trigger] spec_resolve_from(s, kids@, false, segs1("malloc".spec_bytes()), 1, addr1(1i32)) == Err::<TargetModel, ErrorModel>(ErrorModel::IncompletePath) by {
            lemma_match_child_append(s, fv, tv, "malloc".spec_bytes());
            lemma_step_interior(s, kids@, false, segs1("malloc".spec_bytes()), 1, seq![1i32]);
            assert(segs1("malloc".spec_bytes()).drop_first() =~= Seq::<Seq<u8>>::empty());
        }
        assert forall|s: Schema| #[trigger] spec_resolve_from(s, kids@, false, segs1("nchstats".spec_bytes()), 1, addr1(1i32)) == Err::<TargetModel, ErrorModel>(ErrorModel::IncompletePath) by {
            lemma_match_child_append(s, fv, tv, "nchstats".spec_bytes());
            lemma_step_interior(s, kids@, false, segs1("nchstats".spec_bytes()), 1, seq![1i32]);
            assert(segs1("nchstats".spec_bytes()).drop_first() =~= Seq::<Seq<u8>>::empty());
        }
        assert forall|s: Schema| #[trigger] spec_resolve_from(s, kids@, false, segs1("forkstat".spec_bytes()), 1, addr1(1i32)) == Err::<TargetModel, ErrorModel>(ErrorModel::IncompletePath) by {
            lemma_match_child_append(s, fv, tv, "forkstat".spec_bytes());
            lemma_step_interior(s, kids@, false, segs1("forkstat".spec_bytes()), 1, seq![1i32]);
            assert(segs1("forkstat".spec_bytes()).drop_first() =~= Seq::<Seq<u8>>::empty());
        }
        assert forall|s: Schema| #[trigger] spec_resolve_from(s, kids@, false, segs1("tty".spec_bytes()), 1, addr1(1i32)) == Err::<TargetModel, ErrorModel>(ErrorModel::IncompletePath) by {
            lemma_match_child_append(s, fv, tv, "tty".spec_bytes());
            lemma_step_interior(s, kids@, false, segs1("tty".spec_bytes()), 1, seq![1i32]);
            assert(segs1("tty".spec_bytes()).drop_first() =~= Seq::<Seq<u8>>::empty());
        }
        assert forall|s: Schema| #[trigger] spec_resolve_from(s, kids@, false, segs1("seminfo".spec_bytes()), 1, addr1(1i32)) == Err::<TargetModel, ErrorModel>(ErrorModel::IncompletePath) by {
            lemma_match_child_append(s, fv, tv, "seminfo".spec_bytes());
            lemma_step_interior(s, kids@, false, segs1("seminfo".spec_bytes()), 1, seq![1i32]);
            assert(segs1("seminfo".spec_bytes()).drop_first() =~= Seq::<Seq<u8>>::empty());
        }
        assert forall|s: Schema| #[trigger] spec_resolve_from(s, kids@, false, segs1("shminfo".spec_bytes()), 1, addr1(1i32)) == Err::<TargetModel, ErrorModel>(ErrorModel::IncompletePath) by {
            lemma_match_child_append(s, fv, tv, "shminfo".spec_bytes());
            lemma_step_interior(s, kids@, false, segs1("shminfo".spec_bytes()), 1, seq![1i32]);
            assert(segs1("shminfo".spec_bytes()).drop_first() =~= Seq::<Seq<u8>>::empty());
        }
        assert forall|s: Schema| #[trigger] spec_resolve_from(s, kids@, false, segs1("watchdog".spec_bytes()), 1, addr1(1i32)) == Err::<TargetModel, ErrorModel>(ErrorModel::IncompletePath) by {
            lemma_match_child_append(s, fv, tv, "watchdog".spec_bytes());
            lemma_step_interior(s, kids@, false, segs1("watchdog".spec_bytes()), 1, seq![1i32]);
            assert(segs1("watchdog".spec_bytes()).drop_first() =~= Seq::<Seq<u8>>::empty());
        }
        assert forall|s: Schema| #[trigger] spec_resolve_from(s, kids@, false, segs1("proc".spec_bytes()), 1, addr1(1i32)) == Err::<TargetModel, ErrorModel>(ErrorModel::IncompletePath) by {
            lemma_match_child_append(s, fv, tv, "proc".spec_bytes());
            lemma_step_interior(s, kids@, false, segs1("proc".spec_bytes()), 1, seq![1i32]);
            assert(segs1("proc".spec_bytes()).drop_first() =~= Seq::<Seq<u8>>::empty());
        }
        assert forall|s: Schema| #[trigger] spec_resolve_from(s, kids@, false, segs1("timecounter".spec_bytes()), 1, addr1(1i32)) == Err::<TargetModel, ErrorModel>(ErrorModel::IncompletePath) by {
            lemma_match_child_append(s, fv, tv, "timecounter".spec_bytes());
            lemma_step_interior(s, kids@, false, segs1("timecounter".spec_bytes()), 1, seq![1i32]);
            assert(segs1("timecounter".spec_bytes()).drop_first() =~= Seq::<Seq<u8>>::empty());
        }
        assert forall|s: Schema| #[trigger] spec_resolve_from(s, kids@, false, segs1("audio".spec_bytes()), 1, addr1(1i32)) == Err::<TargetModel, ErrorModel>(ErrorModel::IncompletePath) by {
            lemma_match_child_append(s, fv, tv, "audio".spec_bytes());
            lemma_step_interior(s, kids@, false, segs1("audio".spec_bytes()), 1, seq![1i32]);
            assert(segs1("audio".spec_bytes()).drop_first() =~= Seq::<Seq<u8>>::empty());
        }
        assert forall|s: Schema| #[trigger] spec_resolve_from(s, kids@, false, segs1("nonexistent".spec_bytes()), 1, addr1(1i32)) == Err::<TargetModel, ErrorModel>((ErrorModel::UnknownName { depth: 1, segment: "nonexistent".spec_bytes() })) by {
            lemma_match_child_append(s, fv, tv, "nonexistent".spec_bytes());
            lemma_step_none(s, kids@, false, segs1("nonexistent".spec_bytes()), 1, seq![1i32]);
        }
        assert forall|s: Schema, rest: Seq<Seq<u8>>| rest.len() >= 1 implies #[trigger] spec_resolve_from(s, kids@, false, segs1("ostype".spec_bytes()) + rest, 1, addr1(1i32)) == Err::<TargetModel, ErrorModel>(ErrorModel::TrailingSegments) by {
            assert((segs1("ostype".spec_bytes()) + rest)[0] == "ostype".spec_bytes());
            lemma_match_child_append(s, fv, tv, "ostype".spec_bytes());
            lemma_step_leaf_trailing(s, kids@, false, segs1("ostype".spec_bytes()) + rest, 1, seq![1i32]);
        }
        assert forall|i: int| 0 <= i < kids@.len() implies node_bounded(
            #[trigger] kids@[i],
            4,
        ) by {
            if i < 13 {
                assert(kids@[i] == fv[i]);
            } else {
                assert(kids@[i] == tv[i - 13]);
            }
        }
    }
    SchemaNode {
        matcher: Matcher::Literal { name: seg("kern"), code: 1 },
        kind: NodeKind::Interior { default_mutable: None, children: kids },
    }
}

/// The children of `kern` that carry documented facts, with the lookups the
/// facts rest on.
#[verifier::rlimit(100)]
fn kern_front() -> (v: Vec<SchemaNode>)
    ensures
        v@.len() == 13,
        forall|s: Schema| (#[trigger] spec_match_child(s, v@, "ostype".spec_bytes())) matches Some(m) && m.0 == 1i32 && m.1.kind == (NodeKind::Leaf { shape: ValueShape::CString, mutable: None::<bool> }),
        forall|s: Schema| (#[trigger] spec_match_child(s, v@, "version".spec_bytes())) matches Some(m) && m.0 == 4i32 && m.1.kind == (NodeKind::Leaf { shape: ValueShape::CString, mutable: None::<bool> }),
        forall|s: Schema| (#[trigger] spec_match_child(s, v@, "hostname".spec_bytes())) matches Some(m) && m.0 == 10i32 && m.1.kind == (NodeKind::Leaf { shape: ValueShape::CString, mutable: Some(true) }),
        forall|s: Schema| (#[trigger] spec_match_child(s, v@, "malloc".spec_bytes())) matches Some(m) && m.0 == 39i32 && m.1.kind is Interior,
        forall|s: Schema| (#[trigger] spec_match_child(s, v@, "nchstats".spec_bytes())) matches Some(m) && m.0 == 41i32 && m.1.kind is Interior,
        forall|s: Schema| (#[trigger] spec_match_child(s, v@, "forkstat".spec_bytes())) matches Some(m) && m.0 == 42i32 && m.1.kind is Interior,
        forall|s: Schema| (#[trigger] spec_match_child(s, v@, "tty".spec_bytes())) matches Some(m) && m.0 == 44i32 && m.1.kind is Interior,
        forall|s: Schema| (#[trigger] spec_match_child(s, v@, "seminfo".spec_bytes())) matches Some(m) && m.0 == 61i32 && m.1.kind is Interior,
        forall|s: Schema| (#[trigger] spec_match_child(s, v@, "shminfo".spec_bytes())) matches Some(m) && m.0 == 62i32 && m.1.kind is Interior,
        forall|s: Schema| (#[trigger] spec_match_child(s, v@, "watchdog".spec_bytes())) matches Some(m) && m.0 == 64i32 && m.1.kind is Interior,
        forall|s: Schema| (#[trigger] spec_match_child(s, v@, "proc".spec_bytes())) matches Some(m) && m.0 == 66i32 && m.1.kind is Interior,
        forall|s: Schema| (#[trigger] spec_match_child(s, v@, "timecounter".spec_bytes())) matches Some(m) && m.0 == 69i32 && m.1.kind is Interior,
        forall|s: Schema| (#[trigger] spec_match_child(s, v@, "audio".spec_bytes())) matches Some(m) && m.0 == 84i32 && m.1.kind is Interior,
        forall|s: Schema| (#[trigger] spec_match_child(s, v@, "nonexistent".spec_bytes())) is None,
        forall|i: int| 0 <= i < v@.len() ==> node_bounded(#[trigger] v@[i], 4),
{
    let v = vec![
        leaf_s("ostype", 1, ValueShape::CString),
        leaf_s("version", 4, ValueShape::CString),
        leaf_sm("hostname", 10, ValueShape::CString, true),
        kern_malloc_node(),
        node("nchstats", 41, Vec::new()),
        node("forkstat", 42, Vec::new()),
        node("tty", 44, Vec::new()),
        kern_seminfo_node(),
        kern_shminfo_node(),
        kern_watchdog_node(),
        node("proc", 66, Vec::new()),
        kern_timecounter_node(),
        kern_audio_node(),
    ];
    proof {
        reveal_strlit("audio");
        reveal_strlit("forkstat");
        reveal_strlit("hostname");
        reveal_strlit("malloc");
        reveal_strlit("nchstats");
        reveal_strlit("nonexistent");
        reveal_strlit("ostype");
        reveal_strlit("proc");
        reveal_strlit("seminfo");
        reveal_strlit("shminfo");
        reveal_strlit("timecounter");
        reveal_strlit("tty");
        reveal_strlit("version");
        reveal_strlit("watchdog");
        broadcast use vstd::string::is_ascii_spec_bytes;
        
        assert(vstd::string::is_ascii("audio"));
        assert(vstd::string::is_ascii("forkstat"));
        assert(vstd::string::is_ascii("hostname"));
        assert(vstd::string::is_ascii("malloc"));
        assert(vstd::string::is_ascii("nchstats"));
        assert(vstd::string::is_ascii("nonexistent"));
        assert(vstd::string::is_ascii("ostype"));
        assert(vstd::string::is_ascii("proc"));
        assert(vstd::string::is_ascii("seminfo"));
        assert(vstd::string::is_ascii("shminfo"));
        assert(vstd::string::is_ascii("timecounter"));
        assert(vstd::string::is_ascii("tty"));
        assert(vstd::string::is_ascii("version"));
        assert(vstd::string::is_ascii("watchdog"));
        assert forall|s: Schema| (#[trigger] spec_match_child(s, v@, "ostype".spec_bytes())) matches Some(m) && m.0 == 1i32 && m.1.kind == (NodeKind::Leaf { shape: ValueShape::CString, mutable: None::<bool> }) by {
            lemma_match_child_found(s, v@, "ostype".spec_bytes(), 0);
        }
        assert forall|s: Schema| (#[trigger] spec_match_child(s, v@, "version".spec_bytes())) matches Some(m) && m.0 == 4i32 && m.1.kind == (NodeKind::Leaf { shape: ValueShape::CString, mutable: None::<bool> }) by {
            assert forall|j: int| 0 <= j < 1 implies !spec_matches(s, v@[j], "version".spec_bytes()) by {}
            lemma_match_child_found(s, v@, "version".spec_bytes(), 1);
        }
        assert forall|s: Schema| (#[trigger] spec_match_child(s, v@, "hostname".spec_bytes())) matches Some(m) && m.0 == 10i32 && m.1.kind == (NodeKind::Leaf { shape: ValueShape::CString, mutable: Some(true) }) by {
            assert forall|j: int| 0 <= j < 2 implies !spec_matches(s, v@[j], "hostname".spec_bytes()) by {}
            lemma_match_child_found(s, v@, "hostname".spec_bytes(), 2);
        }
        assert forall|s: Schema| (#[trigger] spec_match_child(s, v@, "malloc".spec_bytes())) matches Some(m) && m.0 == 39i32 && m.1.kind is Interior by {
            lemma_bytes_differ("ostype".spec_bytes(), "malloc".spec_bytes(), 0);
            assert forall|j: int| 0 <= j < 3 implies !spec_matches(s, v@[j], "malloc".spec_bytes()) by {}
            lemma_match_child_found(s, v@, "malloc".spec_bytes(), 3);
        }
        assert forall|s: Schema| (#[trigger] spec_match_child(s, v@, "nchstats".spec_bytes())) matches Some(m) && m.0 == 41i32 && m.1.kind is Interior by {
            lemma_bytes_differ("hostname".spec_bytes(), "nchstats".spec_bytes(), 0);
            assert forall|j: int| 0 <= j < 4 implies !spec_matches(s, v@[j], "nchstats".spec_bytes()) by {}
            lemma_match_child_found(s, v@, "nchstats".spec_bytes(), 4);
        }
        assert forall|s: Schema| (#[trigger] spec_match_child(s, v@, "forkstat".spec_bytes())) matches Some(m) && m.0 == 42i32 && m.1.kind is Interior by {
            lemma_bytes_differ("hostname".spec_bytes(), "forkstat".spec_bytes(), 0);
            lemma_bytes_differ("nchstats".spec_bytes(), "forkstat".spec_bytes(), 0);
            assert forall|j: int| 0 <= j < 5 implies !spec_matches(s, v@[j], "forkstat".spec_bytes()) by {}
            lemma_match_child_found(s, v@, "forkstat".spec_bytes(), 5);
        }
        assert forall|s: Schema| (#[trigger] spec_match_child(s, v@, "tty".spec_bytes())) matches Some(m) && m.0 == 44i32 && m.1.kind is Interior by {
            assert forall|j: int| 0 <= j < 6 implies !spec_matches(s, v@[j], "tty".spec_bytes()) by {}
            lemma_match_child_found(s, v@, "tty".spec_bytes(), 6);
        }
        assert forall|s: Schema| (#[trigger] spec_match_child(s, v@, "seminfo".spec_bytes())) matches Some(m) && m.0 == 61i32 && m.1.kind is Interior by {
            lemma_bytes_differ("version".spec_bytes(), "seminfo".spec_bytes(), 0);
            assert forall|j: int| 0 <= j < 7 implies !spec_matches(s, v@[j], "seminfo".spec_bytes()) by {}
            lemma_match_child_found(s, v@, "seminfo".spec_bytes(), 7);
        }
        assert forall|s: Schema| (#[trigger] spec_match_child(s, v@, "shminfo".spec_bytes())) matches Some(m) && m.0 == 62i32 && m.1.kind is Interior by {
            lemma_bytes_differ("version".spec_bytes(), "shminfo".spec_bytes(), 0);
            lemma_bytes_differ("seminfo".spec_bytes(), "shminfo".spec_bytes(), 1);
            assert forall|j: int| 0 <= j < 8 implies !spec_matches(s, v@[j], "shminfo".spec_bytes()) by {}
            lemma_match_child_found(s, v@, "shminfo".spec_bytes(), 8);
        }
        assert forall|s: Schema| (#[trigger] spec_match_child(s, v@, "watchdog".spec_bytes())) matches Some(m) && m.0 == 64i32 && m.1.kind is Interior by {
            lemma_bytes_differ("hostname".spec_bytes(), "watchdog".spec_bytes(), 0);
            lemma_bytes_differ("nchstats".spec_bytes(), "watchdog".spec_bytes(), 0);
            lemma_bytes_differ("forkstat".spec_bytes(), "watchdog".spec_bytes(), 0);
            assert forall|j: int| 0 <= j < 9 implies !spec_matches(s, v@[j], "watchdog".spec_bytes()) by {}
            lemma_match_child_found(s, v@, "watchdog".spec_bytes(), 9);
        }
        assert forall|s: Schema| (#[trigger] spec_match_child(s, v@, "proc".spec_bytes())) matches Some(m) && m.0 == 66i32 && m.1.kind is Interior by {
            assert forall|j: int| 0 <= j < 10 implies !spec_matches(s, v@[j], "proc".spec_bytes()) by {}
            lemma_match_child_found(s, v@, "proc".spec_bytes(), 10);
        }
        assert forall|s: Schema| (#[trigger] spec_match_child(s, v@, "timecounter".spec_bytes())) matches Some(m) && m.0 == 69i32 && m.1.kind is Interior by {
            assert forall|j: int| 0 <= j < 11 implies !spec_matches(s, v@[j], "timecounter".spec_bytes()) by {}
            lemma_match_child_found(s, v@, "timecounter".spec_bytes(), 11);
        }
        assert forall|s: Schema| (#[trigger] spec_match_child(s, v@, "audio".spec_bytes())) matches Some(m) && m.0 == 84i32 && m.1.kind is Interior by {
            assert forall|j: int| 0 <= j < 12 implies !spec_matches(s, v@[j], "audio".spec_bytes()) by {}
            lemma_match_child_found(s, v@, "audio".spec_bytes(), 12);
        }
        assert forall|s: Schema| (#[trigger] spec_match_child(s, v@, "nonexistent".spec_bytes())) is None by {
            lemma_bytes_differ("timecounter".spec_bytes(), "nonexistent".spec_bytes(), 0);
            assert forall|j: int| 0 <= j < 13 implies !spec_matches(s, v@[j], "nonexistent".spec_bytes()) by {}
            lemma_match_child_none(s, v@, "nonexistent".spec_bytes());
        }
        assert forall|i: int| 0 <= i < v@.len() implies node_bounded(
            #[trigger] v@[i],
            4,
        ) by {
            reveal_with_fuel(node_bounded, 3);
        }
    }
    v
}

/// The remaining children of `kern`, all of them leaves.
#[verifier::rlimit(100)]
fn kern_tail() -> (v: Vec<SchemaNode>)
    ensures
        v@.len() == 61,
        forall|s2: Schema| (#[trigger] spec_match_child(s2, v@, "nonexistent".spec_bytes()))
            is None,
        forall|i: int| 0 <= i < v@.len() ==> node_bounded(#[trigger] v@[i], 4),
{
    let v = vec![
        leaf_s("osrelease", 2, ValueShape::CString),
        leaf("osrevision", 3),
        leaf_m("maxvnodes", 5),
        leaf_m("maxproc", 6),
        leaf_m("maxfiles", 7),
        leaf("argmax", 8),
        leaf_m("securelevel", 9),
        leaf_m("hostid", 11),
        leaf_s("clockrate", 12, ValueShape::OpaqueRecord),
        leaf_s("profiling", 16, ValueShape::SubtreeMarker),
        leaf("posix1version", 17),
        leaf("ngroups", 18),
        leaf("job_control", 19),
        leaf("saved_ids", 20),
        leaf_s("boottime", 21, ValueShape::OpaqueRecord),
        leaf_sm("domainname", 22, ValueShape::CString, true),
        leaf("maxpartitions", 23),
        leaf("rawpartition", 24),
        leaf_m("maxthread", 25),
        leaf("nthreads", 26),
        leaf_s("osversion", 27, ValueShape::CString),
        leaf_m("somaxconn", 28),
        leaf_m("sominconn", 29),
        leaf_m("nosuidcoredump", 32),
        leaf("fsync", 33),
        leaf("sysvmsg", 34),
        leaf("sysvsem", 35),
        leaf("sysvshm", 36),
        leaf("msgbufsize", 38),
        leaf("cp_time", 40),
        leaf("nselcoll", 43),
        leaf("ccpu", 45),
        leaf("fscale", 46),
        leaf("nprocs", 47),
        leaf("msgbuf", 48),
        leaf("pool", 49),
        leaf("stackgap_random", 50),
        leaf("sysvipc_info", 51),
        leaf_m("allowkmem", 54),
        leaf_m("splassert", 54),
        leaf_s("procargs", 55, ValueShape::SubtreeMarker),
        leaf("nfiles", 56),
        leaf("ttycount", 57),
        leaf("numvnodes", 58),
        leaf_s("mbstat", 59, ValueShape::OpaqueRecord),
        leaf_s("witness", 60, ValueShape::SubtreeMarker),
        leaf_s("intrcnt", 63, ValueShape::SubtreeMarker),
        leaf_m("maxclusters", 67),
        leaf("evcount", 68),
        leaf_m("maxlocksperuid", 70),
        leaf_s("cp_time2", 71, ValueShape::U64Array),
        leaf_m("bufcachepercent", 72),
        leaf_s("file", 73, ValueShape::OpaqueRecord),
        leaf_m("wxabort", 74),
        leaf_s("consdev", 75, ValueShape::DeviceId),
        leaf("netlivelocks", 76),
        leaf("pool_debug", 77),
        leaf("pool_cwd", 78),
        leaf("proc_nobroadcastkill", 79),
        leaf("proc_vmmap", 80),
        leaf("global_ptrace", 81),
    ];
    proof {
        reveal_strlit("allowkmem");
        reveal_strlit("argmax");
        reveal_strlit("boottime");
        reveal_strlit("bufcachepercent");
        reveal_strlit("ccpu");
        reveal_strlit("clockrate");
        reveal_strlit("consdev");
        reveal_strlit("cp_time");
        reveal_strlit("cp_time2");
        reveal_strlit("domainname");
        reveal_strlit("evcount");
        reveal_strlit("file");
        reveal_strlit("fscale");
        reveal_strlit("fsync");
        reveal_strlit("global_ptrace");
        reveal_strlit("hostid");
        reveal_strlit("intrcnt");
        reveal_strlit("job_control");
        reveal_strlit("maxclusters");
        reveal_strlit("maxfiles");
        reveal_strlit("maxlocksperuid");
        reveal_strlit("maxpartitions");
        reveal_strlit("maxproc");
        reveal_strlit("maxthread");
        reveal_strlit("maxvnodes");
        reveal_strlit("mbstat");
        reveal_strlit("msgbuf");
        reveal_strlit("msgbufsize");
        reveal_strlit("netlivelocks");
        reveal_strlit("nfiles");
        reveal_strlit("ngroups");
        reveal_strlit("nonexistent");
        reveal_strlit("nosuidcoredump");
        reveal_strlit("nprocs");
        reveal_strlit("nselcoll");
        reveal_strlit("nthreads");
        reveal_strlit("numvnodes");
        reveal_strlit("osrelease");
        reveal_strlit("osrevision");
        reveal_strlit("osversion");
        reveal_strlit("pool");
        reveal_strlit("pool_cwd");
        reveal_strlit("pool_debug");
        reveal_strlit("posix1version");
        reveal_strlit("proc_nobroadcastkill");
        reveal_strlit("proc_vmmap");
        reveal_strlit("procargs");
        reveal_strlit("profiling");
        reveal_strlit("rawpartition");
        reveal_strlit("saved_ids");
        reveal_strlit("securelevel");
        reveal_strlit("somaxconn");
        reveal_strlit("sominconn");
        reveal_strlit("splassert");
        reveal_strlit("stackgap_random");
        reveal_strlit("sysvipc_info");
        reveal_strlit("sysvmsg");
        reveal_strlit("sysvsem");
        reveal_strlit("sysvshm");
        reveal_strlit("ttycount");
        reveal_strlit("witness");
        reveal_strlit("wxabort");
        broadcast use vstd::string::is_ascii_spec_bytes;
        
        assert(vstd::string::is_ascii("allowkmem"));
        assert(vstd::string::is_ascii("argmax"));
        assert(vstd::string::is_ascii("boottime"));
        assert(vstd::string::is_ascii("bufcachepercent"));
        assert(vstd::string::is_ascii("ccpu"));
        assert(vstd::string::is_ascii("clockrate"));
        assert(vstd::string::is_ascii("consdev"));
        assert(vstd::string::is_ascii("cp_time"));
        assert(vstd::string::is_ascii("cp_time2"));
        assert(vstd::string::is_ascii("domainname"));
        assert(vstd::string::is_ascii("evcount"));
        assert(vstd::string::is_ascii("file"));
        assert(vstd::string::is_ascii("fscale"));
        assert(vstd::string::is_ascii("fsync"));
        assert(vstd::string::is_ascii("global_ptrace"));
        assert(vstd::string::is_ascii("hostid"));
        assert(vstd::string::is_ascii("intrcnt"));
        assert(vstd::string::is_ascii("job_control"));
        assert(vstd::string::is_ascii("maxclusters"));
        assert(vstd::string::is_ascii("maxfiles"));
        assert(vstd::string::is_ascii("maxlocksperuid"));
        assert(vstd::string::is_ascii("maxpartitions"));
        assert(vstd::string::is_ascii("maxproc"));
        assert(vstd::string::is_ascii("maxthread"));
        assert(vstd::string::is_ascii("maxvnodes"));
        assert(vstd::string::is_ascii("mbstat"));
        assert(vstd::string::is_ascii("msgbuf"));
        assert(vstd::string::is_ascii("msgbufsize"));
        assert(vstd::string::is_ascii("netlivelocks"));
        assert(vstd::string::is_ascii("nfiles"));
        assert(vstd::string::is_ascii("ngroups"));
        assert(vstd::string::is_ascii("nonexistent"));
        assert(vstd::string::is_ascii("nosuidcoredump"));
        assert(vstd::string::is_ascii("nprocs"));
        assert(vstd::string::is_ascii("nselcoll"));
        assert(vstd::string::is_ascii("nthreads"));
        assert(vstd::string::is_ascii("numvnodes"));
        assert(vstd::string::is_ascii("osrelease"));
        assert(vstd::string::is_ascii("osrevision"));
        assert(vstd::string::is_ascii("osversion"));
        assert(vstd::string::is_ascii("pool"));
        assert(vstd::string::is_ascii("pool_cwd"));
        assert(vstd::string::is_ascii("pool_debug"));
        assert(vstd::string::is_ascii("posix1version"));
        assert(vstd::string::is_ascii("proc_nobroadcastkill"));
        assert(vstd::string::is_ascii("proc_vmmap"));
        assert(vstd::string::is_ascii("procargs"));
        assert(vstd::string::is_ascii("profiling"));
        assert(vstd::string::is_ascii("rawpartition"));
        assert(vstd::string::is_ascii("saved_ids"));
        assert(vstd::string::is_ascii("securelevel"));
        assert(vstd::string::is_ascii("somaxconn"));
        assert(vstd::string::is_ascii("sominconn"));
        assert(vstd::string::is_ascii("splassert"));
        assert(vstd::string::is_ascii("stackgap_random"));
        assert(vstd::string::is_ascii("sysvipc_info"));
        assert(vstd::string::is_ascii("sysvmsg"));
        assert(vstd::string::is_ascii("sysvsem"));
        assert(vstd::string::is_ascii("sysvshm"));
        assert(vstd::string::is_ascii("ttycount"));
        assert(vstd::string::is_ascii("witness"));
        assert(vstd::string::is_ascii("wxabort"));
        lemma_bytes_differ("securelevel".spec_bytes(), "nonexistent".spec_bytes(), 0);
        lemma_bytes_differ("job_control".spec_bytes(), "nonexistent".spec_bytes(), 0);
        lemma_bytes_differ("maxclusters".spec_bytes(), "nonexistent".spec_bytes(), 0);
        assert forall|s2: Schema| (#[trigger] spec_match_child(s2, v@,
            "nonexistent".spec_bytes())) is None by {
            assert forall|j: int| 0 <= j < 61 implies !spec_matches(s2, v@[j],
                "nonexistent".spec_bytes()) by {}
            lemma_match_child_none(s2, v@, "nonexistent".spec_bytes());
        }
        assert forall|i: int| 0 <= i < v@.len() implies node_bounded(
            #[trigger] v@[i],
            4,
        ) by {
            reveal_with_fuel(node_bounded, 2);
        }
    }
    v
}

/// The `vm` domain.
#[verifier::rlimit(100)]
fn vm() -> (n: SchemaNode)
    ensures
        n.matcher matches Matcher::Literal { name: nm, code: c } && nm@
            == "vm".spec_bytes() && c == 2i32,
        n.kind matches NodeKind::Interior { default_mutable: dm, children: kids } && dm
            == None::<bool>,
        forall|s2: Schema| #[trigger] spec_resolve_from(s2, kind_children(n.kind), false, segs1("uvmexp".spec_bytes()), 1, addr1(2i32)) == Ok::<TargetModel, ErrorModel>((TargetModel { addr: seq![2i32, 4i32], shape: ValueShape::OpaqueRecord, mutable: false })),
        forall|s2: Schema| #[trigger] spec_resolve_from(s2, kind_children(n.kind), false, segs1("loadavg".spec_bytes()), 1, addr1(2i32)) == Ok::<TargetModel, ErrorModel>((TargetModel { addr: seq![2i32, 2i32], shape: ValueShape::OpaqueRecord, mutable: false })),
        node_bounded(n, 5),
{
    let kids = vec![
        leaf_s("vmmeter", 1, ValueShape::OpaqueRecord),
        leaf_s("loadavg", 2, ValueShape::OpaqueRecord),
        leaf_s("psstrings", 3, ValueShape::OpaqueRecord),
        leaf_s("uvmexp", 4, ValueShape::OpaqueRecord),
        leaf_sm("swapencrypt", 5, ValueShape::OpaqueRecord, true),
        leaf("nkmempages", 6),
        leaf_m("anonmin", 7),
        leaf_m("vtextmin", 8),
        leaf_m("vnodemin", 9),
        leaf("maxslp", 10),
        leaf("uspace", 11),
        leaf_sm("malloc_conf", 12, ValueShape::CString, true),
    ];
    proof {
        reveal_strlit("loadavg");
        reveal_strlit("psstrings");
        reveal_strlit("uvmexp");
        reveal_strlit("vm");
        reveal_strlit("vmmeter");
        broadcast use vstd::string::is_ascii_spec_bytes;
        
        assert(vstd::string::is_ascii("loadavg"));
        assert(vstd::string::is_ascii("psstrings"));
        assert(vstd::string::is_ascii("uvmexp"));
        assert(vstd::string::is_ascii("vm"));
        assert(vstd::string::is_ascii("vmmeter"));
        assert forall|s: Schema| #[trigger] spec_resolve_from(s, kids@, false, segs1("uvmexp".spec_bytes()), 1, addr1(2i32)) == Ok::<TargetModel, ErrorModel>((TargetModel { addr: seq![2i32, 4i32], shape: ValueShape::OpaqueRecord, mutable: false })) by {
            assert forall|j: int| 0 <= j < 3 implies !spec_matches(s, kids@[j], "uvmexp".spec_bytes()) by {}
            lemma_match_child_found(s, kids@, "uvmexp".spec_bytes(), 3);
            lemma_step_leaf(s, kids@, false, segs1("uvmexp".spec_bytes()), 1, seq![2i32]);
            assert(seq![2i32].push(4i32) =~= seq![2i32, 4i32]);
        }
        assert forall|s: Schema| #[trigger] spec_resolve_from(s, kids@, false, segs1("loadavg".spec_bytes()), 1, addr1(2i32)) == Ok::<TargetModel, ErrorModel>((TargetModel { addr: seq![2i32, 2i32], shape: ValueShape::OpaqueRecord, mutable: false })) by {
            lemma_bytes_differ("vmmeter".spec_bytes(), "loadavg".spec_bytes(), 0);
            assert forall|j: int| 0 <= j < 1 implies !spec_matches(s, kids@[j], "loadavg".spec_bytes()) by {}
            lemma_match_child_found(s, kids@, "loadavg".spec_bytes(), 1);
            lemma_step_leaf(s, kids@, false, segs1("loadavg".spec_bytes()), 1, seq![2i32]);
            assert(seq![2i32].push(2i32) =~= seq![2i32, 2i32]);
        }
        assert forall|i: int| 0 <= i < kids@.len() implies node_bounded(
            #[trigger] kids@[i],
            4,
        ) by {
            reveal_with_fuel(node_bounded, 3);
        }
    }
    SchemaNode {
        matcher: Matcher::Literal { name: seg("vm"), code: 2 },
        kind: NodeKind::Interior { default_mutable: None, children: kids },
    }
}

/// The `fs` domain; writable throughout.
#[verifier::rlimit(100)]
fn fs() -> (n: SchemaNode)
    ensures
        n.matcher matches Matcher::Literal { name: nm, code: c } && nm@
            == "fs".spec_bytes() && c == 3i32,
        n.kind matches NodeKind::Interior { default_mutable: dm, children: kids } && dm
            == Some(true),
        forall|s2: Schema| #[trigger] spec_resolve_from(s2, kind_children(n.kind), true, segs2("posix".spec_bytes(), "setuid".spec_bytes()), 1, addr1(3i32)) == Ok::<TargetModel, ErrorModel>((TargetModel { addr: seq![3i32, 1i32, 1i32], shape: ValueShape::Int32, mutable: true })),
        node_bounded(n, 5),
{
    let kids = vec![
        node("posix", 1, vec![
                leaf("setuid", 1),
            ]),
    ];
    proof {
        reveal_strlit("fs");
        reveal_strlit("posix");
        reveal_strlit("setuid");
        broadcast use vstd::string::is_ascii_spec_bytes;
        
        assert(vstd::string::is_ascii("fs"));
        assert(vstd::string::is_ascii("posix"));
        assert(vstd::string::is_ascii("setuid"));
        assert forall|s: Schema| #[trigger] spec_resolve_from(s, kids@, true, segs2("posix".spec_bytes(), "setuid".spec_bytes()), 1, addr1(3i32)) == Ok::<TargetModel, ErrorModel>((TargetModel { addr: seq![3i32, 1i32, 1i32], shape: ValueShape::Int32, mutable: true })) by {
            lemma_match_child_found(s, kids@, "posix".spec_bytes(), 0);
            lemma_step_interior(s, kids@, true, segs2("posix".spec_bytes(), "setuid".spec_bytes()), 1, seq![3i32]);
            assert(segs2("posix".spec_bytes(), "setuid".spec_bytes()).drop_first() =~= segs1("setuid".spec_bytes()));
            assert(seq![3i32].push(1i32) =~= seq![3i32, 1i32]);
            let sub1 = crate::schema::kind_children(kids@[0].kind);
            lemma_match_child_found(s, sub1, "setuid".spec_bytes(), 0);
            lemma_step_leaf(s, sub1, true, segs1("setuid".spec_bytes()), 2, seq![3i32, 1i32]);
            assert(seq![3i32, 1i32].push(1i32) =~= seq![3i32, 1i32, 1i32]);
        }
        assert forall|i: int| 0 <= i < kids@.len() implies node_bounded(
            #[trigger] kids@[i],
            4,
        ) by {
            reveal_with_fuel(node_bounded, 3);
        }
    }
    SchemaNode {
        matcher: Matcher::Literal { name: seg("fs"), code: 3 },
        kind: NodeKind::Interior { default_mutable: Some(true), children: kids },
    }
}

/// The `debug` domain.
#[verifier::rlimit(100)]
fn debug() -> (n: SchemaNode)
    ensures
        n.matcher matches Matcher::Literal { name: nm, code: c } && nm@
            == "debug".spec_bytes() && c == 5i32,
        n.kind matches NodeKind::Interior { default_mutable: dm, children: kids } && dm
            == None::<bool>,
        forall|s2: Schema| #[trigger] spec_resolve_from(s2, kind_children(n.kind), false, segs1("name".spec_bytes()), 1, addr1(5i32)) == Ok::<TargetModel, ErrorModel>((TargetModel { addr: seq![5i32, 0i32], shape: ValueShape::Int32, mutable: false })),
        forall|s2: Schema| #[trigger] spec_resolve_from(s2, kind_children(n.kind), false, segs1("value".spec_bytes()), 1, addr1(5i32)) == Ok::<TargetModel, ErrorModel>((TargetModel { addr: seq![5i32, 1i32], shape: ValueShape::Int32, mutable: false })),
        node_bounded(n, 5),
{
    let kids = vec![
        leaf("name", 0),
        leaf("value", 1),
    ];
    proof {
        reveal_strlit("debug");
        reveal_strlit("name");
        reveal_strlit("value");
        broadcast use vstd::string::is_ascii_spec_bytes;
        
        assert(vstd::string::is_ascii("debug"));
        assert(vstd::string::is_ascii("name"));
        assert(vstd::string::is_ascii("value"));
        assert forall|s: Schema| #[trigger] spec_resolve_from(s, kids@, false, segs1("name".spec_bytes()), 1, addr1(5i32)) == Ok::<TargetModel, ErrorModel>((TargetModel { addr: seq![5i32, 0i32], shape: ValueShape::Int32, mutable: false })) by {
            lemma_match_child_found(s, kids@, "name".spec_bytes(), 0);
            lemma_step_leaf(s, kids@, false, segs1("name".spec_bytes()), 1, seq![5i32]);
            assert(seq![5i32].push(0i32) =~= seq![5i32, 0i32]);
        }
        assert forall|s: Schema| #[trigger] spec_resolve_from(s, kids@, false, segs1("value".spec_bytes()), 1, addr1(5i32)) == Ok::<TargetModel, ErrorModel>((TargetModel { addr: seq![5i32, 1i32], shape: ValueShape::Int32, mutable: false })) by {
            assert forall|j: int| 0 <= j < 1 implies !spec_matches(s, kids@[j], "value".spec_bytes()) by {}
            lemma_match_child_found(s, kids@, "value".spec_bytes(), 1);
            lemma_step_leaf(s, kids@, false, segs1("value".spec_bytes()), 1, seq![5i32]);
            assert(seq![5i32].push(1i32) =~= seq![5i32, 1i32]);
        }
        assert forall|i: int| 0 <= i < kids@.len() implies node_bounded(
            #[trigger] kids@[i],
            4,
        ) by {
            reveal_with_fuel(node_bounded, 3);
        }
    }
    SchemaNode {
        matcher: Matcher::Literal { name: seg("debug"), code: 5 },
        kind: NodeKind::Interior { default_mutable: None, children: kids },
    }
}

/// The `hw` domain; every leaf sits at depth two under the domain
/// prefix, and exactly four of them are writable.
#[verifier::rlimit(100)]
fn hw() -> (n: SchemaNode)
    ensures
        n.matcher matches Matcher::Literal { name: nm, code: c } && nm@
            == "hw".spec_bytes() && c == 6i32,
        n.kind matches NodeKind::Interior { default_mutable: dm, children: kids } && dm
            == None::<bool>,
        forall|s2: Schema| #[trigger] spec_resolve_from(s2, kind_children(n.kind), false, segs1("machine".spec_bytes()), 1, addr1(6i32)) == Ok::<TargetModel, ErrorModel>((TargetModel { addr: seq![6i32, 1i32], shape: ValueShape::CString, mutable: false })),
        forall|s2: Schema| #[trigger] spec_resolve_from(s2, kind_children(n.kind), false, segs1("model".spec_bytes()), 1, addr1(6i32)) == Ok::<TargetModel, ErrorModel>((TargetModel { addr: seq![6i32, 2i32], shape: ValueShape::CString, mutable: false })),
        forall|s2: Schema| #[trigger] spec_resolve_from(s2, kind_children(n.kind), false, segs1("ncpu".spec_bytes()), 1, addr1(6i32)) == Ok::<TargetModel, ErrorModel>((TargetModel { addr: seq![6i32, 3i32], shape: ValueShape::Int32, mutable: false })),
        forall|s2: Schema| #[trigger] spec_resolve_from(s2, kind_children(n.kind), false, segs1("byteorder".spec_bytes()), 1, addr1(6i32)) == Ok::<TargetModel, ErrorModel>((TargetModel { addr: seq![6i32, 4i32], shape: ValueShape::Int32, mutable: false })),
        forall|s2: Schema| #[trigger] spec_resolve_from(s2, kind_children(n.kind), false, segs1("pagesize".spec_bytes()), 1, addr1(6i32)) == Ok::<TargetModel, ErrorModel>((TargetModel { addr: seq![6i32, 7i32], shape: ValueShape::Int32, mutable: false })),
        forall|s2: Schema| #[trigger] spec_resolve_from(s2, kind_children(n.kind), false, segs1("disknames".spec_bytes()), 1, addr1(6i32)) == Ok::<TargetModel, ErrorModel>((TargetModel { addr: seq![6i32, 8i32], shape: ValueShape::CString, mutable: false })),
        forall|s2: Schema| #[trigger] spec_resolve_from(s2, kind_children(n.kind), false, segs1("diskstats".spec_bytes()), 1, addr1(6i32)) == Ok::<TargetModel, ErrorModel>((TargetModel { addr: seq![6i32, 9i32], shape: ValueShape::OpaqueRecord, mutable: false })),
        forall|s2: Schema| #[trigger] spec_resolve_from(s2, kind_children(n.kind), false, segs1("diskcount".spec_bytes()), 1, addr1(6i32)) == Ok::<TargetModel, ErrorModel>((TargetModel { addr: seq![6i32, 10i32], shape: ValueShape::Int32, mutable: false })),
        forall|s2: Schema| #[trigger] spec_resolve_from(s2, kind_children(n.kind), false, segs1("sensors".spec_bytes()), 1, addr1(6i32)) == Ok::<TargetModel, ErrorModel>((TargetModel { addr: seq![6i32, 11i32], shape: ValueShape::SubtreeMarker, mutable: false })),
        forall|s2: Schema| #[trigger] spec_resolve_from(s2, kind_children(n.kind), false, segs1("cpuspeed".spec_bytes()), 1, addr1(6i32)) == Ok::<TargetModel, ErrorModel>((TargetModel { addr: seq![6i32, 12i32], shape: ValueShape::Int32, mutable: false })),
        forall|s2: Schema| #[trigger] spec_resolve_from(s2, kind_children(n.kind), false, segs1("setperf".spec_bytes()), 1, addr1(6i32)) == Ok::<TargetModel, ErrorModel>((TargetModel { addr: seq![6i32, 13i32], shape: ValueShape::Int32, mutable: true })),
        forall|s2: Schema| #[trigger] spec_resolve_from(s2, kind_children(n.kind), false, segs1("vendor".spec_bytes()), 1, addr1(6i32)) == Ok::<TargetModel, ErrorModel>((TargetModel { addr: seq![6i32, 14i32], shape: ValueShape::CString, mutable: false })),
        forall|s2: Schema| #[trigger] spec_resolve_from(s2, kind_children(n.kind), false, segs1("product".spec_bytes()), 1, addr1(6i32)) == Ok::<TargetModel, ErrorModel>((TargetModel { addr: seq![6i32, 15i32], shape: ValueShape::CString, mutable: false })),
        forall|s2: Schema| #[trigger] spec_resolve_from(s2, kind_children(n.kind), false, segs1("version".spec_bytes()), 1, addr1(6i32)) == Ok::<TargetModel, ErrorModel>((TargetModel { addr: seq![6i32, 16i32], shape: ValueShape::CString, mutable: false })),
        forall|s2: Schema| #[trigger] spec_resolve_from(s2, kind_children(n.kind), false, segs1("serialno".spec_bytes()), 1, addr1(6i32)) == Ok::<TargetModel, ErrorModel>((TargetModel { addr: seq![6i32, 17i32], shape: ValueShape::Int32, mutable: false })),
        forall|s2: Schema| #[trigger] spec_resolve_from(s2, kind_children(n.kind), false, segs1("uuid".spec_bytes()), 1, addr1(6i32)) == Ok::<TargetModel, ErrorModel>((TargetModel { addr: seq![6i32, 18i32], shape: ValueShape::CString, mutable: false })),
        forall|s2: Schema| #[trigger] spec_resolve_from(s2, kind_children(n.kind), false, segs1("physmem".spec_bytes()), 1, addr1(6i32)) == Ok::<TargetModel, ErrorModel>((TargetModel { addr: seq![6i32, 19i32], shape: ValueShape::Int64, mutable: false })),
        forall|s2: Schema| #[trigger] spec_resolve_from(s2, kind_children(n.kind), false, segs1("usermem".spec_bytes()), 1, addr1(6i32)) == Ok::<TargetModel, ErrorModel>((TargetModel { addr: seq![6i32, 20i32], shape: ValueShape::Int64, mutable: false })),
        forall|s2: Schema| #[trigger] spec_resolve_from(s2, kind_children(n.kind), false, segs1("ncpufound".spec_bytes()), 1, addr1(6i32)) == Ok::<TargetModel, ErrorModel>((TargetModel { addr: seq![6i32, 21i32], shape: ValueShape::Int32, mutable: false })),
        forall|s2: Schema| #[trigger] spec_resolve_from(s2, kind_children(n.kind), false, segs1("allowpowerdown".spec_bytes()), 1, addr1(6i32)) == Ok::<TargetModel, ErrorModel>((TargetModel { addr: seq![6i32, 22i32], shape: ValueShape::Int32, mutable: true })),
        forall|s2: Schema| #[trigger] spec_resolve_from(s2, kind_children(n.kind), false, segs1("perfpolicy".spec_bytes()), 1, addr1(6i32)) == Ok::<TargetModel, ErrorModel>((TargetModel { addr: seq![6i32, 23i32], shape: ValueShape::CString, mutable: true })),
        forall|s2: Schema| #[trigger] spec_resolve_from(s2, kind_children(n.kind), false, segs1("smt".spec_bytes()), 1, addr1(6i32)) == Ok::<TargetModel, ErrorModel>((TargetModel { addr: seq![6i32, 24i32], shape: ValueShape::Int32, mutable: true })),
        forall|s2: Schema| #[trigger] spec_resolve_from(s2, kind_children(n.kind), false, segs1("ncpuonline".spec_bytes()), 1, addr1(6i32)) == Ok::<TargetModel, ErrorModel>((TargetModel { addr: seq![6i32, 25i32], shape: ValueShape::Int32, mutable: false })),
        node_bounded(n, 5),
{
    let kids = vec![
        leaf_s("machine", 1, ValueShape::CString),
        leaf_s("model", 2, ValueShape::CString),
        leaf("ncpu", 3),
        leaf("byteorder", 4),
        leaf("pagesize", 7),
        leaf_s("disknames", 8, ValueShape::CString),
        leaf_s("diskstats", 9, ValueShape::OpaqueRecord),
        leaf("diskcount", 10),
        leaf_s("sensors", 11, ValueShape::SubtreeMarker),
        leaf("cpuspeed", 12),
        leaf_m("setperf", 13),
        leaf_s("vendor", 14, ValueShape::CString),
        leaf_s("product", 15, ValueShape::CString),
        leaf_s("version", 16, ValueShape::CString),
        leaf("serialno", 17),
        leaf_s("uuid", 18, ValueShape::CString),
        leaf_s("physmem", 19, ValueShape::Int64),
        leaf_s("usermem", 20, ValueShape::Int64),
        leaf("ncpufound", 21),
        leaf_m("allowpowerdown", 22),
        leaf_sm("perfpolicy", 23, ValueShape::CString, true),
        leaf_m("smt", 24),
        leaf("ncpuonline", 25),
    ];
    proof {
        reveal_strlit("allowpowerdown");
        reveal_strlit("byteorder");
        reveal_strlit("cpuspeed");
        reveal_strlit("diskcount");
        reveal_strlit("disknames");
        reveal_strlit("diskstats");
        reveal_strlit("hw");
        reveal_strlit("machine");
        reveal_strlit("model");
        reveal_strlit("ncpu");
        reveal_strlit("ncpufound");
        reveal_strlit("ncpuonline");
        reveal_strlit("pagesize");
        reveal_strlit("perfpolicy");
        reveal_strlit("physmem");
        reveal_strlit("product");
        reveal_strlit("sensors");
        reveal_strlit("serialno");
        reveal_strlit("setperf");
        reveal_strlit("smt");
        reveal_strlit("usermem");
        reveal_strlit("uuid");
        reveal_strlit("vendor");
        reveal_strlit("version");
        broadcast use vstd::string::is_ascii_spec_bytes;
        
        assert(vstd::string::is_ascii("allowpowerdown"));
        assert(vstd::string::is_ascii("byteorder"));
        assert(vstd::string::is_ascii("cpuspeed"));
        assert(vstd::string::is_ascii("diskcount"));
        assert(vstd::string::is_ascii("disknames"));
        assert(vstd::string::is_ascii("diskstats"));
        assert(vstd::string::is_ascii("hw"));
        assert(vstd::string::is_ascii("machine"));
        assert(vstd::string::is_ascii("model"));
        assert(vstd::string::is_ascii("ncpu"));
        assert(vstd::string::is_ascii("ncpufound"));
        assert(vstd::string::is_ascii("ncpuonline"));
        assert(vstd::string::is_ascii("pagesize"));
        assert(vstd::string::is_ascii("perfpolicy"));
        assert(vstd::string::is_ascii("physmem"));
        assert(vstd::string::is_ascii("product"));
        assert(vstd::string::is_ascii("sensors"));
        assert(vstd::string::is_ascii("serialno"));
        assert(vstd::string::is_ascii("setperf"));
        assert(vstd::string::is_ascii("smt"));
        assert(vstd::string::is_ascii("usermem"));
        assert(vstd::string::is_ascii("uuid"));
        assert(vstd::string::is_ascii("vendor"));
        assert(vstd::string::is_ascii("version"));
        assert forall|s: Schema| #[trigger] spec_resolve_from(s, kids@, false, segs1("machine".spec_bytes()), 1, addr1(6i32)) == Ok::<TargetModel, ErrorModel>((TargetModel { addr: seq![6i32, 1i32], shape: ValueShape::CString, mutable: false })) by {
            lemma_match_child_found(s, kids@, "machine".spec_bytes(), 0);
            lemma_step_leaf(s, kids@, false, segs1("machine".spec_bytes()), 1, seq![6i32]);
            assert(seq![6i32].push(1i32) =~= seq![6i32, 1i32]);
        }
        assert forall|s: Schema| #[trigger] spec_resolve_from(s, kids@, false, segs1("model".spec_bytes()), 1, addr1(6i32)) == Ok::<TargetModel, ErrorModel>((TargetModel { addr: seq![6i32, 2i32], shape: ValueShape::CString, mutable: false })) by {
            assert forall|j: int| 0 <= j < 1 implies !spec_matches(s, kids@[j], "model".spec_bytes()) by {}
            lemma_match_child_found(s, kids@, "model".spec_bytes(), 1);
            lemma_step_leaf(s, kids@, false, segs1("model".spec_bytes()), 1, seq![6i32]);
            assert(seq![6i32].push(2i32) =~= seq![6i32, 2i32]);
        }
        assert forall|s: Schema| #[trigger] spec_resolve_from(s, kids@, false, segs1("ncpu".spec_bytes()), 1, addr1(6i32)) == Ok::<TargetModel, ErrorModel>((TargetModel { addr: seq![6i32, 3i32], shape: ValueShape::Int32, mutable: false })) by {
            assert forall|j: int| 0 <= j < 2 implies !spec_matches(s, kids@[j], "ncpu".spec_bytes()) by {}
            lemma_match_child_found(s, kids@, "ncpu".spec_bytes(), 2);
            lemma_step_leaf(s, kids@, false, segs1("ncpu".spec_bytes()), 1, seq![6i32]);
            assert(seq![6i32].push(3i32) =~= seq![6i32, 3i32]);
        }
        assert forall|s: Schema| #[trigger] spec_resolve_from(s, kids@, false, segs1("byteorder".spec_bytes()), 1, addr1(6i32)) == Ok::<TargetModel, ErrorModel>((TargetModel { addr: seq![6i32, 4i32], shape: ValueShape::Int32, mutable: false })) by {
            assert forall|j: int| 0 <= j < 3 implies !spec_matches(s, kids@[j], "byteorder".spec_bytes()) by {}
            lemma_match_child_found(s, kids@, "byteorder".spec_bytes(), 3);
            lemma_step_leaf(s, kids@, false, segs1("byteorder".spec_bytes()), 1, seq![6i32]);
            assert(seq![6i32].push(4i32) =~= seq![6i32, 4i32]);
        }
        assert forall|s: Schema| #[trigger] spec_resolve_from(s, kids@, false, segs1("pagesize".spec_bytes()), 1, addr1(6i32)) == Ok::<TargetModel, ErrorModel>((TargetModel { addr: seq![6i32, 7i32], shape: ValueShape::Int32, mutable: false })) by {
            assert forall|j: int| 0 <= j < 4 implies !spec_matches(s, kids@[j], "pagesize".spec_bytes()) by {}
            lemma_match_child_found(s, kids@, "pagesize".spec_bytes(), 4);
            lemma_step_leaf(s, kids@, false, segs1("pagesize".spec_bytes()), 1, seq![6i32]);
            assert(seq![6i32].push(7i32) =~= seq![6i32, 7i32]);
        }
        assert forall|s: Schema| #[trigger] spec_resolve_from(s, kids@, false, segs1("disknames".spec_bytes()), 1, addr1(6i32)) == Ok::<TargetModel, ErrorModel>((TargetModel { addr: seq![6i32, 8i32], shape: ValueShape::CString, mutable: false })) by {
            lemma_bytes_differ("byteorder".spec_bytes(), "disknames".spec_bytes(), 0);
            assert forall|j: int| 0 <= j < 5 implies !spec_matches(s, kids@[j], "disknames".spec_bytes()) by {}
            lemma_match_child_found(s, kids@, "disknames".spec_bytes(), 5);
            lemma_step_leaf(s, kids@, false, segs1("disknames".spec_bytes()), 1, seq![6i32]);
            assert(seq![6i32].push(8i32) =~= seq![6i32, 8i32]);
        }
        assert forall|s: Schema| #[trigger] spec_resolve_from(s, kids@, false, segs1("diskstats".spec_bytes()), 1, addr1(6i32)) == Ok::<TargetModel, ErrorModel>((TargetModel { addr: seq![6i32, 9i32], shape: ValueShape::OpaqueRecord, mutable: false })) by {
            lemma_bytes_differ("byteorder".spec_bytes(), "diskstats".spec_bytes(), 0);
            lemma_bytes_differ("disknames".spec_bytes(), "diskstats".spec_bytes(), 4);
            assert forall|j: int| 0 <= j < 6 implies !spec_matches(s, kids@[j], "diskstats".spec_bytes()) by {}
            lemma_match_child_found(s, kids@, "diskstats".spec_bytes(), 6);
            lemma_step_leaf(s, kids@, false, segs1("diskstats".spec_bytes()), 1, seq![6i32]);
            assert(seq![6i32].push(9i32) =~= seq![6i32, 9i32]);
        }
        assert forall|s: Schema| #[trigger] spec_resolve_from(s, kids@, false, segs1("diskcount".spec_bytes()), 1, addr1(6i32)) == Ok::<TargetModel, ErrorModel>((TargetModel { addr: seq![6i32, 10i32], shape: ValueShape::Int32, mutable: false })) by {
            lemma_bytes_differ("byteorder".spec_bytes(), "diskcount".spec_bytes(), 0);
            lemma_bytes_differ("disknames".spec_bytes(), "diskcount".spec_bytes(), 4);
            lemma_bytes_differ("diskstats".spec_bytes(), "diskcount".spec_bytes(), 4);
            assert forall|j: int| 0 <= j < 7 implies !spec_matches(s, kids@[j], "diskcount".spec_bytes()) by {}
            lemma_match_child_found(s, kids@, "diskcount".spec_bytes(), 7);
            lemma_step_leaf(s, kids@, false, segs1("diskcount".spec_bytes()), 1, seq![6i32]);
            assert(seq![6i32].push(10i32) =~= seq![6i32, 10i32]);
        }
        assert forall|s: Schema| #[trigger] spec_resolve_from(s, kids@, false, segs1("sensors".spec_bytes()), 1, addr1(6i32)) == Ok::<TargetModel, ErrorModel>((TargetModel { addr: seq![6i32, 11i32], shape: ValueShape::SubtreeMarker, mutable: false })) by {
            lemma_bytes_differ("machine".spec_bytes(), "sensors".spec_bytes(), 0);
            assert forall|j: int| 0 <= j < 8 implies !spec_matches(s, kids@[j], "sensors".spec_bytes()) by {}
            lemma_match_child_found(s, kids@, "sensors".spec_bytes(), 8);
            lemma_step_leaf(s, kids@, false, segs1("sensors".spec_bytes()), 1, seq![6i32]);
            assert(seq![6i32].push(11i32) =~= seq![6i32, 11i32]);
        }
        assert forall|s: Schema| #[trigger] spec_resolve_from(s, kids@, false, segs1("cpuspeed".spec_bytes()), 1, addr1(6i32)) == Ok::<TargetModel, ErrorModel>((TargetModel { addr: seq![6i32, 12i32], shape: ValueShape::Int32, mutable: false })) by {
            lemma_bytes_differ("pagesize".spec_bytes(), "cpuspeed".spec_bytes(), 0);
            assert forall|j: int| 0 <= j < 9 implies !spec_matches(s, kids@[j], "cpuspeed".spec_bytes()) by {}
            lemma_match_child_found(s, kids@, "cpuspeed".spec_bytes(), 9);
            lemma_step_leaf(s, kids@, false, segs1("cpuspeed".spec_bytes()), 1, seq![6i32]);
            assert(seq![6i32].push(12i32) =~= seq![6i32, 12i32]);
        }
        assert forall|s: Schema| #[trigger] spec_resolve_from(s, kids@, false, segs1("setperf".spec_bytes()), 1, addr1(6i32)) == Ok::<TargetModel, ErrorModel>((TargetModel { addr: seq![6i32, 13i32], shape: ValueShape::Int32, mutable: true })) by {
            lemma_bytes_differ("machine".spec_bytes(), "setperf".spec_bytes(), 0);
            lemma_bytes_differ("sensors".spec_bytes(), "setperf".spec_bytes(), 2);
            assert forall|j: int| 0 <= j < 10 implies !spec_matches(s, kids@[j], "setperf".spec_bytes()) by {}
            lemma_match_child_found(s, kids@, "setperf".spec_bytes(), 10);
            lemma_step_leaf(s, kids@, false, segs1("setperf".spec_bytes()), 1, seq![6i32]);
            assert(seq![6i32].push(13i32) =~= seq![6i32, 13i32]);
        }
        assert forall|s: Schema| #[trigger] spec_resolve_from(s, kids@, false, segs1("vendor".spec_bytes()), 1, addr1(6i32)) == Ok::<TargetModel, ErrorModel>((TargetModel { addr: seq![6i32, 14i32], shape: ValueShape::CString, mutable: false })) by {
            assert forall|j: int| 0 <= j < 11 implies !spec_matches(s, kids@[j], "vendor".spec_bytes()) by {}
            lemma_match_child_found(s, kids@, "vendor".spec_bytes(), 11);
            lemma_step_leaf(s, kids@, false, segs1("vendor".spec_bytes()), 1, seq![6i32]);
            assert(seq![6i32].push(14i32) =~= seq![6i32, 14i32]);
        }
        assert forall|s: Schema| #[trigger] spec_resolve_from(s, kids@, false, segs1("product".spec_bytes()), 1, addr1(6i32)) == Ok::<TargetModel, ErrorModel>((TargetModel { addr: seq![6i32, 15i32], shape: ValueShape::CString, mutable: false })) by {
            lemma_bytes_differ("machine".spec_bytes(), "product".spec_bytes(), 0);
            lemma_bytes_differ("sensors".spec_bytes(), "product".spec_bytes(), 0);
            lemma_bytes_differ("setperf".spec_bytes(), "product".spec_bytes(), 0);
            assert forall|j: int| 0 <= j < 12 implies !spec_matches(s, kids@[j], "product".spec_bytes()) by {}
            lemma_match_child_found(s, kids@, "product".spec_bytes(), 12);
            lemma_step_leaf(s, kids@, false, segs1("product".spec_bytes()), 1, seq![6i32]);
            assert(seq![6i32].push(15i32) =~= seq![6i32, 15i32]);
        }
        assert forall|s: Schema| #[trigger] spec_resolve_from(s, kids@, false, segs1("version".spec_bytes()), 1, addr1(6i32)) == Ok::<TargetModel, ErrorModel>((TargetModel { addr: seq![6i32, 16i32], shape: ValueShape::CString, mutable: false })) by {
            lemma_bytes_differ("machine".spec_bytes(), "version".spec_bytes(), 0);
            lemma_bytes_differ("sensors".spec_bytes(), "version".spec_bytes(), 0);
            lemma_bytes_differ("setperf".spec_bytes(), "version".spec_bytes(), 0);
            lemma_bytes_differ("product".spec_bytes(), "version".spec_bytes(), 0);
            assert forall|j: int| 0 <= j < 13 implies !spec_matches(s, kids@[j], "version".spec_bytes()) by {}
            lemma_match_child_found(s, kids@, "version".spec_bytes(), 13);
            lemma_step_leaf(s, kids@, false, segs1("version".spec_bytes()), 1, seq![6i32]);
            assert(seq![6i32].push(16i32) =~= seq![6i32, 16i32]);
        }
        assert forall|s: Schema| #[trigger] spec_resolve_from(s, kids@, false, segs1("serialno".spec_bytes()), 1, addr1(6i32)) == Ok::<TargetModel, ErrorModel>((TargetModel { addr: seq![6i32, 17i32], shape: ValueShape::Int32, mutable: false })) by {
            lemma_bytes_differ("pagesize".spec_bytes(), "serialno".spec_bytes(), 0);
            lemma_bytes_differ("cpuspeed".spec_bytes(), "serialno".spec_bytes(), 0);
            assert forall|j: int| 0 <= j < 14 implies !spec_matches(s, kids@[j], "serialno".spec_bytes()) by {}
            lemma_match_child_found(s, kids@, "serialno".spec_bytes(), 14);
            lemma_step_leaf(s, kids@, false, segs1("serialno".spec_bytes()), 1, seq![6i32]);
            assert(seq![6i32].push(17i32) =~= seq![6i32, 17i32]);
        }
        assert forall|s: Schema| #[trigger] spec_resolve_from(s, kids@, false, segs1("uuid".spec_bytes()), 1, addr1(6i32)) == Ok::<TargetModel, ErrorModel>((TargetModel { addr: seq![6i32, 18i32], shape: ValueShape::CString, mutable: false })) by {
            lemma_bytes_differ("ncpu".spec_bytes(), "uuid".spec_bytes(), 0);
            assert forall|j: int| 0 <= j < 15 implies !spec_matches(s, kids@[j], "uuid".spec_bytes()) by {}
            lemma_match_child_found(s, kids@, "uuid".spec_bytes(), 15);
            lemma_step_leaf(s, kids@, false, segs1("uuid".spec_bytes()), 1, seq![6i32]);
            assert(seq![6i32].push(18i32) =~= seq![6i32, 18i32]);
        }
        assert forall|s: Schema| #[trigger] spec_resolve_from(s, kids@, false, segs1("physmem".spec_bytes()), 1, addr1(6i32)) == Ok::<TargetModel, ErrorModel>((TargetModel { addr: seq![6i32, 19i32], shape: ValueShape::Int64, mutable: false })) by {
            lemma_bytes_differ("machine".spec_bytes(), "physmem".spec_bytes(), 0);
            lemma_bytes_differ("sensors".spec_bytes(), "physmem".spec_bytes(), 0);
            lemma_bytes_differ("setperf".spec_bytes(), "physmem".spec_bytes(), 0);
            lemma_bytes_differ("product".spec_bytes(), "physmem".spec_bytes(), 1);
            lemma_bytes_differ("version".spec_bytes(), "physmem".spec_bytes(), 0);
            assert forall|j: int| 0 <= j < 16 implies !spec_matches(s, kids@[j], "physmem".spec_bytes()) by {}
            lemma_match_child_found(s, kids@, "physmem".spec_bytes(), 16);
            lemma_step_leaf(s, kids@, false, segs1("physmem".spec_bytes()), 1, seq![6i32]);
            assert(seq![6i32].push(19i32) =~= seq![6i32, 19i32]);
        }
        assert forall|s: Schema| #[trigger] spec_resolve_from(s, kids@, false, segs1("usermem".spec_bytes()), 1, addr1(6i32)) == Ok::<TargetModel, ErrorModel>((TargetModel { addr: seq![6i32, 20i32], shape: ValueShape::Int64, mutable: false })) by {
            lemma_bytes_differ("machine".spec_bytes(), "usermem".spec_bytes(), 0);
            lemma_bytes_differ("sensors".spec_bytes(), "usermem".spec_bytes(), 0);
            lemma_bytes_differ("setperf".spec_bytes(), "usermem".spec_bytes(), 0);
            lemma_bytes_differ("product".spec_bytes(), "usermem".spec_bytes(), 0);
            lemma_bytes_differ("version".spec_bytes(), "usermem".spec_bytes(), 0);
            lemma_bytes_differ("physmem".spec_bytes(), "usermem".spec_bytes(), 0);
            assert forall|j: int| 0 <= j < 17 implies !spec_matches(s, kids@[j], "usermem".spec_bytes()) by {}
            lemma_match_child_found(s, kids@, "usermem".spec_bytes(), 17);
            lemma_step_leaf(s, kids@, false, segs1("usermem".spec_bytes()), 1, seq![6i32]);
            assert(seq![6i32].push(20i32) =~= seq![6i32, 20i32]);
        }
        assert forall|s: Schema| #[trigger] spec_resolve_from(s, kids@, false, segs1("ncpufound".spec_bytes()), 1, addr1(6i32)) == Ok::<TargetModel, ErrorModel>((TargetModel { addr: seq![6i32, 21i32], shape: ValueShape::Int32, mutable: false })) by {
            lemma_bytes_differ("byteorder".spec_bytes(), "ncpufound".spec_bytes(), 0);
            lemma_bytes_differ("disknames".spec_bytes(), "ncpufound".spec_bytes(), 0);
            lemma_bytes_differ("diskstats".spec_bytes(), "ncpufound".spec_bytes(), 0);
            lemma_bytes_differ("diskcount".spec_bytes(), "ncpufound".spec_bytes(), 0);
            assert forall|j: int| 0 <= j < 18 implies !spec_matches(s, kids@[j], "ncpufound".spec_bytes()) by {}
            lemma_match_child_found(s, kids@, "ncpufound".spec_bytes(), 18);
            lemma_step_leaf(s, kids@, false, segs1("ncpufound".spec_bytes()), 1, seq![6i32]);
            assert(seq![6i32].push(21i32) =~= seq![6i32, 21i32]);
        }
        assert forall|s: Schema| #[trigger] spec_resolve_from(s, kids@, false, segs1("allowpowerdown".spec_bytes()), 1, addr1(6i32)) == Ok::<TargetModel, ErrorModel>((TargetModel { addr: seq![6i32, 22i32], shape: ValueShape::Int32, mutable: true })) by {
            assert forall|j: int| 0 <= j < 19 implies !spec_matches(s, kids@[j], "allowpowerdown".spec_bytes()) by {}
            lemma_match_child_found(s, kids@, "allowpowerdown".spec_bytes(), 19);
            lemma_step_leaf(s, kids@, false, segs1("allowpowerdown".spec_bytes()), 1, seq![6i32]);
            assert(seq![6i32].push(22i32) =~= seq![6i32, 22i32]);
        }
        assert forall|s: Schema| #[trigger] spec_resolve_from(s, kids@, false, segs1("perfpolicy".spec_bytes()), 1, addr1(6i32)) == Ok::<TargetModel, ErrorModel>((TargetModel { addr: seq![6i32, 23i32], shape: ValueShape::CString, mutable: true })) by {
            assert forall|j: int| 0 <= j < 20 implies !spec_matches(s, kids@[j], "perfpolicy".spec_bytes()) by {}
            lemma_match_child_found(s, kids@, "perfpolicy".spec_bytes(), 20);
            lemma_step_leaf(s, kids@, false, segs1("perfpolicy".spec_bytes()), 1, seq![6i32]);
            assert(seq![6i32].push(23i32) =~= seq![6i32, 23i32]);
        }
        assert forall|s: Schema| #[trigger] spec_resolve_from(s, kids@, false, segs1("smt".spec_bytes()), 1, addr1(6i32)) == Ok::<TargetModel, ErrorModel>((TargetModel { addr: seq![6i32, 24i32], shape: ValueShape::Int32, mutable: true })) by {
            assert forall|j: int| 0 <= j < 21 implies !spec_matches(s, kids@[j], "smt".spec_bytes()) by {}
            lemma_match_child_found(s, kids@, "smt".spec_bytes(), 21);
            lemma_step_leaf(s, kids@, false, segs1("smt".spec_bytes()), 1, seq![6i32]);
            assert(seq![6i32].push(24i32) =~= seq![6i32, 24i32]);
        }
        assert forall|s: Schema| #[trigger] spec_resolve_from(s, kids@, false, segs1("ncpuonline".spec_bytes()), 1, addr1(6i32)) == Ok::<TargetModel, ErrorModel>((TargetModel { addr: seq![6i32, 25i32], shape: ValueShape::Int32, mutable: false })) by {
            lemma_bytes_differ("perfpolicy".spec_bytes(), "ncpuonline".spec_bytes(), 0);
            assert forall|j: int| 0 <= j < 22 implies !spec_matches(s, kids@[j], "ncpuonline".spec_bytes()) by {}
            lemma_match_child_found(s, kids@, "ncpuonline".spec_bytes(), 22);
            lemma_step_leaf(s, kids@, false, segs1("ncpuonline".spec_bytes()), 1, seq![6i32]);
            assert(seq![6i32].push(25i32) =~= seq![6i32, 25i32]);
        }
        assert forall|i: int| 0 <= i < kids@.len() implies node_bounded(
            #[trigger] kids@[i],
            4,
        ) by {
            reveal_with_fuel(node_bounded, 3);
        }
    }
    SchemaNode {
        matcher: Matcher::Literal { name: seg("hw"), code: 6 },
        kind: NodeKind::Interior { default_mutable: None, children: kids },
    }
}

/// The `machdep` domain (amd64); writable throughout.
#[verifier::rlimit(100)]
fn machdep() -> (n: SchemaNode)
    ensures
        n.matcher matches Matcher::Literal { name: nm, code: c } && nm@
            == "machdep".spec_bytes() && c == 7i32,
        n.kind matches NodeKind::Interior { default_mutable: dm, children: kids } && dm
            == Some(true),
        forall|s2: Schema| #[trigger] spec_resolve_from(s2, kind_children(n.kind), true, segs1("allowaperture".spec_bytes()), 1, addr1(7i32)) == Ok::<TargetModel, ErrorModel>((TargetModel { addr: seq![7i32, 5i32], shape: ValueShape::Int32, mutable: true })),
        node_bounded(n, 5),
{
    let kids = vec![
        leaf("allowaperture", 5),
        leaf("kbdreset", 10),
        leaf("lidaction", 14),
        leaf("pwraction", 18),
    ];
    proof {
        reveal_strlit("allowaperture");
        reveal_strlit("machdep");
        broadcast use vstd::string::is_ascii_spec_bytes;
        
        assert(vstd::string::is_ascii("allowaperture"));
        assert(vstd::string::is_ascii("machdep"));
        assert forall|s: Schema| #[trigger] spec_resolve_from(s, kids@, true, segs1("allowaperture".spec_bytes()), 1, addr1(7i32)) == Ok::<TargetModel, ErrorModel>((TargetModel { addr: seq![7i32, 5i32], shape: ValueShape::Int32, mutable: true })) by {
            lemma_match_child_found(s, kids@, "allowaperture".spec_bytes(), 0);
            lemma_step_leaf(s, kids@, true, segs1("allowaperture".spec_bytes()), 1, seq![7i32]);
            assert(seq![7i32].push(5i32) =~= seq![7i32, 5i32]);
        }
        assert forall|i: int| 0 <= i < kids@.len() implies node_bounded(
            #[trigger] kids@[i],
            4,
        ) by {
            reveal_with_fuel(node_bounded, 3);
        }
    }
    SchemaNode {
        matcher: Matcher::Literal { name: seg("machdep"), code: 7 },
        kind: NodeKind::Interior { default_mutable: Some(true), children: kids },
    }
}

/// The `ddb` domain; writable throughout.
#[verifier::rlimit(100)]
fn ddb() -> (n: SchemaNode)
    ensures
        n.matcher matches Matcher::Literal { name: nm, code: c } && nm@
            == "ddb".spec_bytes() && c == 9i32,
        n.kind matches NodeKind::Interior { default_mutable: dm, children: kids } && dm
            == Some(true),
        forall|s2: Schema| #[trigger] spec_resolve_from(s2, kind_children(n.kind), true, segs1("radix".spec_bytes()), 1, addr1(9i32)) == Ok::<TargetModel, ErrorModel>((TargetModel { addr: seq![9i32, 1i32], shape: ValueShape::Int32, mutable: true })),
        node_bounded(n, 5),
{
    let kids = vec![
        leaf("radix", 1),
        leaf("max_width", 2),
        leaf("max_line", 3),
        leaf("tab_stop_width", 4),
        leaf("panic", 5),
        leaf("console", 6),
        leaf("log", 7),
        leaf("trigger", 8),
        leaf("profile", 9),
    ];
    proof {
        reveal_strlit("ddb");
        reveal_strlit("radix");
        broadcast use vstd::string::is_ascii_spec_bytes;
        
        assert(vstd::string::is_ascii("ddb"));
        assert(vstd::string::is_ascii("radix"));
        assert forall|s: Schema| #[trigger] spec_resolve_from(s, kids@, true, segs1("radix".spec_bytes()), 1, addr1(9i32)) == Ok::<TargetModel, ErrorModel>((TargetModel { addr: seq![9i32, 1i32], shape: ValueShape::Int32, mutable: true })) by {
            lemma_match_child_found(s, kids@, "radix".spec_bytes(), 0);
            lemma_step_leaf(s, kids@, true, segs1("radix".spec_bytes()), 1, seq![9i32]);
            assert(seq![9i32].push(1i32) =~= seq![9i32, 1i32]);
        }
        assert forall|i: int| 0 <= i < kids@.len() implies node_bounded(
            #[trigger] kids@[i],
            4,
        ) by {
            reveal_with_fuel(node_bounded, 3);
        }
    }
    SchemaNode {
        matcher: Matcher::Literal { name: seg("ddb"), code: 9 },
        kind: NodeKind::Interior { default_mutable: Some(true), children: kids },
    }
}

/// The `vfs` domain.
#[verifier::rlimit(100)]
fn vfs() -> (n: SchemaNode)
    ensures
        n.matcher matches Matcher::Literal { name: nm, code: c } && nm@
            == "vfs".spec_bytes() && c == 10i32,
        n.kind matches NodeKind::Interior { default_mutable: dm, children: kids } && dm
            == None::<bool>,
        forall|s2: Schema| #[trigger] spec_resolve_from(s2, kind_children(n.kind), false, segs2("ffs".spec_bytes(), "max_softdeps".spec_bytes()), 1, addr1(10i32)) == Ok::<TargetModel, ErrorModel>((TargetModel { addr: seq![10i32, 1i32, 5i32], shape: ValueShape::Int32, mutable: true })),
        forall|s2: Schema| #[trigger] spec_resolve_from(s2, kind_children(n.kind), false, segs2("ffs".spec_bytes(), "dirhash_mem".spec_bytes()), 1, addr1(10i32)) == Ok::<TargetModel, ErrorModel>((TargetModel { addr: seq![10i32, 1i32, 19i32], shape: ValueShape::Int32, mutable: false })),
        node_bounded(n, 5),
{
    let kids = vec![
        leaf("mounts", 0),
        node_m("ffs", 1, true, vec![
                leaf("max_softdeps", 5),
                leaf("sd_tickdelay", 6),
                leaf("sd_worklist_push", 7),
                leaf("sd_blk_limit_push", 8),
                leaf("sd_ino_limit_push", 9),
                leaf("sd_blk_limit_hit", 10),
                leaf("sd_ino_limit_hit", 11),
                leaf("sd_sync_limit_hit", 12),
                leaf("sd_indir_blk_ptrs", 13),
                leaf("sd_inode_bitmap", 14),
                leaf("sd_direct_blk_ptrs", 15),
                leaf("sd_dir_entry", 16),
                leaf("dirhash_dirsize", 17),
                leaf("dirhash_maxmem", 18),
                leaf_sm("dirhash_mem", 19, ValueShape::Int32, false),
            ]),
        node_m("nfs", 3, true, vec![
                leaf_s("nfsstats", 1, ValueShape::OpaqueRecord),
                leaf("iothreads", 2),
            ]),
        leaf("mfs", 4),
        leaf("msdos", 5),
        leaf("ntfs", 7),
        leaf("udf", 14),
        leaf("cd9660", 15),
        leaf("ext2fs", 18),
        node("fuse", 19, vec![
                leaf("fusefs_open_devices", 1),
                leaf("fusefs_fbufs_in", 2),
                leaf("fusefs_fbufs_wait", 3),
                leaf("fusefs_pool_pages", 4),
            ]),
    ];
    proof {
        reveal_strlit("dirhash_dirsize");
        reveal_strlit("dirhash_maxmem");
        reveal_strlit("dirhash_mem");
        reveal_strlit("ffs");
        reveal_strlit("max_softdeps");
        reveal_strlit("mounts");
        reveal_strlit("sd_blk_limit_hit");
        reveal_strlit("sd_blk_limit_push");
        reveal_strlit("sd_dir_entry");
        reveal_strlit("sd_direct_blk_ptrs");
        reveal_strlit("sd_indir_blk_ptrs");
        reveal_strlit("sd_ino_limit_hit");
        reveal_strlit("sd_ino_limit_push");
        reveal_strlit("sd_inode_bitmap");
        reveal_strlit("sd_sync_limit_hit");
        reveal_strlit("sd_tickdelay");
        reveal_strlit("sd_worklist_push");
        reveal_strlit("vfs");
        broadcast use vstd::string::is_ascii_spec_bytes;
        
        assert(vstd::string::is_ascii("dirhash_dirsize"));
        assert(vstd::string::is_ascii("dirhash_maxmem"));
        assert(vstd::string::is_ascii("dirhash_mem"));
        assert(vstd::string::is_ascii("ffs"));
        assert(vstd::string::is_ascii("max_softdeps"));
        assert(vstd::string::is_ascii("mounts"));
        assert(vstd::string::is_ascii("sd_blk_limit_hit"));
        assert(vstd::string::is_ascii("sd_blk_limit_push"));
        assert(vstd::string::is_ascii("sd_dir_entry"));
        assert(vstd::string::is_ascii("sd_direct_blk_ptrs"));
        assert(vstd::string::is_ascii("sd_indir_blk_ptrs"));
        assert(vstd::string::is_ascii("sd_ino_limit_hit"));
        assert(vstd::string::is_ascii("sd_ino_limit_push"));
        assert(vstd::string::is_ascii("sd_inode_bitmap"));
        assert(vstd::string::is_ascii("sd_sync_limit_hit"));
        assert(vstd::string::is_ascii("sd_tickdelay"));
        assert(vstd::string::is_ascii("sd_worklist_push"));
        assert(vstd::string::is_ascii("vfs"));
        assert forall|s: Schema| #[trigger] spec_resolve_from(s, kids@, false, segs2("ffs".spec_bytes(), "max_softdeps".spec_bytes()), 1, addr1(10i32)) == Ok::<TargetModel, ErrorModel>((TargetModel { addr: seq![10i32, 1i32, 5i32], shape: ValueShape::Int32, mutable: true })) by {
            assert forall|j: int| 0 <= j < 1 implies !spec_matches(s, kids@[j], "ffs".spec_bytes()) by {}
            lemma_match_child_found(s, kids@, "ffs".spec_bytes(), 1);
            lemma_step_interior(s, kids@, false, segs2("ffs".spec_bytes(), "max_softdeps".spec_bytes()), 1, seq![10i32]);
            assert(segs2("ffs".spec_bytes(), "max_softdeps".spec_bytes()).drop_first() =~= segs1("max_softdeps".spec_bytes()));
            assert(seq![10i32].push(1i32) =~= seq![10i32, 1i32]);
            let sub1 = crate::schema::kind_children(kids@[1].kind);
            lemma_match_child_found(s, sub1, "max_softdeps".spec_bytes(), 0);
            lemma_step_leaf(s, sub1, true, segs1("max_softdeps".spec_bytes()), 2, seq![10i32, 1i32]);
            assert(seq![10i32, 1i32].push(5i32) =~= seq![10i32, 1i32, 5i32]);
        }
        assert forall|s: Schema| #[trigger] spec_resolve_from(s, kids@, false, segs2("ffs".spec_bytes(), "dirhash_mem".spec_bytes()), 1, addr1(10i32)) == Ok::<TargetModel, ErrorModel>((TargetModel { addr: seq![10i32, 1i32, 19i32], shape: ValueShape::Int32, mutable: false })) by {
            assert forall|j: int| 0 <= j < 1 implies !spec_matches(s, kids@[j], "ffs".spec_bytes()) by {}
            lemma_match_child_found(s, kids@, "ffs".spec_bytes(), 1);
            lemma_step_interior(s, kids@, false, segs2("ffs".spec_bytes(), "dirhash_mem".spec_bytes()), 1, seq![10i32]);
            assert(segs2("ffs".spec_bytes(), "dirhash_mem".spec_bytes()).drop_first() =~= segs1("dirhash_mem".spec_bytes()));
            assert(seq![10i32].push(1i32) =~= seq![10i32, 1i32]);
            let sub1 = crate::schema::kind_children(kids@[1].kind);
            assert forall|j: int| 0 <= j < 14 implies !spec_matches(s, sub1[j], "dirhash_mem".spec_bytes()) by {}
            lemma_match_child_found(s, sub1, "dirhash_mem".spec_bytes(), 14);
            lemma_step_leaf(s, sub1, true, segs1("dirhash_mem".spec_bytes()), 2, seq![10i32, 1i32]);
            assert(seq![10i32, 1i32].push(19i32) =~= seq![10i32, 1i32, 19i32]);
        }
        assert forall|i: int| 0 <= i < kids@.len() implies node_bounded(
            #[trigger] kids@[i],
            4,
        ) by {
            reveal_with_fuel(node_bounded, 3);
        }
    }
    SchemaNode {
        matcher: Matcher::Literal { name: seg("vfs"), code: 10 },
        kind: NodeKind::Interior { default_mutable: None, children: kids },
    }
}


/// An interface-queue subtree (`ifq`); its leaves keep the marker shape the
/// kernel reports for them.
fn ifq_node() -> (n: SchemaNode)
    ensures
        forall|d: int| d >= 1 ==> node_bounded(n, d),
{
    let n = node(
        "ifq",
        30,
        vec![
            leaf_s("congestion", 4, ValueShape::SubtreeMarker),
            leaf_s("drops", 3, ValueShape::SubtreeMarker),
            leaf_s("len", 1, ValueShape::SubtreeMarker),
            leaf_s("maxlen", 2, ValueShape::SubtreeMarker),
        ],
    );
    proof {
        assert forall|d: int| d >= 1 implies node_bounded(n, d) by {
            reveal_with_fuel(node_bounded, 3);
        }
    }
    n
}

/// The `ip` protocol subtree; its queue node keeps the marker shapes.
#[verifier::rlimit(100)]
fn ip_node() -> (n: SchemaNode)
    ensures
        n.matcher matches Matcher::Literal { name: nm, code: c } && nm@ == "ip".spec_bytes()
            && c == 0i32,
        forall|d: int| d >= 2 ==> node_bounded(n, d),
{
    let n = node(
        "ip",
        0,
        vec![
            leaf("arpdown", 40),
            leaf("arptimeout", 39),
            leaf("directed-broadcast", 6),
            leaf("encdebug", 12),
            leaf("forwarding", 1),
            ifq_node(),
            leaf("ipsec-allocs", 18),
            leaf_s("ipsec-auth-alg", 26, ValueShape::CString),
            leaf("ipsec-bytes", 20),
            leaf_s("ipsec-comp-alg", 29, ValueShape::CString),
            leaf_s("ipsec-enc-alg", 25, ValueShape::CString),
            leaf("ipsec-expire-acquire", 14),
            leaf("ipsec-firstuse", 24),
            leaf("ipsec-invalid-life", 15),
            leaf("ipsec-pfs", 16),
            leaf("ipsec-soft-allocs", 17),
            leaf("ipsec-soft-bytes", 19),
            leaf("ipsec-soft-firstuse", 23),
            leaf("ipsec-soft-timeout", 22),
            leaf("ipsec-timeout", 21),
            leaf("maxqueue", 11),
            leaf("mforwarding", 31),
            leaf("mtudisc", 27),
            leaf("mtudisctimeout", 28),
            leaf("multipath", 32),
            leaf("portfirst", 7),
            leaf("porthifirst", 9),
            leaf("porthilast", 10),
            leaf("portlast", 8),
            leaf("redirect", 2),
            leaf("sourceroute", 5),
            leaf_sm("stats", 33, ValueShape::OpaqueRecord, false),
            leaf("ttl", 3),
        ],
    );
    proof {
        reveal_strlit("ip");
        broadcast use vstd::string::is_ascii_spec_bytes;

        assert(vstd::string::is_ascii("ip"));
        assert forall|d: int| d >= 2 implies node_bounded(n, d) by {
            reveal_with_fuel(node_bounded, 3);
            assert forall|i: int|
                0 <= i < kind_children(n.kind).len() implies node_bounded(
                #[trigger] kind_children(n.kind)[i],
                d - 1,
            ) by {
                reveal_with_fuel(node_bounded, 3);
            }
        }
    }
    n
}

/// The children of `net.inet`: writable by the subtree default, with the
/// statistics leaves read-only by their own annotation.
#[verifier::rlimit(100)]
fn inet_children() -> (v: Vec<SchemaNode>)
    ensures
        ({
            &&& forall|s: Schema| #[trigger] spec_resolve_from(s, v@, true, segs2("tcp".spec_bytes(), "sack".spec_bytes()), 2, addr2(4i32, 2i32)) == Ok::<TargetModel, ErrorModel>((TargetModel { addr: seq![4i32, 2i32, 6i32, 10i32], shape: ValueShape::Int32, mutable: true }))
            &&& forall|s: Schema| #[trigger] spec_resolve_from(s, v@, true, segs2("icmp".spec_bytes(), "stats".spec_bytes()), 2, addr2(4i32, 2i32)) == Ok::<TargetModel, ErrorModel>((TargetModel { addr: seq![4i32, 2i32, 1i32, 7i32], shape: ValueShape::OpaqueRecord, mutable: false }))
        }),
        forall|i: int| 0 <= i < v@.len() ==> node_bounded(#[trigger] v@[i], 3),
{
    let v = vec![
        tcp_node(),
        icmp_node(),
        node("ah", 51, vec![
                leaf("enable", 1),
                leaf("stats", 2),
            ]),
        node("bpf", 31, vec![
                leaf("bufsize", 1),
                leaf("maxbufsize", 2),
            ]),
        inet_carp_node(),
        inet_divert_node(),
        inet_esp_node(),
        node("etherip", 97, vec![
                leaf("allow", 1),
                leaf("stats", 2),
            ]),
        node("gre", 47, vec![
                leaf("allow", 1),
                leaf("wccp", 2),
            ]),
        ip_node(),
        node("ipcomp", 108, vec![
                leaf("enable", 1),
                leaf("stats", 2),
            ]),
        node("ipip", 4, vec![
                leaf("allow", 1),
                leaf("stats", 2),
            ]),
        node("mobileip", 55, vec![
                leaf("allow", 1),
            ]),
        inet_udp_node(),
    ];
    proof {
        reveal_strlit("icmp");
        reveal_strlit("sack");
        reveal_strlit("stats");
        reveal_strlit("tcp");
        broadcast use vstd::string::is_ascii_spec_bytes;
        
        assert(vstd::string::is_ascii("icmp"));
        assert(vstd::string::is_ascii("sack"));
        assert(vstd::string::is_ascii("stats"));
        assert(vstd::string::is_ascii("tcp"));
        assert forall|s: Schema| #[trigger] spec_resolve_from(s, v@, true, segs2("tcp".spec_bytes(), "sack".spec_bytes()), 2, addr2(4i32, 2i32)) == Ok::<TargetModel, ErrorModel>((TargetModel { addr: seq![4i32, 2i32, 6i32, 10i32], shape: ValueShape::Int32, mutable: true })) by {
            lemma_match_child_found(s, v@, "tcp".spec_bytes(), 0);
            lemma_step_interior(s, v@, true, segs2("tcp".spec_bytes(), "sack".spec_bytes()), 2, addr2(4i32, 2i32));
            assert(segs2("tcp".spec_bytes(), "sack".spec_bytes()).drop_first() =~= segs1("sack".spec_bytes()));
            assert(addr2(4i32, 2i32).push(6i32) =~= seq![4i32, 2i32, 6i32]);
            let sub = kind_children(v@[0].kind);
            lemma_step_leaf(s, sub, true, segs1("sack".spec_bytes()), 3, seq![4i32, 2i32, 6i32]);
            assert(seq![4i32, 2i32, 6i32].push(10i32) =~= seq![4i32, 2i32, 6i32, 10i32]);
        }
        assert forall|s: Schema| #[trigger] spec_resolve_from(s, v@, true, segs2("icmp".spec_bytes(), "stats".spec_bytes()), 2, addr2(4i32, 2i32)) == Ok::<TargetModel, ErrorModel>((TargetModel { addr: seq![4i32, 2i32, 1i32, 7i32], shape: ValueShape::OpaqueRecord, mutable: false })) by {
            assert forall|j: int| 0 <= j < 1 implies !spec_matches(s, v@[j], "icmp".spec_bytes()) by {}
            lemma_match_child_found(s, v@, "icmp".spec_bytes(), 1);
            lemma_step_interior(s, v@, true, segs2("icmp".spec_bytes(), "stats".spec_bytes()), 2, addr2(4i32, 2i32));
            assert(segs2("icmp".spec_bytes(), "stats".spec_bytes()).drop_first() =~= segs1("stats".spec_bytes()));
            assert(addr2(4i32, 2i32).push(1i32) =~= seq![4i32, 2i32, 1i32]);
            let sub = kind_children(v@[1].kind);
            lemma_step_leaf(s, sub, true, segs1("stats".spec_bytes()), 3, seq![4i32, 2i32, 1i32]);
            assert(seq![4i32, 2i32, 1i32].push(7i32) =~= seq![4i32, 2i32, 1i32, 7i32]);
        }
        assert forall|i: int| 0 <= i < v@.len() implies node_bounded(
            #[trigger] v@[i],
            3,
        ) by {
            reveal_with_fuel(node_bounded, 3);
        }
    }
    v
}

/// The children of `net.inet6`; writable by the subtree default.
fn inet6_children() -> (v: Vec<SchemaNode>)
    ensures
        forall|i: int| 0 <= i < v@.len() ==> node_bounded(#[trigger] v@[i], 3),
{
    let v = vec![
        node("divert", 258, vec![
                leaf("recvspace", 1),
                leaf("sendspace", 2),
                leaf("stats", 3),
            ]),
        node("icmp6", 58, vec![
                leaf("errppslimit", 14),
                leaf("mtudisc_hiwat", 16),
                leaf("mtudisc_lowat", 17),
                leaf("nd6_debug", 18),
                leaf("nd6_delay", 8),
                leaf("nd6_maxnudhint", 15),
                leaf("nd6_maxtries", 10),
                leaf("nd6_umaxtries", 9),
                leaf("redirtimeout", 17),
            ]),
        node("ip6", 41, vec![
                leaf("auto_flowlabel", 17),
                leaf("dad_count", 16),
                leaf("dad_pending", 49),
                leaf("defmcasthlim", 18),
                leaf("forwarding", 1),
                leaf("hdrnestlimit", 15),
                leaf("hlim", 3),
                leaf_sm("ifq", 51, ValueShape::SubtreeMarker, false),
                leaf("log_interval", 14),
                leaf("maxdynroutes", 48),
                leaf("maxfragpackets", 9),
                leaf("maxfrags", 41),
                leaf("mforwarding", 42),
                leaf("mtudisctimeout", 50),
                leaf("multicast_mtudisc", 44),
                leaf("multipath", 43),
                leaf("neighborgcthresh", 45),
                leaf("redirect", 2),
                leaf_s("soiikey", 54, ValueShape::ByteArray),
                leaf("use_deprecated", 21),
            ]),
    ];
    proof {
        assert forall|i: int| 0 <= i < v@.len() implies node_bounded(
            #[trigger] v@[i],
            3,
        ) by {
            reveal_with_fuel(node_bounded, 4);
        }
    }
    v
}


/// The auxiliary-table facts the route facts below depend on: the wildcard
/// protocol, the `inet` family and the default routing table, as
/// [`families`], [`protocols`] and [`tables`] define them.
pub open spec fn route_tables_standard(s: Schema) -> bool {
    &&& spec_assoc(spec_table_of(s, LookupKind::RouteProtocol), "0".spec_bytes()) == Some(0i32)
    &&& spec_assoc(spec_table_of(s, LookupKind::AddrFamily), "inet".spec_bytes()) == Some(2i32)
    &&& spec_assoc(spec_table_of(s, LookupKind::RouteTable), "0".spec_bytes()) == Some(0i32)
}

/// The `net` domain. Routing lookups go through the auxiliary tables: the
/// protocol, the address family and the routing table are symbolic segments,
/// and an address family the table does not know fails at its own depth no
/// matter how many segments follow.
#[verifier::rlimit(100)]
fn net() -> (n: SchemaNode)
    ensures
        n.matcher matches Matcher::Literal { name: nm, code: c } && nm@ == "net".spec_bytes() && c
            == 4i32,
        n.kind matches NodeKind::Interior { default_mutable: dm, children: kids } && dm
            == None::<bool>,
        ({
            &&& forall|s: Schema|
                route_tables_standard(s) ==> #[trigger] spec_resolve_from(
                    s,
                    kind_children(n.kind),
                    false,
                    segs5(
                        "route".spec_bytes(),
                        "0".spec_bytes(),
                        "inet".spec_bytes(),
                        "dump".spec_bytes(),
                        "0".spec_bytes(),
                    ),
                    1,
                    seq![4i32],
                ) == Ok::<TargetModel, ErrorModel>(
                    (TargetModel {
                        addr: seq![4i32, 17i32, 0i32, 2i32, 1i32, 0i32],
                        shape: ValueShape::Int32,
                        mutable: false,
                    }),
                )
            &&& forall|s: Schema, af: Seq<u8>, rest: Seq<Seq<u8>>|
                (spec_assoc(spec_table_of(s, LookupKind::RouteProtocol), "0".spec_bytes())
                    == Some(0i32) && spec_assoc(spec_table_of(s, LookupKind::AddrFamily), af)
                    is None) ==> #[trigger] spec_resolve_from(
                    s,
                    kind_children(n.kind),
                    false,
                    segs3("route".spec_bytes(), "0".spec_bytes(), af) + rest,
                    1,
                    addr1(4i32),
                ) == Err::<TargetModel, ErrorModel>(
                    (ErrorModel::UnknownName { depth: 3, segment: af }),
                )
            &&& forall|s: Schema| #[trigger] spec_resolve_from(
                s,
                kind_children(n.kind),
                false,
                segs3("inet".spec_bytes(), "tcp".spec_bytes(), "sack".spec_bytes()),
                1,
                addr1(4i32),
            ) == Ok::<TargetModel, ErrorModel>(
                (TargetModel {
                    addr: seq![4i32, 2i32, 6i32, 10i32],
                    shape: ValueShape::Int32,
                    mutable: true,
                }),
            )
            &&& forall|s: Schema| #[trigger] spec_resolve_from(
                s,
                kind_children(n.kind),
                false,
                segs3("inet".spec_bytes(), "icmp".spec_bytes(), "stats".spec_bytes()),
                1,
                addr1(4i32),
            ) == Ok::<TargetModel, ErrorModel>(
                (TargetModel {
                    addr: seq![4i32, 2i32, 1i32, 7i32],
                    shape: ValueShape::OpaqueRecord,
                    mutable: false,
                }),
            )
        }),
        node_bounded(n, 5),
{
    let cmd_kids = vec![
        node("dump", 1, vec![tleaf(LookupKind::RouteTable, ValueShape::Int32)]),
        leaf("flags", 2),
        leaf("iflist", 3),
        leaf("ifnames", 6),
        leaf("stats", 4),
        leaf("table", 5),
    ];
    let ghost ck = cmd_kids@;
    let fam_t = tnode(LookupKind::AddrFamily, cmd_kids);
    let proto_t = tnode(LookupKind::RouteProtocol, vec![fam_t]);
    let route_n = node("route", 17, vec![proto_t]);
    let inetv = inet_children();
    let ghost iv = inetv@;
    let inet_n = node_m("inet", 2, true, inetv);
    let inet6v = inet6_children();
    let kids = vec![
        route_n,
        inet_n,
        node_m("inet6", 24, true, inet6v),
        node("key", 30, vec![leaf("sadb_dump", 1), leaf("spd_dump", 2)]),
        node_m(
            "mpls",
            33,
            true,
            vec![
                leaf("mapttl_ip", 5),
                leaf("mapttl_ip6", 6),
                leaf("maxloop_inkernel", 4),
                leaf("ttl", 2),
            ],
        ),
        node(
            "pipex",
            35,
            vec![leaf_m("enable", 1), node("inq", 2, vec![ifq_node()]), node(
                "outq",
                3,
                vec![ifq_node()],
            )],
        ),
    ];
    proof {
        reveal_strlit("net");
        reveal_strlit("route");
        reveal_strlit("0");
        reveal_strlit("inet");
        reveal_strlit("dump");
        reveal_strlit("tcp");
        reveal_strlit("sack");
        reveal_strlit("icmp");
        reveal_strlit("stats");
        broadcast use vstd::string::is_ascii_spec_bytes;

        assert(vstd::string::is_ascii("net"));
        assert(vstd::string::is_ascii("route"));
        assert(vstd::string::is_ascii("0"));
        assert(vstd::string::is_ascii("inet"));
        assert(vstd::string::is_ascii("dump"));
        assert(vstd::string::is_ascii("tcp"));
        assert(vstd::string::is_ascii("sack"));
        assert(vstd::string::is_ascii("icmp"));
        assert(vstd::string::is_ascii("stats"));
        let rk = crate::schema::kind_children(kids@[0].kind);
        let pk = crate::schema::kind_children(rk[0].kind);
        let fk = crate::schema::kind_children(pk[0].kind);
        assert(fk == ck);
        let dk = crate::schema::kind_children(fk[0].kind);
        assert forall|s: Schema|
            route_tables_standard(s) implies #[trigger] spec_resolve_from(
            s,
            kids@,
            false,
            segs5(
                "route".spec_bytes(),
                "0".spec_bytes(),
                "inet".spec_bytes(),
                "dump".spec_bytes(),
                "0".spec_bytes(),
            ),
            1,
            seq![4i32],
        ) == Ok::<TargetModel, ErrorModel>(
            (TargetModel {
                addr: seq![4i32, 17i32, 0i32, 2i32, 1i32, 0i32],
                shape: ValueShape::Int32,
                mutable: false,
            }),
        ) by {
            let rest5 = segs5(
                "route".spec_bytes(),
                "0".spec_bytes(),
                "inet".spec_bytes(),
                "dump".spec_bytes(),
                "0".spec_bytes(),
            );
            lemma_match_child_found(s, kids@, "route".spec_bytes(), 0);
            lemma_step_interior(s, kids@, false, rest5, 1, addr1(4i32));
            let rest4 = seq![
                "0".spec_bytes(),
                "inet".spec_bytes(),
                "dump".spec_bytes(),
                "0".spec_bytes(),
            ];
            assert(rest5.drop_first() =~= rest4);
            assert(addr1(4i32).push(17i32) =~= seq![4i32, 17i32]);
            lemma_match_child_found(s, rk, "0".spec_bytes(), 0);
            lemma_step_interior(s, rk, false, rest4, 2, seq![4i32, 17i32]);
            let rest3 = seq!["inet".spec_bytes(), "dump".spec_bytes(), "0".spec_bytes()];
            assert(rest4.drop_first() =~= rest3);
            assert(seq![4i32, 17i32].push(0i32) =~= seq![4i32, 17i32, 0i32]);
            lemma_match_child_found(s, pk, "inet".spec_bytes(), 0);
            lemma_step_interior(s, pk, false, rest3, 3, seq![4i32, 17i32, 0i32]);
            let rest2 = seq!["dump".spec_bytes(), "0".spec_bytes()];
            assert(rest3.drop_first() =~= rest2);
            assert(seq![4i32, 17i32, 0i32].push(2i32) =~= seq![4i32, 17i32, 0i32, 2i32]);
            lemma_match_child_found(s, fk, "dump".spec_bytes(), 0);
            lemma_step_interior(s, fk, false, rest2, 4, seq![4i32, 17i32, 0i32, 2i32]);
            let rest1 = seq!["0".spec_bytes()];
            assert(rest2.drop_first() =~= rest1);
            assert(seq![4i32, 17i32, 0i32, 2i32].push(1i32) =~= seq![
                4i32,
                17i32,
                0i32,
                2i32,
                1i32,
            ]);
            lemma_match_child_found(s, dk, "0".spec_bytes(), 0);
            lemma_step_leaf(s, dk, false, rest1, 5, seq![4i32, 17i32, 0i32, 2i32, 1i32]);
            assert(seq![4i32, 17i32, 0i32, 2i32, 1i32].push(0i32) =~= seq![
                4i32,
                17i32,
                0i32,
                2i32,
                1i32,
                0i32,
            ]);
        }
        assert forall|s: Schema, af: Seq<u8>, rest: Seq<Seq<u8>>|
            (spec_assoc(spec_table_of(s, LookupKind::RouteProtocol), "0".spec_bytes()) == Some(
                0i32,
            ) && spec_assoc(spec_table_of(s, LookupKind::AddrFamily), af)
                is None) implies #[trigger] spec_resolve_from(
            s,
            kids@,
            false,
            segs3("route".spec_bytes(), "0".spec_bytes(), af) + rest,
            1,
            addr1(4i32),
        ) == Err::<TargetModel, ErrorModel>(
            (ErrorModel::UnknownName { depth: 3, segment: af }),
        ) by {
            let rest3v = segs3("route".spec_bytes(), "0".spec_bytes(), af) + rest;
            assert(rest3v[0] == "route".spec_bytes());
            lemma_match_child_found(s, kids@, "route".spec_bytes(), 0);
            lemma_step_interior(s, kids@, false, rest3v, 1, addr1(4i32));
            let rest2v = seq!["0".spec_bytes(), af] + rest;
            assert(rest3v.drop_first() =~= rest2v);
            assert(addr1(4i32).push(17i32) =~= seq![4i32, 17i32]);
            assert(rest2v[0] == "0".spec_bytes());
            lemma_match_child_found(s, rk, "0".spec_bytes(), 0);
            lemma_step_interior(s, rk, false, rest2v, 2, seq![4i32, 17i32]);
            let rest1v = seq![af] + rest;
            assert(rest2v.drop_first() =~= rest1v);
            assert(rest1v[0] == af);
            assert(!spec_matches(s, pk[0], af));
            assert forall|j: int| 0 <= j < pk.len() implies !spec_matches(s, pk[j], af) by {}
            lemma_match_child_none(s, pk, af);
            lemma_step_none(s, pk, false, rest1v, 3, seq![4i32, 17i32, 0i32]);
        }
        assert forall|s: Schema| #[trigger] spec_resolve_from(
            s,
            kids@,
            false,
            segs3("inet".spec_bytes(), "tcp".spec_bytes(), "sack".spec_bytes()),
            1,
            addr1(4i32),
        ) == Ok::<TargetModel, ErrorModel>(
            (TargetModel {
                addr: seq![4i32, 2i32, 6i32, 10i32],
                shape: ValueShape::Int32,
                mutable: true,
            }),
        ) by {
            lemma_bytes_differ("inet".spec_bytes(), "route".spec_bytes(), 0);
            let rest3v = segs3("inet".spec_bytes(), "tcp".spec_bytes(), "sack".spec_bytes());
            assert forall|j: int| 0 <= j < 1 implies !spec_matches(
                s,
                kids@[j],
                "inet".spec_bytes(),
            ) by {}
            lemma_match_child_found(s, kids@, "inet".spec_bytes(), 1);
            lemma_step_interior(s, kids@, false, rest3v, 1, addr1(4i32));
            assert(rest3v.drop_first() =~= segs2("tcp".spec_bytes(), "sack".spec_bytes()));
            assert(addr1(4i32).push(2i32) =~= addr2(4i32, 2i32));
            assert(crate::schema::kind_children(kids@[1].kind) == iv);
        }
        assert forall|s: Schema| #[trigger] spec_resolve_from(
            s,
            kids@,
            false,
            segs3("inet".spec_bytes(), "icmp".spec_bytes(), "stats".spec_bytes()),
            1,
            addr1(4i32),
        ) == Ok::<TargetModel, ErrorModel>(
            (TargetModel {
                addr: seq![4i32, 2i32, 1i32, 7i32],
                shape: ValueShape::OpaqueRecord,
                mutable: false,
            }),
        ) by {
            lemma_bytes_differ("inet".spec_bytes(), "route".spec_bytes(), 0);
            let rest3v = segs3("inet".spec_bytes(), "icmp".spec_bytes(), "stats".spec_bytes());
            assert forall|j: int| 0 <= j < 1 implies !spec_matches(
                s,
                kids@[j],
                "inet".spec_bytes(),
            ) by {}
            lemma_match_child_found(s, kids@, "inet".spec_bytes(), 1);
            lemma_step_interior(s, kids@, false, rest3v, 1, addr1(4i32));
            assert(rest3v.drop_first() =~= segs2("icmp".spec_bytes(), "stats".spec_bytes()));
            assert(addr1(4i32).push(2i32) =~= addr2(4i32, 2i32));
            assert(crate::schema::kind_children(kids@[1].kind) == iv);
        }
        assert(node_bounded(kids@[0], 4)) by {
            reveal_with_fuel(node_bounded, 5);
        }
        assert(node_bounded(kids@[1], 4)) by {
            reveal_with_fuel(node_bounded, 5);
        }
        assert(node_bounded(kids@[2], 4)) by {
            reveal_with_fuel(node_bounded, 5);
        }
        assert(node_bounded(kids@[3], 4)) by {
            reveal_with_fuel(node_bounded, 5);
        }
        assert(node_bounded(kids@[4], 4)) by {
            reveal_with_fuel(node_bounded, 5);
        }
        assert(node_bounded(kids@[5], 4)) by {
            reveal_with_fuel(node_bounded, 5);
            let pkids = crate::schema::kind_children(kids@[5].kind);
            assert(node_bounded(pkids[0], 3));
            assert(node_bounded(crate::schema::kind_children(pkids[1].kind)[0], 2));
            assert(node_bounded(pkids[1], 3));
            assert(node_bounded(crate::schema::kind_children(pkids[2].kind)[0], 2));
            assert(node_bounded(pkids[2], 3));
        }
        assert forall|i: int| 0 <= i < kids@.len() implies node_bounded(
            #[trigger] kids@[i],
            4,
        ) by {}
    }
    SchemaNode {
        matcher: Matcher::Literal { name: seg("net"), code: 4 },
        kind: NodeKind::Interior { default_mutable: None, children: kids },
    }
}

/// The address-family names the kernel knows, with their numeric
/// constants.
#[verifier::rlimit(100)]
fn families() -> (r: Vec<(Vec<u8>, i32)>)
    ensures
        r@.len() == 33,
        entry_at(r@, 0, "unix".spec_bytes(), 1i32),
        entry_at(r@, 1, "local".spec_bytes(), 1i32),
        entry_at(r@, 2, "inet".spec_bytes(), 2i32),
        entry_at(r@, 3, "implink".spec_bytes(), 3i32),
        entry_at(r@, 4, "pup".spec_bytes(), 4i32),
        entry_at(r@, 5, "chaos".spec_bytes(), 5i32),
        entry_at(r@, 6, "ns".spec_bytes(), 6i32),
        entry_at(r@, 7, "iso".spec_bytes(), 7i32),
        entry_at(r@, 8, "osi".spec_bytes(), 7i32),
        entry_at(r@, 9, "ecma".spec_bytes(), 8i32),
        entry_at(r@, 10, "datakit".spec_bytes(), 9i32),
        entry_at(r@, 11, "ccitt".spec_bytes(), 10i32),
        entry_at(r@, 12, "sna".spec_bytes(), 11i32),
        entry_at(r@, 13, "decnet".spec_bytes(), 12i32),
        entry_at(r@, 14, "dli".spec_bytes(), 13i32),
        entry_at(r@, 15, "lat".spec_bytes(), 14i32),
        entry_at(r@, 16, "hylink".spec_bytes(), 15i32),
        entry_at(r@, 17, "appletalk".spec_bytes(), 16i32),
        entry_at(r@, 18, "route".spec_bytes(), 17i32),
        entry_at(r@, 19, "link".spec_bytes(), 18i32),
        entry_at(r@, 20, "coip".spec_bytes(), 20i32),
        entry_at(r@, 21, "cnt".spec_bytes(), 21i32),
        entry_at(r@, 22, "ipx".spec_bytes(), 23i32),
        entry_at(r@, 23, "inet6".spec_bytes(), 24i32),
        entry_at(r@, 24, "isdn".spec_bytes(), 26i32),
        entry_at(r@, 25, "e164".spec_bytes(), 26i32),
        entry_at(r@, 26, "natm".spec_bytes(), 27i32),
        entry_at(r@, 27, "encap".spec_bytes(), 28i32),
        entry_at(r@, 28, "sip".spec_bytes(), 29i32),
        entry_at(r@, 29, "key".spec_bytes(), 30i32),
        entry_at(r@, 30, "bluetooth".spec_bytes(), 32i32),
        entry_at(r@, 31, "mpls".spec_bytes(), 33i32),
        entry_at(r@, 32, "0".spec_bytes(), 0i32),
        spec_assoc(r@, "inet".spec_bytes()) == Some(2i32),
{
    let r = vec![
        entry("unix", 1),
        entry("local", 1),
        entry("inet", 2),
        entry("implink", 3),
        entry("pup", 4),
        entry("chaos", 5),
        entry("ns", 6),
        entry("iso", 7),
        entry("osi", 7),
        entry("ecma", 8),
        entry("datakit", 9),
        entry("ccitt", 10),
        entry("sna", 11),
        entry("decnet", 12),
        entry("dli", 13),
        entry("lat", 14),
        entry("hylink", 15),
        entry("appletalk", 16),
        entry("route", 17),
        entry("link", 18),
        entry("coip", 20),
        entry("cnt", 21),
        entry("ipx", 23),
        entry("inet6", 24),
        entry("isdn", 26),
        entry("e164", 26),
        entry("natm", 27),
        entry("encap", 28),
        entry("sip", 29),
        entry("key", 30),
        entry("bluetooth", 32),
        entry("mpls", 33),
        entry("0", 0),
    ];
    proof {
        reveal_strlit("unix");
        reveal_strlit("local");
        reveal_strlit("inet");
        broadcast use vstd::string::is_ascii_spec_bytes;

        assert(vstd::string::is_ascii("unix"));
        assert(vstd::string::is_ascii("local"));
        assert(vstd::string::is_ascii("inet"));
        lemma_bytes_differ("unix".spec_bytes(), "inet".spec_bytes(), 0);
        assert forall|j: int| 0 <= j < 2 implies (#[trigger] r@[j]).0@
            != "inet".spec_bytes() by {}
        lemma_assoc_found(r@, "inet".spec_bytes(), 2);
    }
    r
}


/// The routing protocol numbers: only the wildcard protocol is defined.
fn protocols() -> (r: Vec<(Vec<u8>, i32)>)
    ensures
        r@.len() == 1,
        entry_at(r@, 0, "0".spec_bytes(), 0i32),
        spec_assoc(r@, "0".spec_bytes()) == Some(0i32),
{
    let r = vec![entry("0", 0)];
    proof {
        lemma_assoc_found(r@, "0".spec_bytes(), 0);
    }
    r
}

/// The routing table identifiers: only the default table is supported; a
/// dump must name it explicitly as its final segment.
fn tables() -> (r: Vec<(Vec<u8>, i32)>)
    ensures
        r@.len() == 1,
        entry_at(r@, 0, "0".spec_bytes(), 0i32),
        spec_assoc(r@, "0".spec_bytes()) == Some(0i32),
{
    let r = vec![entry("0", 0)];
    proof {
        lemma_assoc_found(r@, "0".spec_bytes(), 0);
    }
    r
}

/// Lifts the `kern` subtree's facts to whole-path facts at the root.
#[verifier::rlimit(100)]
proof fn compose_kern(s: Schema, n: SchemaNode)
    requires
        s.root@.len() == 9,
        s.root@[0] == n,
        forall|j: int| 0 <= j < 0 ==> !spec_matches(s, s.root@[j], "kern".spec_bytes()),
        n.matcher matches Matcher::Literal { name: nm, code: c } && nm@ == "kern".spec_bytes() && c == 1i32,
        n.kind matches NodeKind::Interior { default_mutable: dm, children: kids } && dm == None::<bool>,
        forall|s2: Schema| #[trigger] spec_resolve_from(s2, kind_children(n.kind), false, segs1("ostype".spec_bytes()), 1, addr1(1i32)) == Ok::<TargetModel, ErrorModel>((TargetModel { addr: seq![1i32, 1i32], shape: ValueShape::CString, mutable: false })),
        forall|s2: Schema| #[trigger] spec_resolve_from(s2, kind_children(n.kind), false, segs1("version".spec_bytes()), 1, addr1(1i32)) == Ok::<TargetModel, ErrorModel>((TargetModel { addr: seq![1i32, 4i32], shape: ValueShape::CString, mutable: false })),
        forall|s2: Schema| #[trigger] spec_resolve_from(s2, kind_children(n.kind), false, segs1("hostname".spec_bytes()), 1, addr1(1i32)) == Ok::<TargetModel, ErrorModel>((TargetModel { addr: seq![1i32, 10i32], shape: ValueShape::CString, mutable: true })),
        forall|s2: Schema| #[trigger] spec_resolve_from(s2, kind_children(n.kind), false, segs1("nonexistent".spec_bytes()), 1, addr1(1i32)) == Err::<TargetModel, ErrorModel>((ErrorModel::UnknownName { depth: 1, segment: "nonexistent".spec_bytes() })),
        forall|s2: Schema| #[trigger] spec_resolve_from(s2, kind_children(n.kind), false, segs1("malloc".spec_bytes()), 1, addr1(1i32)) == Err::<TargetModel, ErrorModel>(ErrorModel::IncompletePath),
        forall|s2: Schema| #[trigger] spec_resolve_from(s2, kind_children(n.kind), false, segs1("nchstats".spec_bytes()), 1, addr1(1i32)) == Err::<TargetModel, ErrorModel>(ErrorModel::IncompletePath),
        forall|s2: Schema| #[trigger] spec_resolve_from(s2, kind_children(n.kind), false, segs1("forkstat".spec_bytes()), 1, addr1(1i32)) == Err::<TargetModel, ErrorModel>(ErrorModel::IncompletePath),
        forall|s2: Schema| #[trigger] spec_resolve_from(s2, kind_children(n.kind), false, segs1("tty".spec_bytes()), 1, addr1(1i32)) == Err::<TargetModel, ErrorModel>(ErrorModel::IncompletePath),
        forall|s2: Schema| #[trigger] spec_resolve_from(s2, kind_children(n.kind), false, segs1("seminfo".spec_bytes()), 1, addr1(1i32)) == Err::<TargetModel, ErrorModel>(ErrorModel::IncompletePath),
        forall|s2: Schema| #[trigger] spec_resolve_from(s2, kind_children(n.kind), false, segs1("shminfo".spec_bytes()), 1, addr1(1i32)) == Err::<TargetModel, ErrorModel>(ErrorModel::IncompletePath),
        forall|s2: Schema| #[trigger] spec_resolve_from(s2, kind_children(n.kind), false, segs1("watchdog".spec_bytes()), 1, addr1(1i32)) == Err::<TargetModel, ErrorModel>(ErrorModel::IncompletePath),
        forall|s2: Schema| #[trigger] spec_resolve_from(s2, kind_children(n.kind), false, segs1("proc".spec_bytes()), 1, addr1(1i32)) == Err::<TargetModel, ErrorModel>(ErrorModel::IncompletePath),
        forall|s2: Schema| #[trigger] spec_resolve_from(s2, kind_children(n.kind), false, segs1("timecounter".spec_bytes()), 1, addr1(1i32)) == Err::<TargetModel, ErrorModel>(ErrorModel::IncompletePath),
        forall|s2: Schema| #[trigger] spec_resolve_from(s2, kind_children(n.kind), false, segs1("audio".spec_bytes()), 1, addr1(1i32)) == Err::<TargetModel, ErrorModel>(ErrorModel::IncompletePath),
        forall|s2: Schema, rest: Seq<Seq<u8>>| rest.len() >= 1 ==> #[trigger] spec_resolve_from(s2, kind_children(n.kind), false, segs1("ostype".spec_bytes()) + rest, 1, addr1(1i32)) == Err::<TargetModel, ErrorModel>(ErrorModel::TrailingSegments),
    ensures
        resolves_to(s, segs2("kern".spec_bytes(), "ostype".spec_bytes()), seq![1i32, 1i32], ValueShape::CString, false),
        resolves_to(s, segs2("kern".spec_bytes(), "version".spec_bytes()), seq![1i32, 4i32], ValueShape::CString, false),
        resolves_to(s, segs2("kern".spec_bytes(), "hostname".spec_bytes()), seq![1i32, 10i32], ValueShape::CString, true),
        fails_with(s, segs2("kern".spec_bytes(), "nonexistent".spec_bytes()), (ErrorModel::UnknownName { depth: 1, segment: "nonexistent".spec_bytes() })),
        fails_with(s, segs2("kern".spec_bytes(), "malloc".spec_bytes()), ErrorModel::IncompletePath),
        fails_with(s, segs2("kern".spec_bytes(), "nchstats".spec_bytes()), ErrorModel::IncompletePath),
        fails_with(s, segs2("kern".spec_bytes(), "forkstat".spec_bytes()), ErrorModel::IncompletePath),
        fails_with(s, segs2("kern".spec_bytes(), "tty".spec_bytes()), ErrorModel::IncompletePath),
        fails_with(s, segs2("kern".spec_bytes(), "seminfo".spec_bytes()), ErrorModel::IncompletePath),
        fails_with(s, segs2("kern".spec_bytes(), "shminfo".spec_bytes()), ErrorModel::IncompletePath),
        fails_with(s, segs2("kern".spec_bytes(), "watchdog".spec_bytes()), ErrorModel::IncompletePath),
        fails_with(s, segs2("kern".spec_bytes(), "proc".spec_bytes()), ErrorModel::IncompletePath),
        fails_with(s, segs2("kern".spec_bytes(), "timecounter".spec_bytes()), ErrorModel::IncompletePath),
        fails_with(s, segs2("kern".spec_bytes(), "audio".spec_bytes()), ErrorModel::IncompletePath),
        fails_with(s, segs1("kern".spec_bytes()), ErrorModel::IncompletePath),
        forall|rest: Seq<Seq<u8>>| rest.len() >= 1 ==> #[trigger] fails_with(s, segs2("kern".spec_bytes(), "ostype".spec_bytes()) + rest, ErrorModel::TrailingSegments),
{
    assert(resolves_to(s, segs2("kern".spec_bytes(), "ostype".spec_bytes()), seq![1i32, 1i32], ValueShape::CString, false)) by {
        lemma_root_compose(s, 0, "kern".spec_bytes(), segs1("ostype".spec_bytes()), Ok::<TargetModel, ErrorModel>((TargetModel { addr: seq![1i32, 1i32], shape: ValueShape::CString, mutable: false })));
        assert(segs1("kern".spec_bytes()) + segs1("ostype".spec_bytes()) =~= segs2("kern".spec_bytes(), "ostype".spec_bytes()));
    }
    assert(resolves_to(s, segs2("kern".spec_bytes(), "version".spec_bytes()), seq![1i32, 4i32], ValueShape::CString, false)) by {
        lemma_root_compose(s, 0, "kern".spec_bytes(), segs1("version".spec_bytes()), Ok::<TargetModel, ErrorModel>((TargetModel { addr: seq![1i32, 4i32], shape: ValueShape::CString, mutable: false })));
        assert(segs1("kern".spec_bytes()) + segs1("version".spec_bytes()) =~= segs2("kern".spec_bytes(), "version".spec_bytes()));
    }
    assert(resolves_to(s, segs2("kern".spec_bytes(), "hostname".spec_bytes()), seq![1i32, 10i32], ValueShape::CString, true)) by {
        lemma_root_compose(s, 0, "kern".spec_bytes(), segs1("hostname".spec_bytes()), Ok::<TargetModel, ErrorModel>((TargetModel { addr: seq![1i32, 10i32], shape: ValueShape::CString, mutable: true })));
        assert(segs1("kern".spec_bytes()) + segs1("hostname".spec_bytes()) =~= segs2("kern".spec_bytes(), "hostname".spec_bytes()));
    }
    assert(fails_with(s, segs2("kern".spec_bytes(), "nonexistent".spec_bytes()), (ErrorModel::UnknownName { depth: 1, segment: "nonexistent".spec_bytes() }))) by {
        lemma_root_compose(s, 0, "kern".spec_bytes(), segs1("nonexistent".spec_bytes()), Err::<TargetModel, ErrorModel>((ErrorModel::UnknownName { depth: 1, segment: "nonexistent".spec_bytes() })));
        assert(segs1("kern".spec_bytes()) + segs1("nonexistent".spec_bytes()) =~= segs2("kern".spec_bytes(), "nonexistent".spec_bytes()));
    }
    assert(fails_with(s, segs2("kern".spec_bytes(), "malloc".spec_bytes()), ErrorModel::IncompletePath)) by {
        lemma_root_compose(s, 0, "kern".spec_bytes(), segs1("malloc".spec_bytes()), Err::<TargetModel, ErrorModel>(ErrorModel::IncompletePath));
        assert(segs1("kern".spec_bytes()) + segs1("malloc".spec_bytes()) =~= segs2("kern".spec_bytes(), "malloc".spec_bytes()));
    }
    assert(fails_with(s, segs2("kern".spec_bytes(), "nchstats".spec_bytes()), ErrorModel::IncompletePath)) by {
        lemma_root_compose(s, 0, "kern".spec_bytes(), segs1("nchstats".spec_bytes()), Err::<TargetModel, ErrorModel>(ErrorModel::IncompletePath));
        assert(segs1("kern".spec_bytes()) + segs1("nchstats".spec_bytes()) =~= segs2("kern".spec_bytes(), "nchstats".spec_bytes()));
    }
    assert(fails_with(s, segs2("kern".spec_bytes(), "forkstat".spec_bytes()), ErrorModel::IncompletePath)) by {
        lemma_root_compose(s, 0, "kern".spec_bytes(), segs1("forkstat".spec_bytes()), Err::<TargetModel, ErrorModel>(ErrorModel::IncompletePath));
        assert(segs1("kern".spec_bytes()) + segs1("forkstat".spec_bytes()) =~= segs2("kern".spec_bytes(), "forkstat".spec_bytes()));
    }
    assert(fails_with(s, segs2("kern".spec_bytes(), "tty".spec_bytes()), ErrorModel::IncompletePath)) by {
        lemma_root_compose(s, 0, "kern".spec_bytes(), segs1("tty".spec_bytes()), Err::<TargetModel, ErrorModel>(ErrorModel::IncompletePath));
        assert(segs1("kern".spec_bytes()) + segs1("tty".spec_bytes()) =~= segs2("kern".spec_bytes(), "tty".spec_bytes()));
    }
    assert(fails_with(s, segs2("kern".spec_bytes(), "seminfo".spec_bytes()), ErrorModel::IncompletePath)) by {
        lemma_root_compose(s, 0, "kern".spec_bytes(), segs1("seminfo".spec_bytes()), Err::<TargetModel, ErrorModel>(ErrorModel::IncompletePath));
        assert(segs1("kern".spec_bytes()) + segs1("seminfo".spec_bytes()) =~= segs2("kern".spec_bytes(), "seminfo".spec_bytes()));
    }
    assert(fails_with(s, segs2("kern".spec_bytes(), "shminfo".spec_bytes()), ErrorModel::IncompletePath)) by {
        lemma_root_compose(s, 0, "kern".spec_bytes(), segs1("shminfo".spec_bytes()), Err::<TargetModel, ErrorModel>(ErrorModel::IncompletePath));
        assert(segs1("kern".spec_bytes()) + segs1("shminfo".spec_bytes()) =~= segs2("kern".spec_bytes(), "shminfo".spec_bytes()));
    }
    assert(fails_with(s, segs2("kern".spec_bytes(), "watchdog".spec_bytes()), ErrorModel::IncompletePath)) by {
        lemma_root_compose(s, 0, "kern".spec_bytes(), segs1("watchdog".spec_bytes()), Err::<TargetModel, ErrorModel>(ErrorModel::IncompletePath));
        assert(segs1("kern".spec_bytes()) + segs1("watchdog".spec_bytes()) =~= segs2("kern".spec_bytes(), "watchdog".spec_bytes()));
    }
    assert(fails_with(s, segs2("kern".spec_bytes(), "proc".spec_bytes()), ErrorModel::IncompletePath)) by {
        lemma_root_compose(s, 0, "kern".spec_bytes(), segs1("proc".spec_bytes()), Err::<TargetModel, ErrorModel>(ErrorModel::IncompletePath));
        assert(segs1("kern".spec_bytes()) + segs1("proc".spec_bytes()) =~= segs2("kern".spec_bytes(), "proc".spec_bytes()));
    }
    assert(fails_with(s, segs2("kern".spec_bytes(), "timecounter".spec_bytes()), ErrorModel::IncompletePath)) by {
        lemma_root_compose(s, 0, "kern".spec_bytes(), segs1("timecounter".spec_bytes()), Err::<TargetModel, ErrorModel>(ErrorModel::IncompletePath));
        assert(segs1("kern".spec_bytes()) + segs1("timecounter".spec_bytes()) =~= segs2("kern".spec_bytes(), "timecounter".spec_bytes()));
    }
    assert(fails_with(s, segs2("kern".spec_bytes(), "audio".spec_bytes()), ErrorModel::IncompletePath)) by {
        lemma_root_compose(s, 0, "kern".spec_bytes(), segs1("audio".spec_bytes()), Err::<TargetModel, ErrorModel>(ErrorModel::IncompletePath));
        assert(segs1("kern".spec_bytes()) + segs1("audio".spec_bytes()) =~= segs2("kern".spec_bytes(), "audio".spec_bytes()));
    }
    assert(fails_with(s, segs1("kern".spec_bytes()), ErrorModel::IncompletePath)) by {
        lemma_match_child_found(s, s.root@, "kern".spec_bytes(), 0);
        lemma_step_interior(s, s.root@, false, segs1("kern".spec_bytes()), 0, Seq::<i32>::empty());
        assert(segs1("kern".spec_bytes()).drop_first() =~= Seq::<Seq<u8>>::empty());
    }
    assert forall|rest: Seq<Seq<u8>>| rest.len() >= 1 implies #[trigger] fails_with(s, segs2("kern".spec_bytes(), "ostype".spec_bytes()) + rest, ErrorModel::TrailingSegments) by {
        let tail = segs1("ostype".spec_bytes()) + rest;
        lemma_root_compose(s, 0, "kern".spec_bytes(), tail, Err::<TargetModel, ErrorModel>(ErrorModel::TrailingSegments));
        assert(segs1("kern".spec_bytes()) + tail =~= segs2("kern".spec_bytes(), "ostype".spec_bytes()) + rest);
    }
}

/// Lifts the `vm` subtree's facts to whole-path facts at the root.
#[verifier::rlimit(100)]
proof fn compose_vm(s: Schema, n: SchemaNode)
    requires
        s.root@.len() == 9,
        s.root@[1] == n,
        forall|j: int| 0 <= j < 1 ==> !spec_matches(s, s.root@[j], "vm".spec_bytes()),
        n.matcher matches Matcher::Literal { name: nm, code: c } && nm@ == "vm".spec_bytes() && c == 2i32,
        n.kind matches NodeKind::Interior { default_mutable: dm, children: kids } && dm == None::<bool>,
        forall|s2: Schema| #[trigger] spec_resolve_from(s2, kind_children(n.kind), false, segs1("uvmexp".spec_bytes()), 1, addr1(2i32)) == Ok::<TargetModel, ErrorModel>((TargetModel { addr: seq![2i32, 4i32], shape: ValueShape::OpaqueRecord, mutable: false })),
        forall|s2: Schema| #[trigger] spec_resolve_from(s2, kind_children(n.kind), false, segs1("loadavg".spec_bytes()), 1, addr1(2i32)) == Ok::<TargetModel, ErrorModel>((TargetModel { addr: seq![2i32, 2i32], shape: ValueShape::OpaqueRecord, mutable: false })),
    ensures
        resolves_to(s, segs2("vm".spec_bytes(), "uvmexp".spec_bytes()), seq![2i32, 4i32], ValueShape::OpaqueRecord, false),
        resolves_to(s, segs2("vm".spec_bytes(), "loadavg".spec_bytes()), seq![2i32, 2i32], ValueShape::OpaqueRecord, false),
{
    assert(resolves_to(s, segs2("vm".spec_bytes(), "uvmexp".spec_bytes()), seq![2i32, 4i32], ValueShape::OpaqueRecord, false)) by {
        lemma_root_compose(s, 1, "vm".spec_bytes(), segs1("uvmexp".spec_bytes()), Ok::<TargetModel, ErrorModel>((TargetModel { addr: seq![2i32, 4i32], shape: ValueShape::OpaqueRecord, mutable: false })));
        assert(segs1("vm".spec_bytes()) + segs1("uvmexp".spec_bytes()) =~= segs2("vm".spec_bytes(), "uvmexp".spec_bytes()));
    }
    assert(resolves_to(s, segs2("vm".spec_bytes(), "loadavg".spec_bytes()), seq![2i32, 2i32], ValueShape::OpaqueRecord, false)) by {
        lemma_root_compose(s, 1, "vm".spec_bytes(), segs1("loadavg".spec_bytes()), Ok::<TargetModel, ErrorModel>((TargetModel { addr: seq![2i32, 2i32], shape: ValueShape::OpaqueRecord, mutable: false })));
        assert(segs1("vm".spec_bytes()) + segs1("loadavg".spec_bytes()) =~= segs2("vm".spec_bytes(), "loadavg".spec_bytes()));
    }
}

/// Lifts the `fs` subtree's facts to whole-path facts at the root.
#[verifier::rlimit(100)]
proof fn compose_fs(s: Schema, n: SchemaNode)
    requires
        s.root@.len() == 9,
        s.root@[2] == n,
        forall|j: int| 0 <= j < 2 ==> !spec_matches(s, s.root@[j], "fs".spec_bytes()),
        n.matcher matches Matcher::Literal { name: nm, code: c } && nm@ == "fs".spec_bytes() && c == 3i32,
        n.kind matches NodeKind::Interior { default_mutable: dm, children: kids } && dm == Some(true),
        forall|s2: Schema| #[trigger] spec_resolve_from(s2, kind_children(n.kind), true, segs2("posix".spec_bytes(), "setuid".spec_bytes()), 1, addr1(3i32)) == Ok::<TargetModel, ErrorModel>((TargetModel { addr: seq![3i32, 1i32, 1i32], shape: ValueShape::Int32, mutable: true })),
    ensures
        resolves_to(s, segs3("fs".spec_bytes(), "posix".spec_bytes(), "setuid".spec_bytes()), seq![3i32, 1i32, 1i32], ValueShape::Int32, true),
{
    assert(resolves_to(s, segs3("fs".spec_bytes(), "posix".spec_bytes(), "setuid".spec_bytes()), seq![3i32, 1i32, 1i32], ValueShape::Int32, true)) by {
        lemma_root_compose(s, 2, "fs".spec_bytes(), segs2("posix".spec_bytes(), "setuid".spec_bytes()), Ok::<TargetModel, ErrorModel>((TargetModel { addr: seq![3i32, 1i32, 1i32], shape: ValueShape::Int32, mutable: true })));
        assert(segs1("fs".spec_bytes()) + segs2("posix".spec_bytes(), "setuid".spec_bytes()) =~= segs3("fs".spec_bytes(), "posix".spec_bytes(), "setuid".spec_bytes()));
    }
}

/// Lifts the `net` subtree's facts to whole-path facts at the root.
#[verifier::rlimit(100)]
proof fn compose_net(s: Schema, n: SchemaNode)
    requires
        s.root@.len() == 9,
        s.root@[3] == n,
        forall|j: int| 0 <= j < 3 ==> !spec_matches(s, s.root@[j], "net".spec_bytes()),
        n.matcher matches Matcher::Literal { name: nm, code: c } && nm@ == "net".spec_bytes() && c == 4i32,
        n.kind matches NodeKind::Interior { default_mutable: dm, children: kids } && dm == None::<bool>,
        forall|s2: Schema| #[trigger] spec_resolve_from(s2, kind_children(n.kind), false, segs3("inet".spec_bytes(), "tcp".spec_bytes(), "sack".spec_bytes()), 1, addr1(4i32)) == Ok::<TargetModel, ErrorModel>((TargetModel { addr: seq![4i32, 2i32, 6i32, 10i32], shape: ValueShape::Int32, mutable: true })),
        forall|s2: Schema| #[trigger] spec_resolve_from(s2, kind_children(n.kind), false, segs3("inet".spec_bytes(), "icmp".spec_bytes(), "stats".spec_bytes()), 1, addr1(4i32)) == Ok::<TargetModel, ErrorModel>((TargetModel { addr: seq![4i32, 2i32, 1i32, 7i32], shape: ValueShape::OpaqueRecord, mutable: false })),
        route_tables_standard(s),
        forall|s2: Schema| route_tables_standard(s2) ==> #[trigger] spec_resolve_from(s2, kind_children(n.kind), false, segs5("route".spec_bytes(), "0".spec_bytes(), "inet".spec_bytes(), "dump".spec_bytes(), "0".spec_bytes()), 1, addr1(4i32)) == Ok::<TargetModel, ErrorModel>((TargetModel { addr: seq![4i32, 17i32, 0i32, 2i32, 1i32, 0i32], shape: ValueShape::Int32, mutable: false })),
        forall|s2: Schema, af: Seq<u8>, rest: Seq<Seq<u8>>| (spec_assoc(spec_table_of(s2, LookupKind::RouteProtocol), "0".spec_bytes()) == Some(0i32) && spec_assoc(spec_table_of(s2, LookupKind::AddrFamily), af) is None) ==> #[trigger] spec_resolve_from(s2, kind_children(n.kind), false, segs3("route".spec_bytes(), "0".spec_bytes(), af) + rest, 1, addr1(4i32)) == Err::<TargetModel, ErrorModel>((ErrorModel::UnknownName { depth: 3, segment: af })),
    ensures
        resolves_to(s, segs4("net".spec_bytes(), "inet".spec_bytes(), "tcp".spec_bytes(), "sack".spec_bytes()), seq![4i32, 2i32, 6i32, 10i32], ValueShape::Int32, true),
        resolves_to(s, segs4("net".spec_bytes(), "inet".spec_bytes(), "icmp".spec_bytes(), "stats".spec_bytes()), seq![4i32, 2i32, 1i32, 7i32], ValueShape::OpaqueRecord, false),
        resolves_to(s, segs6("net".spec_bytes(), "route".spec_bytes(), "0".spec_bytes(), "inet".spec_bytes(), "dump".spec_bytes(), "0".spec_bytes()), seq![4i32, 17i32, 0i32, 2i32, 1i32, 0i32], ValueShape::Int32, false),
        forall|af: Seq<u8>, rest: Seq<Seq<u8>>| spec_assoc(s.families@, af) is None ==> #[trigger] fails_with(s, segs4("net".spec_bytes(), "route".spec_bytes(), "0".spec_bytes(), af) + rest, (ErrorModel::UnknownName { depth: 3, segment: af })),
{
    assert(resolves_to(s, segs4("net".spec_bytes(), "inet".spec_bytes(), "tcp".spec_bytes(), "sack".spec_bytes()), seq![4i32, 2i32, 6i32, 10i32], ValueShape::Int32, true)) by {
        lemma_root_compose(s, 3, "net".spec_bytes(), segs3("inet".spec_bytes(), "tcp".spec_bytes(), "sack".spec_bytes()), Ok::<TargetModel, ErrorModel>((TargetModel { addr: seq![4i32, 2i32, 6i32, 10i32], shape: ValueShape::Int32, mutable: true })));
        assert(segs1("net".spec_bytes()) + segs3("inet".spec_bytes(), "tcp".spec_bytes(), "sack".spec_bytes()) =~= segs4("net".spec_bytes(), "inet".spec_bytes(), "tcp".spec_bytes(), "sack".spec_bytes()));
    }
    assert(resolves_to(s, segs4("net".spec_bytes(), "inet".spec_bytes(), "icmp".spec_bytes(), "stats".spec_bytes()), seq![4i32, 2i32, 1i32, 7i32], ValueShape::OpaqueRecord, false)) by {
        lemma_root_compose(s, 3, "net".spec_bytes(), segs3("inet".spec_bytes(), "icmp".spec_bytes(), "stats".spec_bytes()), Ok::<TargetModel, ErrorModel>((TargetModel { addr: seq![4i32, 2i32, 1i32, 7i32], shape: ValueShape::OpaqueRecord, mutable: false })));
        assert(segs1("net".spec_bytes()) + segs3("inet".spec_bytes(), "icmp".spec_bytes(), "stats".spec_bytes()) =~= segs4("net".spec_bytes(), "inet".spec_bytes(), "icmp".spec_bytes(), "stats".spec_bytes()));
    }
    assert(resolves_to(s, segs6("net".spec_bytes(), "route".spec_bytes(), "0".spec_bytes(), "inet".spec_bytes(), "dump".spec_bytes(), "0".spec_bytes()), seq![4i32, 17i32, 0i32, 2i32, 1i32, 0i32], ValueShape::Int32, false)) by {
        lemma_root_compose(s, 3, "net".spec_bytes(), segs5("route".spec_bytes(), "0".spec_bytes(), "inet".spec_bytes(), "dump".spec_bytes(), "0".spec_bytes()), Ok::<TargetModel, ErrorModel>((TargetModel { addr: seq![4i32, 17i32, 0i32, 2i32, 1i32, 0i32], shape: ValueShape::Int32, mutable: false })));
        assert(segs1("net".spec_bytes()) + segs5("route".spec_bytes(), "0".spec_bytes(), "inet".spec_bytes(), "dump".spec_bytes(), "0".spec_bytes()) =~= segs6("net".spec_bytes(), "route".spec_bytes(), "0".spec_bytes(), "inet".spec_bytes(), "dump".spec_bytes(), "0".spec_bytes()));
    }
    assert forall|af: Seq<u8>, rest: Seq<Seq<u8>>| spec_assoc(s.families@, af) is None implies #[trigger] fails_with(s, segs4("net".spec_bytes(), "route".spec_bytes(), "0".spec_bytes(), af) + rest, (ErrorModel::UnknownName { depth: 3, segment: af })) by {
        assert(spec_assoc(spec_table_of(s, LookupKind::AddrFamily), af) is None);
        let tail = segs3("route".spec_bytes(), "0".spec_bytes(), af) + rest;
        lemma_root_compose(s, 3, "net".spec_bytes(), tail, Err::<TargetModel, ErrorModel>((ErrorModel::UnknownName { depth: 3, segment: af })));
        assert(segs1("net".spec_bytes()) + tail =~= segs4("net".spec_bytes(), "route".spec_bytes(), "0".spec_bytes(), af) + rest);
    }
}

/// Lifts the `debug` subtree's facts to whole-path facts at the root.
#[verifier::rlimit(100)]
proof fn compose_debug(s: Schema, n: SchemaNode)
    requires
        s.root@.len() == 9,
        s.root@[4] == n,
        forall|j: int| 0 <= j < 4 ==> !spec_matches(s, s.root@[j], "debug".spec_bytes()),
        n.matcher matches Matcher::Literal { name: nm, code: c } && nm@ == "debug".spec_bytes() && c == 5i32,
        n.kind matches NodeKind::Interior { default_mutable: dm, children: kids } && dm == None::<bool>,
        forall|s2: Schema| #[trigger] spec_resolve_from(s2, kind_children(n.kind), false, segs1("name".spec_bytes()), 1, addr1(5i32)) == Ok::<TargetModel, ErrorModel>((TargetModel { addr: seq![5i32, 0i32], shape: ValueShape::Int32, mutable: false })),
        forall|s2: Schema| #[trigger] spec_resolve_from(s2, kind_children(n.kind), false, segs1("value".spec_bytes()), 1, addr1(5i32)) == Ok::<TargetModel, ErrorModel>((TargetModel { addr: seq![5i32, 1i32], shape: ValueShape::Int32, mutable: false })),
    ensures
        resolves_to(s, segs2("debug".spec_bytes(), "name".spec_bytes()), seq![5i32, 0i32], ValueShape::Int32, false),
        resolves_to(s, segs2("debug".spec_bytes(), "value".spec_bytes()), seq![5i32, 1i32], ValueShape::Int32, false),
{
    assert(resolves_to(s, segs2("debug".spec_bytes(), "name".spec_bytes()), seq![5i32, 0i32], ValueShape::Int32, false)) by {
        lemma_root_compose(s, 4, "debug".spec_bytes(), segs1("name".spec_bytes()), Ok::<TargetModel, ErrorModel>((TargetModel { addr: seq![5i32, 0i32], shape: ValueShape::Int32, mutable: false })));
        assert(segs1("debug".spec_bytes()) + segs1("name".spec_bytes()) =~= segs2("debug".spec_bytes(), "name".spec_bytes()));
    }
    assert(resolves_to(s, segs2("debug".spec_bytes(), "value".spec_bytes()), seq![5i32, 1i32], ValueShape::Int32, false)) by {
        lemma_root_compose(s, 4, "debug".spec_bytes(), segs1("value".spec_bytes()), Ok::<TargetModel, ErrorModel>((TargetModel { addr: seq![5i32, 1i32], shape: ValueShape::Int32, mutable: false })));
        assert(segs1("debug".spec_bytes()) + segs1("value".spec_bytes()) =~= segs2("debug".spec_bytes(), "value".spec_bytes()));
    }
}

/// Lifts the `hw` subtree's facts to whole-path facts at the root.
#[verifier::rlimit(100)]
proof fn compose_hw(s: Schema, n: SchemaNode)
    requires
        s.root@.len() == 9,
        s.root@[5] == n,
        forall|j: int| 0 <= j < 5 ==> !spec_matches(s, s.root@[j], "hw".spec_bytes()),
        n.matcher matches Matcher::Literal { name: nm, code: c } && nm@ == "hw".spec_bytes() && c == 6i32,
        n.kind matches NodeKind::Interior { default_mutable: dm, children: kids } && dm == None::<bool>,
        forall|s2: Schema| #[trigger] spec_resolve_from(s2, kind_children(n.kind), false, segs1("machine".spec_bytes()), 1, addr1(6i32)) == Ok::<TargetModel, ErrorModel>((TargetModel { addr: seq![6i32, 1i32], shape: ValueShape::CString, mutable: false })),
        forall|s2: Schema| #[trigger] spec_resolve_from(s2, kind_children(n.kind), false, segs1("model".spec_bytes()), 1, addr1(6i32)) == Ok::<TargetModel, ErrorModel>((TargetModel { addr: seq![6i32, 2i32], shape: ValueShape::CString, mutable: false })),
        forall|s2: Schema| #[trigger] spec_resolve_from(s2, kind_children(n.kind), false, segs1("ncpu".spec_bytes()), 1, addr1(6i32)) == Ok::<TargetModel, ErrorModel>((TargetModel { addr: seq![6i32, 3i32], shape: ValueShape::Int32, mutable: false })),
        forall|s2: Schema| #[trigger] spec_resolve_from(s2, kind_children(n.kind), false, segs1("byteorder".spec_bytes()), 1, addr1(6i32)) == Ok::<TargetModel, ErrorModel>((TargetModel { addr: seq![6i32, 4i32], shape: ValueShape::Int32, mutable: false })),
        forall|s2: Schema| #[trigger] spec_resolve_from(s2, kind_children(n.kind), false, segs1("pagesize".spec_bytes()), 1, addr1(6i32)) == Ok::<TargetModel, ErrorModel>((TargetModel { addr: seq![6i32, 7i32], shape: ValueShape::Int32, mutable: false })),
        forall|s2: Schema| #[trigger] spec_resolve_from(s2, kind_children(n.kind), false, segs1("disknames".spec_bytes()), 1, addr1(6i32)) == Ok::<TargetModel, ErrorModel>((TargetModel { addr: seq![6i32, 8i32], shape: ValueShape::CString, mutable: false })),
        forall|s2: Schema| #[trigger] spec_resolve_from(s2, kind_children(n.kind), false, segs1("diskstats".spec_bytes()), 1, addr1(6i32)) == Ok::<TargetModel, ErrorModel>((TargetModel { addr: seq![6i32, 9i32], shape: ValueShape::OpaqueRecord, mutable: false })),
        forall|s2: Schema| #[trigger] spec_resolve_from(s2, kind_children(n.kind), false, segs1("diskcount".spec_bytes()), 1, addr1(6i32)) == Ok::<TargetModel, ErrorModel>((TargetModel { addr: seq![6i32, 10i32], shape: ValueShape::Int32, mutable: false })),
        forall|s2: Schema| #[trigger] spec_resolve_from(s2, kind_children(n.kind), false, segs1("sensors".spec_bytes()), 1, addr1(6i32)) == Ok::<TargetModel, ErrorModel>((TargetModel { addr: seq![6i32, 11i32], shape: ValueShape::SubtreeMarker, mutable: false })),
        forall|s2: Schema| #[trigger] spec_resolve_from(s2, kind_children(n.kind), false, segs1("cpuspeed".spec_bytes()), 1, addr1(6i32)) == Ok::<TargetModel, ErrorModel>((TargetModel { addr: seq![6i32, 12i32], shape: ValueShape::Int32, mutable: false })),
        forall|s2: Schema| #[trigger] spec_resolve_from(s2, kind_children(n.kind), false, segs1("setperf".spec_bytes()), 1, addr1(6i32)) == Ok::<TargetModel, ErrorModel>((TargetModel { addr: seq![6i32, 13i32], shape: ValueShape::Int32, mutable: true })),
        forall|s2: Schema| #[trigger] spec_resolve_from(s2, kind_children(n.kind), false, segs1("vendor".spec_bytes()), 1, addr1(6i32)) == Ok::<TargetModel, ErrorModel>((TargetModel { addr: seq![6i32, 14i32], shape: ValueShape::CString, mutable: false })),
        forall|s2: Schema| #[trigger] spec_resolve_from(s2, kind_children(n.kind), false, segs1("product".spec_bytes()), 1, addr1(6i32)) == Ok::<TargetModel, ErrorModel>((TargetModel { addr: seq![6i32, 15i32], shape: ValueShape::CString, mutable: false })),
        forall|s2: Schema| #[trigger] spec_resolve_from(s2, kind_children(n.kind), false, segs1("version".spec_bytes()), 1, addr1(6i32)) == Ok::<TargetModel, ErrorModel>((TargetModel { addr: seq![6i32, 16i32], shape: ValueShape::CString, mutable: false })),
        forall|s2: Schema| #[trigger] spec_resolve_from(s2, kind_children(n.kind), false, segs1("serialno".spec_bytes()), 1, addr1(6i32)) == Ok::<TargetModel, ErrorModel>((TargetModel { addr: seq![6i32, 17i32], shape: ValueShape::Int32, mutable: false })),
        forall|s2: Schema| #[trigger] spec_resolve_from(s2, kind_children(n.kind), false, segs1("uuid".spec_bytes()), 1, addr1(6i32)) == Ok::<TargetModel, ErrorModel>((TargetModel { addr: seq![6i32, 18i32], shape: ValueShape::CString, mutable: false })),
        forall|s2: Schema| #[trigger] spec_resolve_from(s2, kind_children(n.kind), false, segs1("physmem".spec_bytes()), 1, addr1(6i32)) == Ok::<TargetModel, ErrorModel>((TargetModel { addr: seq![6i32, 19i32], shape: ValueShape::Int64, mutable: false })),
        forall|s2: Schema| #[trigger] spec_resolve_from(s2, kind_children(n.kind), false, segs1("usermem".spec_bytes()), 1, addr1(6i32)) == Ok::<TargetModel, ErrorModel>((TargetModel { addr: seq![6i32, 20i32], shape: ValueShape::Int64, mutable: false })),
        forall|s2: Schema| #[trigger] spec_resolve_from(s2, kind_children(n.kind), false, segs1("ncpufound".spec_bytes()), 1, addr1(6i32)) == Ok::<TargetModel, ErrorModel>((TargetModel { addr: seq![6i32, 21i32], shape: ValueShape::Int32, mutable: false })),
        forall|s2: Schema| #[trigger] spec_resolve_from(s2, kind_children(n.kind), false, segs1("allowpowerdown".spec_bytes()), 1, addr1(6i32)) == Ok::<TargetModel, ErrorModel>((TargetModel { addr: seq![6i32, 22i32], shape: ValueShape::Int32, mutable: true })),
        forall|s2: Schema| #[trigger] spec_resolve_from(s2, kind_children(n.kind), false, segs1("perfpolicy".spec_bytes()), 1, addr1(6i32)) == Ok::<TargetModel, ErrorModel>((TargetModel { addr: seq![6i32, 23i32], shape: ValueShape::CString, mutable: true })),
        forall|s2: Schema| #[trigger] spec_resolve_from(s2, kind_children(n.kind), false, segs1("smt".spec_bytes()), 1, addr1(6i32)) == Ok::<TargetModel, ErrorModel>((TargetModel { addr: seq![6i32, 24i32], shape: ValueShape::Int32, mutable: true })),
        forall|s2: Schema| #[trigger] spec_resolve_from(s2, kind_children(n.kind), false, segs1("ncpuonline".spec_bytes()), 1, addr1(6i32)) == Ok::<TargetModel, ErrorModel>((TargetModel { addr: seq![6i32, 25i32], shape: ValueShape::Int32, mutable: false })),
    ensures
        resolves_to(s, segs2("hw".spec_bytes(), "machine".spec_bytes()), seq![6i32, 1i32], ValueShape::CString, false),
        resolves_to(s, segs2("hw".spec_bytes(), "model".spec_bytes()), seq![6i32, 2i32], ValueShape::CString, false),
        resolves_to(s, segs2("hw".spec_bytes(), "ncpu".spec_bytes()), seq![6i32, 3i32], ValueShape::Int32, false),
        resolves_to(s, segs2("hw".spec_bytes(), "byteorder".spec_bytes()), seq![6i32, 4i32], ValueShape::Int32, false),
        resolves_to(s, segs2("hw".spec_bytes(), "pagesize".spec_bytes()), seq![6i32, 7i32], ValueShape::Int32, false),
        resolves_to(s, segs2("hw".spec_bytes(), "disknames".spec_bytes()), seq![6i32, 8i32], ValueShape::CString, false),
        resolves_to(s, segs2("hw".spec_bytes(), "diskstats".spec_bytes()), seq![6i32, 9i32], ValueShape::OpaqueRecord, false),
        resolves_to(s, segs2("hw".spec_bytes(), "diskcount".spec_bytes()), seq![6i32, 10i32], ValueShape::Int32, false),
        resolves_to(s, segs2("hw".spec_bytes(), "sensors".spec_bytes()), seq![6i32, 11i32], ValueShape::SubtreeMarker, false),
        resolves_to(s, segs2("hw".spec_bytes(), "cpuspeed".spec_bytes()), seq![6i32, 12i32], ValueShape::Int32, false),
        resolves_to(s, segs2("hw".spec_bytes(), "setperf".spec_bytes()), seq![6i32, 13i32], ValueShape::Int32, true),
        resolves_to(s, segs2("hw".spec_bytes(), "vendor".spec_bytes()), seq![6i32, 14i32], ValueShape::CString, false),
        resolves_to(s, segs2("hw".spec_bytes(), "product".spec_bytes()), seq![6i32, 15i32], ValueShape::CString, false),
        resolves_to(s, segs2("hw".spec_bytes(), "version".spec_bytes()), seq![6i32, 16i32], ValueShape::CString, false),
        resolves_to(s, segs2("hw".spec_bytes(), "serialno".spec_bytes()), seq![6i32, 17i32], ValueShape::Int32, false),
        resolves_to(s, segs2("hw".spec_bytes(), "uuid".spec_bytes()), seq![6i32, 18i32], ValueShape::CString, false),
        resolves_to(s, segs2("hw".spec_bytes(), "physmem".spec_bytes()), seq![6i32, 19i32], ValueShape::Int64, false),
        resolves_to(s, segs2("hw".spec_bytes(), "usermem".spec_bytes()), seq![6i32, 20i32], ValueShape::Int64, false),
        resolves_to(s, segs2("hw".spec_bytes(), "ncpufound".spec_bytes()), seq![6i32, 21i32], ValueShape::Int32, false),
        resolves_to(s, segs2("hw".spec_bytes(), "allowpowerdown".spec_bytes()), seq![6i32, 22i32], ValueShape::Int32, true),
        resolves_to(s, segs2("hw".spec_bytes(), "perfpolicy".spec_bytes()), seq![6i32, 23i32], ValueShape::CString, true),
        resolves_to(s, segs2("hw".spec_bytes(), "smt".spec_bytes()), seq![6i32, 24i32], ValueShape::Int32, true),
        resolves_to(s, segs2("hw".spec_bytes(), "ncpuonline".spec_bytes()), seq![6i32, 25i32], ValueShape::Int32, false),
{
    assert(resolves_to(s, segs2("hw".spec_bytes(), "machine".spec_bytes()), seq![6i32, 1i32], ValueShape::CString, false)) by {
        lemma_root_compose(s, 5, "hw".spec_bytes(), segs1("machine".spec_bytes()), Ok::<TargetModel, ErrorModel>((TargetModel { addr: seq![6i32, 1i32], shape: ValueShape::CString, mutable: false })));
        assert(segs1("hw".spec_bytes()) + segs1("machine".spec_bytes()) =~= segs2("hw".spec_bytes(), "machine".spec_bytes()));
    }
    assert(resolves_to(s, segs2("hw".spec_bytes(), "model".spec_bytes()), seq![6i32, 2i32], ValueShape::CString, false)) by {
        lemma_root_compose(s, 5, "hw".spec_bytes(), segs1("model".spec_bytes()), Ok::<TargetModel, ErrorModel>((TargetModel { addr: seq![6i32, 2i32], shape: ValueShape::CString, mutable: false })));
        assert(segs1("hw".spec_bytes()) + segs1("model".spec_bytes()) =~= segs2("hw".spec_bytes(), "model".spec_bytes()));
    }
    assert(resolves_to(s, segs2("hw".spec_bytes(), "ncpu".spec_bytes()), seq![6i32, 3i32], ValueShape::Int32, false)) by {
        lemma_root_compose(s, 5, "hw".spec_bytes(), segs1("ncpu".spec_bytes()), Ok::<TargetModel, ErrorModel>((TargetModel { addr: seq![6i32, 3i32], shape: ValueShape::Int32, mutable: false })));
        assert(segs1("hw".spec_bytes()) + segs1("ncpu".spec_bytes()) =~= segs2("hw".spec_bytes(), "ncpu".spec_bytes()));
    }
    assert(resolves_to(s, segs2("hw".spec_bytes(), "byteorder".spec_bytes()), seq![6i32, 4i32], ValueShape::Int32, false)) by {
        lemma_root_compose(s, 5, "hw".spec_bytes(), segs1("byteorder".spec_bytes()), Ok::<TargetModel, ErrorModel>((TargetModel { addr: seq![6i32, 4i32], shape: ValueShape::Int32, mutable: false })));
        assert(segs1("hw".spec_bytes()) + segs1("byteorder".spec_bytes()) =~= segs2("hw".spec_bytes(), "byteorder".spec_bytes()));
    }
    assert(resolves_to(s, segs2("hw".spec_bytes(), "pagesize".spec_bytes()), seq![6i32, 7i32], ValueShape::Int32, false)) by {
        lemma_root_compose(s, 5, "hw".spec_bytes(), segs1("pagesize".spec_bytes()), Ok::<TargetModel, ErrorModel>((TargetModel { addr: seq![6i32, 7i32], shape: ValueShape::Int32, mutable: false })));
        assert(segs1("hw".spec_bytes()) + segs1("pagesize".spec_bytes()) =~= segs2("hw".spec_bytes(), "pagesize".spec_bytes()));
    }
    assert(resolves_to(s, segs2("hw".spec_bytes(), "disknames".spec_bytes()), seq![6i32, 8i32], ValueShape::CString, false)) by {
        lemma_root_compose(s, 5, "hw".spec_bytes(), segs1("disknames".spec_bytes()), Ok::<TargetModel, ErrorModel>((TargetModel { addr: seq![6i32, 8i32], shape: ValueShape::CString, mutable: false })));
        assert(segs1("hw".spec_bytes()) + segs1("disknames".spec_bytes()) =~= segs2("hw".spec_bytes(), "disknames".spec_bytes()));
    }
    assert(resolves_to(s, segs2("hw".spec_bytes(), "diskstats".spec_bytes()), seq![6i32, 9i32], ValueShape::OpaqueRecord, false)) by {
        lemma_root_compose(s, 5, "hw".spec_bytes(), segs1("diskstats".spec_bytes()), Ok::<TargetModel, ErrorModel>((TargetModel { addr: seq![6i32, 9i32], shape: ValueShape::OpaqueRecord, mutable: false })));
        assert(segs1("hw".spec_bytes()) + segs1("diskstats".spec_bytes()) =~= segs2("hw".spec_bytes(), "diskstats".spec_bytes()));
    }
    assert(resolves_to(s, segs2("hw".spec_bytes(), "diskcount".spec_bytes()), seq![6i32, 10i32], ValueShape::Int32, false)) by {
        lemma_root_compose(s, 5, "hw".spec_bytes(), segs1("diskcount".spec_bytes()), Ok::<TargetModel, ErrorModel>((TargetModel { addr: seq![6i32, 10i32], shape: ValueShape::Int32, mutable: false })));
        assert(segs1("hw".spec_bytes()) + segs1("diskcount".spec_bytes()) =~= segs2("hw".spec_bytes(), "diskcount".spec_bytes()));
    }
    assert(resolves_to(s, segs2("hw".spec_bytes(), "sensors".spec_bytes()), seq![6i32, 11i32], ValueShape::SubtreeMarker, false)) by {
        lemma_root_compose(s, 5, "hw".spec_bytes(), segs1("sensors".spec_bytes()), Ok::<TargetModel, ErrorModel>((TargetModel { addr: seq![6i32, 11i32], shape: ValueShape::SubtreeMarker, mutable: false })));
        assert(segs1("hw".spec_bytes()) + segs1("sensors".spec_bytes()) =~= segs2("hw".spec_bytes(), "sensors".spec_bytes()));
    }
    assert(resolves_to(s, segs2("hw".spec_bytes(), "cpuspeed".spec_bytes()), seq![6i32, 12i32], ValueShape::Int32, false)) by {
        lemma_root_compose(s, 5, "hw".spec_bytes(), segs1("cpuspeed".spec_bytes()), Ok::<TargetModel, ErrorModel>((TargetModel { addr: seq![6i32, 12i32], shape: ValueShape::Int32, mutable: false })));
        assert(segs1("hw".spec_bytes()) + segs1("cpuspeed".spec_bytes()) =~= segs2("hw".spec_bytes(), "cpuspeed".spec_bytes()));
    }
    assert(resolves_to(s, segs2("hw".spec_bytes(), "setperf".spec_bytes()), seq![6i32, 13i32], ValueShape::Int32, true)) by {
        lemma_root_compose(s, 5, "hw".spec_bytes(), segs1("setperf".spec_bytes()), Ok::<TargetModel, ErrorModel>((TargetModel { addr: seq![6i32, 13i32], shape: ValueShape::Int32, mutable: true })));
        assert(segs1("hw".spec_bytes()) + segs1("setperf".spec_bytes()) =~= segs2("hw".spec_bytes(), "setperf".spec_bytes()));
    }
    assert(resolves_to(s, segs2("hw".spec_bytes(), "vendor".spec_bytes()), seq![6i32, 14i32], ValueShape::CString, false)) by {
        lemma_root_compose(s, 5, "hw".spec_bytes(), segs1("vendor".spec_bytes()), Ok::<TargetModel, ErrorModel>((TargetModel { addr: seq![6i32, 14i32], shape: ValueShape::CString, mutable: false })));
        assert(segs1("hw".spec_bytes()) + segs1("vendor".spec_bytes()) =~= segs2("hw".spec_bytes(), "vendor".spec_bytes()));
    }
    assert(resolves_to(s, segs2("hw".spec_bytes(), "product".spec_bytes()), seq![6i32, 15i32], ValueShape::CString, false)) by {
        lemma_root_compose(s, 5, "hw".spec_bytes(), segs1("product".spec_bytes()), Ok::<TargetModel, ErrorModel>((TargetModel { addr: seq![6i32, 15i32], shape: ValueShape::CString, mutable: false })));
        assert(segs1("hw".spec_bytes()) + segs1("product".spec_bytes()) =~= segs2("hw".spec_bytes(), "product".spec_bytes()));
    }
    assert(resolves_to(s, segs2("hw".spec_bytes(), "version".spec_bytes()), seq![6i32, 16i32], ValueShape::CString, false)) by {
        lemma_root_compose(s, 5, "hw".spec_bytes(), segs1("version".spec_bytes()), Ok::<TargetModel, ErrorModel>((TargetModel { addr: seq![6i32, 16i32], shape: ValueShape::CString, mutable: false })));
        assert(segs1("hw".spec_bytes()) + segs1("version".spec_bytes()) =~= segs2("hw".spec_bytes(), "version".spec_bytes()));
    }
    assert(resolves_to(s, segs2("hw".spec_bytes(), "serialno".spec_bytes()), seq![6i32, 17i32], ValueShape::Int32, false)) by {
        lemma_root_compose(s, 5, "hw".spec_bytes(), segs1("serialno".spec_bytes()), Ok::<TargetModel, ErrorModel>((TargetModel { addr: seq![6i32, 17i32], shape: ValueShape::Int32, mutable: false })));
        assert(segs1("hw".spec_bytes()) + segs1("serialno".spec_bytes()) =~= segs2("hw".spec_bytes(), "serialno".spec_bytes()));
    }
    assert(resolves_to(s, segs2("hw".spec_bytes(), "uuid".spec_bytes()), seq![6i32, 18i32], ValueShape::CString, false)) by {
        lemma_root_compose(s, 5, "hw".spec_bytes(), segs1("uuid".spec_bytes()), Ok::<TargetModel, ErrorModel>((TargetModel { addr: seq![6i32, 18i32], shape: ValueShape::CString, mutable: false })));
        assert(segs1("hw".spec_bytes()) + segs1("uuid".spec_bytes()) =~= segs2("hw".spec_bytes(), "uuid".spec_bytes()));
    }
    assert(resolves_to(s, segs2("hw".spec_bytes(), "physmem".spec_bytes()), seq![6i32, 19i32], ValueShape::Int64, false)) by {
        lemma_root_compose(s, 5, "hw".spec_bytes(), segs1("physmem".spec_bytes()), Ok::<TargetModel, ErrorModel>((TargetModel { addr: seq![6i32, 19i32], shape: ValueShape::Int64, mutable: false })));
        assert(segs1("hw".spec_bytes()) + segs1("physmem".spec_bytes()) =~= segs2("hw".spec_bytes(), "physmem".spec_bytes()));
    }
    assert(resolves_to(s, segs2("hw".spec_bytes(), "usermem".spec_bytes()), seq![6i32, 20i32], ValueShape::Int64, false)) by {
        lemma_root_compose(s, 5, "hw".spec_bytes(), segs1("usermem".spec_bytes()), Ok::<TargetModel, ErrorModel>((TargetModel { addr: seq![6i32, 20i32], shape: ValueShape::Int64, mutable: false })));
        assert(segs1("hw".spec_bytes()) + segs1("usermem".spec_bytes()) =~= segs2("hw".spec_bytes(), "usermem".spec_bytes()));
    }
    assert(resolves_to(s, segs2("hw".spec_bytes(), "ncpufound".spec_bytes()), seq![6i32, 21i32], ValueShape::Int32, false)) by {
        lemma_root_compose(s, 5, "hw".spec_bytes(), segs1("ncpufound".spec_bytes()), Ok::<TargetModel, ErrorModel>((TargetModel { addr: seq![6i32, 21i32], shape: ValueShape::Int32, mutable: false })));
        assert(segs1("hw".spec_bytes()) + segs1("ncpufound".spec_bytes()) =~= segs2("hw".spec_bytes(), "ncpufound".spec_bytes()));
    }
    assert(resolves_to(s, segs2("hw".spec_bytes(), "allowpowerdown".spec_bytes()), seq![6i32, 22i32], ValueShape::Int32, true)) by {
        lemma_root_compose(s, 5, "hw".spec_bytes(), segs1("allowpowerdown".spec_bytes()), Ok::<TargetModel, ErrorModel>((TargetModel { addr: seq![6i32, 22i32], shape: ValueShape::Int32, mutable: true })));
        assert(segs1("hw".spec_bytes()) + segs1("allowpowerdown".spec_bytes()) =~= segs2("hw".spec_bytes(), "allowpowerdown".spec_bytes()));
    }
    assert(resolves_to(s, segs2("hw".spec_bytes(), "perfpolicy".spec_bytes()), seq![6i32, 23i32], ValueShape::CString, true)) by {
        lemma_root_compose(s, 5, "hw".spec_bytes(), segs1("perfpolicy".spec_bytes()), Ok::<TargetModel, ErrorModel>((TargetModel { addr: seq![6i32, 23i32], shape: ValueShape::CString, mutable: true })));
        assert(segs1("hw".spec_bytes()) + segs1("perfpolicy".spec_bytes()) =~= segs2("hw".spec_bytes(), "perfpolicy".spec_bytes()));
    }
    assert(resolves_to(s, segs2("hw".spec_bytes(), "smt".spec_bytes()), seq![6i32, 24i32], ValueShape::Int32, true)) by {
        lemma_root_compose(s, 5, "hw".spec_bytes(), segs1("smt".spec_bytes()), Ok::<TargetModel, ErrorModel>((TargetModel { addr: seq![6i32, 24i32], shape: ValueShape::Int32, mutable: true })));
        assert(segs1("hw".spec_bytes()) + segs1("smt".spec_bytes()) =~= segs2("hw".spec_bytes(), "smt".spec_bytes()));
    }
    assert(resolves_to(s, segs2("hw".spec_bytes(), "ncpuonline".spec_bytes()), seq![6i32, 25i32], ValueShape::Int32, false)) by {
        lemma_root_compose(s, 5, "hw".spec_bytes(), segs1("ncpuonline".spec_bytes()), Ok::<TargetModel, ErrorModel>((TargetModel { addr: seq![6i32, 25i32], shape: ValueShape::Int32, mutable: false })));
        assert(segs1("hw".spec_bytes()) + segs1("ncpuonline".spec_bytes()) =~= segs2("hw".spec_bytes(), "ncpuonline".spec_bytes()));
    }
}

/// Lifts the `machdep` subtree's facts to whole-path facts at the root.
#[verifier::rlimit(100)]
proof fn compose_machdep(s: Schema, n: SchemaNode)
    requires
        s.root@.len() == 9,
        s.root@[6] == n,
        forall|j: int| 0 <= j < 6 ==> !spec_matches(s, s.root@[j], "machdep".spec_bytes()),
        n.matcher matches Matcher::Literal { name: nm, code: c } && nm@ == "machdep".spec_bytes() && c == 7i32,
        n.kind matches NodeKind::Interior { default_mutable: dm, children: kids } && dm == Some(true),
        forall|s2: Schema| #[trigger] spec_resolve_from(s2, kind_children(n.kind), true, segs1("allowaperture".spec_bytes()), 1, addr1(7i32)) == Ok::<TargetModel, ErrorModel>((TargetModel { addr: seq![7i32, 5i32], shape: ValueShape::Int32, mutable: true })),
    ensures
        resolves_to(s, segs2("machdep".spec_bytes(), "allowaperture".spec_bytes()), seq![7i32, 5i32], ValueShape::Int32, true),
{
    assert(resolves_to(s, segs2("machdep".spec_bytes(), "allowaperture".spec_bytes()), seq![7i32, 5i32], ValueShape::Int32, true)) by {
        lemma_root_compose(s, 6, "machdep".spec_bytes(), segs1("allowaperture".spec_bytes()), Ok::<TargetModel, ErrorModel>((TargetModel { addr: seq![7i32, 5i32], shape: ValueShape::Int32, mutable: true })));
        assert(segs1("machdep".spec_bytes()) + segs1("allowaperture".spec_bytes()) =~= segs2("machdep".spec_bytes(), "allowaperture".spec_bytes()));
    }
}

/// Lifts the `ddb` subtree's facts to whole-path facts at the root.
#[verifier::rlimit(100)]
proof fn compose_ddb(s: Schema, n: SchemaNode)
    requires
        s.root@.len() == 9,
        s.root@[7] == n,
        forall|j: int| 0 <= j < 7 ==> !spec_matches(s, s.root@[j], "ddb".spec_bytes()),
        n.matcher matches Matcher::Literal { name: nm, code: c } && nm@ == "ddb".spec_bytes() && c == 9i32,
        n.kind matches NodeKind::Interior { default_mutable: dm, children: kids } && dm == Some(true),
        forall|s2: Schema| #[trigger] spec_resolve_from(s2, kind_children(n.kind), true, segs1("radix".spec_bytes()), 1, addr1(9i32)) == Ok::<TargetModel, ErrorModel>((TargetModel { addr: seq![9i32, 1i32], shape: ValueShape::Int32, mutable: true })),
    ensures
        resolves_to(s, segs2("ddb".spec_bytes(), "radix".spec_bytes()), seq![9i32, 1i32], ValueShape::Int32, true),
{
    assert(resolves_to(s, segs2("ddb".spec_bytes(), "radix".spec_bytes()), seq![9i32, 1i32], ValueShape::Int32, true)) by {
        lemma_root_compose(s, 7, "ddb".spec_bytes(), segs1("radix".spec_bytes()), Ok::<TargetModel, ErrorModel>((TargetModel { addr: seq![9i32, 1i32], shape: ValueShape::Int32, mutable: true })));
        assert(segs1("ddb".spec_bytes()) + segs1("radix".spec_bytes()) =~= segs2("ddb".spec_bytes(), "radix".spec_bytes()));
    }
}

/// Lifts the `vfs` subtree's facts to whole-path facts at the root.
#[verifier::rlimit(100)]
proof fn compose_vfs(s: Schema, n: SchemaNode)
    requires
        s.root@.len() == 9,
        s.root@[8] == n,
        forall|j: int| 0 <= j < 8 ==> !spec_matches(s, s.root@[j], "vfs".spec_bytes()),
        n.matcher matches Matcher::Literal { name: nm, code: c } && nm@ == "vfs".spec_bytes() && c == 10i32,
        n.kind matches NodeKind::Interior { default_mutable: dm, children: kids } && dm == None::<bool>,
        forall|s2: Schema| #[trigger] spec_resolve_from(s2, kind_children(n.kind), false, segs2("ffs".spec_bytes(), "max_softdeps".spec_bytes()), 1, addr1(10i32)) == Ok::<TargetModel, ErrorModel>((TargetModel { addr: seq![10i32, 1i32, 5i32], shape: ValueShape::Int32, mutable: true })),
        forall|s2: Schema| #[trigger] spec_resolve_from(s2, kind_children(n.kind), false, segs2("ffs".spec_bytes(), "dirhash_mem".spec_bytes()), 1, addr1(10i32)) == Ok::<TargetModel, ErrorModel>((TargetModel { addr: seq![10i32, 1i32, 19i32], shape: ValueShape::Int32, mutable: false })),
    ensures
        resolves_to(s, segs3("vfs".spec_bytes(), "ffs".spec_bytes(), "max_softdeps".spec_bytes()), seq![10i32, 1i32, 5i32], ValueShape::Int32, true),
        resolves_to(s, segs3("vfs".spec_bytes(), "ffs".spec_bytes(), "dirhash_mem".spec_bytes()), seq![10i32, 1i32, 19i32], ValueShape::Int32, false),
{
    assert(resolves_to(s, segs3("vfs".spec_bytes(), "ffs".spec_bytes(), "max_softdeps".spec_bytes()), seq![10i32, 1i32, 5i32], ValueShape::Int32, true)) by {
        lemma_root_compose(s, 8, "vfs".spec_bytes(), segs2("ffs".spec_bytes(), "max_softdeps".spec_bytes()), Ok::<TargetModel, ErrorModel>((TargetModel { addr: seq![10i32, 1i32, 5i32], shape: ValueShape::Int32, mutable: true })));
        assert(segs1("vfs".spec_bytes()) + segs2("ffs".spec_bytes(), "max_softdeps".spec_bytes()) =~= segs3("vfs".spec_bytes(), "ffs".spec_bytes(), "max_softdeps".spec_bytes()));
    }
    assert(resolves_to(s, segs3("vfs".spec_bytes(), "ffs".spec_bytes(), "dirhash_mem".spec_bytes()), seq![10i32, 1i32, 19i32], ValueShape::Int32, false)) by {
        lemma_root_compose(s, 8, "vfs".spec_bytes(), segs2("ffs".spec_bytes(), "dirhash_mem".spec_bytes()), Ok::<TargetModel, ErrorModel>((TargetModel { addr: seq![10i32, 1i32, 19i32], shape: ValueShape::Int32, mutable: false })));
        assert(segs1("vfs".spec_bytes()) + segs2("ffs".spec_bytes(), "dirhash_mem".spec_bytes()) =~= segs3("vfs".spec_bytes(), "ffs".spec_bytes(), "dirhash_mem".spec_bytes()));
    }
}

/// The root-level shape facts: which domain stands at each index, that no
/// other first segment matches, and the depth bound on every resolved
/// address.
#[verifier::rlimit(100)]
proof fn lemma_root_shape(s: Schema, a0: SchemaNode, a1: SchemaNode, a2: SchemaNode, a3: SchemaNode, a4: SchemaNode, a5: SchemaNode, a6: SchemaNode, a7: SchemaNode, a8: SchemaNode)
    requires
        s.root@ == seq![a0, a1, a2, a3, a4, a5, a6, a7, a8],
        a0.matcher matches Matcher::Literal { name: nm, code: c } && nm@ == "kern".spec_bytes() && c == 1i32,
        a0.kind is Interior,
        node_bounded(a0, 5),
        a1.matcher matches Matcher::Literal { name: nm, code: c } && nm@ == "vm".spec_bytes() && c == 2i32,
        a1.kind is Interior,
        node_bounded(a1, 5),
        a2.matcher matches Matcher::Literal { name: nm, code: c } && nm@ == "fs".spec_bytes() && c == 3i32,
        a2.kind is Interior,
        node_bounded(a2, 5),
        a3.matcher matches Matcher::Literal { name: nm, code: c } && nm@ == "net".spec_bytes() && c == 4i32,
        a3.kind is Interior,
        node_bounded(a3, 5),
        a4.matcher matches Matcher::Literal { name: nm, code: c } && nm@ == "debug".spec_bytes() && c == 5i32,
        a4.kind is Interior,
        node_bounded(a4, 5),
        a5.matcher matches Matcher::Literal { name: nm, code: c } && nm@ == "hw".spec_bytes() && c == 6i32,
        a5.kind is Interior,
        node_bounded(a5, 5),
        a6.matcher matches Matcher::Literal { name: nm, code: c } && nm@ == "machdep".spec_bytes() && c == 7i32,
        a6.kind is Interior,
        node_bounded(a6, 5),
        a7.matcher matches Matcher::Literal { name: nm, code: c } && nm@ == "ddb".spec_bytes() && c == 9i32,
        a7.kind is Interior,
        node_bounded(a7, 5),
        a8.matcher matches Matcher::Literal { name: nm, code: c } && nm@ == "vfs".spec_bytes() && c == 10i32,
        a8.kind is Interior,
        node_bounded(a8, 5),
    ensures
        s.root@.len() == 9,
        domain_at(s.root@, 0, "kern".spec_bytes(), 1i32),
        domain_at(s.root@, 1, "vm".spec_bytes(), 2i32),
        forall|j: int| 0 <= j < 1 ==> !spec_matches(s, s.root@[j], "vm".spec_bytes()),
        domain_at(s.root@, 2, "fs".spec_bytes(), 3i32),
        forall|j: int| 0 <= j < 2 ==> !spec_matches(s, s.root@[j], "fs".spec_bytes()),
        domain_at(s.root@, 3, "net".spec_bytes(), 4i32),
        forall|j: int| 0 <= j < 3 ==> !spec_matches(s, s.root@[j], "net".spec_bytes()),
        domain_at(s.root@, 4, "debug".spec_bytes(), 5i32),
        forall|j: int| 0 <= j < 4 ==> !spec_matches(s, s.root@[j], "debug".spec_bytes()),
        domain_at(s.root@, 5, "hw".spec_bytes(), 6i32),
        forall|j: int| 0 <= j < 5 ==> !spec_matches(s, s.root@[j], "hw".spec_bytes()),
        domain_at(s.root@, 6, "machdep".spec_bytes(), 7i32),
        forall|j: int| 0 <= j < 6 ==> !spec_matches(s, s.root@[j], "machdep".spec_bytes()),
        domain_at(s.root@, 7, "ddb".spec_bytes(), 9i32),
        forall|j: int| 0 <= j < 7 ==> !spec_matches(s, s.root@[j], "ddb".spec_bytes()),
        domain_at(s.root@, 8, "vfs".spec_bytes(), 10i32),
        forall|j: int| 0 <= j < 8 ==> !spec_matches(s, s.root@[j], "vfs".spec_bytes()),
        forall|x: Seq<u8>, rest: Seq<Seq<u8>>| (x != "kern".spec_bytes() && x != "vm".spec_bytes() && x != "fs".spec_bytes() && x != "net".spec_bytes() && x != "debug".spec_bytes() && x != "hw".spec_bytes() && x != "machdep".spec_bytes() && x != "ddb".spec_bytes() && x != "vfs".spec_bytes()) ==> #[trigger] fails_with(s, segs1(x) + rest, (ErrorModel::UnknownName { depth: 0, segment: x })),
        forall|p: crate::path::PathModel| (#[trigger] spec_resolve(s, p)) is Ok ==> 1 <= spec_resolve(s, p)->Ok_0.addr.len() <= 12,
{
    reveal_strlit("kern");
    reveal_strlit("vm");
    reveal_strlit("fs");
    reveal_strlit("net");
    reveal_strlit("debug");
    reveal_strlit("hw");
    reveal_strlit("machdep");
    reveal_strlit("ddb");
    reveal_strlit("vfs");
    broadcast use vstd::string::is_ascii_spec_bytes;
    
    assert(vstd::string::is_ascii("kern"));
    assert(vstd::string::is_ascii("vm"));
    assert(vstd::string::is_ascii("fs"));
    assert(vstd::string::is_ascii("net"));
    assert(vstd::string::is_ascii("debug"));
    assert(vstd::string::is_ascii("hw"));
    assert(vstd::string::is_ascii("machdep"));
    assert(vstd::string::is_ascii("ddb"));
    assert(vstd::string::is_ascii("vfs"));
    lemma_bytes_differ("vm".spec_bytes(), "fs".spec_bytes(), 0);
    lemma_bytes_differ("vm".spec_bytes(), "hw".spec_bytes(), 0);
    lemma_bytes_differ("fs".spec_bytes(), "hw".spec_bytes(), 0);
    lemma_bytes_differ("net".spec_bytes(), "ddb".spec_bytes(), 0);
    lemma_bytes_differ("net".spec_bytes(), "vfs".spec_bytes(), 0);
    lemma_bytes_differ("ddb".spec_bytes(), "vfs".spec_bytes(), 0);
    assert(domain_at(s.root@, 0, "kern".spec_bytes(), 1i32));
    assert forall|j: int| 0 <= j < 1 implies !spec_matches(s, s.root@[j], "vm".spec_bytes()) by {}
    assert(domain_at(s.root@, 1, "vm".spec_bytes(), 2i32));
    assert forall|j: int| 0 <= j < 2 implies !spec_matches(s, s.root@[j], "fs".spec_bytes()) by {}
    assert(domain_at(s.root@, 2, "fs".spec_bytes(), 3i32));
    assert forall|j: int| 0 <= j < 3 implies !spec_matches(s, s.root@[j], "net".spec_bytes()) by {}
    assert(domain_at(s.root@, 3, "net".spec_bytes(), 4i32));
    assert forall|j: int| 0 <= j < 4 implies !spec_matches(s, s.root@[j], "debug".spec_bytes()) by {}
    assert(domain_at(s.root@, 4, "debug".spec_bytes(), 5i32));
    assert forall|j: int| 0 <= j < 5 implies !spec_matches(s, s.root@[j], "hw".spec_bytes()) by {}
    assert(domain_at(s.root@, 5, "hw".spec_bytes(), 6i32));
    assert forall|j: int| 0 <= j < 6 implies !spec_matches(s, s.root@[j], "machdep".spec_bytes()) by {}
    assert(domain_at(s.root@, 6, "machdep".spec_bytes(), 7i32));
    assert forall|j: int| 0 <= j < 7 implies !spec_matches(s, s.root@[j], "ddb".spec_bytes()) by {}
    assert(domain_at(s.root@, 7, "ddb".spec_bytes(), 9i32));
    assert forall|j: int| 0 <= j < 8 implies !spec_matches(s, s.root@[j], "vfs".spec_bytes()) by {}
    assert(domain_at(s.root@, 8, "vfs".spec_bytes(), 10i32));
    assert forall|x: Seq<u8>, rest: Seq<Seq<u8>>| (x != "kern".spec_bytes() && x != "vm".spec_bytes() && x != "fs".spec_bytes() && x != "net".spec_bytes() && x != "debug".spec_bytes() && x != "hw".spec_bytes() && x != "machdep".spec_bytes() && x != "ddb".spec_bytes() && x != "vfs".spec_bytes()) implies #[trigger] fails_with(s, segs1(x) + rest, (ErrorModel::UnknownName { depth: 0, segment: x })) by {
        let segs = segs1(x) + rest;
        assert(segs[0] == x);
        assert forall|j: int| 0 <= j < 9 implies !spec_matches(s, s.root@[j], x) by {}
        lemma_match_child_none(s, s.root@, x);
        lemma_step_none(s, s.root@, false, segs, 0, Seq::<i32>::empty());
    }
    assert forall|p: crate::path::PathModel| (#[trigger] spec_resolve(s, p)) is Ok implies 1 <= spec_resolve(s, p)->Ok_0.addr.len() <= 12 by {
        assert forall|i: int| 0 <= i < s.root@.len() implies node_bounded(
            #[trigger] s.root@[i],
            5,
        ) by {}
        lemma_bounded_resolve_len(s, s.root@, false, p.segments, 0, Seq::<i32>::empty(), 5);
        lemma_resolve_ok_iff_declared(s, s.root@, false, p.segments, 0, Seq::<i32>::empty());
    }
}

/// Builds the whole namespace. Called once at process start; the result is
/// read-only thereafter. The contract pins the table's content: the nine
/// domains at the root (and that any other first segment is unknown at depth
/// zero), what the documented names resolve to, the auxiliary tables entry
/// by entry, and that no resolved address is empty or longer than the
/// kernel's limit of twelve codes.
#[verifier::rlimit(100)]
pub fn build_schema() -> (s: Schema)
    ensures
        s.root@.len() == 9,
        domain_at(s.root@, 0, "kern".spec_bytes(), 1i32),
        domain_at(s.root@, 1, "vm".spec_bytes(), 2i32),
        domain_at(s.root@, 2, "fs".spec_bytes(), 3i32),
        domain_at(s.root@, 3, "net".spec_bytes(), 4i32),
        domain_at(s.root@, 4, "debug".spec_bytes(), 5i32),
        domain_at(s.root@, 5, "hw".spec_bytes(), 6i32),
        domain_at(s.root@, 6, "machdep".spec_bytes(), 7i32),
        domain_at(s.root@, 7, "ddb".spec_bytes(), 9i32),
        domain_at(s.root@, 8, "vfs".spec_bytes(), 10i32),
        forall|x: Seq<u8>, rest: Seq<Seq<u8>>| (x != "kern".spec_bytes() && x != "vm".spec_bytes() && x != "fs".spec_bytes() && x != "net".spec_bytes() && x != "debug".spec_bytes() && x != "hw".spec_bytes() && x != "machdep".spec_bytes() && x != "ddb".spec_bytes() && x != "vfs".spec_bytes()) ==> #[trigger] fails_with(s, segs1(x) + rest, (ErrorModel::UnknownName { depth: 0, segment: x })),
        resolves_to(s, segs2("kern".spec_bytes(), "ostype".spec_bytes()), seq![1i32, 1i32], ValueShape::CString, false),
        resolves_to(s, segs2("kern".spec_bytes(), "version".spec_bytes()), seq![1i32, 4i32], ValueShape::CString, false),
        resolves_to(s, segs2("kern".spec_bytes(), "hostname".spec_bytes()), seq![1i32, 10i32], ValueShape::CString, true),
        fails_with(s, segs2("kern".spec_bytes(), "nonexistent".spec_bytes()), (ErrorModel::UnknownName { depth: 1, segment: "nonexistent".spec_bytes() })),
        fails_with(s, segs2("kern".spec_bytes(), "malloc".spec_bytes()), ErrorModel::IncompletePath),
        fails_with(s, segs2("kern".spec_bytes(), "nchstats".spec_bytes()), ErrorModel::IncompletePath),
        fails_with(s, segs2("kern".spec_bytes(), "forkstat".spec_bytes()), ErrorModel::IncompletePath),
        fails_with(s, segs2("kern".spec_bytes(), "tty".spec_bytes()), ErrorModel::IncompletePath),
        fails_with(s, segs2("kern".spec_bytes(), "seminfo".spec_bytes()), ErrorModel::IncompletePath),
        fails_with(s, segs2("kern".spec_bytes(), "shminfo".spec_bytes()), ErrorModel::IncompletePath),
        fails_with(s, segs2("kern".spec_bytes(), "watchdog".spec_bytes()), ErrorModel::IncompletePath),
        fails_with(s, segs2("kern".spec_bytes(), "proc".spec_bytes()), ErrorModel::IncompletePath),
        fails_with(s, segs2("kern".spec_bytes(), "timecounter".spec_bytes()), ErrorModel::IncompletePath),
        fails_with(s, segs2("kern".spec_bytes(), "audio".spec_bytes()), ErrorModel::IncompletePath),
        fails_with(s, segs1("kern".spec_bytes()), ErrorModel::IncompletePath),
        forall|rest: Seq<Seq<u8>>| rest.len() >= 1 ==> #[trigger] fails_with(s, segs2("kern".spec_bytes(), "ostype".spec_bytes()) + rest, ErrorModel::TrailingSegments),
        resolves_to(s, segs2("vm".spec_bytes(), "uvmexp".spec_bytes()), seq![2i32, 4i32], ValueShape::OpaqueRecord, false),
        resolves_to(s, segs2("vm".spec_bytes(), "loadavg".spec_bytes()), seq![2i32, 2i32], ValueShape::OpaqueRecord, false),
        resolves_to(s, segs3("fs".spec_bytes(), "posix".spec_bytes(), "setuid".spec_bytes()), seq![3i32, 1i32, 1i32], ValueShape::Int32, true),
        resolves_to(s, segs4("net".spec_bytes(), "inet".spec_bytes(), "tcp".spec_bytes(), "sack".spec_bytes()), seq![4i32, 2i32, 6i32, 10i32], ValueShape::Int32, true),
        resolves_to(s, segs4("net".spec_bytes(), "inet".spec_bytes(), "icmp".spec_bytes(), "stats".spec_bytes()), seq![4i32, 2i32, 1i32, 7i32], ValueShape::OpaqueRecord, false),
        resolves_to(s, segs6("net".spec_bytes(), "route".spec_bytes(), "0".spec_bytes(), "inet".spec_bytes(), "dump".spec_bytes(), "0".spec_bytes()), seq![4i32, 17i32, 0i32, 2i32, 1i32, 0i32], ValueShape::Int32, false),
        forall|af: Seq<u8>, rest: Seq<Seq<u8>>| spec_assoc(s.families@, af) is None ==> #[trigger] fails_with(s, segs4("net".spec_bytes(), "route".spec_bytes(), "0".spec_bytes(), af) + rest, (ErrorModel::UnknownName { depth: 3, segment: af })),
        resolves_to(s, segs2("debug".spec_bytes(), "name".spec_bytes()), seq![5i32, 0i32], ValueShape::Int32, false),
        resolves_to(s, segs2("debug".spec_bytes(), "value".spec_bytes()), seq![5i32, 1i32], ValueShape::Int32, false),
        resolves_to(s, segs2("hw".spec_bytes(), "machine".spec_bytes()), seq![6i32, 1i32], ValueShape::CString, false),
        resolves_to(s, segs2("hw".spec_bytes(), "model".spec_bytes()), seq![6i32, 2i32], ValueShape::CString, false),
        resolves_to(s, segs2("hw".spec_bytes(), "ncpu".spec_bytes()), seq![6i32, 3i32], ValueShape::Int32, false),
        resolves_to(s, segs2("hw".spec_bytes(), "byteorder".spec_bytes()), seq![6i32, 4i32], ValueShape::Int32, false),
        resolves_to(s, segs2("hw".spec_bytes(), "pagesize".spec_bytes()), seq![6i32, 7i32], ValueShape::Int32, false),
        resolves_to(s, segs2("hw".spec_bytes(), "disknames".spec_bytes()), seq![6i32, 8i32], ValueShape::CString, false),
        resolves_to(s, segs2("hw".spec_bytes(), "diskstats".spec_bytes()), seq![6i32, 9i32], ValueShape::OpaqueRecord, false),
        resolves_to(s, segs2("hw".spec_bytes(), "diskcount".spec_bytes()), seq![6i32, 10i32], ValueShape::Int32, false),
        resolves_to(s, segs2("hw".spec_bytes(), "sensors".spec_bytes()), seq![6i32, 11i32], ValueShape::SubtreeMarker, false),
        resolves_to(s, segs2("hw".spec_bytes(), "cpuspeed".spec_bytes()), seq![6i32, 12i32], ValueShape::Int32, false),
        resolves_to(s, segs2("hw".spec_bytes(), "setperf".spec_bytes()), seq![6i32, 13i32], ValueShape::Int32, true),
        resolves_to(s, segs2("hw".spec_bytes(), "vendor".spec_bytes()), seq![6i32, 14i32], ValueShape::CString, false),
        resolves_to(s, segs2("hw".spec_bytes(), "product".spec_bytes()), seq![6i32, 15i32], ValueShape::CString, false),
        resolves_to(s, segs2("hw".spec_bytes(), "version".spec_bytes()), seq![6i32, 16i32], ValueShape::CString, false),
        resolves_to(s, segs2("hw".spec_bytes(), "serialno".spec_bytes()), seq![6i32, 17i32], ValueShape::Int32, false),
        resolves_to(s, segs2("hw".spec_bytes(), "uuid".spec_bytes()), seq![6i32, 18i32], ValueShape::CString, false),
        resolves_to(s, segs2("hw".spec_bytes(), "physmem".spec_bytes()), seq![6i32, 19i32], ValueShape::Int64, false),
        resolves_to(s, segs2("hw".spec_bytes(), "usermem".spec_bytes()), seq![6i32, 20i32], ValueShape::Int64, false),
        resolves_to(s, segs2("hw".spec_bytes(), "ncpufound".spec_bytes()), seq![6i32, 21i32], ValueShape::Int32, false),
        resolves_to(s, segs2("hw".spec_bytes(), "allowpowerdown".spec_bytes()), seq![6i32, 22i32], ValueShape::Int32, true),
        resolves_to(s, segs2("hw".spec_bytes(), "perfpolicy".spec_bytes()), seq![6i32, 23i32], ValueShape::CString, true),
        resolves_to(s, segs2("hw".spec_bytes(), "smt".spec_bytes()), seq![6i32, 24i32], ValueShape::Int32, true),
        resolves_to(s, segs2("hw".spec_bytes(), "ncpuonline".spec_bytes()), seq![6i32, 25i32], ValueShape::Int32, false),
        resolves_to(s, segs2("machdep".spec_bytes(), "allowaperture".spec_bytes()), seq![7i32, 5i32], ValueShape::Int32, true),
        resolves_to(s, segs2("ddb".spec_bytes(), "radix".spec_bytes()), seq![9i32, 1i32], ValueShape::Int32, true),
        resolves_to(s, segs3("vfs".spec_bytes(), "ffs".spec_bytes(), "max_softdeps".spec_bytes()), seq![10i32, 1i32, 5i32], ValueShape::Int32, true),
        resolves_to(s, segs3("vfs".spec_bytes(), "ffs".spec_bytes(), "dirhash_mem".spec_bytes()), seq![10i32, 1i32, 19i32], ValueShape::Int32, false),
        s.families@.len() == 33,
        entry_at(s.families@, 0, "unix".spec_bytes(), 1i32),
        entry_at(s.families@, 1, "local".spec_bytes(), 1i32),
        entry_at(s.families@, 2, "inet".spec_bytes(), 2i32),
        entry_at(s.families@, 3, "implink".spec_bytes(), 3i32),
        entry_at(s.families@, 4, "pup".spec_bytes(), 4i32),
        entry_at(s.families@, 5, "chaos".spec_bytes(), 5i32),
        entry_at(s.families@, 6, "ns".spec_bytes(), 6i32),
        entry_at(s.families@, 7, "iso".spec_bytes(), 7i32),
        entry_at(s.families@, 8, "osi".spec_bytes(), 7i32),
        entry_at(s.families@, 9, "ecma".spec_bytes(), 8i32),
        entry_at(s.families@, 10, "datakit".spec_bytes(), 9i32),
        entry_at(s.families@, 11, "ccitt".spec_bytes(), 10i32),
        entry_at(s.families@, 12, "sna".spec_bytes(), 11i32),
        entry_at(s.families@, 13, "decnet".spec_bytes(), 12i32),
        entry_at(s.families@, 14, "dli".spec_bytes(), 13i32),
        entry_at(s.families@, 15, "lat".spec_bytes(), 14i32),
        entry_at(s.families@, 16, "hylink".spec_bytes(), 15i32),
        entry_at(s.families@, 17, "appletalk".spec_bytes(), 16i32),
        entry_at(s.families@, 18, "route".spec_bytes(), 17i32),
        entry_at(s.families@, 19, "link".spec_bytes(), 18i32),
        entry_at(s.families@, 20, "coip".spec_bytes(), 20i32),
        entry_at(s.families@, 21, "cnt".spec_bytes(), 21i32),
        entry_at(s.families@, 22, "ipx".spec_bytes(), 23i32),
        entry_at(s.families@, 23, "inet6".spec_bytes(), 24i32),
        entry_at(s.families@, 24, "isdn".spec_bytes(), 26i32),
        entry_at(s.families@, 25, "e164".spec_bytes(), 26i32),
        entry_at(s.families@, 26, "natm".spec_bytes(), 27i32),
        entry_at(s.families@, 27, "encap".spec_bytes(), 28i32),
        entry_at(s.families@, 28, "sip".spec_bytes(), 29i32),
        entry_at(s.families@, 29, "key".spec_bytes(), 30i32),
        entry_at(s.families@, 30, "bluetooth".spec_bytes(), 32i32),
        entry_at(s.families@, 31, "mpls".spec_bytes(), 33i32),
        entry_at(s.families@, 32, "0".spec_bytes(), 0i32),
        s.protocols@.len() == 1,
        entry_at(s.protocols@, 0, "0".spec_bytes(), 0i32),
        s.tables@.len() == 1,
        entry_at(s.tables@, 0, "0".spec_bytes(), 0i32),
        forall|p: crate::path::PathModel| (#[trigger] spec_resolve(s, p)) is Ok ==> 1 <= spec_resolve(s, p)->Ok_0.addr.len() <= 12,
{
    let n_kern = kern();
    let n_vm = vm();
    let n_fs = fs();
    let n_net = net();
    let n_debug = debug();
    let n_hw = hw();
    let n_machdep = machdep();
    let n_ddb = ddb();
    let n_vfs = vfs();
    let ghost g_kern = n_kern;
    let ghost g_vm = n_vm;
    let ghost g_fs = n_fs;
    let ghost g_net = n_net;
    let ghost g_debug = n_debug;
    let ghost g_hw = n_hw;
    let ghost g_machdep = n_machdep;
    let ghost g_ddb = n_ddb;
    let ghost g_vfs = n_vfs;
    let root = vec![n_kern, n_vm, n_fs, n_net, n_debug, n_hw, n_machdep, n_ddb, n_vfs];
    let s = Schema { root, families: families(), protocols: protocols(), tables: tables() };
    proof {
        assert(s.root@ =~= seq![g_kern, g_vm, g_fs, g_net, g_debug, g_hw, g_machdep, g_ddb, g_vfs]);
        lemma_root_shape(s, g_kern, g_vm, g_fs, g_net, g_debug, g_hw, g_machdep, g_ddb, g_vfs);
        assert(route_tables_standard(s));
        assert(s.root@[0] == g_kern);
        compose_kern(s, g_kern);
        assert(s.root@[1] == g_vm);
        compose_vm(s, g_vm);
        assert(s.root@[2] == g_fs);
        compose_fs(s, g_fs);
        assert(s.root@[3] == g_net);
        compose_net(s, g_net);
        assert(s.root@[4] == g_debug);
        compose_debug(s, g_debug);
        assert(s.root@[5] == g_hw);
        compose_hw(s, g_hw);
        assert(s.root@[6] == g_machdep);
        compose_machdep(s, g_machdep);
        assert(s.root@[7] == g_ddb);
        compose_ddb(s, g_ddb);
        assert(s.root@[8] == g_vfs);
        compose_vfs(s, g_vfs);
    }
    s
}

/// The root step shared by the facts above: a domain matched at root index
/// `k` hands resolution to its children with the domain code as the first
/// element of the address.
proof fn lemma_root_compose(
    s: Schema,
    k: int,
    d0: Seq<u8>,
    tail: Seq<Seq<u8>>,
    out: Result<TargetModel, ErrorModel>,
)
    requires
        0 <= k < s.root@.len(),
        forall|j: int| 0 <= j < k ==> !spec_matches(s, s.root@[j], d0),
        spec_matches(s, s.root@[k], d0),
        s.root@[k].kind is Interior,
        s.root@[k].matcher matches Matcher::Literal { name: nm, code: c } && nm@ == d0
            && spec_resolve_from(
            s,
            kind_children(s.root@[k].kind),
            crate::schema::spec_opt_or(kind_default(s.root@[k].kind), false),
            tail,
            1,
            addr1(c),
        ) == out,
        tail.len() >= 1,
    ensures
        spec_resolve_from(s, s.root@, false, segs1(d0) + tail, 0, Seq::<i32>::empty()) == out,
{
    lemma_match_child_found(s, s.root@, d0, k);
    let segs = segs1(d0) + tail;
    assert(segs[0] == d0);
    lemma_step_interior(s, s.root@, false, segs, 0, Seq::<i32>::empty());
    assert(segs.drop_first() =~= tail);
}

/// The `malloc` subtree.
#[verifier::rlimit(100)]
fn kern_malloc_node() -> (n: SchemaNode)
    ensures
        n.matcher matches Matcher::Literal { name: nm, code: c } && nm@
            == "malloc".spec_bytes() && c == 39i32,
        n.kind matches NodeKind::Interior { default_mutable: dm, children: kids } && dm
            == None::<bool>,
        forall|d: int| d >= 2 ==> node_bounded(n, d),
{
    let n = SchemaNode {
        matcher: Matcher::Literal { name: seg("malloc"), code: 39 },
        kind: NodeKind::Interior {
            default_mutable: None,
            children: vec![
            leaf_s("bucket", 2, ValueShape::SubtreeMarker),
            leaf_s("buckets", 1, ValueShape::CString),
            leaf_s("kmemnames", 3, ValueShape::CString),
            leaf_s("kmemstat", 4, ValueShape::SubtreeMarker),
            ],
        },
    };
    proof {
        reveal_strlit("malloc");
        broadcast use vstd::string::is_ascii_spec_bytes;

        assert(vstd::string::is_ascii("malloc"));
        assert forall|d: int| d >= 2 implies node_bounded(n, d) by {
            reveal_with_fuel(node_bounded, 3);
        }
    }
    n
}

/// The `seminfo` subtree.
#[verifier::rlimit(100)]
fn kern_seminfo_node() -> (n: SchemaNode)
    ensures
        n.matcher matches Matcher::Literal { name: nm, code: c } && nm@
            == "seminfo".spec_bytes() && c == 61i32,
        n.kind matches NodeKind::Interior { default_mutable: dm, children: kids } && dm
            == None::<bool>,
        forall|d: int| d >= 2 ==> node_bounded(n, d),
{
    let n = SchemaNode {
        matcher: Matcher::Literal { name: seg("seminfo"), code: 61 },
        kind: NodeKind::Interior {
            default_mutable: None,
            children: vec![
            leaf_m("semmni", 1),
            leaf_m("semmns", 2),
            leaf_m("semmsl", 4),
            leaf_m("semopm", 5),
            leaf("semume", 6),
            leaf("semusz", 7),
            leaf("semvmx", 8),
            leaf("semaem", 9),
            ],
        },
    };
    proof {
        reveal_strlit("seminfo");
        broadcast use vstd::string::is_ascii_spec_bytes;

        assert(vstd::string::is_ascii("seminfo"));
        assert forall|d: int| d >= 2 implies node_bounded(n, d) by {
            reveal_with_fuel(node_bounded, 3);
        }
    }
    n
}

/// The `shminfo` subtree.
#[verifier::rlimit(100)]
fn kern_shminfo_node() -> (n: SchemaNode)
    ensures
        n.matcher matches Matcher::Literal { name: nm, code: c } && nm@
            == "shminfo".spec_bytes() && c == 62i32,
        n.kind matches NodeKind::Interior { default_mutable: dm, children: kids } && dm
            == None::<bool>,
        forall|d: int| d >= 2 ==> node_bounded(n, d),
{
    let n = SchemaNode {
        matcher: Matcher::Literal { name: seg("shminfo"), code: 62 },
        kind: NodeKind::Interior {
            default_mutable: None,
            children: vec![
            leaf_m("shmmax", 1),
            leaf_m("shmmin", 2),
            leaf_m("shmmni", 3),
            leaf_m("shmseg", 4),
            leaf_m("shmall", 5),
            ],
        },
    };
    proof {
        reveal_strlit("shminfo");
        broadcast use vstd::string::is_ascii_spec_bytes;

        assert(vstd::string::is_ascii("shminfo"));
        assert forall|d: int| d >= 2 implies node_bounded(n, d) by {
            reveal_with_fuel(node_bounded, 3);
        }
    }
    n
}

/// The `watchdog` subtree.
#[verifier::rlimit(100)]
fn kern_watchdog_node() -> (n: SchemaNode)
    ensures
        n.matcher matches Matcher::Literal { name: nm, code: c } && nm@
            == "watchdog".spec_bytes() && c == 64i32,
        n.kind matches NodeKind::Interior { default_mutable: dm, children: kids } && dm
            == Some(true),
        forall|d: int| d >= 2 ==> node_bounded(n, d),
{
    let n = SchemaNode {
        matcher: Matcher::Literal { name: seg("watchdog"), code: 64 },
        kind: NodeKind::Interior {
            default_mutable: Some(true),
            children: vec![
            leaf("period", 1),
            leaf("auto", 2),
            ],
        },
    };
    proof {
        reveal_strlit("watchdog");
        broadcast use vstd::string::is_ascii_spec_bytes;

        assert(vstd::string::is_ascii("watchdog"));
        assert forall|d: int| d >= 2 implies node_bounded(n, d) by {
            reveal_with_fuel(node_bounded, 3);
        }
    }
    n
}

/// The `timecounter` subtree.
#[verifier::rlimit(100)]
fn kern_timecounter_node() -> (n: SchemaNode)
    ensures
        n.matcher matches Matcher::Literal { name: nm, code: c } && nm@
            == "timecounter".spec_bytes() && c == 69i32,
        n.kind matches NodeKind::Interior { default_mutable: dm, children: kids } && dm
            == None::<bool>,
        forall|d: int| d >= 2 ==> node_bounded(n, d),
{
    let n = SchemaNode {
        matcher: Matcher::Literal { name: seg("timecounter"), code: 69 },
        kind: NodeKind::Interior {
            default_mutable: None,
            children: vec![
            leaf("tick", 1),
            leaf_m("timestepwarnings", 2),
            leaf_sm("hardware", 3, ValueShape::CString, true),
            leaf_s("choice", 4, ValueShape::CString),
            ],
        },
    };
    proof {
        reveal_strlit("timecounter");
        broadcast use vstd::string::is_ascii_spec_bytes;

        assert(vstd::string::is_ascii("timecounter"));
        assert forall|d: int| d >= 2 implies node_bounded(n, d) by {
            reveal_with_fuel(node_bounded, 3);
        }
    }
    n
}

/// The `audio` subtree.
#[verifier::rlimit(100)]
fn kern_audio_node() -> (n: SchemaNode)
    ensures
        n.matcher matches Matcher::Literal { name: nm, code: c } && nm@
            == "audio".spec_bytes() && c == 84i32,
        n.kind matches NodeKind::Interior { default_mutable: dm, children: kids } && dm
            == None::<bool>,
        forall|d: int| d >= 2 ==> node_bounded(n, d),
{
    let n = SchemaNode {
        matcher: Matcher::Literal { name: seg("audio"), code: 84 },
        kind: NodeKind::Interior {
            default_mutable: None,
            children: vec![
            leaf_m("record", 1),
            ],
        },
    };
    proof {
        reveal_strlit("audio");
        broadcast use vstd::string::is_ascii_spec_bytes;

        assert(vstd::string::is_ascii("audio"));
        assert forall|d: int| d >= 2 implies node_bounded(n, d) by {
            reveal_with_fuel(node_bounded, 3);
        }
    }
    n
}

/// The `tcp` subtree.
#[verifier::rlimit(100)]
fn tcp_node() -> (n: SchemaNode)
    ensures
        n.matcher matches Matcher::Literal { name: nm, code: c } && nm@
            == "tcp".spec_bytes() && c == 6i32,
        n.kind matches NodeKind::Interior { default_mutable: dm, children: kids } && dm
            == None::<bool>,
        n.kind matches NodeKind::Interior { default_mutable: dmx, children: k2 } && (
            forall|s: Schema| (#[trigger] spec_match_child(s, k2@, "sack".spec_bytes()))
                matches Some(m) && m.0 == 10i32 && m.1.kind == (NodeKind::Leaf {
                shape: ValueShape::Int32,
                mutable: None::<bool>,
            })),
        forall|d: int| d >= 2 ==> node_bounded(n, d),
{
    let n = SchemaNode {
        matcher: Matcher::Literal { name: seg("tcp"), code: 6 },
        kind: NodeKind::Interior {
            default_mutable: None,
            children: vec![
            leaf("sack", 10),
            leaf("ackonpush", 13),
            leaf("always_keepalive", 16),
            leaf_s("baddynamic", 6, ValueShape::U32Array),
            leaf("drop", 19),
            leaf("ecn", 14),
            leaf_sm("ident", 9, ValueShape::OpaqueRecord, false),
            leaf("keepidle", 3),
            leaf("keepinittime", 2),
            leaf("keepintvl", 4),
            leaf("mssdflt", 11),
            leaf("reasslimit", 18),
            leaf("rfc1323", 1),
            leaf("rfc3390", 17),
            leaf_s("rootonly", 24, ValueShape::U32Array),
            leaf("rstppslimit", 12),
            leaf("sackholelimit", 20),
            leaf_sm("slowhz", 5, ValueShape::Int32, false),
            leaf_s("stats", 21, ValueShape::OpaqueRecord),
            leaf("synbucketlimit", 16),
            leaf("syncachelimit", 15),
            leaf("synhashsize", 25),
            leaf("synuselimit", 23),
            ],
        },
    };
    proof {
        reveal_strlit("tcp");
        broadcast use vstd::string::is_ascii_spec_bytes;

        assert(vstd::string::is_ascii("tcp"));
        assert forall|d: int| d >= 2 implies node_bounded(n, d) by {
            reveal_with_fuel(node_bounded, 3);
        }
    }
    n
}

/// The `icmp` subtree.
#[verifier::rlimit(100)]
fn icmp_node() -> (n: SchemaNode)
    ensures
        n.matcher matches Matcher::Literal { name: nm, code: c } && nm@
            == "icmp".spec_bytes() && c == 1i32,
        n.kind matches NodeKind::Interior { default_mutable: dm, children: kids } && dm
            == None::<bool>,
        n.kind matches NodeKind::Interior { default_mutable: dmx, children: k2 } && (
            forall|s: Schema| (#[trigger] spec_match_child(s, k2@, "stats".spec_bytes()))
                matches Some(m) && m.0 == 7i32 && m.1.kind == (NodeKind::Leaf {
                shape: ValueShape::OpaqueRecord,
                mutable: Some(false),
            })),
        forall|d: int| d >= 2 ==> node_bounded(n, d),
{
    let n = SchemaNode {
        matcher: Matcher::Literal { name: seg("icmp"), code: 1 },
        kind: NodeKind::Interior {
            default_mutable: None,
            children: vec![
            leaf_sm("stats", 7, ValueShape::OpaqueRecord, false),
            leaf("bmcastecho", 2),
            leaf("errppslimit", 3),
            leaf("maskrepl", 1),
            leaf("rediraccept", 4),
            leaf("redirtimeout", 5),
            leaf("tstamprepl", 6),
            ],
        },
    };
    proof {
        reveal_strlit("icmp");
        broadcast use vstd::string::is_ascii_spec_bytes;

        assert(vstd::string::is_ascii("icmp"));
        assert forall|d: int| d >= 2 implies node_bounded(n, d) by {
            reveal_with_fuel(node_bounded, 3);
        }
    }
    n
}

/// The `carp` subtree.
#[verifier::rlimit(100)]
fn inet_carp_node() -> (n: SchemaNode)
    ensures
        n.matcher matches Matcher::Literal { name: nm, code: c } && nm@
            == "carp".spec_bytes() && c == 112i32,
        n.kind matches NodeKind::Interior { default_mutable: dm, children: kids } && dm
            == None::<bool>,
        forall|d: int| d >= 2 ==> node_bounded(n, d),
{
    let n = SchemaNode {
        matcher: Matcher::Literal { name: seg("carp"), code: 112 },
        kind: NodeKind::Interior {
            default_mutable: None,
            children: vec![
            leaf("allow", 1),
            leaf("log", 3),
            leaf("preempt", 2),
            leaf("stats", 4),
            ],
        },
    };
    proof {
        reveal_strlit("carp");
        broadcast use vstd::string::is_ascii_spec_bytes;

        assert(vstd::string::is_ascii("carp"));
        assert forall|d: int| d >= 2 implies node_bounded(n, d) by {
            reveal_with_fuel(node_bounded, 3);
        }
    }
    n
}

/// The `divert` subtree.
#[verifier::rlimit(100)]
fn inet_divert_node() -> (n: SchemaNode)
    ensures
        n.matcher matches Matcher::Literal { name: nm, code: c } && nm@
            == "divert".spec_bytes() && c == 258i32,
        n.kind matches NodeKind::Interior { default_mutable: dm, children: kids } && dm
            == None::<bool>,
        forall|d: int| d >= 2 ==> node_bounded(n, d),
{
    let n = SchemaNode {
        matcher: Matcher::Literal { name: seg("divert"), code: 258 },
        kind: NodeKind::Interior {
            default_mutable: None,
            children: vec![
            leaf("recvspace", 1),
            leaf("sendspace", 2),
            leaf("stats", 3),
            ],
        },
    };
    proof {
        reveal_strlit("divert");
        broadcast use vstd::string::is_ascii_spec_bytes;

        assert(vstd::string::is_ascii("divert"));
        assert forall|d: int| d >= 2 implies node_bounded(n, d) by {
            reveal_with_fuel(node_bounded, 3);
        }
    }
    n
}

/// The `esp` subtree.
#[verifier::rlimit(100)]
fn inet_esp_node() -> (n: SchemaNode)
    ensures
        n.matcher matches Matcher::Literal { name: nm, code: c } && nm@
            == "esp".spec_bytes() && c == 50i32,
        n.kind matches NodeKind::Interior { default_mutable: dm, children: kids } && dm
            == None::<bool>,
        forall|d: int| d >= 2 ==> node_bounded(n, d),
{
    let n = SchemaNode {
        matcher: Matcher::Literal { name: seg("esp"), code: 50 },
        kind: NodeKind::Interior {
            default_mutable: None,
            children: vec![
            leaf("enable", 1),
            leaf("udpencap", 2),
            leaf("udpencap_port", 3),
            leaf("stats", 4),
            ],
        },
    };
    proof {
        reveal_strlit("esp");
        broadcast use vstd::string::is_ascii_spec_bytes;

        assert(vstd::string::is_ascii("esp"));
        assert forall|d: int| d >= 2 implies node_bounded(n, d) by {
            reveal_with_fuel(node_bounded, 3);
        }
    }
    n
}

/// The `udp` subtree.
#[verifier::rlimit(100)]
fn inet_udp_node() -> (n: SchemaNode)
    ensures
        n.matcher matches Matcher::Literal { name: nm, code: c } && nm@
            == "udp".spec_bytes() && c == 17i32,
        n.kind matches NodeKind::Interior { default_mutable: dm, children: kids } && dm
            == None::<bool>,
        forall|d: int| d >= 2 ==> node_bounded(n, d),
{
    let n = SchemaNode {
        matcher: Matcher::Literal { name: seg("udp"), code: 17 },
        kind: NodeKind::Interior {
            default_mutable: None,
            children: vec![
            leaf_s("baddynamic", 2, ValueShape::U32Array),
            leaf("checksum", 1),
            leaf("recvspace", 3),
            leaf_s("rootonly", 6, ValueShape::U32Array),
            leaf("sendspace", 4),
            leaf_sm("stats", 5, ValueShape::OpaqueRecord, false),
            ],
        },
    };
    proof {
        reveal_strlit("udp");
        broadcast use vstd::string::is_ascii_spec_bytes;

        assert(vstd::string::is_ascii("udp"));
        assert forall|d: int| d >= 2 implies node_bounded(n, d) by {
            reveal_with_fuel(node_bounded, 3);
        }
    }
    n
}

} // verus!
