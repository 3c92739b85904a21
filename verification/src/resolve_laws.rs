//! Laws of the resolver, stated against [`spec_resolve`]: declared paths
//! resolve and consume every segment; an unknown segment fails at its own
//! depth; a path that stops short fails as incomplete.

use vstd::prelude::*;

use crate::error::ErrorModel;
use crate::path::PathModel;
use crate::resolve::spec_resolve;
use crate::resolve::spec_resolve_from;
use crate::schema::NodeKind;
use crate::schema::Schema;
use crate::schema::SchemaNode;
use crate::schema::spec_match_child;
use crate::schema::spec_opt_or;

verus! {

/// Whether the schema declares the path `segs` below `children`: every
/// segment matches a child in turn and the last one lands on a leaf.
pub open spec fn spec_declares(s: Schema, children: Seq<SchemaNode>, segs: Seq<Seq<u8>>) -> bool
    decreases segs.len(),
{
    segs.len() > 0 && match spec_match_child(s, children, segs[0]) {
        None => false,
        Some((code, node)) => match node.kind {
            NodeKind::Leaf { .. } => segs.len() == 1,
            NodeKind::Interior { children: kids, .. } => spec_declares(s, kids@, segs.drop_first()),
        },
    }
}

/// The node set and inherited mutability after consuming the first `k`
/// segments through interior nodes, or `None` when the walk leaves the tree
/// or runs out of segments before `k`.
pub open spec fn spec_walk(
    s: Schema,
    children: Seq<SchemaNode>,
    inherited: bool,
    segs: Seq<Seq<u8>>,
    k: int,
) -> Option<(Seq<SchemaNode>, bool)>
    decreases k,
{
    if k <= 0 {
        Some((children, inherited))
    } else if segs.len() == 0 {
        None
    } else {
        match spec_match_child(s, children, segs[0]) {
            None => None,
            Some((code, node)) => match node.kind {
                NodeKind::Leaf { .. } => None,
                NodeKind::Interior { default_mutable, children: kids } => spec_walk(
                    s,
                    kids@,
                    spec_opt_or(default_mutable, inherited),
                    segs.drop_first(),
                    k - 1,
                ),
            },
        }
    }
}

/// Resolution from any point in the tree succeeds exactly on the paths the
/// schema declares there, and on success the address has grown by one code
/// per segment.
pub proof fn lemma_resolve_ok_iff_declared(
    s: Schema,
    children: Seq<SchemaNode>,
    inherited: bool,
    segs: Seq<Seq<u8>>,
    depth: int,
    addr: Seq<i32>,
)
    ensures
        spec_declares(s, children, segs) <==> spec_resolve_from(
            s,
            children,
            inherited,
            segs,
            depth,
            addr,
        ) is Ok,
        spec_resolve_from(s, children, inherited, segs, depth, addr) matches Ok(t) ==> t.addr.len()
            == addr.len() + segs.len(),
    decreases segs.len(),
{
    if segs.len() > 0 {
        match spec_match_child(s, children, segs[0]) {
            None => {},
            Some((code, node)) => match node.kind {
                NodeKind::Leaf { .. } => {},
                NodeKind::Interior { default_mutable, children: kids } => {
                    lemma_resolve_ok_iff_declared(
                        s,
                        kids@,
                        spec_opt_or(default_mutable, inherited),
                        segs.drop_first(),
                        depth + 1,
                        addr.push(code),
                    );
                },
            },
        }
    }
}

/// For every path the schema declares, resolution succeeds, consumes every
/// segment exactly once, and produces an address whose length equals the
/// schema depth of the leaf.
pub proof fn law_declared_path_resolves(s: Schema, p: PathModel)
    requires
        spec_declares(s, s.root@, p.segments),
    ensures
        spec_resolve(s, p) is Ok,
        spec_resolve(s, p) matches Ok(t) ==> t.addr.len() == p.segments.len(),
{
    lemma_resolve_ok_iff_declared(s, s.root@, false, p.segments, 0, Seq::empty());
}

/// Conversely, a resolved path is a declared path.
pub proof fn law_resolved_path_is_declared(s: Schema, p: PathModel)
    requires
        spec_resolve(s, p) is Ok,
    ensures
        spec_declares(s, s.root@, p.segments),
{
    lemma_resolve_ok_iff_declared(s, s.root@, false, p.segments, 0, Seq::empty());
}

/// In a tree of height at most `d + 1`, a successful resolution consumes at
/// most `d + 1` segments: with one code appended per segment, no address can
/// outgrow the tree's height.
pub proof fn lemma_bounded_resolve_len(
    s: Schema,
    children: Seq<SchemaNode>,
    inherited: bool,
    segs: Seq<Seq<u8>>,
    depth: int,
    addr: Seq<i32>,
    d: int,
)
    requires
        d >= 0,
        forall|i: int|
            0 <= i < children.len() ==> crate::schema::node_bounded(#[trigger] children[i], d),
        spec_resolve_from(s, children, inherited, segs, depth, addr) is Ok,
    ensures
        segs.len() <= d + 1,
    decreases segs.len(),
{
    if segs.len() > 0 {
        match spec_match_child(s, children, segs[0]) {
            None => {
                assert(false);
            },
            Some((code, node)) => {
                crate::schema::lemma_match_child_elem(s, children, segs[0]);
                assert(crate::schema::node_bounded(node, d));
                match node.kind {
                    NodeKind::Leaf { .. } => {},
                    NodeKind::Interior { default_mutable, children: kids } => {
                        lemma_bounded_resolve_len(
                            s,
                            kids@,
                            spec_opt_or(default_mutable, inherited),
                            segs.drop_first(),
                            depth + 1,
                            addr.push(code),
                            d - 1,
                        );
                    },
                }
            },
        }
    }
}

/// One resolution step into a matched interior node: the walk continues in
/// its children with the segment consumed, the code appended, and the
/// mutability default applied.
pub proof fn lemma_step_interior(
    s: Schema,
    children: Seq<SchemaNode>,
    inherited: bool,
    segs: Seq<Seq<u8>>,
    depth: int,
    addr: Seq<i32>,
)
    requires
        segs.len() >= 1,
        spec_match_child(s, children, segs[0]) matches Some(m) && crate::schema::kind_is_interior(
            m.1.kind,
        ),
    ensures
        spec_match_child(s, children, segs[0]) matches Some(m) ==> spec_resolve_from(
            s,
            children,
            inherited,
            segs,
            depth,
            addr,
        ) == spec_resolve_from(
            s,
            crate::schema::kind_children(m.1.kind),
            spec_opt_or(crate::schema::kind_default(m.1.kind), inherited),
            segs.drop_first(),
            depth + 1,
            addr.push(m.0),
        ),
{
}

/// One resolution step onto a matched leaf with nothing after it: the walk
/// ends with the leaf's shape and the most specific mutability.
pub proof fn lemma_step_leaf(
    s: Schema,
    children: Seq<SchemaNode>,
    inherited: bool,
    segs: Seq<Seq<u8>>,
    depth: int,
    addr: Seq<i32>,
)
    requires
        segs.len() == 1,
        spec_match_child(s, children, segs[0]) matches Some(m) && crate::schema::kind_is_leaf(
            m.1.kind,
        ),
    ensures
        spec_match_child(s, children, segs[0]) matches Some(m) ==> spec_resolve_from(
            s,
            children,
            inherited,
            segs,
            depth,
            addr,
        ) == Ok::<crate::resolve::TargetModel, ErrorModel>(
            crate::resolve::TargetModel {
                addr: addr.push(m.0),
                shape: crate::schema::kind_shape(m.1.kind),
                mutable: spec_opt_or(crate::schema::kind_mutable(m.1.kind), inherited),
            },
        ),
{
}

/// A matched leaf with segments still to come ends the walk with
/// `TrailingSegments`.
pub proof fn lemma_step_leaf_trailing(
    s: Schema,
    children: Seq<SchemaNode>,
    inherited: bool,
    segs: Seq<Seq<u8>>,
    depth: int,
    addr: Seq<i32>,
)
    requires
        segs.len() >= 2,
        spec_match_child(s, children, segs[0]) matches Some(m) && crate::schema::kind_is_leaf(
            m.1.kind,
        ),
    ensures
        spec_resolve_from(s, children, inherited, segs, depth, addr) == Err::<
            crate::resolve::TargetModel,
            ErrorModel,
        >(ErrorModel::TrailingSegments),
{
}

/// A segment no child matches ends the walk with `UnknownName` at the
/// current depth.
pub proof fn lemma_step_none(
    s: Schema,
    children: Seq<SchemaNode>,
    inherited: bool,
    segs: Seq<Seq<u8>>,
    depth: int,
    addr: Seq<i32>,
)
    requires
        segs.len() >= 1,
        spec_match_child(s, children, segs[0]) is None,
    ensures
        spec_resolve_from(s, children, inherited, segs, depth, addr) == Err::<
            crate::resolve::TargetModel,
            ErrorModel,
        >(ErrorModel::UnknownName { depth, segment: segs[0] }),
{
}

/// An address produced from a tokenized path is never empty: tokenizing
/// always yields at least one segment, and resolution contributes one code
/// per segment.
pub proof fn law_resolved_address_nonempty(s: Schema, input: Seq<u8>)
    requires
        crate::path::spec_tokenize(input) matches Ok(p) && spec_resolve(s, p) is Ok,
    ensures
        crate::path::spec_tokenize(input) matches Ok(p) ==> spec_resolve(s, p) matches Ok(t)
            ==> t.addr.len() >= 1,
{
    let p = crate::path::spec_tokenize(input)->Ok_0;
    crate::path::lemma_split_nonempty(
        crate::path::spec_split(input, crate::path::ASSIGN_DELIM)[0],
        crate::path::SEGMENT_DELIM,
    );
    lemma_resolve_ok_iff_declared(s, s.root@, false, p.segments, 0, Seq::empty());
}

/// The inductive step behind [`law_unknown_name_at_depth`], for an
/// arbitrary starting point in the tree.
pub proof fn lemma_unknown_at_depth(
    s: Schema,
    children: Seq<SchemaNode>,
    inherited: bool,
    segs: Seq<Seq<u8>>,
    depth: int,
    addr: Seq<i32>,
    k: int,
)
    requires
        0 <= k < segs.len(),
        spec_walk(s, children, inherited, segs, k) matches Some(w) && spec_match_child(
            s,
            w.0,
            segs[k],
        ) is None,
    ensures
        spec_resolve_from(s, children, inherited, segs, depth, addr) == Err::<
            crate::resolve::TargetModel,
            _,
        >(ErrorModel::UnknownName { depth: depth + k, segment: segs[k] }),
    decreases k,
{
    if k == 0 {
    } else {
        match spec_match_child(s, children, segs[0]) {
            None => {
                assert(false);
            },
            Some((code, node)) => match node.kind {
                NodeKind::Leaf { .. } => {
                    assert(false);
                },
                NodeKind::Interior { default_mutable, children: kids } => {
                    assert(segs.drop_first()[k - 1] == segs[k]);
                    lemma_unknown_at_depth(
                        s,
                        kids@,
                        spec_opt_or(default_mutable, inherited),
                        segs.drop_first(),
                        depth + 1,
                        addr.push(code),
                        k - 1,
                    );
                },
            },
        }
    }
}

/// For any path whose first `k` segments the schema accepts but whose
/// segment at depth `k` matches no child there, resolution fails with
/// `UnknownName` identifying depth `k` and that segment, no matter how many
/// segments remain unconsumed.
pub proof fn law_unknown_name_at_depth(s: Schema, p: PathModel, k: int)
    requires
        0 <= k < p.segments.len(),
        spec_walk(s, s.root@, false, p.segments, k) matches Some(w) && spec_match_child(
            s,
            w.0,
            p.segments[k],
        ) is None,
    ensures
        spec_resolve(s, p) == Err::<crate::resolve::TargetModel, _>(
            ErrorModel::UnknownName { depth: k, segment: p.segments[k] },
        ),
{
    lemma_unknown_at_depth(s, s.root@, false, p.segments, 0, Seq::empty(), k);
}

/// The inductive step behind [`law_long_path_trailing`], for an arbitrary
/// starting point in the tree.
pub proof fn lemma_trailing_at_depth(
    s: Schema,
    children: Seq<SchemaNode>,
    inherited: bool,
    segs: Seq<Seq<u8>>,
    depth: int,
    addr: Seq<i32>,
    k: int,
)
    requires
        0 <= k < segs.len() - 1,
        spec_walk(s, children, inherited, segs, k) matches Some(w) && (spec_match_child(
            s,
            w.0,
            segs[k],
        ) matches Some(m) && m.1.kind matches NodeKind::Leaf { .. }),
    ensures
        spec_resolve_from(s, children, inherited, segs, depth, addr) == Err::<
            crate::resolve::TargetModel,
            _,
        >(ErrorModel::TrailingSegments),
    decreases k,
{
    if k == 0 {
    } else {
        match spec_match_child(s, children, segs[0]) {
            None => {
                assert(false);
            },
            Some((code, node)) => match node.kind {
                NodeKind::Leaf { .. } => {
                    assert(false);
                },
                NodeKind::Interior { default_mutable, children: kids } => {
                    assert(segs.drop_first()[k - 1] == segs[k]);
                    lemma_trailing_at_depth(
                        s,
                        kids@,
                        spec_opt_or(default_mutable, inherited),
                        segs.drop_first(),
                        depth + 1,
                        addr.push(code),
                        k - 1,
                    );
                },
            },
        }
    }
}

/// For any path that continues past a leaf — its segment at depth `k` lands
/// on a leaf while more segments remain — resolution fails with
/// `TrailingSegments`.
pub proof fn law_long_path_trailing(s: Schema, p: PathModel, k: int)
    requires
        0 <= k < p.segments.len() - 1,
        spec_walk(s, s.root@, false, p.segments, k) matches Some(w) && (spec_match_child(
            s,
            w.0,
            p.segments[k],
        ) matches Some(m) && m.1.kind matches NodeKind::Leaf { .. }),
    ensures
        spec_resolve(s, p) == Err::<crate::resolve::TargetModel, _>(ErrorModel::TrailingSegments),
{
    lemma_trailing_at_depth(s, s.root@, false, p.segments, 0, Seq::empty(), k);
}

/// The inductive step behind [`law_short_path_incomplete`], for an
/// arbitrary starting point in the tree.
pub proof fn lemma_short_path_incomplete(
    s: Schema,
    children: Seq<SchemaNode>,
    inherited: bool,
    segs: Seq<Seq<u8>>,
    depth: int,
    addr: Seq<i32>,
)
    requires
        spec_walk(s, children, inherited, segs, segs.len() as int) is Some,
    ensures
        spec_resolve_from(s, children, inherited, segs, depth, addr) == Err::<
            crate::resolve::TargetModel,
            _,
        >(ErrorModel::IncompletePath),
    decreases segs.len(),
{
    if segs.len() > 0 {
        match spec_match_child(s, children, segs[0]) {
            None => {
                assert(false);
            },
            Some((code, node)) => match node.kind {
                NodeKind::Leaf { .. } => {
                    assert(false);
                },
                NodeKind::Interior { default_mutable, children: kids } => {
                    lemma_short_path_incomplete(
                        s,
                        kids@,
                        spec_opt_or(default_mutable, inherited),
                        segs.drop_first(),
                        depth + 1,
                        addr.push(code),
                    );
                },
            },
        }
    }
}

/// For any path all of whose segments the schema accepts without reaching a
/// leaf, resolution fails with `IncompletePath`: the walk never indexes past
/// the end of the input.
pub proof fn law_short_path_incomplete(s: Schema, p: PathModel)
    requires
        spec_walk(s, s.root@, false, p.segments, p.segments.len() as int) is Some,
    ensures
        spec_resolve(s, p) == Err::<crate::resolve::TargetModel, _>(ErrorModel::IncompletePath),
{
    lemma_short_path_incomplete(s, s.root@, false, p.segments, 0, Seq::empty());
}

} // verus!
