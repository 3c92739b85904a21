//! The name resolver: walks the schema from its root, consuming one path
//! segment per node, accumulating the numeric address array and carrying the
//! leaf's declared value shape and mutability. Resolution is a pure function
//! of schema and path: same input, same output.
//!
//! Failure modes, all raised before any kernel call: an unknown segment, a
//! path that stops short of a leaf, and a path that continues past one.

use vstd::prelude::*;

use crate::error::CtlError;
use crate::error::ErrorModel;
use crate::error::res_view;
use crate::path::Path;
use crate::path::PathModel;
use crate::schema::NodeKind;
use crate::schema::Schema;
use crate::schema::SchemaNode;
use crate::schema::find_child;
use crate::schema::spec_match_child;
use crate::schema::spec_opt_or;
use crate::shape::ValueShape;

verus! {

/// The output of resolution: the kernel address array of the leaf, its value
/// shape, and whether it may be written. Created per call, consumed by the
/// invoker, never hand-constructed by callers.
#[derive(Debug, PartialEq, Eq)]
pub struct ResolvedTarget {
    pub addr: Vec<i32>,
    pub shape: ValueShape,
    pub mutable: bool,
}

/// The mathematical model of a [`ResolvedTarget`].
pub ghost struct TargetModel {
    pub addr: Seq<i32>,
    pub shape: ValueShape,
    pub mutable: bool,
}

impl View for ResolvedTarget {
    type V = TargetModel;

    open spec fn view(&self) -> TargetModel {
        TargetModel { addr: self.addr@, shape: self.shape, mutable: self.mutable }
    }
}

/// One step of resolution per segment, starting at `children` with the
/// mutability default `inherited`, having already consumed `depth` segments
/// into `addr`.
pub open spec fn spec_resolve_from(
    s: Schema,
    children: Seq<SchemaNode>,
    inherited: bool,
    segs: Seq<Seq<u8>>,
    depth: int,
    addr: Seq<i32>,
) -> Result<TargetModel, ErrorModel>
    decreases segs.len(),
{
    if segs.len() == 0 {
        Err(ErrorModel::IncompletePath)
    } else {
        match spec_match_child(s, children, segs[0]) {
            None => Err(ErrorModel::UnknownName { depth, segment: segs[0] }),
            Some((code, node)) => {
                let addr2 = addr.push(code);
                match node.kind {
                    NodeKind::Leaf { shape, mutable } => {
                        if segs.len() > 1 {
                            Err(ErrorModel::TrailingSegments)
                        } else {
                            Ok(
                                TargetModel {
                                    addr: addr2,
                                    shape,
                                    mutable: spec_opt_or(mutable, inherited),
                                },
                            )
                        }
                    },
                    NodeKind::Interior { default_mutable, children: kids } => spec_resolve_from(
                        s,
                        kids@,
                        spec_opt_or(default_mutable, inherited),
                        segs.drop_first(),
                        depth + 1,
                        addr2,
                    ),
                }
            },
        }
    }
}

/// What [`resolve`] returns for a schema and a tokenized path. Subtrees are
/// read-only unless they say otherwise.
pub open spec fn spec_resolve(s: Schema, p: PathModel) -> Result<TargetModel, ErrorModel> {
    spec_resolve_from(s, s.root@, false, p.segments, 0, Seq::empty())
}

/// The schema resolves the path `segs` to exactly this target. The literal
/// value of an assignment form plays no part in resolution, so the facts of
/// [`crate::namespace::build_schema`] are stated over the segments alone.
pub open spec fn resolves_to(
    s: Schema,
    segs: Seq<Seq<u8>>,
    addr: Seq<i32>,
    shape: ValueShape,
    mutable: bool,
) -> bool {
    spec_resolve_from(s, s.root@, false, segs, 0, Seq::empty()) == Ok::<TargetModel, ErrorModel>(
        TargetModel { addr, shape, mutable },
    )
}

/// The schema rejects the path `segs` with exactly this error.
pub open spec fn fails_with(s: Schema, segs: Seq<Seq<u8>>, e: ErrorModel) -> bool {
    spec_resolve_from(s, s.root@, false, segs, 0, Seq::empty()) == Err::<TargetModel, ErrorModel>(e)
}

/// Walks the schema against the path and produces the resolved target, per
/// [`spec_resolve`]: the address holds one code per segment; the shape and
/// mutability are the leaf's, with mutability falling back to the nearest
/// ancestor's default. Fails with `UnknownName` at the first segment no
/// child matches, `IncompletePath` when the path ends on an interior node,
/// and `TrailingSegments` when it continues past a leaf.
#[verifier::loop_isolation(false)]
pub fn resolve(s: &Schema, path: &Path) -> (r: Result<ResolvedTarget, CtlError>)
    ensures
        res_view(r) == spec_resolve(*s, path@),
        r is Ok ==> r.unwrap().addr@.len() == path.segments@.len(),
{
    let mut addr: Vec<i32> = Vec::new();
    let mut children: &Vec<SchemaNode> = &s.root;
    let mut inherited: bool = false;
    let mut i: usize = 0;
    let ghost segs = path@.segments;
    proof {
        assert(segs.skip(0) =~= segs);
    }
    while i < path.segments.len()
        invariant
            0 <= i <= segs.len(),
            segs.len() == path.segments@.len(),
            addr@.len() == i,
            spec_resolve(*s, path@) == spec_resolve_from(
                *s,
                children@,
                inherited,
                segs.skip(i as int),
                i as int,
                addr@,
            ),
        decreases segs.len() - i,
    {
        let ghost rest = segs.skip(i as int);
        proof {
            assert(rest[0] == segs[i as int]);
            assert(rest.drop_first() =~= segs.skip(i as int + 1));
            assert(segs[i as int] == path.segments@[i as int]@);
        }
        let seg: &Vec<u8> = &path.segments[i];
        match find_child(s, children, seg.as_slice()) {
            None => {
                return Err(CtlError::UnknownName { depth: i, segment: clone_bytes(seg) });
            },
            Some((code, node)) => {
                addr.push(code);
                match &node.kind {
                    NodeKind::Leaf { shape, mutable } => {
                        if i + 1 < path.segments.len() {
                            return Err(CtlError::TrailingSegments);
                        }
                        let m = match mutable {
                            Some(b) => *b,
                            None => inherited,
                        };
                        return Ok(ResolvedTarget { addr, shape: *shape, mutable: m });
                    },
                    NodeKind::Interior { default_mutable, children: kids } => {
                        inherited = match default_mutable {
                            Some(b) => *b,
                            None => inherited,
                        };
                        children = kids;
                    },
                }
            },
        }
        i = i + 1;
    }
    proof {
        assert(segs.skip(segs.len() as int) =~= Seq::<Seq<u8>>::empty());
    }
    Err(CtlError::IncompletePath)
}

/// Clones the bytes of a segment.
fn clone_bytes(v: &Vec<u8>) -> (r: Vec<u8>)
    ensures
        r@ == v@,
{
    let r = v.clone();
    proof {
        assert(r@ =~= v@);
    }
    r
}

} // verus!
