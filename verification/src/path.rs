//! The path tokenizer: splits an input string into an ordered sequence of
//! path segments, first separating an optional `name=value` assignment form,
//! then splitting the name on the hierarchy delimiter `.`.
//!
//! The tokenizer does not interpret segment content; telling a symbolic name
//! from a table number is the resolver's job.

use vstd::prelude::*;
use vstd::string::StringSliceAdditionalSpecFns;

use crate::error::CtlError;
use crate::error::ErrorModel;

verus! {

/// The hierarchy delimiter between path segments: the byte `.`.
pub const SEGMENT_DELIM: u8 = 46;

/// The delimiter between a path and the literal value to write: the byte `=`.
pub const ASSIGN_DELIM: u8 = 61;

/// A tokenized path: one or more segments, optionally paired with the
/// literal value string of an assignment form. Immutable once parsed.
#[derive(Debug, PartialEq, Eq)]
pub struct Path {
    pub segments: Vec<Vec<u8>>,
    pub value: Option<Vec<u8>>,
}

/// The mathematical model of a [`Path`].
pub ghost struct PathModel {
    pub segments: Seq<Seq<u8>>,
    pub value: Option<Seq<u8>>,
}

impl View for Path {
    type V = PathModel;

    open spec fn view(&self) -> PathModel {
        PathModel {
            segments: views_of(self.segments@),
            value: match self.value {
                Some(v) => Some(v@),
                None => None,
            },
        }
    }
}

/// The views of every element of a sequence of byte vectors.
pub open spec fn views_of(parts: Seq<Vec<u8>>) -> Seq<Seq<u8>> {
    parts.map_values(|p: Vec<u8>| p@)
}

/// Splitting a byte sequence on every occurrence of a delimiter. The result
/// always has one part more than the input has delimiters; adjacent
/// delimiters produce empty parts.
pub open spec fn spec_split(s: Seq<u8>, d: u8) -> Seq<Seq<u8>>
    decreases s.len(),
{
    if s.len() == 0 {
        seq![Seq::<u8>::empty()]
    } else {
        let prefix = spec_split(s.drop_last(), d);
        if s.last() == d {
            prefix.push(Seq::<u8>::empty())
        } else {
            prefix.update(prefix.len() - 1, prefix.last().push(s.last()))
        }
    }
}

/// Splitting never yields an empty sequence of parts.
pub proof fn lemma_split_nonempty(s: Seq<u8>, d: u8)
    ensures
        spec_split(s, d).len() >= 1,
    decreases s.len(),
{
    if s.len() > 0 {
        lemma_split_nonempty(s.drop_last(), d);
    }
}

/// Splitting a sequence free of the delimiter leaves it whole.
pub proof fn lemma_split_no_delim(s: Seq<u8>, d: u8)
    requires
        !s.contains(d),
    ensures
        spec_split(s, d) == seq![s],
    decreases s.len(),
{
    if s.len() == 0 {
        assert(s =~= Seq::<u8>::empty());
        assert(spec_split(s, d) =~= seq![s]);
    } else {
        assert(!s.drop_last().contains(d)) by {
            assert(forall|i: int|
                0 <= i < s.drop_last().len() ==> s.drop_last()[i] == s[i]);
        }
        lemma_split_no_delim(s.drop_last(), d);
        let prefix = spec_split(s.drop_last(), d);
        assert(s.last() == s[s.len() - 1]);
        assert(s.last() != d);
        assert(s.drop_last().push(s.last()) =~= s);
        assert(spec_split(s, d) == prefix.update(0, prefix.last().push(s.last())));
        assert(prefix.update(0, s) =~= seq![s]);
    }
}

/// Splitting two delimiter-free halves joined by one delimiter yields
/// exactly the two halves.
pub proof fn lemma_split_pair(a: Seq<u8>, b: Seq<u8>, d: u8)
    requires
        !a.contains(d),
        !b.contains(d),
    ensures
        spec_split(a + seq![d] + b, d) == seq![a, b],
    decreases b.len(),
{
    let s = a + seq![d] + b;
    if b.len() == 0 {
        assert(b =~= Seq::<u8>::empty());
        assert(s.drop_last() =~= a);
        assert(s.last() == d);
        lemma_split_no_delim(a, d);
        assert(spec_split(s, d) =~= seq![a, b]);
    } else {
        assert(!b.drop_last().contains(d)) by {
            assert(forall|i: int|
                0 <= i < b.drop_last().len() ==> b.drop_last()[i] == b[i]);
        }
        lemma_split_pair(a, b.drop_last(), d);
        assert(s.drop_last() =~= a + seq![d] + b.drop_last());
        assert(s.last() == b.last());
        assert(b.drop_last().push(b.last()) =~= b);
        assert(spec_split(s, d) =~= seq![a, b]);
    }
}

/// A single delimiter-free, non-empty name tokenizes to itself as the one
/// segment, with no value.
pub proof fn lemma_tokenize_single(s: Seq<u8>)
    requires
        s.len() > 0,
        !s.contains(SEGMENT_DELIM),
        !s.contains(ASSIGN_DELIM),
    ensures
        spec_tokenize(s) == Ok::<PathModel, ErrorModel>(
            (PathModel { segments: seq![s], value: None }),
        ),
{
    lemma_split_no_delim(s, ASSIGN_DELIM);
    lemma_split_no_delim(s, SEGMENT_DELIM);
}

/// A dotted pair of delimiter-free, non-empty names tokenizes to exactly
/// those two segments, with no value. Together with the resolution facts of
/// [`crate::namespace::build_schema`], this carries a documented path from
/// its input string to its resolved address inside the contracts.
pub proof fn lemma_tokenize_dotted_pair(s: Seq<u8>, a: Seq<u8>, b: Seq<u8>)
    requires
        s == a + seq![SEGMENT_DELIM] + b,
        a.len() > 0,
        b.len() > 0,
        !a.contains(SEGMENT_DELIM),
        !b.contains(SEGMENT_DELIM),
        !a.contains(ASSIGN_DELIM),
        !b.contains(ASSIGN_DELIM),
    ensures
        spec_tokenize(s) == Ok::<PathModel, ErrorModel>(
            (PathModel { segments: seq![a, b], value: None }),
        ),
{
    assert(!s.contains(ASSIGN_DELIM)) by {
        assert forall|i: int| 0 <= i < s.len() implies s[i] != ASSIGN_DELIM by {
            if i < a.len() {
                assert(s[i] == a[i]);
            } else if i == a.len() {
                assert(s[i] == SEGMENT_DELIM);
            } else {
                assert(s[i] == b[i - a.len() - 1]);
            }
        }
    }
    lemma_split_no_delim(s, ASSIGN_DELIM);
    lemma_split_pair(a, b, SEGMENT_DELIM);
    let segments = spec_split(s, SEGMENT_DELIM);
    assert(segments == seq![a, b]);
    assert(forall|i: int| 0 <= i < segments.len() ==> #[trigger] segments[i].len() != 0);
}

/// What [`tokenize`] returns: the segments of the name portion and the
/// optional literal value, or `MalformedPath` when the input has more than
/// one assignment delimiter, a value containing the hierarchy delimiter, or
/// an empty segment.
pub open spec fn spec_tokenize(s: Seq<u8>) -> Result<PathModel, ErrorModel> {
    let parts = spec_split(s, ASSIGN_DELIM);
    if parts.len() > 2 {
        Err(ErrorModel::MalformedPath)
    } else if parts.len() == 2 && parts[1].contains(SEGMENT_DELIM) {
        Err(ErrorModel::MalformedPath)
    } else {
        let segments = spec_split(parts[0], SEGMENT_DELIM);
        if exists|i: int| 0 <= i < segments.len() && #[trigger] segments[i].len() == 0 {
            Err(ErrorModel::MalformedPath)
        } else {
            Ok(
                PathModel {
                    segments,
                    value: if parts.len() == 2 {
                        Some(parts[1])
                    } else {
                        None
                    },
                },
            )
        }
    }
}

/// Splits `bytes` on every occurrence of `d`.
fn split_on(bytes: &[u8], d: u8) -> (r: Vec<Vec<u8>>)
    ensures
        views_of(r@) == spec_split(bytes@, d),
{
    let mut parts: Vec<Vec<u8>> = Vec::new();
    let mut cur: Vec<u8> = Vec::new();
    let mut i: usize = 0;
    proof {
        assert(bytes@.take(0) =~= Seq::<u8>::empty());
        assert(views_of(parts@).push(cur@) =~= spec_split(bytes@.take(0), d));
    }
    while i < bytes.len()
        invariant
            0 <= i <= bytes@.len(),
            views_of(parts@).push(cur@) == spec_split(bytes@.take(i as int), d),
        decreases bytes@.len() - i,
    {
        let ghost pre = bytes@.take(i as int);
        let ghost post = bytes@.take(i + 1 as int);
        proof {
            assert(post.drop_last() =~= pre);
            assert(post.last() == bytes@[i as int]);
        }
        let b = bytes[i];
        if b == d {
            parts.push(cur);
            cur = Vec::new();
            proof {
                assert(views_of(parts@).push(cur@) =~= spec_split(pre, d).push(
                    Seq::<u8>::empty(),
                ));
            }
        } else {
            let ghost old_parts = views_of(parts@);
            let ghost old_cur = cur@;
            cur.push(b);
            proof {
                lemma_split_nonempty(pre, d);
                let prefix = spec_split(pre, d);
                assert(prefix == old_parts.push(old_cur));
                assert(prefix.last() == old_cur);
                assert(views_of(parts@).push(cur@) =~= prefix.update(
                    prefix.len() - 1,
                    prefix.last().push(b),
                ));
            }
        }
        i = i + 1;
    }
    proof {
        assert(bytes@.take(bytes@.len() as int) =~= bytes@);
    }
    parts.push(cur);
    proof {
        assert(views_of(parts@) =~= spec_split(bytes@, d));
    }
    parts
}

/// Whether `bytes` contains the byte `d`.
fn contains_byte(bytes: &[u8], d: u8) -> (r: bool)
    ensures
        r == bytes@.contains(d),
{
    let mut i: usize = 0;
    while i < bytes.len()
        invariant
            0 <= i <= bytes@.len(),
            forall|j: int| 0 <= j < i ==> bytes@[j] != d,
        decreases bytes@.len() - i,
    {
        if bytes[i] == d {
            return true;
        }
        i = i + 1;
    }
    false
}

/// Tokenizes an input string into a [`Path`] per [`spec_tokenize`]: the
/// optional `=value` suffix is split off first, then the name is split into
/// segments on `.`. Rejects with `MalformedPath` exactly when the input has
/// more than one `=`, a value containing `.`, or an empty segment (a
/// leading, trailing, or doubled delimiter).
#[verifier::loop_isolation(false)]
pub fn tokenize(input: &str) -> (r: Result<Path, CtlError>)
    ensures
        crate::error::res_view(r) == spec_tokenize(input.spec_bytes()),
{
    let bytes: &[u8] = input.as_bytes();
    let mut parts = split_on(bytes, ASSIGN_DELIM);
    let ghost spec_parts = spec_split(bytes@, ASSIGN_DELIM);
    proof {
        lemma_split_nonempty(bytes@, ASSIGN_DELIM);
        assert(spec_parts.len() == parts@.len());
        assert(forall|j: int|
            0 <= j < parts@.len() ==> spec_parts[j] == #[trigger] parts@[j]@);
    }
    if parts.len() > 2 {
        return Err(CtlError::MalformedPath);
    }
    let value: Option<Vec<u8>> = if parts.len() == 2 {
        let v = parts.pop().unwrap();
        proof {
            assert(v@ == spec_parts[1]);
        }
        if contains_byte(v.as_slice(), SEGMENT_DELIM) {
            return Err(CtlError::MalformedPath);
        }
        Some(v)
    } else {
        None
    };
    let name = parts.pop().unwrap();
    proof {
        assert(name@ == spec_parts[0]);
    }
    let segments = split_on(name.as_slice(), SEGMENT_DELIM);
    let ghost segs = spec_split(name@, SEGMENT_DELIM);
    let mut i: usize = 0;
    while i < segments.len()
        invariant
            0 <= i <= segments@.len(),
            views_of(segments@) == segs,
            forall|j: int| 0 <= j < i ==> #[trigger] segs[j].len() != 0,
        decreases segments@.len() - i,
    {
        if segments[i].len() == 0 {
            proof {
                assert(segs[i as int] == segments@[i as int]@);
                assert(segs[i as int].len() == 0);
            }
            return Err(CtlError::MalformedPath);
        }
        i = i + 1;
    }
    Ok(Path { segments, value })
}

} // verus!
