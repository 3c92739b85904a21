//! Laws of the codec: encoding a value and decoding the result gives the
//! value back, for every shape and every value the shape can encode; and
//! string decoding is idempotent on already-trimmed input.

use vstd::bytes::lemma_auto_spec_u16_to_from_le_bytes;
use vstd::bytes::lemma_auto_spec_u32_to_from_le_bytes;
use vstd::bytes::lemma_auto_spec_u64_to_from_le_bytes;
use vstd::bytes::spec_u16_from_le_bytes;
use vstd::bytes::spec_u32_from_le_bytes;
use vstd::bytes::spec_u64_from_le_bytes;
use vstd::prelude::*;

use crate::codec::ValueModel;
use crate::codec::lemma_first_nul_bounds;
use crate::codec::lemma_first_nul_is;
use crate::codec::spec_bytes_of_u16s;
use crate::codec::spec_bytes_of_u32s;
use crate::codec::spec_bytes_of_u64s;
use crate::codec::spec_decode;
use crate::codec::spec_encode;
use crate::codec::spec_text_of;
use crate::codec::spec_u16s_of;
use crate::codec::spec_u32s_of;
use crate::codec::spec_u64s_of;
use crate::shape::ValueShape;

verus! {

proof fn lemma_u16s_round_trip(xs: Seq<u16>)
    ensures
        spec_bytes_of_u16s(xs).len() == 2 * xs.len(),
        spec_u16s_of(spec_bytes_of_u16s(xs)) == xs,
    decreases xs.len(),
{
    lemma_auto_spec_u16_to_from_le_bytes();
    if xs.len() > 0 {
        lemma_u16s_round_trip(xs.drop_last());
        let prefix = spec_bytes_of_u16s(xs.drop_last());
        let b = spec_bytes_of_u16s(xs);
        assert forall|i: int| 0 <= i < xs.len() implies spec_u16_from_le_bytes(
            b.subrange(2 * i, 2 * i + 2),
        ) == xs[i] by {
            if i < xs.len() - 1 {
                assert(b.subrange(2 * i, 2 * i + 2) =~= prefix.subrange(2 * i, 2 * i + 2));
                assert(spec_u16s_of(prefix)[i] == xs.drop_last()[i]);
            } else {
                assert(b.subrange(2 * i, 2 * i + 2) =~= vstd::bytes::spec_u16_to_le_bytes(
                    xs.last(),
                ));
            }
        }
        assert(spec_u16s_of(b) =~= xs);
    } else {
        assert(spec_u16s_of(spec_bytes_of_u16s(xs)) =~= xs);
    }
}

proof fn lemma_u32s_round_trip(xs: Seq<u32>)
    ensures
        spec_bytes_of_u32s(xs).len() == 4 * xs.len(),
        spec_u32s_of(spec_bytes_of_u32s(xs)) == xs,
    decreases xs.len(),
{
    lemma_auto_spec_u32_to_from_le_bytes();
    if xs.len() > 0 {
        lemma_u32s_round_trip(xs.drop_last());
        let prefix = spec_bytes_of_u32s(xs.drop_last());
        let b = spec_bytes_of_u32s(xs);
        assert forall|i: int| 0 <= i < xs.len() implies spec_u32_from_le_bytes(
            b.subrange(4 * i, 4 * i + 4),
        ) == xs[i] by {
            if i < xs.len() - 1 {
                assert(b.subrange(4 * i, 4 * i + 4) =~= prefix.subrange(4 * i, 4 * i + 4));
                assert(spec_u32s_of(prefix)[i] == xs.drop_last()[i]);
            } else {
                assert(b.subrange(4 * i, 4 * i + 4) =~= vstd::bytes::spec_u32_to_le_bytes(
                    xs.last(),
                ));
            }
        }
        assert(spec_u32s_of(b) =~= xs);
    } else {
        assert(spec_u32s_of(spec_bytes_of_u32s(xs)) =~= xs);
    }
}

proof fn lemma_u64s_round_trip(xs: Seq<u64>)
    ensures
        spec_bytes_of_u64s(xs).len() == 8 * xs.len(),
        spec_u64s_of(spec_bytes_of_u64s(xs)) == xs,
    decreases xs.len(),
{
    lemma_auto_spec_u64_to_from_le_bytes();
    if xs.len() > 0 {
        lemma_u64s_round_trip(xs.drop_last());
        let prefix = spec_bytes_of_u64s(xs.drop_last());
        let b = spec_bytes_of_u64s(xs);
        assert forall|i: int| 0 <= i < xs.len() implies spec_u64_from_le_bytes(
            b.subrange(8 * i, 8 * i + 8),
        ) == xs[i] by {
            if i < xs.len() - 1 {
                assert(b.subrange(8 * i, 8 * i + 8) =~= prefix.subrange(8 * i, 8 * i + 8));
                assert(spec_u64s_of(prefix)[i] == xs.drop_last()[i]);
            } else {
                assert(b.subrange(8 * i, 8 * i + 8) =~= vstd::bytes::spec_u64_to_le_bytes(
                    xs.last(),
                ));
            }
        }
        assert(spec_u64s_of(b) =~= xs);
    } else {
        assert(spec_u64s_of(spec_bytes_of_u64s(xs)) =~= xs);
    }
}

proof fn lemma_trimmed_text_decodes_to_itself(b: Seq<u8>)
    requires
        !b.contains(0),
    ensures
        spec_text_of(b) == b,
        spec_text_of(b.push(0)) == b,
{
    lemma_first_nul_is(b, b.len() as int);
    let e = b.push(0);
    assert forall|j: int| 0 <= j < b.len() implies e[j] != 0 by {
        assert(e[j] == b[j]);
    }
    lemma_first_nul_is(e, b.len() as int);
    assert(spec_text_of(b) =~= b);
    assert(spec_text_of(e) =~= b);
}

/// Round-trip law: decoding an encoding returns the value. For every shape
/// and every value that the shape can encode — every representable scalar,
/// every string without an embedded terminator, every record and array — a
/// write of `v` followed by a read of the bytes written yields `v`.
pub proof fn law_codec_round_trip(shape: ValueShape, v: ValueModel)
    requires
        spec_encode(shape, v) is Ok,
    ensures
        spec_decode(shape, spec_encode(shape, v)->Ok_0) == Ok::<_, crate::error::ErrorModel>(v),
{
    lemma_auto_spec_u32_to_from_le_bytes();
    lemma_auto_spec_u64_to_from_le_bytes();
    match (shape, v) {
        (ValueShape::CString, ValueModel::Text(b)) => {
            lemma_trimmed_text_decodes_to_itself(b);
        },
        (ValueShape::U16Array, ValueModel::U16s(xs)) => {
            lemma_u16s_round_trip(xs);
        },
        (ValueShape::U32Array, ValueModel::U32s(xs)) => {
            lemma_u32s_round_trip(xs);
        },
        (ValueShape::U64Array, ValueModel::U64s(xs)) => {
            lemma_u64s_round_trip(xs);
        },
        _ => {},
    }
}

/// String decoding is idempotent on already-trimmed input: decoding its own
/// output, with or without one extra terminator byte appended, returns that
/// output unchanged.
pub proof fn law_text_decode_idempotent(b: Seq<u8>)
    ensures
        spec_decode(ValueShape::CString, spec_text_of(b)) == spec_decode(
            ValueShape::CString,
            spec_text_of(b).push(0),
        ),
        spec_decode(ValueShape::CString, spec_text_of(b)) == Ok::<_, crate::error::ErrorModel>(
            ValueModel::Text(spec_text_of(b)),
        ),
{
    lemma_first_nul_bounds(b);
    let t = spec_text_of(b);
    assert(forall|j: int| 0 <= j < t.len() ==> t[j] == b[j]);
    assert(!t.contains(0));
    lemma_trimmed_text_decodes_to_itself(t);
}

} // verus!
