//! The tensor encoder: forces the normalized series to the model's history
//! length and replicates it across the batch dimension.
//!
//! Policy: a series longer than the history length is truncated at the end
//! (the most recent values are silently discarded); a shorter one is
//! right-padded with the float zero. The fixed-length series is then
//! repeated once per batch, since only one real series exists. Encoding
//! never fails.

use vstd::prelude::*;

use crate::data::{Tensor, ZERO_BITS};

verus! {

/// `series` forced to exactly `history_len` values: truncated at the end if
/// longer, right-padded with the float zero if shorter.
pub open spec fn padded_spec(series: Seq<u32>, history_len: nat) -> Seq<u32> {
    if series.len() >= history_len {
        series.take(history_len as int)
    } else {
        series + Seq::new((history_len - series.len()) as nat, |i: int| ZERO_BITS)
    }
}

/// `batch_count` copies of the padded series, concatenated.
pub open spec fn encode_spec(series: Seq<u32>, history_len: nat, batch_count: nat) -> Seq<u32>
    decreases batch_count,
{
    if batch_count == 0 {
        Seq::empty()
    } else {
        encode_spec(series, history_len, (batch_count - 1) as nat) + padded_spec(
            series,
            history_len,
        )
    }
}

/// The encoded buffer holds `batch_count * history_len` values, and every
/// batch slice is identical: each is exactly the padded series.
pub proof fn lemma_encode_spec_props(series: Seq<u32>, history_len: nat, batch_count: nat)
    ensures
        encode_spec(series, history_len, batch_count).len() == batch_count * history_len,
        forall|b: int|
            0 <= b < batch_count ==> #[trigger] encode_spec(
                series,
                history_len,
                batch_count,
            ).subrange(b * history_len, (b + 1) * history_len) == padded_spec(series, history_len),
    decreases batch_count,
{
    if batch_count == 0 {
    } else {
        let prev_count = (batch_count - 1) as nat;
        lemma_encode_spec_props(series, history_len, prev_count);
        let whole = encode_spec(series, history_len, batch_count);
        let prev = encode_spec(series, history_len, prev_count);
        let pad = padded_spec(series, history_len);
        assert(prev_count * history_len + history_len == batch_count * history_len)
            by (nonlinear_arith)
            requires
                prev_count + 1 == batch_count,
        ;
        assert forall|b: int|
            0 <= b < batch_count implies #[trigger] whole.subrange(
            b * history_len,
            (b + 1) * history_len,
        ) == pad by {
            assert((b + 1) * history_len == b * history_len + history_len) by (nonlinear_arith);
            assert(0 <= b * history_len) by (nonlinear_arith)
                requires
                    0 <= b,
                    0 <= history_len,
            ;
            if b < prev_count {
                assert((b + 1) * history_len <= prev_count * history_len) by (nonlinear_arith)
                    requires
                        0 <= history_len,
                        b + 1 <= prev_count,
                ;
                assert(whole.subrange(b * history_len, (b + 1) * history_len) =~= prev.subrange(
                    b * history_len,
                    (b + 1) * history_len,
                ));
            } else {
                assert(b == prev_count);
                assert(b * history_len == prev.len());
                assert(whole.subrange(b * history_len, (b + 1) * history_len) =~= pad);
            }
        };
    }
}

/// With an empty series, every encoded element is the zero padding value:
/// the pipeline still succeeds on a window without numeric observations.
pub proof fn lemma_encode_spec_zero(series: Seq<u32>, history_len: nat, batch_count: nat)
    requires
        series.len() == 0,
    ensures
        forall|k: int|
            0 <= k < encode_spec(series, history_len, batch_count).len() ==> #[trigger] encode_spec(
                series,
                history_len,
                batch_count,
            )[k] == ZERO_BITS,
    decreases batch_count,
{
    if batch_count == 0 {
    } else {
        lemma_encode_spec_zero(series, history_len, (batch_count - 1) as nat);
        let prev = encode_spec(series, history_len, (batch_count - 1) as nat);
        let pad = padded_spec(series, history_len);
        assert forall|k: int| 0 <= k < pad.len() implies pad[k] == ZERO_BITS by {
            if series.len() >= history_len {
                assert(pad.len() == 0);
            }
        };
    }
}

/// Encodes a normalized series as the model's input tensor of shape
/// `[batch_count, history_len, 1]`. Never fails.
pub fn encode(series: &Vec<u32>, history_len: usize, batch_count: usize) -> (tensor: Tensor)
    requires
        history_len * batch_count <= usize::MAX,
    ensures
        tensor.data@ == encode_spec(series@, history_len as nat, batch_count as nat),
        tensor.dims@ == seq![batch_count, history_len, 1usize],
        tensor.data@.len() == batch_count * history_len,
        tensor.wf(),
        forall|b: int|
            0 <= b < batch_count ==> #[trigger] tensor.data@.subrange(
                b * (history_len as int),
                (b + 1) * (history_len as int),
            ) == padded_spec(series@, history_len as nat),
{
    // Force the series to exactly `history_len` values.
    let mut padded: Vec<u32> = Vec::new();
    let mut i: usize = 0;
    while i < history_len
        invariant
            i <= history_len,
            padded@.len() == i,
            forall|k: int|
                0 <= k < i ==> #[trigger] padded@[k] == (if k < series@.len() {
                    series@[k]
                } else {
                    ZERO_BITS
                }),
        decreases history_len - i,
    {
        if i < series.len() {
            let v = series[i];
            padded.push(v);
        } else {
            padded.push(ZERO_BITS);
        }
        i = i + 1;
    }
    proof {
        assert(padded@ =~= padded_spec(series@, history_len as nat));
    }

    // Replicate it once per batch.
    let mut data: Vec<u32> = Vec::new();
    let mut b: usize = 0;
    while b < batch_count
        invariant
            b <= batch_count,
            padded@ == padded_spec(series@, history_len as nat),
            data@ == encode_spec(series@, history_len as nat, b as nat),
        decreases batch_count - b,
    {
        let mut j: usize = 0;
        while j < padded.len()
            invariant
                j <= padded@.len(),
                padded@ == padded_spec(series@, history_len as nat),
                data@ == encode_spec(series@, history_len as nat, b as nat) + padded@.take(
                    j as int,
                ),
            decreases padded@.len() - j,
        {
            let v = padded[j];
            data.push(v);
            j = j + 1;
        }
        proof {
            assert(padded@.take(padded@.len() as int) =~= padded@);
            assert(data@ =~= encode_spec(series@, history_len as nat, b as nat + 1));
        }
        b = b + 1;
    }

    let mut dims: Vec<usize> = Vec::new();
    dims.push(batch_count);
    dims.push(history_len);
    dims.push(1);
    let tensor = Tensor { data, dims };
    proof {
        lemma_encode_spec_props(series@, history_len as nat, batch_count as nat);
        assert(tensor.dims@ =~= seq![batch_count, history_len, 1usize]);
    }
    tensor
}

} // verus!
