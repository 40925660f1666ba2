//! The result decoder: validates the output tensor's size, selects the
//! first batch, and wraps each predicted value as a data point.
//!
//! All batches of the output are replicas of the one real series, so only
//! batch 0 is meaningful; the rest are discarded. Predicted points carry no
//! timestamp and no quality annotation.

use vstd::prelude::*;

use crate::data::{DataPoint, InferenceResult, PipelineError, Tensor, Value};

verus! {

/// The first `prediction_len` values of the output buffer, each wrapped as
/// a predicted point with an absent timestamp and an absent quality.
pub open spec fn decode_points_spec(data: Seq<u32>, prediction_len: nat) -> Seq<DataPoint> {
    Seq::new(
        prediction_len,
        |i: int| DataPoint { timestamp: None, value: Value::Number(data[i]), quality: None },
    )
}

/// Round-trip shape law: a buffer of the configured output shape
/// `[batch_count, prediction_len, 1]` decodes to exactly `prediction_len`
/// predicted points, the values of batch 0 in order, each with an absent
/// timestamp and an absent quality.
pub proof fn lemma_decode_round_trip(data: Seq<u32>, batch_count: nat, prediction_len: nat)
    requires
        1 <= batch_count,
        data.len() == batch_count * prediction_len,
    ensures
        decode_points_spec(data, prediction_len).len() == prediction_len,
        forall|k: int|
            0 <= k < prediction_len ==> {
                &&& (#[trigger] decode_points_spec(data, prediction_len)[k]).timestamp is None
                &&& decode_points_spec(data, prediction_len)[k].quality is None
                &&& decode_points_spec(data, prediction_len)[k].value == Value::Number(data[k])
            },
{
    assert(prediction_len <= batch_count * prediction_len) by (nonlinear_arith)
        requires
            1 <= batch_count,
            0 <= prediction_len,
    ;
}

/// Decodes the model's output tensor: checks that the flat buffer holds
/// exactly `batch_count * prediction_len` values, selects batch 0, and
/// wraps its values as predicted points. Returns a shape mismatch, and
/// only then, when the buffer length is wrong; no partial result is
/// produced.
pub fn decode(output: &Tensor, batch_count: usize, prediction_len: usize) -> (result: Result<
    InferenceResult,
    PipelineError,
>)
    requires
        1 <= batch_count,
        batch_count * prediction_len <= usize::MAX,
    ensures
        result is Ok <==> output.data@.len() == batch_count * prediction_len,
        (result matches Ok(InferenceResult::PredictedValues(points)) ==> points@
            == decode_points_spec(output.data@, prediction_len as nat)),
        (result matches Err(e) ==> {
            &&& e matches PipelineError::ShapeMismatch { expected, actual }
            &&& expected == batch_count * prediction_len
            &&& actual == output.data@.len()
        }),
{
    let expected = batch_count * prediction_len;
    let actual = output.data.len();
    if actual != expected {
        return Err(PipelineError::ShapeMismatch { expected, actual });
    }
    proof {
        assert(prediction_len <= batch_count * prediction_len) by (nonlinear_arith)
            requires
                1 <= batch_count,
                0 <= prediction_len,
        ;
    }
    let mut points: Vec<DataPoint> = Vec::new();
    let mut i: usize = 0;
    while i < prediction_len
        invariant
            i <= prediction_len,
            prediction_len <= output.data@.len(),
            points@.len() == i,
            forall|k: int|
                0 <= k < i ==> #[trigger] points@[k] == (DataPoint {
                    timestamp: None,
                    value: Value::Number(output.data@[k]),
                    quality: None,
                }),
        decreases prediction_len - i,
    {
        let bits = output.data[i];
        points.push(DataPoint { timestamp: None, value: Value::Number(bits), quality: None });
        i = i + 1;
    }
    proof {
        assert(points@ =~= decode_points_spec(output.data@, prediction_len as nat));
    }
    Ok(InferenceResult::PredictedValues(points))
}

} // verus!
