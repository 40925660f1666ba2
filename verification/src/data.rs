//! The data model of the pipeline: observations, windows, tensors,
//! predictions and the error taxonomy.

use vstd::prelude::*;

verus! {

/// An observed value: either numeric or textual.
///
/// A numeric value is a 32-bit float carried by its IEEE-754 bit pattern,
/// since the pipeline never computes with it, only moves it around.
#[derive(Clone, Debug)]
pub enum Value {
    /// The bit pattern of an `f32`.
    Number(u32),
    /// Free-form text; the normalizer silently drops such observations.
    Text(String),
}

/// The bit pattern of the `f32` value `0.0`, used to pad short series.
pub const ZERO_BITS: u32 = 0;

/// A single observation as it arrives in a request, or a predicted point as
/// it is returned: an optional timestamp, a value, and an optional quality
/// annotation. Predicted points always have an absent timestamp and an
/// absent quality.
#[derive(Clone, Debug)]
pub struct DataPoint {
    pub timestamp: Option<i64>,
    pub value: Value,
    pub quality: Option<String>,
}

/// One entry of a [`DataWindow`]: an opaque key and its observation.
#[derive(Clone, Debug)]
pub struct WindowEntry {
    pub key: String,
    pub point: DataPoint,
}

/// An unordered collection of keyed observations submitted in one request.
///
/// The entries carry no chronological meaning by position; order must be
/// derived from the timestamps. Well-formed windows have pairwise distinct
/// keys.
#[derive(Clone, Debug)]
pub struct DataWindow {
    pub entries: Vec<WindowEntry>,
}

impl DataWindow {
    /// Keys are pairwise distinct.
    pub open spec fn wf(self) -> bool {
        forall|i: int, j: int|
            0 <= i < j < self.entries@.len() ==> self.entries@[i].key@ != self.entries@[j].key@
    }

    /// The observations of the window, in entry order.
    pub open spec fn points(self) -> Seq<DataPoint> {
        self.entries@.map_values(|e: WindowEntry| e.point)
    }

    /// Whether some entry already uses `key`.
    pub open spec fn has_key(self, key: Seq<char>) -> bool {
        exists|i: int| 0 <= i < self.entries@.len() && #[trigger] self.entries@[i].key@ == key
    }

    /// An empty window.
    pub fn new() -> (w: DataWindow)
        ensures
            w.points() =~= Seq::<DataPoint>::empty(),
            w.wf(),
    {
        DataWindow { entries: Vec::new() }
    }

    /// Appends one keyed observation. A fresh key keeps the window
    /// well-formed; the pipeline itself never reads the keys.
    pub fn push(&mut self, key: String, point: DataPoint)
        ensures
            final(self).points() =~= old(self).points().push(point),
            final(self).entries@ == old(self).entries@.push(
                WindowEntry { key: key, point: point },
            ),
            old(self).wf() && !old(self).has_key(key@) ==> final(self).wf(),
    {
        let ghost prior = *self;
        let ghost new_key = key@;
        self.entries.push(WindowEntry { key, point });
        proof {
            if prior.wf() && !prior.has_key(new_key) {
                assert forall|i: int, j: int|
                    0 <= i < j < self.entries@.len() implies self.entries@[i].key@
                    != self.entries@[j].key@ by {
                    if j < self.entries@.len() - 1 {
                        assert(prior.entries@[i].key@ != prior.entries@[j].key@);
                    } else {
                        assert(self.entries@[j].key@ == new_key);
                        if self.entries@[i].key@ == new_key {
                            assert(prior.entries@[i].key@ == new_key);
                            assert(prior.has_key(new_key));
                        }
                    }
                };
            }
        }
    }
}

/// A tensor as exchanged with the inference backend: a flat buffer of `f32`
/// bit patterns plus a shape descriptor.
#[derive(Clone, Debug)]
pub struct Tensor {
    pub data: Vec<u32>,
    pub dims: Vec<usize>,
}

impl Tensor {
    /// The buffer length equals the product of the three shape dimensions.
    pub open spec fn wf(self) -> bool {
        &&& self.dims@.len() == 3
        &&& self.data@.len() == self.dims@[0] * self.dims@[1] * self.dims@[2]
    }
}

/// The unit returned to the response encoder: an ordered sequence of
/// predicted points.
#[derive(Clone, Debug)]
pub enum InferenceResult {
    PredictedValues(Vec<DataPoint>),
}

/// The failures the pipeline can surface. Every stage fails fast; the first
/// error is returned unchanged, with no partial result and no retry.
#[derive(Clone, Debug, PartialEq)]
pub enum PipelineError {
    /// The model artifact could not be read or has the wrong format.
    ModelLoad(String),
    /// The backend rejected the graph or the execution-context configuration.
    GraphBuild(String),
    /// The backend failed while executing the model.
    Invocation(String),
    /// The output buffer length does not match the configured
    /// `batch_count * prediction_len`.
    ShapeMismatch { expected: usize, actual: usize },
}

} // verus!
