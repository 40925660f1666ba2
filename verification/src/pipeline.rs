//! The pipeline orchestrator: wires normalizer, encoder, the opaque
//! inference invoker, and the decoder for one request.
//!
//! The invoker — loading the model graph, creating an execution context and
//! running the bound input tensor — lives outside this crate, in the host
//! glue. The orchestrator is split around that call: `prepare_input` builds
//! the input tensor from the request window, and `complete_inference` turns
//! the invoker's answer (its output tensor, or its first failure) into the
//! final result, propagating any failure unchanged. Each request is
//! self-contained: no state survives an invocation.

use vstd::prelude::*;

use crate::data::{DataPoint, DataWindow, InferenceResult, PipelineError, Tensor, ZERO_BITS};
use crate::decode::{decode, decode_points_spec};
use crate::encode::{encode, encode_spec, lemma_encode_spec_props, lemma_encode_spec_zero};
use crate::normalize::{lemma_sort_by_time_props, normalize, normalize_spec, samples_of};

verus! {

/// Number of batches the bundled model expects.
pub const NUM_BATCHES: usize = 16;

/// Number of past time steps the bundled model consumes per batch.
pub const HISTORY_LEN: usize = 128;

/// Number of future time steps the bundled model produces per batch.
pub const PREDICTION_LEN: usize = 24;

/// The shape half of the model contract: the model consumes
/// `[batch_count, history_len, 1]` and produces
/// `[batch_count, prediction_len, 1]`. The artifact's format, file set and
/// tensor names concern only the host-side loader, so they stay with it.
/// These dimensions are fixed configuration chosen at startup, never
/// derived from a request, and must change together with the model.
#[derive(Clone, Copy, Debug)]
pub struct ModelConfig {
    pub batch_count: usize,
    pub history_len: usize,
    pub prediction_len: usize,
}

impl ModelConfig {
    /// The shape is usable: at least one batch, and the flat input and
    /// output buffers have representable lengths.
    pub open spec fn wf(self) -> bool {
        &&& 1 <= self.batch_count
        &&& self.batch_count * self.history_len <= usize::MAX
        &&& self.batch_count * self.prediction_len <= usize::MAX
    }

    /// The configuration of the bundled forecasting model: input shape
    /// `[16, 128, 1]`, output shape `[16, 24, 1]`.
    pub fn bundled() -> (cfg: ModelConfig)
        ensures
            cfg.batch_count == NUM_BATCHES,
            cfg.history_len == HISTORY_LEN,
            cfg.prediction_len == PREDICTION_LEN,
            cfg.wf(),
    {
        ModelConfig {
            batch_count: NUM_BATCHES,
            history_len: HISTORY_LEN,
            prediction_len: PREDICTION_LEN,
        }
    }
}

/// The input tensor data the pipeline feeds the model for a given window:
/// the normalized series, padded and replicated per batch.
pub open spec fn input_data_spec(points: Seq<DataPoint>, cfg: ModelConfig) -> Seq<u32> {
    encode_spec(normalize_spec(points), cfg.history_len as nat, cfg.batch_count as nat)
}

/// What the pipeline returns once the invoker has answered: an invoker
/// failure is propagated unchanged; a returned tensor is decoded, yielding
/// batch 0 as predicted points or a shape mismatch.
pub open spec fn pipeline_result_spec(
    outcome: Result<Tensor, PipelineError>,
    cfg: ModelConfig,
) -> Result<Seq<DataPoint>, PipelineError> {
    match outcome {
        Result::Err(e) => Result::Err(e),
        Result::Ok(t) => if t.data@.len() == cfg.batch_count * cfg.prediction_len {
            Result::Ok(decode_points_spec(t.data@, cfg.prediction_len as nat))
        } else {
            Result::Err(
                PipelineError::ShapeMismatch {
                    expected: (cfg.batch_count * cfg.prediction_len) as usize,
                    actual: t.data@.len() as usize,
                },
            )
        },
    }
}

/// Per-request handler state: the model configuration fixed at startup.
/// The pipeline itself is stateless; nothing survives an invocation.
pub struct HttpHandler {
    pub config: ModelConfig,
}

impl HttpHandler {
    /// A handler for the bundled model.
    pub fn new() -> (handler: HttpHandler)
        ensures
            handler.config == (ModelConfig {
                batch_count: NUM_BATCHES,
                history_len: HISTORY_LEN,
                prediction_len: PREDICTION_LEN,
            }),
            handler.config.wf(),
    {
        HttpHandler { config: ModelConfig::bundled() }
    }

    /// The request half of the pipeline: normalizes the window and encodes
    /// the model's input tensor. Never fails, whatever the window holds.
    pub fn prepare_input(&self, window: &DataWindow) -> (tensor: Tensor)
        requires
            self.config.wf(),
        ensures
            tensor.data@ == input_data_spec(window.points(), self.config),
            tensor.dims@ == seq![self.config.batch_count, self.config.history_len, 1usize],
            tensor.wf(),
    {
        let series = normalize(window);
        proof {
            assert(self.config.history_len * self.config.batch_count == self.config.batch_count
                * self.config.history_len) by (nonlinear_arith);
        }
        encode(&series, self.config.history_len, self.config.batch_count)
    }

    /// The response half: propagates the invoker's failure unchanged, or
    /// decodes its output tensor.
    pub fn complete_inference(&self, outcome: Result<Tensor, PipelineError>) -> (result: Result<
        InferenceResult,
        PipelineError,
    >)
        requires
            self.config.wf(),
        ensures
            result is Ok <==> pipeline_result_spec(outcome, self.config) is Ok,
            (result matches Ok(InferenceResult::PredictedValues(points)) ==> pipeline_result_spec(
                outcome,
                self.config,
            ) == Result::<Seq<DataPoint>, PipelineError>::Ok(points@)),
            (result matches Err(e) ==> pipeline_result_spec(outcome, self.config) == Result::<
                Seq<DataPoint>,
                PipelineError,
            >::Err(e)),
    {
        match outcome {
            Result::Err(e) => Result::Err(e),
            Result::Ok(t) => decode(&t, self.config.batch_count, self.config.prediction_len),
        }
    }
}

/// Statelessness: the pipeline is a pure function of the request window
/// and of the invoker's answer. Re-running it on an identical window with
/// a deterministic model yields the identical input tensor data and the
/// identical result; nothing is carried between invocations.
pub proof fn lemma_pipeline_deterministic(
    points1: Seq<DataPoint>,
    points2: Seq<DataPoint>,
    outcome1: Result<Tensor, PipelineError>,
    outcome2: Result<Tensor, PipelineError>,
    cfg: ModelConfig,
)
    requires
        points1 == points2,
        outcome1 == outcome2,
    ensures
        input_data_spec(points1, cfg) == input_data_spec(points2, cfg),
        pipeline_result_spec(outcome1, cfg) == pipeline_result_spec(outcome2, cfg),
{
}

/// A window without numeric observations still encodes: normalization
/// yields the empty series and the input tensor is all zeros, full-sized.
pub proof fn lemma_all_text_window_encodes_zero(points: Seq<DataPoint>, cfg: ModelConfig)
    requires
        samples_of(points).len() == 0,
    ensures
        normalize_spec(points) == Seq::<u32>::empty(),
        input_data_spec(points, cfg).len() == cfg.batch_count * cfg.history_len,
        forall|k: int|
            0 <= k < input_data_spec(points, cfg).len() ==> #[trigger] input_data_spec(
                points,
                cfg,
            )[k] == ZERO_BITS,
{
    lemma_sort_by_time_props(samples_of(points));
    assert(normalize_spec(points) =~= Seq::<u32>::empty());
    lemma_encode_spec_props(
        normalize_spec(points),
        cfg.history_len as nat,
        cfg.batch_count as nat,
    );
    lemma_encode_spec_zero(
        normalize_spec(points),
        cfg.history_len as nat,
        cfg.batch_count as nat,
    );
}

} // verus!

