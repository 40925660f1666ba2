use forecast_pipeline::data::{
    DataPoint, DataWindow, InferenceResult, PipelineError, Tensor, Value,
};
use forecast_pipeline::decode::decode;
use forecast_pipeline::pipeline::{HttpHandler, ModelConfig, PREDICTION_LEN};

fn output_tensor(batch_count: usize, prediction_len: usize, batch0: &[f32]) -> Tensor {
    assert_eq!(batch0.len(), prediction_len);
    let mut data: Vec<u32> = Vec::new();
    for b in 0..batch_count {
        for k in 0..prediction_len {
            if b == 0 {
                data.push(batch0[k].to_bits());
            } else {
                // The other batches are replicas in practice, but the
                // decoder must ignore whatever they hold.
                data.push((1000.0 + k as f32).to_bits());
            }
        }
    }
    Tensor { data, dims: vec![batch_count, prediction_len, 1] }
}

fn predicted_values(result: Result<InferenceResult, PipelineError>) -> Vec<DataPoint> {
    match result {
        Ok(InferenceResult::PredictedValues(points)) => points,
        Err(e) => panic!("expected predictions, got {e:?}"),
    }
}

#[test]
fn scenario_decode_reads_batch_zero_only() {
    // Output shape [16, 24, 1] with batch 0 holding 1.0..=24.0: decoding
    // yields 24 predicted points with exactly those values in order;
    // batches 1..=15 are ignored.
    let batch0: Vec<f32> = (1..=24).map(|i| i as f32).collect();
    let tensor = output_tensor(16, 24, &batch0);
    let points = predicted_values(decode(&tensor, 16, 24));
    assert_eq!(points.len(), 24);
    for (k, point) in points.iter().enumerate() {
        assert!(point.timestamp.is_none());
        assert!(point.quality.is_none());
        match &point.value {
            Value::Number(bits) => assert_eq!(f32::from_bits(*bits), (k + 1) as f32),
            Value::Text(text) => panic!("unexpected text value {text:?}"),
        }
    }
}

#[test]
fn scenario_decode_rejects_wrong_total_length() {
    // A buffer of 100 values instead of 16 * 24 = 384 is a shape mismatch;
    // no partial result comes back.
    let tensor = Tensor { data: vec![0u32; 100], dims: vec![16, 24, 1] };
    let result = decode(&tensor, 16, 24);
    assert_eq!(
        result.err(),
        Some(PipelineError::ShapeMismatch { expected: 384, actual: 100 })
    );
}

#[test]
fn decode_accepts_exact_length_only() {
    let tensor = output_tensor(2, 3, &[9.0, 8.0, 7.0]);
    let points = predicted_values(decode(&tensor, 2, 3));
    assert_eq!(points.len(), 3);

    let short = Tensor { data: vec![0u32; 5], dims: vec![2, 3, 1] };
    assert_eq!(
        decode(&short, 2, 3).err(),
        Some(PipelineError::ShapeMismatch { expected: 6, actual: 5 })
    );
    let long = Tensor { data: vec![0u32; 7], dims: vec![2, 3, 1] };
    assert_eq!(
        decode(&long, 2, 3).err(),
        Some(PipelineError::ShapeMismatch { expected: 6, actual: 7 })
    );
}

#[test]
fn complete_inference_propagates_invoker_failures_unchanged() {
    let handler = HttpHandler::new();
    for error in [
        PipelineError::ModelLoad(String::from("model file missing")),
        PipelineError::GraphBuild(String::from("backend rejected the graph")),
        PipelineError::Invocation(String::from("runtime fault")),
    ] {
        let result = handler.complete_inference(Err(error.clone()));
        assert_eq!(result.err(), Some(error));
    }
}

#[test]
fn complete_inference_decodes_a_returned_tensor() {
    let handler = HttpHandler::new();
    let batch0: Vec<f32> = (0..PREDICTION_LEN).map(|i| i as f32 / 2.0).collect();
    let tensor = output_tensor(16, PREDICTION_LEN, &batch0);
    let points = predicted_values(handler.complete_inference(Ok(tensor)));
    assert_eq!(points.len(), PREDICTION_LEN);
    for (k, point) in points.iter().enumerate() {
        match &point.value {
            Value::Number(bits) => assert_eq!(f32::from_bits(*bits), k as f32 / 2.0),
            Value::Text(text) => panic!("unexpected text value {text:?}"),
        }
    }
}

#[test]
fn complete_inference_reports_shape_mismatch() {
    let handler = HttpHandler::new();
    let tensor = Tensor { data: vec![0u32; 100], dims: vec![16, 24, 1] };
    let result = handler.complete_inference(Ok(tensor));
    assert_eq!(
        result.err(),
        Some(PipelineError::ShapeMismatch { expected: 384, actual: 100 })
    );
}

#[test]
fn pipeline_is_deterministic_across_identical_requests() {
    // Re-running the full pipeline on an identical window with the same
    // (deterministic) model answer yields identical output: no hidden
    // state survives an invocation.
    let build_window = || {
        let mut window = DataWindow::new();
        for i in 0..10i64 {
            window.push(
                format!("point-{i}"),
                DataPoint {
                    timestamp: Some(100 - i),
                    value: Value::Number(((i as f32) * 1.5).to_bits()),
                    quality: None,
                },
            );
        }
        window
    };
    let run = || {
        let handler = HttpHandler::new();
        let input = handler.prepare_input(&build_window());
        // A deterministic stand-in for the model: echo a fixed function of
        // nothing but the input's presence.
        let batch0: Vec<f32> = (0..PREDICTION_LEN).map(|i| i as f32).collect();
        let output = output_tensor(16, PREDICTION_LEN, &batch0);
        (input, handler.complete_inference(Ok(output)))
    };
    let (input_a, result_a) = run();
    let (input_b, result_b) = run();
    assert_eq!(input_a.data, input_b.data);
    assert_eq!(input_a.dims, input_b.dims);
    let points_a = predicted_values(result_a);
    let points_b = predicted_values(result_b);
    assert_eq!(points_a.len(), points_b.len());
    for (a, b) in points_a.iter().zip(points_b.iter()) {
        assert_eq!(a.timestamp, b.timestamp);
        match (&a.value, &b.value) {
            (Value::Number(x), Value::Number(y)) => assert_eq!(x, y),
            _ => panic!("expected numeric predictions"),
        }
    }
}

#[test]
fn bundled_config_matches_the_model_contract() {
    let cfg = ModelConfig::bundled();
    assert_eq!(cfg.batch_count, 16);
    assert_eq!(cfg.history_len, 128);
    assert_eq!(cfg.prediction_len, 24);
    let handler = HttpHandler::new();
    assert_eq!(handler.config.batch_count, cfg.batch_count);
    assert_eq!(handler.config.history_len, cfg.history_len);
    assert_eq!(handler.config.prediction_len, cfg.prediction_len);
}
