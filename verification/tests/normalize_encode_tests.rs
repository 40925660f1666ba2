use forecast_pipeline::data::{DataPoint, DataWindow, Value};
use forecast_pipeline::encode::encode;
use forecast_pipeline::normalize::normalize;
use forecast_pipeline::pipeline::{HttpHandler, HISTORY_LEN, NUM_BATCHES};

fn numeric_point(timestamp: Option<i64>, value: f32) -> DataPoint {
    DataPoint { timestamp, value: Value::Number(value.to_bits()), quality: None }
}

fn text_point(timestamp: Option<i64>, text: &str) -> DataPoint {
    DataPoint { timestamp, value: Value::Text(String::from(text)), quality: None }
}

fn window_of(points: Vec<DataPoint>) -> DataWindow {
    let mut window = DataWindow::new();
    for (i, point) in points.into_iter().enumerate() {
        window.push(format!("key-{i}"), point);
    }
    window
}

fn floats(series: &[u32]) -> Vec<f32> {
    series.iter().map(|bits| f32::from_bits(*bits)).collect()
}

#[test]
fn normalize_sorts_ascending_by_timestamp() {
    let window = window_of(vec![
        numeric_point(Some(30), 3.0),
        numeric_point(Some(10), 1.0),
        numeric_point(Some(20), 2.0),
    ]);
    let series = normalize(&window);
    assert_eq!(floats(&series), vec![1.0, 2.0, 3.0]);
}

#[test]
fn normalize_absent_timestamp_comes_first() {
    let window = window_of(vec![
        numeric_point(Some(-5), 7.5),
        numeric_point(None, 0.25),
        numeric_point(Some(-9), -1.5),
    ]);
    let series = normalize(&window);
    assert_eq!(floats(&series), vec![0.25, -1.5, 7.5]);
}

#[test]
fn normalize_equal_timestamps_keep_window_order() {
    let window = window_of(vec![
        numeric_point(Some(1), 10.0),
        numeric_point(Some(1), 20.0),
        numeric_point(Some(0), 5.0),
        numeric_point(Some(1), 30.0),
    ]);
    let series = normalize(&window);
    assert_eq!(floats(&series), vec![5.0, 10.0, 20.0, 30.0]);
}

#[test]
fn normalize_drops_string_values_without_gaps() {
    // Scenario: five numeric and three string observations; the strings
    // are silently ignored and exactly the five numbers survive.
    let window = window_of(vec![
        numeric_point(Some(5), 50.0),
        text_point(Some(1), "start"),
        numeric_point(Some(4), 40.0),
        numeric_point(Some(3), 30.0),
        text_point(Some(6), "end"),
        numeric_point(Some(2), 20.0),
        text_point(None, "unstamped"),
        numeric_point(Some(1), 10.0),
    ]);
    let series = normalize(&window);
    assert_eq!(floats(&series), vec![10.0, 20.0, 30.0, 40.0, 50.0]);
}

#[test]
fn normalize_empty_window_yields_empty_series() {
    let window = DataWindow::new();
    let series = normalize(&window);
    assert!(series.is_empty());
}

#[test]
fn encode_pads_short_series_with_zeros_on_the_right() {
    let series: Vec<u32> = vec![1.0f32.to_bits(), 2.0f32.to_bits()];
    let tensor = encode(&series, 4, 2);
    assert_eq!(tensor.dims, vec![2, 4, 1]);
    assert_eq!(floats(&tensor.data), vec![1.0, 2.0, 0.0, 0.0, 1.0, 2.0, 0.0, 0.0]);
}

#[test]
fn encode_truncates_long_series_at_the_end() {
    // The most recent values beyond the history length are discarded.
    let series: Vec<u32> = (1..=6).map(|i| (i as f32).to_bits()).collect();
    let tensor = encode(&series, 4, 1);
    assert_eq!(floats(&tensor.data), vec![1.0, 2.0, 3.0, 4.0]);
}

#[test]
fn encode_length_is_history_times_batches_and_slices_are_identical() {
    let series: Vec<u32> = vec![2.5f32.to_bits(), (-1.0f32).to_bits(), 0.5f32.to_bits()];
    let history_len = 5;
    let batch_count = 7;
    let tensor = encode(&series, history_len, batch_count);
    assert_eq!(tensor.data.len(), history_len * batch_count);
    let first = &tensor.data[0..history_len];
    for b in 0..batch_count {
        assert_eq!(&tensor.data[b * history_len..(b + 1) * history_len], first);
    }
}

#[test]
fn scenario_one_hundred_thirty_points_truncate_to_first_128() {
    // 130 numeric points timestamped 1..=130: normalize yields all 130 in
    // ascending order, and encoding with history length 128 keeps the
    // first 128, dropping the 2 most recent; 16 batches make 2048 values.
    let mut points = Vec::new();
    for i in (1..=130).rev() {
        points.push(numeric_point(Some(i), i as f32));
    }
    let window = window_of(points);
    let series = normalize(&window);
    assert_eq!(series.len(), 130);
    for (i, value) in floats(&series).into_iter().enumerate() {
        assert_eq!(value, (i + 1) as f32);
    }

    let tensor = encode(&series, HISTORY_LEN, NUM_BATCHES);
    assert_eq!(tensor.data.len(), 128 * 16);
    assert_eq!(tensor.dims, vec![16, 128, 1]);
    let values = floats(&tensor.data);
    for b in 0..16 {
        for k in 0..128 {
            assert_eq!(values[b * 128 + k], (k + 1) as f32);
        }
    }
}

#[test]
fn scenario_empty_window_encodes_to_all_zeros() {
    // A window with no points still encodes: the bundled shape [16, 128, 1]
    // filled with zeros.
    let handler = HttpHandler::new();
    let tensor = handler.prepare_input(&DataWindow::new());
    assert_eq!(tensor.dims, vec![16, 128, 1]);
    assert_eq!(tensor.data.len(), 16 * 128);
    assert!(tensor.data.iter().all(|bits| f32::from_bits(*bits) == 0.0));
}

#[test]
fn all_string_window_encodes_to_all_zeros() {
    let window = window_of(vec![
        text_point(Some(1), "a"),
        text_point(Some(2), "b"),
    ]);
    let series = normalize(&window);
    assert!(series.is_empty());
    let tensor = encode(&series, 3, 2);
    assert_eq!(floats(&tensor.data), vec![0.0; 6]);
}
