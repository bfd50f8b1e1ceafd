use std::sync::Arc;
use std::time::{Duration, Instant};

use json_bench::measurement::Measurement;
use json_bench::measurement_types::MeasurementType;
use json_bench::randomizer::{get_random_number_in_range, get_random_value_from_array, get_random_value_from_array_as_mut};
use json_bench::reporter::{Report, ReportError};

fn busy_wait(d: Duration) {
    let start = Instant::now();
    while start.elapsed() < d {}
}

#[test]
fn measurement_measure_sleep() {
    let mut measurement = Measurement::default();
    busy_wait(Duration::from_millis(1000));
    measurement.set_finish_time();
    let result = measurement.get_duration();

    match result {
        Some(duration) => {
            let duration_millis = duration.as_millis();
            assert!((1000..2000).contains(&duration_millis), "duration isn't in range: {}", duration_millis);
        }
        None => panic!("No measurement was found"),
    }
}

#[test]
#[should_panic]
fn must_set_finish_duration() {
    let measurement = Measurement::default();
    let result = measurement.get_duration();

    match result {
        Some(duration) => {
            let duration_millis = duration.as_millis();
            assert!(duration_millis == 0, "duration isn't in range: {}", duration_millis);
        }
        None => panic!("No measurement was found"),
    }
}

#[test]
fn reporter_measure_sleep() {
    let mut report = Report::new();
    let test_case = String::from("Test 1");
    let json_name = Arc::new(String::from("Json 1"));
    let measurement_type = MeasurementType::GenerateJson;

    report.measure(test_case.clone(), Arc::clone(&json_name), measurement_type, || {
        busy_wait(Duration::from_millis(1000));
    });

    let measurement = report
        .get_measure(&test_case, &json_name, &measurement_type)
        .expect("No duration for measurement type");
    let duration = measurement.get_duration().expect("Measurement haven't finished");
    let duration = duration.as_millis();
    assert!((1000..2000).contains(&duration), "duration isn't in range: {}", duration);
}

#[test]
fn finish_measure_errors() {
    let mut report = Report::new();
    let json = Arc::new(String::from("doc"));
    assert_eq!(
        report.finish_measure("Test 1", Arc::clone(&json), &MeasurementType::Total),
        Err(ReportError::TestCountNotFound)
    );
    report.start_measure(String::from("Test 1"), Arc::clone(&json), MeasurementType::Total);
    assert_eq!(
        report.finish_measure("Test 1", Arc::new(String::from("other")), &MeasurementType::Total),
        Err(ReportError::JsonNameNotFound)
    );
    assert_eq!(
        report.finish_measure("Test 1", Arc::clone(&json), &MeasurementType::SerializeJson),
        Err(ReportError::MeasurementTypeNotFound)
    );
    assert!(report.get_measure("Test 1", &json, &MeasurementType::Total).unwrap().get_duration().is_none());
    assert_eq!(report.finish_measure("Test 1", Arc::clone(&json), &MeasurementType::Total), Ok(()));
    assert!(report.get_measure("Test 1", &json, &MeasurementType::Total).unwrap().get_duration().is_some());
}

#[test]
fn start_measure_replaces_the_same_key() {
    let mut report = Report::new();
    let json = Arc::new(String::from("doc"));
    report.start_measure(String::from("Test 1"), Arc::clone(&json), MeasurementType::Total);
    report.finish_measure("Test 1", Arc::clone(&json), &MeasurementType::Total).unwrap();
    report.start_measure(String::from("Test 2"), Arc::clone(&json), MeasurementType::Total);
    report.start_measure(String::from("Test 1"), Arc::clone(&json), MeasurementType::Total);
    assert_eq!(report.get_measures().len(), 2);
    assert_eq!(report.get_measures()[0].test_count, "Test 1");
    assert!(report.get_measure("Test 1", &json, &MeasurementType::Total).unwrap().get_duration().is_none());
    assert!(report.get_measure("Test 3", &json, &MeasurementType::Total).is_none());
}

#[test]
fn all_measurement_types() {
    let all = MeasurementType::all();
    assert_eq!(all.len(), 7);
    assert_eq!(all[0], MeasurementType::GenerateJson);
    assert_eq!(all[6], MeasurementType::TotalIncludeContextSwitch);
}

#[test]
fn random_picks_stay_in_range() {
    let values = [10, 20, 30];
    for _ in 0..100 {
        let r = get_random_number_in_range(3, 7);
        assert!((3..7).contains(&r));
        assert!(values.contains(get_random_value_from_array(&values)));
    }
    assert_eq!(get_random_number_in_range(5, 6), 5);
    let mut single = [1];
    *get_random_value_from_array_as_mut(&mut single) += 41;
    assert_eq!(single, [42]);
}
