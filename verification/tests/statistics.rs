use discrete_event_simulator::statistics::data_point::DataPoint;
use discrete_event_simulator::statistics::stats::Stats;
use discrete_event_simulator::statistics::timeseries::TimeSeries;
use std::collections::BTreeMap;

#[test]
fn create_datapoint() {
    let data_point = DataPoint::new(0, 1, String::from("fake_unit"));
    assert_eq!(data_point.get_timestamp(), 0);
    assert_eq!(data_point.get_value(), 1);
    assert_eq!(data_point.get_unit(), "fake_unit");
}

#[test]
fn create_new_stats() {
    let stats = Stats::new();
    assert_eq!(stats.all_series.len(), 0);
}

#[test]
fn create_add_new_statistic() {
    let mut stats = Stats::new();
    let data_point = DataPoint::new(0, 1, String::from("fake_unit"));
    assert_eq!(stats.all_series.len(), 0);
    stats.add_statistic(data_point, "test".to_string());
    assert_eq!(stats.all_series.len(), 1);
    assert_eq!(stats.all_series[0].series.len(), 1);
    assert_eq!(stats.all_series[0].series, BTreeMap::from([(0, 1)]));
}

#[test]
fn create_new_timeseries() {
    let time_series = TimeSeries::new("test".to_string());
    assert_eq!(time_series.statistic_label, "test");
    assert_eq!(time_series.series.len(), 0);
}

#[test]
fn add_data_point_to_timeseries() {
    let mut time_series = TimeSeries::new("test".to_string());
    let data_point = DataPoint::new(0, 1, String::from("fake_unit"));
    time_series.add_data_point(&data_point);
    assert_eq!(time_series.series.len(), 1);
    assert_eq!(time_series.series.get(&0), Some(&1));
}

#[test]
fn display_simple_timeseries() {
    let mut time_series = TimeSeries::new("test".to_string());
    let data_point = DataPoint::new(0, 1, String::from("fake_unit"));
    time_series.add_data_point(&data_point);
    let expected_output = "====\ntest\n====\nTimestamp | fake_unit\n0         | 1\n";
    assert_eq!(expected_output, time_series.to_text());
}

#[test]
fn display_multiple_datapoints() {
    let mut time_series = TimeSeries::new("test".to_string());
    let data_point = DataPoint::new(0, 1, String::from("fake_unit"));
    let data_point_new = DataPoint::new(20, 2, String::from("fake_unit"));
    time_series.add_data_point(&data_point);
    time_series.add_data_point(&data_point_new);
    let expected_output =
        "====\ntest\n====\nTimestamp | fake_unit\n0         | 1\n20        | 2\n";
    assert_eq!(expected_output, time_series.to_text());
}

#[test]
fn display_pads_no_timestamp_of_nine_places() {
    let mut time_series = TimeSeries::new("wide".to_string());
    time_series.add_data_point(&DataPoint::new(1234567890, 7, String::from("u")));
    assert_eq!(
        "====\nwide\n====\nTimestamp | u\n1234567890 | 7\n",
        time_series.to_text()
    );
}

#[test]
fn new_timeseries_has_unknown_unit() {
    let time_series = TimeSeries::new("test".to_string());
    assert_eq!(time_series.unit, "Unknown");
}

#[test]
fn first_point_fixes_the_unit() {
    let mut time_series = TimeSeries::new("test".to_string());
    time_series.add_data_point(&DataPoint::new(0, 1, String::from("first")));
    time_series.add_data_point(&DataPoint::new(1, 2, String::from("second")));
    assert_eq!(time_series.unit, "first");
}

#[test]
fn later_point_at_same_timestamp_replaces_value() {
    let mut time_series = TimeSeries::new("test".to_string());
    time_series.add_data_point(&DataPoint::new(5, 1, String::from("u")));
    time_series.add_data_point(&DataPoint::new(5, 9, String::from("u")));
    assert_eq!(time_series.series.len(), 1);
    assert_eq!(time_series.get_last_value(), 9);
}

#[test]
fn last_value_is_the_value_at_the_greatest_timestamp() {
    let mut time_series = TimeSeries::new("test".to_string());
    time_series.add_data_point(&DataPoint::new(20, 2, String::from("u")));
    time_series.add_data_point(&DataPoint::new(0, 1, String::from("u")));
    time_series.add_data_point(&DataPoint::new(7, 5, String::from("u")));
    assert_eq!(time_series.get_last_value(), 2);
}

#[test]
fn points_come_in_ascending_order() {
    let mut time_series = TimeSeries::new("test".to_string());
    time_series.add_data_point(&DataPoint::new(20, 2, String::from("u")));
    time_series.add_data_point(&DataPoint::new(0, 1, String::from("u")));
    time_series.add_data_point(&DataPoint::new(7, 5, String::from("u")));
    assert_eq!(time_series.points(), vec![(0, 1), (7, 5), (20, 2)]);
}

#[test]
fn add_statistic_to_existing_series() {
    let mut stats = Stats::new();
    stats.add_statistic(DataPoint::new(0, 1, String::from("u")), "a".to_string());
    stats.add_statistic(DataPoint::new(0, 3, String::from("v")), "b".to_string());
    stats.add_statistic(DataPoint::new(1, 2, String::from("u")), "a".to_string());
    assert_eq!(stats.all_series.len(), 2);
    assert_eq!(stats.all_series[0].statistic_label, "a");
    assert_eq!(stats.all_series[0].series, BTreeMap::from([(0, 1), (1, 2)]));
    assert_eq!(stats.all_series[1].statistic_label, "b");
    assert_eq!(stats.all_series[1].series, BTreeMap::from([(0, 3)]));
    assert_eq!(stats.all_series[1].unit, "v");
}

#[test]
fn get_series_by_name_finds_exact_label_only() {
    let mut stats = Stats::new();
    stats.add_statistic(DataPoint::new(0, 1, String::from("u")), "my_test_statistic".to_string());
    assert!(stats.get_series_by_name("my_test_statistic".to_string()).is_some());
    assert!(stats.get_series_by_name("incorrect label name".to_string()).is_none());
    assert!(stats.get_series_by_name("my_test".to_string()).is_none());
}

#[test]
fn default_stats_is_empty() {
    let stats = Stats::default();
    assert_eq!(stats.all_series.len(), 0);
}

#[test]
fn find_series_gives_the_position_of_the_label() {
    let mut stats = Stats::new();
    stats.add_statistic(DataPoint::new(0, 1, String::from("u")), "a".to_string());
    stats.add_statistic(DataPoint::new(0, 1, String::from("u")), "b".to_string());
    assert_eq!(stats.find_series(&"a".to_string()), 0);
    assert_eq!(stats.find_series(&"b".to_string()), 1);
    assert_eq!(stats.find_series(&"c".to_string()), 2);
}
