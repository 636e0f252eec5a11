//! Meter counts and raw batch segmentation.

use xtouch_wing::meters::{process_meter_data, wing_get_meter_count, MeterDataError, MeterKind};

#[test]
fn meter_counts() {
    assert_eq!(wing_get_meter_count(MeterKind::Channel(1)), 8);
    assert_eq!(wing_get_meter_count(MeterKind::Aux(2)), 8);
    assert_eq!(wing_get_meter_count(MeterKind::Bus(3)), 8);
    assert_eq!(wing_get_meter_count(MeterKind::Main(4)), 8);
    assert_eq!(wing_get_meter_count(MeterKind::Matrix(5)), 8);
    assert_eq!(wing_get_meter_count(MeterKind::Dca(6)), 4);
    assert_eq!(wing_get_meter_count(MeterKind::Fx(7)), 10);
    assert_eq!(wing_get_meter_count(MeterKind::Source(8)), 1);
    assert_eq!(wing_get_meter_count(MeterKind::Output(9)), 1);
    assert_eq!(wing_get_meter_count(MeterKind::Monitor), 6);
    assert_eq!(wing_get_meter_count(MeterKind::Rta), 120);
    assert_eq!(wing_get_meter_count(MeterKind::Channel2(1)), 11);
    assert_eq!(wing_get_meter_count(MeterKind::Matrix2(2)), 11);
}

#[test]
fn batch_is_split_in_subscription_order() {
    let meters = vec![MeterKind::Dca(1), MeterKind::Source(2)];
    let data: Vec<i16> = vec![10, 20, 30, 40, 50];
    let out = process_meter_data(&meters, &data).unwrap();
    assert_eq!(out, vec![vec![10, 20, 30, 40], vec![50]]);
}

#[test]
fn extra_readings_are_ignored() {
    let meters = vec![MeterKind::Source(1)];
    let data: Vec<i16> = vec![1, 2, 3];
    assert_eq!(process_meter_data(&meters, &data).unwrap(), vec![vec![1]]);
}

#[test]
fn short_batch_is_rejected() {
    let meters = vec![MeterKind::Dca(1), MeterKind::Source(2)];
    let data: Vec<i16> = vec![1, 2, 3, 4];
    assert_eq!(
        process_meter_data(&meters, &data).unwrap_err(),
        MeterDataError::InsufficientData
    );
}

#[test]
fn no_meters_need_no_data() {
    let meters: Vec<MeterKind> = Vec::new();
    let data: Vec<i16> = Vec::new();
    assert_eq!(process_meter_data(&meters, &data).unwrap(), Vec::<Vec<i16>>::new());
}
