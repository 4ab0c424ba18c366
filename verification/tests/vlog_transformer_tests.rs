use tlcfi_assimilator::name_mapping::NameMapping;
use tlcfi_assimilator::vlog_transformer::{
    from_tlcfi_time_to_vlog_time, get_time_reference, get_vlog_info, insert_vlog_statuses,
    to_vlog, transform_detector_changes, transform_signal_changes, DateTime,
};
use tlcfi_assimilator::{EncodeError, SignalState, TimestampedChanges};

const TEST_TLC_NAME: &str = "test";

fn get_test_start_date_time() -> DateTime {
    DateTime { year: 2021, month: 12, day: 15, hour: 11, minute: 0, second: 0, millisecond: 0 }
}

fn get_test_vlog_signal_name_mapping() -> NameMapping {
    let mut mapping = NameMapping::new();
    let pairs: [(&str, i16); 19] = [
        ("01", 0),
        ("02", 1),
        ("03", 2),
        ("04", 3),
        ("05", 4),
        ("06", 5),
        ("07", 6),
        ("08", 7),
        ("09", 8),
        ("10", 9),
        ("11", 10),
        ("12", 11),
        ("13", 12),
        ("14", 13),
        ("15", 14),
        ("16", 15),
        ("17", 16),
        ("18", 17),
        ("71", 18),
    ];
    for (name, id) in pairs {
        mapping.insert(name.to_string(), id);
    }
    mapping
}

fn get_test_vlog_detector_name_mapping() -> NameMapping {
    let mut mapping = NameMapping::new();
    mapping.insert("D712".to_string(), 4);
    mapping.insert("D713".to_string(), 2);
    mapping
}

#[test]
fn get_vlog_info_should_transform_tlc_name_into_vlog_hex_message() {
    let expected_vlog_info = "040300007465737420202020202020202020202020202020";
    let actual_vlog_info = get_vlog_info(TEST_TLC_NAME);
    assert_eq!(actual_vlog_info, expected_vlog_info);
}

#[test]
fn get_time_reference_should_create_a_time_reference_message_based_on_the_ms_since_beginning() {
    let expected_time_reference = "012021121511000520";
    let actual_time_reference = get_time_reference(&get_test_start_date_time(), 5212).unwrap();
    assert_eq!(actual_time_reference, expected_time_reference);
}

#[test]
fn from_tlcfi_time_to_vlog_time_should_transform_ms_into_ds() {
    let ms = 3400;
    let ds = 34;
    assert_eq!(from_tlcfi_time_to_vlog_time(ms), ds);
}

#[test]
fn transform_signal_changes_should_create_a_vlog_signal_change_message() {
    let expected_signal_change_message = vec!["0E00320A021200"];
    let detector_changes = TimestampedChanges {
        ms_from_beginning: 530,
        signal_names: vec!["11".to_string(), "71".to_string()],
        signal_states: vec![SignalState::Amber, SignalState::Red],
        ..Default::default()
    };

    let actual_signal_change_message = transform_signal_changes(
        &detector_changes,
        &get_test_vlog_signal_name_mapping(),
        180,
    )
    .unwrap();

    assert_eq!(actual_signal_change_message, expected_signal_change_message);
}

#[test]
fn transforming_more_than_40_bits_of_changes_should_make_multiple_messages() {
    let expected_messages = vec![
        "0E003A0000010002000300040005000600070008000900",
        "0E00380A000B000C000D000E000F0010001100",
    ];
    let detector_changes = TimestampedChanges {
        ms_from_beginning: 530,
        signal_names: vec![
            "01".to_string(),
            "02".to_string(),
            "03".to_string(),
            "04".to_string(),
            "05".to_string(),
            "06".to_string(),
            "07".to_string(),
            "08".to_string(),
            "09".to_string(),
            "10".to_string(),
            "11".to_string(),
            "12".to_string(),
            "13".to_string(),
            "14".to_string(),
            "15".to_string(),
            "16".to_string(),
            "17".to_string(),
            "18".to_string(),
        ],
        signal_states: vec![
            SignalState::Red,
            SignalState::Red,
            SignalState::Red,
            SignalState::Red,
            SignalState::Red,
            SignalState::Red,
            SignalState::Red,
            SignalState::Red,
            SignalState::Red,
            SignalState::Red,
            SignalState::Red,
            SignalState::Red,
            SignalState::Red,
            SignalState::Red,
            SignalState::Red,
            SignalState::Red,
            SignalState::Red,
            SignalState::Red,
        ],
        ..Default::default()
    };

    let actual_signal_change_message = transform_signal_changes(
        &detector_changes,
        &get_test_vlog_signal_name_mapping(),
        180,
    )
    .unwrap();

    assert_eq!(actual_signal_change_message, expected_messages);
}

#[test]
fn transform_detector_changes_should_create_a_vlog_sensor_change_message() {
    let expected_sensor_change_message = "06005202000401";
    let detector_changes = TimestampedChanges {
        ms_from_beginning: 640,
        detector_names: vec!["D712".to_string(), "D713".to_string()],
        detector_states: vec![
            tlcfi_assimilator::DetectorState::OCCUPIED,
            tlcfi_assimilator::DetectorState::FREE,
        ],
        ..Default::default()
    };

    let actual_sensor_change_message = transform_detector_changes(
        &detector_changes,
        &get_test_vlog_detector_name_mapping(),
        80,
    )
    .unwrap();

    assert_eq!(actual_sensor_change_message, expected_sensor_change_message);
}

#[test]
fn splitting_exactly_ten_entries_yields_a_single_full_record() {
    let changes = TimestampedChanges {
        ms_from_beginning: 530,
        signal_names: vec![
            "01".to_string(),
            "02".to_string(),
            "03".to_string(),
            "04".to_string(),
            "05".to_string(),
            "06".to_string(),
            "07".to_string(),
            "08".to_string(),
            "09".to_string(),
            "10".to_string(),
        ],
        signal_states: vec![SignalState::Red; 10],
        ..Default::default()
    };

    let messages =
        transform_signal_changes(&changes, &get_test_vlog_signal_name_mapping(), 180).unwrap();

    // the cap is ten entries: a set that does not exceed it stays one record
    assert_eq!(messages, vec!["0E003A0000010002000300040005000600070008000900"]);
}

#[test]
fn eleven_entries_split_into_a_full_record_and_a_remainder() {
    let changes = TimestampedChanges {
        ms_from_beginning: 530,
        signal_names: vec![
            "01".to_string(),
            "02".to_string(),
            "03".to_string(),
            "04".to_string(),
            "05".to_string(),
            "06".to_string(),
            "07".to_string(),
            "08".to_string(),
            "09".to_string(),
            "10".to_string(),
            "11".to_string(),
        ],
        signal_states: vec![SignalState::Red; 11],
        ..Default::default()
    };

    let messages =
        transform_signal_changes(&changes, &get_test_vlog_signal_name_mapping(), 180).unwrap();

    assert_eq!(messages, vec!["0E003A0000010002000300040005000600070008000900", "0E00310A00"]);
}

#[test]
fn signal_entries_are_sorted_by_mapped_id_regardless_of_name_order() {
    let changes = TimestampedChanges {
        ms_from_beginning: 100,
        signal_names: vec!["71".to_string(), "02".to_string(), "11".to_string()],
        signal_states: vec![SignalState::Green, SignalState::Dark, SignalState::Amber],
        ..Default::default()
    };

    let messages =
        transform_signal_changes(&changes, &get_test_vlog_signal_name_mapping(), 0).unwrap();

    // ids: 71 -> 18 (0x12), 02 -> 1, 11 -> 10 (0x0A); ascending: 01, 0A, 12
    assert_eq!(messages, vec!["0E001301040A021201"]);
}

#[test]
fn unknown_signal_name_is_a_fatal_unknown_name_error() {
    let changes = TimestampedChanges {
        ms_from_beginning: 100,
        signal_names: vec!["nope".to_string()],
        signal_states: vec![SignalState::Red],
        ..Default::default()
    };

    let result = transform_signal_changes(&changes, &get_test_vlog_signal_name_mapping(), 0);

    assert_eq!(result, Err(EncodeError::UnknownName));
}

#[test]
fn delta_time_that_does_not_fit_three_hex_digits_is_a_fatal_error() {
    let changes = TimestampedChanges {
        ms_from_beginning: 409_600,
        signal_names: vec!["01".to_string()],
        signal_states: vec![SignalState::Red],
        ..Default::default()
    };

    let result = transform_signal_changes(&changes, &get_test_vlog_signal_name_mapping(), 0);

    assert_eq!(result, Err(EncodeError::DeltaOverflow));
}

#[test]
fn change_set_older_than_the_last_time_reference_is_a_fatal_error() {
    let changes = TimestampedChanges {
        ms_from_beginning: 100,
        detector_names: vec!["D712".to_string()],
        detector_states: vec![tlcfi_assimilator::DetectorState::FREE],
        ..Default::default()
    };

    let result = transform_detector_changes(&changes, &get_test_vlog_detector_name_mapping(), 500);

    assert_eq!(result, Err(EncodeError::DeltaOverflow));
}

#[test]
fn detector_record_with_more_than_fifteen_entries_is_a_fatal_error() {
    let mut names = Vec::new();
    let mut states = Vec::new();
    for i in 0..16 {
        names.push(format!("D{}", i));
        states.push(tlcfi_assimilator::DetectorState::FREE);
    }
    let changes = TimestampedChanges {
        ms_from_beginning: 100,
        detector_names: names,
        detector_states: states,
        ..Default::default()
    };

    let result = transform_detector_changes(&changes, &get_test_vlog_detector_name_mapping(), 0);

    assert_eq!(result, Err(EncodeError::TooManyEntries));
}

#[test]
fn time_reference_for_an_impossible_start_date_is_a_fatal_error() {
    let bad_start =
        DateTime { year: 2021, month: 13, day: 1, hour: 0, minute: 0, second: 0, millisecond: 0 };

    let result = get_time_reference(&bad_start, 0);

    assert_eq!(result, Err(EncodeError::TimeOutOfRange));
}

#[test]
fn time_reference_at_zero_elapsed_encodes_the_start_moment_itself() {
    let actual = get_time_reference(&get_test_start_date_time(), 0).unwrap();
    assert_eq!(actual, "012021121511000000");
}

#[test]
fn vlog_info_truncates_names_longer_than_twenty_units() {
    let long_name = "abcdefghijklmnopqrstuvwxyz";
    let info = get_vlog_info(long_name);
    // type + version + exactly 20 code units of 2 hex digits each
    assert_eq!(info.len(), 2 + 6 + 40);
    assert_eq!(&info[..8], "04030000");
    // 'a'..'t' are the first twenty units; 'u' and beyond are cut off
    assert!(info.ends_with("74"));
}

#[test]
fn insert_vlog_statuses_builds_time_reference_then_identification() {
    let statuses = insert_vlog_statuses(&get_test_start_date_time(), TEST_TLC_NAME).unwrap();
    assert_eq!(
        statuses,
        vec![
            "012021121511000000".to_string(),
            "040300007465737420202020202020202020202020202020".to_string(),
        ]
    );
}

#[test]
fn to_vlog_emits_header_then_change_records_in_order() {
    let changes = vec![
        TimestampedChanges {
            ms_from_beginning: 530,
            signal_names: vec!["11".to_string(), "71".to_string()],
            signal_states: vec![SignalState::Amber, SignalState::Red],
            ..Default::default()
        },
        TimestampedChanges {
            ms_from_beginning: 640,
            detector_names: vec!["D712".to_string(), "D713".to_string()],
            detector_states: vec![
                tlcfi_assimilator::DetectorState::OCCUPIED,
                tlcfi_assimilator::DetectorState::FREE,
            ],
            ..Default::default()
        },
    ];

    let messages = to_vlog(
        changes,
        &get_test_start_date_time(),
        &get_test_vlog_signal_name_mapping(),
        &get_test_vlog_detector_name_mapping(),
        TEST_TLC_NAME,
    )
    .unwrap();

    assert_eq!(
        messages,
        vec![
            "012021121511000000".to_string(),
            "040300007465737420202020202020202020202020202020".to_string(),
            "0E00520A021200".to_string(),
            "06006202000401".to_string(),
        ]
    );
}

#[test]
fn to_vlog_inserts_a_fresh_time_reference_after_five_minutes() {
    let changes = vec![
        TimestampedChanges {
            ms_from_beginning: 100,
            detector_names: vec!["D712".to_string()],
            detector_states: vec![tlcfi_assimilator::DetectorState::OCCUPIED],
            ..Default::default()
        },
        TimestampedChanges {
            ms_from_beginning: 300_100,
            detector_names: vec!["D712".to_string()],
            detector_states: vec![tlcfi_assimilator::DetectorState::FREE],
            ..Default::default()
        },
    ];

    let messages = to_vlog(
        changes,
        &get_test_start_date_time(),
        &get_test_vlog_signal_name_mapping(),
        &get_test_vlog_detector_name_mapping(),
        TEST_TLC_NAME,
    )
    .unwrap();

    assert_eq!(
        messages,
        vec![
            // header at the start moment
            "012021121511000000".to_string(),
            "040300007465737420202020202020202020202020202020".to_string(),
            // first detector change, 1 decisecond after the start reference
            "0600110401".to_string(),
            // fresh reference at 11:05:00.100, then the change with delta zero
            "012021121511050010".to_string(),
            "0600010400".to_string(),
        ]
    );
}

#[test]
fn rerunning_the_pipeline_on_identical_input_yields_identical_output() {
    let build_input = || {
        vec![
            TimestampedChanges {
                ms_from_beginning: 530,
                signal_names: vec!["02".to_string(), "01".to_string()],
                signal_states: vec![SignalState::Green, SignalState::Red],
                ..Default::default()
            },
            TimestampedChanges {
                ms_from_beginning: 640,
                detector_names: vec!["D713".to_string()],
                detector_states: vec![tlcfi_assimilator::DetectorState::OCCUPIED],
                ..Default::default()
            },
        ]
    };

    let first = to_vlog(
        build_input(),
        &get_test_start_date_time(),
        &get_test_vlog_signal_name_mapping(),
        &get_test_vlog_detector_name_mapping(),
        TEST_TLC_NAME,
    )
    .unwrap();
    let second = to_vlog(
        build_input(),
        &get_test_start_date_time(),
        &get_test_vlog_signal_name_mapping(),
        &get_test_vlog_detector_name_mapping(),
        TEST_TLC_NAME,
    )
    .unwrap();

    assert_eq!(first, second);
}

#[test]
fn name_mapping_lookup_returns_inserted_ids_and_replaces_duplicates() {
    let mut mapping = NameMapping::new();
    mapping.insert("a".to_string(), 7);
    mapping.insert("b".to_string(), 9);
    assert_eq!(mapping.lookup("a"), Some(7));
    assert_eq!(mapping.lookup("b"), Some(9));
    assert_eq!(mapping.lookup("c"), None);
    mapping.insert("a".to_string(), 11);
    assert_eq!(mapping.lookup("a"), Some(11));
}
