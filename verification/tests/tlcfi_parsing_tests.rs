use tlcfi_assimilator::tlcfi_parsing::{
    find_first_tick, find_ms_from_beginning, parse_string, ClockState,
};
use tlcfi_assimilator::{DecodeError, DetectorState, SignalState, TimestampedChanges};

const TEST_DETECTOR_JSON: &str = "{\"jsonrpc\":\"2.0\",\"method\":\"UpdateState\",\"params\":{\"ticks\":4087808637,\"update\":[{\"objects\":{\"ids\":[\"D713\"],\"type\":4},\"states\":[{\"state\":1}]}]}}";

const TEST_SIGNAL_JSON: &str = "{\"jsonrpc\":\"2.0\",\"method\":\"UpdateState\",\"params\":{\"ticks\":4087808851,\"update\":[{\"objects\":{\"ids\":[\"71\"],\"type\":3},\"states\":[{\"state\":6}]}]}}";

const FIRST_TICK: u64 = 4087807987;

fn get_test_data() -> ClockState {
    ClockState { first_tick: Some(FIRST_TICK), previous_tick: Some(FIRST_TICK), bonus_ms: Some(0) }
}

#[test]
fn first_tick_should_be_tick_of_the_message() {
    assert_eq!(find_first_tick(TEST_DETECTOR_JSON), Some(4087808637));
}

#[test]
fn detector_change_jsons_should_be_parsed_properly() {
    let expected_changes = vec![TimestampedChanges {
        ms_from_beginning: 650,
        detector_names: vec!["D713".to_string()],
        detector_states: vec![DetectorState::OCCUPIED],
        ..Default::default()
    }];

    assert_eq!(parse_string(TEST_DETECTOR_JSON, &mut get_test_data()), Ok(expected_changes));
}

#[test]
fn signal_change_jsons_should_be_parsed_properly() {
    let expected_changes = vec![TimestampedChanges {
        ms_from_beginning: 864,
        signal_names: vec!["71".to_string()],
        signal_states: vec![SignalState::Green],
        ..Default::default()
    }];

    assert_eq!(parse_string(TEST_SIGNAL_JSON, &mut get_test_data()), Ok(expected_changes));
}

#[test]
fn reset_ticks() {
    let tick = 29224;
    let initial_tick = 293219704;
    let previous_tick = 326765322;
    let mut test_data = ClockState {
        first_tick: Some(initial_tick),
        previous_tick: Some(previous_tick),
        bonus_ms: None,
    };

    let ms_from_beginning = find_ms_from_beginning(&mut test_data, tick).unwrap();

    println!(" What {:?}", ms_from_beginning);
    assert_ne!(0, ms_from_beginning);
    assert_eq!(33545618, ms_from_beginning);
}

// tick reset: Tick in message (29224) wasn't bigger than initial tick (293219704)!
// tick ovrfl: previous tick was close to 4294967295
#[test]
fn a_message_with_a_tick_smaller_than_the_initial_tick_should_overwrite_the_initial_tick_to_handle_an_overflow(
) {
    let tick = 12;
    let big_first_tick = 4294966895;
    let previous_tick = 4294967095;
    let mut test_data = ClockState {
        first_tick: Some(big_first_tick),
        previous_tick: Some(previous_tick),
        bonus_ms: None,
    };

    let ms_from_beginning = find_ms_from_beginning(&mut test_data, tick).unwrap();

    assert_ne!(0, ms_from_beginning);
    assert_eq!(412, ms_from_beginning);
}

#[test]
fn the_first_tick_processed_after_the_transition_yields_zero() {
    let mut clock = ClockState::new();
    clock.set_first_tick(4087807987);
    assert_eq!(find_ms_from_beginning(&mut clock, 4087807987), Ok(0));
}

#[test]
fn normalizing_before_a_first_tick_is_set_is_a_fatal_error() {
    let mut clock = ClockState::new();
    assert_eq!(find_ms_from_beginning(&mut clock, 42), Err(DecodeError::NormalizeBeforeInit));
}

#[test]
fn every_parsed_change_set_pairs_each_name_with_one_state() {
    let json = "{\"params\":{\"ticks\":4087808000,\"update\":[{\"objects\":{\"ids\":[\"D1\",\"D2\",\"D3\"],\"type\":4},\"states\":[{\"state\":1},{\"state\":null},{\"state\":0}]}]}}";
    let changes = parse_string(json, &mut get_test_data()).unwrap();
    assert_eq!(changes.len(), 1);
    // the null (no-change) entry is dropped, and names stay paired with states
    assert_eq!(changes[0].detector_names, vec!["D1".to_string(), "D3".to_string()]);
    assert_eq!(changes[0].detector_states, vec![DetectorState::OCCUPIED, DetectorState::FREE]);
    assert_eq!(changes[0].detector_names.len(), changes[0].detector_states.len());
    assert_eq!(changes[0].signal_names.len(), changes[0].signal_states.len());
}

#[test]
fn an_update_without_a_tick_is_missing_tick() {
    let json = "{\"params\":{\"update\":[{\"objects\":{\"ids\":[\"71\"],\"type\":3},\"states\":[{\"state\":6}]}]}}";
    assert_eq!(parse_string(json, &mut get_test_data()), Err(DecodeError::MissingTick));
}

#[test]
fn mismatched_name_and_state_arrays_are_a_length_mismatch() {
    let json = "{\"params\":{\"ticks\":4087808000,\"update\":[{\"objects\":{\"ids\":[\"71\",\"72\"],\"type\":3},\"states\":[{\"state\":6}]}]}}";
    assert_eq!(parse_string(json, &mut get_test_data()), Err(DecodeError::LengthMismatch));
}

#[test]
fn a_state_that_is_neither_integer_nor_null_is_malformed() {
    let json = "{\"params\":{\"ticks\":4087808000,\"update\":[{\"objects\":{\"ids\":[\"71\"],\"type\":3},\"states\":[{\"state\":\"six\"}]}]}}";
    assert_eq!(parse_string(json, &mut get_test_data()), Err(DecodeError::MalformedState));
}

#[test]
fn a_signal_code_outside_the_closed_table_is_unknown_state_code() {
    let json = "{\"params\":{\"ticks\":4087808000,\"update\":[{\"objects\":{\"ids\":[\"71\"],\"type\":3},\"states\":[{\"state\":4}]}]}}";
    assert_eq!(parse_string(json, &mut get_test_data()), Err(DecodeError::UnknownStateCode));
}

#[test]
fn an_unsupported_message_type_yields_no_changes() {
    let json = "{\"params\":{\"ticks\":4087808000,\"update\":[{\"objects\":{\"ids\":[\"71\"],\"type\":7},\"states\":[{\"state\":6}]}]}}";
    let mut clock = get_test_data();
    let before = clock;
    assert_eq!(parse_string(json, &mut clock), Ok(Vec::new()));
    // an unsupported update is skipped entirely: the clock does not move
    assert_eq!(clock, before);
}

#[test]
fn unparseable_text_is_rejected_and_leaves_the_clock_unchanged() {
    let mut clock = get_test_data();
    let before = clock;
    assert_eq!(parse_string("not json", &mut clock), Err(DecodeError::MalformedState));
    assert_eq!(clock, before);
}

#[test]
fn a_tick_written_in_scientific_notation_is_missing_tick() {
    // parses as a number with a hugely negative exponent; it is not an
    // integer, so the tick is treated as missing rather than converted
    let json = "{\"params\":{\"ticks\":0.00000000000000000001e-32767,\"update\":[{\"objects\":{\"ids\":[\"71\"],\"type\":3},\"states\":[{\"state\":6}]}]}}";
    assert_eq!(parse_string(json, &mut get_test_data()), Err(DecodeError::MissingTick));
}

#[test]
fn a_fractionally_written_tick_is_missing_tick() {
    let json = "{\"params\":{\"ticks\":650.5,\"update\":[{\"objects\":{\"ids\":[\"71\"],\"type\":3},\"states\":[{\"state\":6}]}]}}";
    assert_eq!(parse_string(json, &mut get_test_data()), Err(DecodeError::MissingTick));
}

#[test]
fn a_pathologically_long_number_token_is_rejected_before_parsing() {
    // a fraction of tens of thousands of digits would drive the json
    // parser's 16-bit decimal exponent out of range; the digit-run guard
    // rejects the text without parsing it
    let mut json = String::from("{\"params\":{\"ticks\":0.");
    for _ in 0..33000 {
        json.push('0');
    }
    json.push_str(",\"update\":[]}}");
    let mut clock = get_test_data();
    let before = clock;
    assert_eq!(parse_string(&json, &mut clock), Err(DecodeError::MalformedState));
    assert_eq!(clock, before);
    assert_eq!(find_first_tick(&json), None);
}

#[test]
fn any_digit_run_beyond_the_guard_bound_is_rejected() {
    // the guard is textual: a run of more than a thousand digits anywhere
    // in the document is rejected, even inside a string value
    let mut name = String::new();
    for _ in 0..1001 {
        name.push('7');
    }
    let json = format!(
        "{{\"params\":{{\"ticks\":4087808000,\"update\":[{{\"objects\":{{\"ids\":[\"{}\"],\"type\":4}},\"states\":[{{\"state\":1}}]}}]}}}}",
        name
    );
    assert_eq!(parse_string(&json, &mut get_test_data()), Err(DecodeError::MalformedState));
}

#[test]
fn an_absent_name_array_yields_no_changes() {
    let json = "{\"params\":{\"ticks\":4087808000,\"update\":[{\"objects\":{\"type\":4}}]}}";
    assert_eq!(parse_string(json, &mut get_test_data()), Ok(Vec::new()));
}

#[test]
fn all_states_reported_unchanged_yield_no_changes() {
    let json = "{\"params\":{\"ticks\":4087808000,\"update\":[{\"objects\":{\"ids\":[\"D1\"],\"type\":4},\"states\":[{\"state\":null}]}]}}";
    assert_eq!(parse_string(json, &mut get_test_data()), Ok(Vec::new()));
}

#[test]
fn state_code_tables_round_trip_through_their_protocol_codes() {
    // signal ingest table and emission codes
    let cases: [(u64, SignalState, i16); 9] = [
        (0, SignalState::Unavailable, 4),
        (1, SignalState::Dark, 4),
        (2, SignalState::Red, 0),
        (3, SignalState::Red, 0),
        (5, SignalState::Green, 1),
        (6, SignalState::Green, 1),
        (7, SignalState::Amber, 2),
        (8, SignalState::Amber, 2),
        (9, SignalState::AmberFlashing, 5),
    ];
    for (code, state, vlog) in cases {
        assert_eq!(SignalState::from_tlcfi_state(code), Ok(state));
        assert_eq!(state.to_vlog_state(), vlog);
    }
    assert_eq!(SignalState::from_tlcfi_state(4), Err(DecodeError::UnknownStateCode));
    assert_eq!(SignalState::from_tlcfi_state(10), Err(DecodeError::UnknownStateCode));

    // detector ingest table and emission codes
    assert_eq!(DetectorState::from_tlcfi_state(0), Ok(DetectorState::FREE));
    assert_eq!(DetectorState::from_tlcfi_state(1), Ok(DetectorState::OCCUPIED));
    assert_eq!(DetectorState::FREE.to_vlog_state(), 0);
    assert_eq!(DetectorState::OCCUPIED.to_vlog_state(), 1);
    assert_eq!(DetectorState::from_tlcfi_state(2), Err(DecodeError::UnknownStateCode));
}
