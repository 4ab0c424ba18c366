use tlcfi_assimilator::name_mapping::NameMapping;
use tlcfi_assimilator::vlog_transformer::{get_vlog_info, to_vlog, DateTime};

fn start() -> DateTime {
    DateTime { year: 2021, month: 12, day: 15, hour: 11, minute: 0, second: 0, millisecond: 0 }
}

#[test]
fn an_empty_batch_still_produces_the_header_block() {
    let messages = to_vlog(Vec::new(), &start(), &NameMapping::new(), &NameMapping::new(), "test")
        .unwrap();
    assert_eq!(
        messages,
        vec![
            "012021121511000000".to_string(),
            "040300007465737420202020202020202020202020202020".to_string(),
        ]
    );
}

#[test]
fn an_empty_controller_name_is_all_padding() {
    let info = get_vlog_info("");
    let mut expected = String::from("04030000");
    for _ in 0..20 {
        expected.push_str("20");
    }
    assert_eq!(info, expected);
}

#[test]
fn a_name_outside_ascii_is_rendered_as_full_code_units() {
    let info = get_vlog_info("\u{65E5}");
    let mut expected = String::from("0403000065E5");
    for _ in 0..19 {
        expected.push_str("20");
    }
    assert_eq!(info, expected);
}

#[test]
fn a_name_beyond_the_basic_plane_becomes_a_surrogate_pair() {
    let info = get_vlog_info("\u{1F600}");
    let mut expected = String::from("04030000D83DDE00");
    for _ in 0..18 {
        expected.push_str("20");
    }
    assert_eq!(info, expected);
}
