use rmesg::entry::{decode_priority, encode_priority, Entry, LogFacility, LogLevel, RMesgError};
use rmesg::klog::{parse_klog, to_klog_string};
use rmesg::kmsg::{parse_kmsg, to_kmsg_string};

fn complete_entry() -> Entry {
    Entry {
        timestamp_from_system_start: Some(98765),
        facility: Some(LogFacility::Daemon),
        level: Some(LogLevel::Warning),
        sequence_num: Some(1234),
        message: "disk: sector 7 remapped".to_string(),
    }
}

#[test]
fn kmsg_example_record() {
    let e = parse_kmsg("6,1234,98765,-;kernel: out of memory").unwrap();
    assert_eq!(e.facility, Some(LogFacility::Kern));
    assert_eq!(e.level, Some(LogLevel::Info));
    assert_eq!(e.sequence_num, Some(1234));
    assert_eq!(e.timestamp_from_system_start, Some(98765));
    assert_eq!(e.message, "kernel: out of memory");
}

#[test]
fn kmsg_missing_separator_is_malformed() {
    assert_eq!(parse_kmsg("6,1234,98765,-kernel: out of memory").unwrap_err(), RMesgError::MalformedRecord);
}

#[test]
fn kmsg_non_numeric_field_is_malformed() {
    assert_eq!(parse_kmsg("6,12x4,98765,-;msg").unwrap_err(), RMesgError::MalformedRecord);
    assert_eq!(parse_kmsg(",1,2,-;msg").unwrap_err(), RMesgError::MalformedRecord);
    assert_eq!(parse_kmsg("6,1;msg").unwrap_err(), RMesgError::MalformedRecord);
}

#[test]
fn kmsg_facility_out_of_range_is_malformed() {
    assert_eq!(parse_kmsg("192,1,2,-;msg").unwrap_err(), RMesgError::MalformedRecord);
    let e = parse_kmsg("191,1,2,-;msg").unwrap();
    assert_eq!(e.facility, Some(LogFacility::Local7));
    assert_eq!(e.level, Some(LogLevel::Debug));
}

#[test]
fn kmsg_extra_header_fields_and_empty_message() {
    let e = parse_kmsg("30,5,77,-,caller=T1;").unwrap();
    assert_eq!(e.facility, Some(LogFacility::Daemon));
    assert_eq!(e.level, Some(LogLevel::Info));
    assert_eq!(e.sequence_num, Some(5));
    assert_eq!(e.timestamp_from_system_start, Some(77));
    assert_eq!(e.message, "");
}

#[test]
fn kmsg_timestamp_overflow_is_malformed() {
    assert_eq!(parse_kmsg("6,1,18446744073709551616,-;x").unwrap_err(), RMesgError::MalformedRecord);
    let e = parse_kmsg("6,1,18446744073709551615,-;x").unwrap();
    assert_eq!(e.timestamp_from_system_start, Some(u64::MAX));
}

#[test]
fn kmsg_text_of_entry() {
    assert_eq!(to_kmsg_string(&complete_entry()).unwrap(), "28,1234,98765,-;disk: sector 7 remapped");
    let mut e = complete_entry();
    e.sequence_num = None;
    assert!(to_kmsg_string(&e).is_none());
}

#[test]
fn kmsg_round_trip() {
    let e = complete_entry();
    let text = to_kmsg_string(&e).unwrap();
    assert_eq!(parse_kmsg(&text).unwrap(), e);
    let odd = Entry { message: "a;b,c\n".to_string(), ..complete_entry() };
    assert_eq!(parse_kmsg(&to_kmsg_string(&odd).unwrap()).unwrap(), odd);
}

#[test]
fn klog_example_line() {
    let e = parse_klog("<3>[    5.123456] USB disconnected");
    assert_eq!(e.level, Some(LogLevel::Error));
    assert_eq!(e.facility, None);
    assert_eq!(e.timestamp_from_system_start, Some(5_123_456));
    assert_eq!(e.sequence_num, None);
    assert_eq!(e.message, "USB disconnected");
}

#[test]
fn klog_without_decoration() {
    let e = parse_klog("plain words");
    assert_eq!(e.level, None);
    assert_eq!(e.facility, None);
    assert_eq!(e.timestamp_from_system_start, None);
    assert_eq!(e.message, "plain words");
}

#[test]
fn klog_malformed_prefixes_stay_in_message() {
    let e = parse_klog("<x3>[1.5] text");
    assert_eq!(e.level, None);
    assert_eq!(e.message, "<x3>[1.5] text");
    let e = parse_klog("<14>[abc] text");
    assert_eq!(e.level, Some(LogLevel::Info));
    assert_eq!(e.facility, Some(LogFacility::User));
    assert_eq!(e.timestamp_from_system_start, None);
    assert_eq!(e.message, "[abc] text");
    let e = parse_klog("<200>hi");
    assert_eq!(e.level, None);
    assert_eq!(e.message, "<200>hi");
}

#[test]
fn klog_fraction_is_scaled_to_microseconds() {
    assert_eq!(parse_klog("[12.5] x").timestamp_from_system_start, Some(12_500_000));
    assert_eq!(parse_klog("[0.1234567] x").timestamp_from_system_start, Some(123_456));
    let e = parse_klog("[7.000001]x");
    assert_eq!(e.timestamp_from_system_start, Some(7_000_001));
    assert_eq!(e.message, "x");
}

#[test]
fn klog_text_of_entry() {
    let e = Entry {
        timestamp_from_system_start: Some(5_123_456),
        facility: None,
        level: Some(LogLevel::Error),
        sequence_num: None,
        message: "USB disconnected".to_string(),
    };
    assert_eq!(to_klog_string(&e), "<3>[    5.123456] USB disconnected");
    assert_eq!(to_klog_string(&complete_entry()), "<28>[    0.098765] disk: sector 7 remapped");
    let bare = Entry { timestamp_from_system_start: None, facility: None, level: None, sequence_num: None, message: "m".to_string() };
    assert_eq!(to_klog_string(&bare), "m");
}

#[test]
fn klog_round_trip_keeps_fields() {
    let e = complete_entry();
    let back = parse_klog(&to_klog_string(&e));
    assert_eq!(back.message, e.message);
    assert_eq!(back.level, e.level);
    assert_eq!(back.facility, e.facility);
    assert_eq!(back.timestamp_from_system_start, e.timestamp_from_system_start);
    assert_eq!(back.sequence_num, None);
    let big = Entry { timestamp_from_system_start: Some(123_456_789_012), message: " leading space".to_string(), ..complete_entry() };
    let back = parse_klog(&to_klog_string(&big));
    assert_eq!(back.timestamp_from_system_start, Some(123_456_789_012));
    assert_eq!(back.message, " leading space");
}

#[test]
fn priority_decodes_every_pair() {
    for f in 0u64..24 {
        for l in 0u64..8 {
            let (fac, lev) = decode_priority(f * 8 + l).unwrap();
            assert_eq!(fac.code() as u64, f);
            assert_eq!(lev.code() as u64, l);
            assert_eq!(encode_priority(fac, lev) as u64, f * 8 + l);
        }
    }
    assert_eq!(decode_priority(192).unwrap_err(), RMesgError::MalformedRecord);
    assert_eq!(decode_priority(u64::MAX).unwrap_err(), RMesgError::MalformedRecord);
    assert_eq!(LogFacility::from_code(24), None);
    assert_eq!(LogLevel::from_code(8), None);
}

#[test]
fn parsing_twice_gives_equal_entries() {
    let line = "6,1234,98765,-;kernel: out of memory";
    assert_eq!(parse_kmsg(line).unwrap(), parse_kmsg(line).unwrap());
    let line = "<3>[    5.123456] USB disconnected";
    assert_eq!(parse_klog(line), parse_klog(line));
}
