use arroyo_controller::types::{
    days_since_epoch, from_micros, from_millis, from_nanos, get_test_task_info, print_time,
    range_for_server, server_for_hash, single_item_hash_map, string_to_map, string_to_pairs,
    to_micros, to_millis, to_nanos, ArroyoExtensionType, DatePart, DateTruncPrecision, Debezium,
    DebeziumOp, DebeziumShadow, MachineId, SignalMessage, SourceError, TaskInfo, UnixNanos,
    UpdatingData, UserError, WorkerId,
};

#[test]
fn test_range_for_server() {
    let n = 6;

    for i in 0..(n - 1) {
        let range1 = range_for_server(i, n);
        let range2 = range_for_server(i + 1, n);

        assert_eq!(*range1.end() + 1, *range2.start(), "Ranges not adjacent");
        assert_eq!(
            i,
            server_for_hash(*range1.start(), n),
            "start not assigned to range."
        );
        assert_eq!(
            i,
            server_for_hash(*range1.end(), n),
            "end not assigned to range."
        );
    }

    let last_range = range_for_server(n - 1, n);
    assert_eq!(
        *last_range.end(),
        u64::MAX,
        "Last range does not contain u64::MAX"
    );
    assert_eq!(
        n - 1,
        server_for_hash(u64::MAX, n),
        "u64::MAX not in last range"
    );
}

#[test]
fn test_server_for_hash() {
    let n = 2;
    let x = u64::MAX;

    let server_index = server_for_hash(x, n);
    let server_range = range_for_server(server_index, n);

    assert!(
        server_range.contains(&x),
        "u64::MAX is not in the correct range"
    );
}

#[test]
fn time_conversions_round_trip() {
    let t = from_millis(1_700_000_123_456);
    assert_eq!(t.nanos, 1_700_000_123_456_000_000);
    assert_eq!(to_millis(t), 1_700_000_123_456);
    assert_eq!(to_micros(t), 1_700_000_123_456_000);
    assert_eq!(to_nanos(t), 1_700_000_123_456_000_000);
    let u = from_micros(77);
    assert_eq!(u.nanos, 77_000);
    let v = from_nanos(1_000_000_001);
    assert_eq!(v.nanos, 1_000_000_001);
}

#[test]
fn days_since_epoch_counts_whole_days() {
    // One day plus one second is still day one.
    let t = UnixNanos {
        nanos: 86_400_000_000_000 + 1_000_000_000,
    };
    assert_eq!(days_since_epoch(t), 1);
    assert_eq!(days_since_epoch(UnixNanos { nanos: 0 }), 0);
}

#[test]
fn print_time_formats_utc() {
    let t = from_millis(0);
    assert_eq!(print_time(t), "1970-01-01 00:00:00.000");
}

#[test]
fn machine_id_displays_inner() {
    let id = MachineId(std::sync::Arc::new("machine-7".to_string()));
    assert_eq!(id.to_string(), "machine-7");
}

#[test]
fn single_item_hash_map_holds_one_entry() {
    let m = single_item_hash_map::<&str, String, u32>("k", 5);
    assert_eq!(m.len(), 1);
    assert_eq!(m.get("k"), Some(&5));
}

#[test]
fn string_to_map_parses_pairs() {
    let m = string_to_map("a=1, b = 2 ,c=3", '=').unwrap();
    assert_eq!(m.len(), 3);
    assert_eq!(m.get("a"), Some(&"1".to_string()));
    assert_eq!(m.get("b"), Some(&"2".to_string()));
    assert_eq!(m.get("c"), Some(&"3".to_string()));
}

#[test]
fn string_to_map_blank_is_empty() {
    let m = string_to_map("   ", '=').unwrap();
    assert!(m.is_empty());
}

#[test]
fn string_to_map_rejects_missing_delimiter() {
    assert!(string_to_map("a=1,b", '=').is_none());
}

#[test]
fn string_to_pairs_keeps_order_and_trims() {
    let pairs = string_to_pairs(" x : 1 , y:2", ':').unwrap();
    assert_eq!(
        pairs,
        vec![
            ("x".to_string(), "1".to_string()),
            ("y".to_string(), "2".to_string())
        ]
    );
}

#[test]
fn signal_message_is_end() {
    assert!(SignalMessage::Stop.is_end());
    assert!(SignalMessage::EndOfData.is_end());
    assert!(!SignalMessage::Watermark(arroyo_controller::types::Watermark::Idle).is_end());
}

#[test]
fn user_and_source_errors_carry_text() {
    let e = UserError::new("name", "details");
    assert_eq!(e.name, "name");
    assert_eq!(e.details, "details");
    let s = SourceError::bad_data("bad");
    assert_eq!(s.details(), "bad");
    let o = SourceError::other("kind", "why");
    assert_eq!(o.details(), "why");
}

#[test]
fn updating_data_lowers_updates_and_appends() {
    let u: UpdatingData<u32> = UpdatingData::Update {
        before: 1,
        after: 2,
    };
    assert_eq!(u.lower(), 2);
    let a: UpdatingData<u32> = UpdatingData::Append(7);
    assert_eq!(a.lower(), 7);
    assert_eq!(*a.unwrap_append(), 7);
}

#[test]
fn debezium_validation_accepts_and_rejects() {
    let ok = Debezium::try_from(DebeziumShadow::<u32> {
        before: None,
        after: Some(1),
        op: DebeziumOp::Create,
    })
    .unwrap();
    assert_eq!(ok.after, Some(1));
    assert!(Debezium::try_from(DebeziumShadow::<u32> {
        before: None,
        after: None,
        op: DebeziumOp::Create,
    })
    .is_err());
    assert!(Debezium::try_from(DebeziumShadow::<u32> {
        before: None,
        after: Some(2),
        op: DebeziumOp::Update,
    })
    .is_err());
    assert!(Debezium::try_from(DebeziumShadow::<u32> {
        before: Some(1),
        after: None,
        op: DebeziumOp::Update,
    })
    .is_err());
    assert!(Debezium::try_from(DebeziumShadow::<u32> {
        before: None,
        after: None,
        op: DebeziumOp::Delete,
    })
    .is_err());
}

#[test]
fn debezium_op_codes_round_trip() {
    assert_eq!(DebeziumOp::Create.to_string(), "c");
    assert_eq!(DebeziumOp::Update.to_string(), "u");
    assert_eq!(DebeziumOp::Delete.to_string(), "d");
    assert_eq!(
        DebeziumOp::parse(&"c".to_string()),
        Some(DebeziumOp::Create)
    );
    assert_eq!(
        DebeziumOp::parse(&"r".to_string()),
        Some(DebeziumOp::Create)
    );
    assert_eq!(
        DebeziumOp::parse(&"u".to_string()),
        Some(DebeziumOp::Update)
    );
    assert_eq!(
        DebeziumOp::parse(&"d".to_string()),
        Some(DebeziumOp::Delete)
    );
    assert_eq!(DebeziumOp::parse(&"x".to_string()), None);
}

#[test]
fn date_part_parses_case_insensitively() {
    assert_eq!(DatePart::try_from("Year"), Ok(DatePart::Year));
    assert_eq!(DatePart::try_from("DOW"), Ok(DatePart::DayOfWeek));
    assert_eq!(DatePart::try_from("doy"), Ok(DatePart::DayOfYear));
    assert!(DatePart::try_from("decade").is_err());
}

#[test]
fn date_trunc_precision_parses_case_insensitively() {
    assert_eq!(
        DateTruncPrecision::try_from("QUARTER"),
        Ok(DateTruncPrecision::Quarter)
    );
    assert_eq!(
        DateTruncPrecision::try_from("second"),
        Ok(DateTruncPrecision::Second)
    );
    assert!(DateTruncPrecision::try_from("millisecond").is_err());
}

#[test]
fn task_info_for_test_covers_whole_range() {
    let t = TaskInfo::for_test("job", "op-1");
    assert_eq!(t.job_id, "job");
    assert_eq!(t.operator_id, "op-1");
    assert_eq!(t.key_range, 0..=u64::MAX);
    let g = get_test_task_info();
    assert_eq!(g.job_id, "instance-1");
    assert_eq!(g.operator_id, "test-operator-1");
}

#[test]
fn extension_type_read_from_metadata() {
    let m = ArroyoExtensionType::extension_metadata(ArroyoExtensionType::JSON);
    assert_eq!(
        ArroyoExtensionType::from_map(&m),
        Some(ArroyoExtensionType::JSON)
    );
    let empty = std::collections::HashMap::new();
    assert_eq!(ArroyoExtensionType::from_map(&empty), None);
}

#[test]
fn raw_schema_declares_json_value_column() {
    let schema = arroyo_controller::types::raw_schema();
    let field = schema.field(0);
    assert_eq!(field.name(), "value");
    assert_eq!(
        field.metadata().get("ARROW:extension:name").map(|s| s.as_str()),
        Some("arroyo.json")
    );
}

#[test]
fn worker_id_is_plain() {
    assert_eq!(WorkerId(7), WorkerId(7));
    assert_ne!(WorkerId(7), WorkerId(8));
}

#[test]
fn string_to_map_keeps_the_last_duplicate() {
    let m = string_to_map("a=1,a=2", '=').unwrap();
    assert_eq!(m.len(), 1);
    assert_eq!(m.get("a"), Some(&"2".to_string()));
}

#[test]
fn checkpoint_ids_use_a_url_safe_charset() {
    let id = arroyo_controller::controller::generate_checkpoint_id();
    assert!(id[3..]
        .chars()
        .all(|c| c.is_ascii_digit() || c.is_ascii_lowercase()));
}
