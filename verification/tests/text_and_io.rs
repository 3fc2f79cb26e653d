use sim_engine::io::entity_store::{make_sector_key, DiskEntityStore, MemoryEntityStore};
use sim_engine::io::save_manager::{calendar_at, calendar_from_fields, calendar_from_storage, Calendar};
use sim_engine::io::telemetry_export::{column_from_table, sanitize_char, sanitize_filename, telemetry_column, telemetry_file_name};
use sim_engine::text::{contains_name, eq_ignore_ascii_case, format_decimal, parse_u32, push_zero_padded};
use std::path::PathBuf;

#[test]
fn test_sanitize_filename() {
    assert_eq!(sanitize_filename("United States"), "United_States");
    assert_eq!(sanitize_filename("UK/GB"), "UK_GB");
    assert_eq!(sanitize_filename("already-clean"), "already-clean");
    // Unicode letters are preserved (is_alphanumeric covers accented chars).
    assert_eq!(sanitize_filename("Côte d'Ivoire"), "Côte_d_Ivoire");
}

#[test]
fn sanitize_keeps_digits_and_unicode_letters() {
    assert_eq!(sanitize_filename("Zone 51"), "Zone_51");
    assert_eq!(sanitize_filename("Ελλάδα"), "Ελλάδα");
    assert_eq!(sanitize_filename(""), "");
    assert_eq!(sanitize_char('x', false), '_');
    assert_eq!(sanitize_char('-', false), '-');
    assert_eq!(sanitize_char('é', true), 'é');
}

#[test]
fn telemetry_file_names() {
    assert_eq!(telemetry_file_name("United States"), "United_States_macro.csv");
}

#[test]
fn disk_store_keeps_its_root() {
    let store: DiskEntityStore<u32> = DiskEntityStore::new(PathBuf::from("data"));
    assert_eq!(store.data_dir(), &PathBuf::from("data"));
}

#[test]
fn decimal_and_padding() {
    assert_eq!(format_decimal(0), "0");
    assert_eq!(format_decimal(18446744073709551615), "18446744073709551615");
    let mut s = String::from("X-");
    push_zero_padded(&mut s, 42, 6);
    assert_eq!(s, "X-000042");
    let mut t = String::new();
    push_zero_padded(&mut t, 1234567, 6);
    assert_eq!(t, "1234567");
}

#[test]
fn ascii_case_and_name_lists() {
    assert!(eq_ignore_ascii_case("Polish", "pOLISH"));
    assert!(!eq_ignore_ascii_case("Polish", "Polis"));
    assert!(!eq_ignore_ascii_case("É", "é"), "only ASCII letters fold");
    let names = vec!["a".to_string(), "b".to_string()];
    assert!(contains_name(&names, "b"));
    assert!(!contains_name(&names, "c"));
}

// ---------------------------------------------------------------------------
// The calendar of a save
// ---------------------------------------------------------------------------

#[test]
fn the_calendar_is_read_from_storage() {
    let c = calendar_from_storage(r#"{"current_turn": 5, "year": 1936}"#).unwrap();
    assert_eq!(c, Calendar { global_turn: 5, current_year: 1936, current_month: 3, half_month: false });
    let c = calendar_from_storage(r#"{"year": 1936, "current_turn": 6, "other": "x"}"#).unwrap();
    assert_eq!(c, Calendar { global_turn: 6, current_year: 1936, current_month: 3, half_month: true });
    let c = calendar_from_storage("{}").unwrap();
    assert_eq!(c, Calendar { global_turn: 0, current_year: 1900, current_month: 1, half_month: false });
    let c = calendar_from_storage(r#"{"current_turn": -3, "year": "1950"}"#).unwrap();
    assert_eq!(c, Calendar { global_turn: 0, current_year: 1900, current_month: 1, half_month: false });
    let c = calendar_from_storage(r#"{"current_turn": 4294967301}"#).unwrap();
    assert_eq!(c.global_turn, 5);
    let c = calendar_from_storage("[1, 2]").unwrap();
    assert_eq!(c.global_turn, 0);
    assert_eq!(calendar_from_storage("not json"), None);
    assert_eq!(calendar_from_storage(""), None);
}

#[test]
fn a_year_has_twenty_four_turns() {
    assert_eq!(calendar_at(1, 1900).current_month, 1);
    assert!(!calendar_at(1, 1900).half_month);
    assert!(calendar_at(2, 1900).half_month);
    assert_eq!(calendar_at(24, 1900).current_month, 12);
    assert_eq!(calendar_at(25, 1900).current_month, 1);
    assert_eq!(calendar_from_fields(None, None), calendar_at(0, 1900));
    assert_eq!(calendar_from_fields(Some(7), Some(1939)), calendar_at(7, 1939));
}

// ---------------------------------------------------------------------------
// Reading telemetry columns and numbers
// ---------------------------------------------------------------------------

#[test]
fn numbers_are_read_as_rust_reads_them() {
    assert_eq!(parse_u32("42"), Some(42));
    assert_eq!(parse_u32("+7"), Some(7));
    assert_eq!(parse_u32("007"), Some(7));
    assert_eq!(parse_u32("4294967295"), Some(u32::MAX));
    assert_eq!(parse_u32("4294967296"), None);
    assert_eq!(parse_u32("99999999999999999999"), None);
    assert_eq!(parse_u32("+"), None);
    assert_eq!(parse_u32(""), None);
    assert_eq!(parse_u32("-1"), None);
    assert_eq!(parse_u32("1a"), None);
    assert_eq!(parse_u32(" 1"), None);
}

#[test]
fn a_telemetry_column_is_read_with_its_turns() {
    let text = "Turn,Year,Official_GDP\n1,1900,100.5\n2,1900,bad\n+3,1901,7\nx,1902,9\n";
    let rows = telemetry_column(text.as_bytes(), "Official_GDP");
    assert_eq!(
        rows,
        vec![
            (1, Some("100.5".to_string())),
            (2, Some("bad".to_string())),
            (3, Some("7".to_string())),
            (0, Some("9".to_string())),
        ]
    );
    let years = telemetry_column(text.as_bytes(), "Year");
    assert_eq!(years[0], (1, Some("1900".to_string())));
    assert!(telemetry_column(text.as_bytes(), "CPI_Index").is_empty());
    assert!(telemetry_column(b"Year,Official_GDP\n1900,1\n", "Official_GDP").is_empty());
    assert!(telemetry_column(b"", "Official_GDP").is_empty());
}

#[test]
fn unreadable_telemetry_records_are_skipped() {
    let rows = telemetry_column(b"Turn,X\n1,2\n3\n4,5\n", "X");
    assert_eq!(rows, vec![(1, Some("2".to_string())), (4, Some("5".to_string()))]);
}

#[test]
fn a_column_from_a_read_table() {
    let headers = vec!["X".to_string(), "Turn".to_string(), "X".to_string()];
    let records = vec![
        Some(vec!["a".to_string(), "5".to_string(), "b".to_string()]),
        None,
        Some(vec!["c".to_string()]),
    ];
    assert_eq!(
        column_from_table(&headers, &records, "X"),
        vec![(5, Some("a".to_string())), (0, Some("c".to_string()))]
    );
}

#[test]
fn ascii_characters_of_a_name_are_sanitized_by_their_class() {
    assert_eq!(sanitize_filename("São Tomé & Príncipe"), "São_Tomé___Príncipe");
}

// ---------------------------------------------------------------------------
// The in-memory entity store
// ---------------------------------------------------------------------------

#[test]
fn the_memory_store_gives_back_what_was_saved() {
    let mut store: MemoryEntityStore<u32> = MemoryEntityStore::new();
    assert!(store.load_sector("A", "steel", None).is_empty());
    store.save_sector("A", "steel", None, &[1, 2, 3]);
    store.save_sector("A", "steel", Some("r1"), &[9]);
    assert_eq!(store.load_sector("A", "steel", None), vec![1, 2, 3]);
    assert_eq!(store.load_sector("A", "steel", Some("r1")), vec![9]);
    store.save_sector("A", "steel", None, &[4]);
    assert_eq!(store.load_sector("A", "steel", None), vec![4]);
    assert_eq!(store.load_sector("A", "steel", Some("r1")), vec![9]);
    assert!(store.load_sector("B", "steel", None).is_empty());
    assert_eq!(make_sector_key("A", "steel", None), "A|steel|-");
    assert_eq!(make_sector_key("A", "steel", Some("r1")), "A|steel|r1");
    let fresh: MemoryEntityStore<u32> = MemoryEntityStore::default();
    assert!(fresh.load_sector("A", "steel", None).is_empty());
}
