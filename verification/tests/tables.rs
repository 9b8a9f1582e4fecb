use drdump::extract::{build_from_parts, TableError};
use drdump::merge::{
    build_reason_table, merge_into, more_subsystems_than_known, reinterpret_key,
    table_from_members,
};
use drdump::table::EnumTable;

fn table(pairs: &[(u32, &str)]) -> EnumTable {
    let mut t = EnumTable::new();
    for (code, name) in pairs {
        t.insert(*code, (*name).to_string());
    }
    t
}

fn name_of(t: &EnumTable, code: u32) -> Option<String> {
    t.get(code).cloned()
}

#[test]
fn reinterpret_negative_value() {
    assert_eq!(reinterpret_key(-1), 0xffffffff);
    assert_eq!(reinterpret_key(-2147483648), 0x80000000);
}

#[test]
fn reinterpret_in_range_value() {
    assert_eq!(reinterpret_key(0), 0);
    assert_eq!(reinterpret_key(5), 5);
    assert_eq!(reinterpret_key(0xffff0000), 0xffff0000);
}

#[test]
fn members_build_ordered_table() {
    let members = vec![
        (3i64, "C".to_string()),
        (1i64, "A".to_string()),
        (2i64, "B".to_string()),
    ];
    let t = table_from_members(&members);
    assert_eq!(t.entries.len(), 3);
    assert_eq!(t.entries[0], (1, "A".to_string()));
    assert_eq!(t.entries[1], (2, "B".to_string()));
    assert_eq!(t.entries[2], (3, "C".to_string()));
}

#[test]
fn members_later_duplicate_wins() {
    let members = vec![(1i64, "FIRST".to_string()), (1i64, "SECOND".to_string())];
    let t = table_from_members(&members);
    assert_eq!(t.entries.len(), 1);
    assert_eq!(name_of(&t, 1), Some("SECOND".to_string()));
}

#[test]
fn sentinel_removed_from_core() {
    // Core enumeration defines the sentinel mask; no extensions are present.
    let core = table(&[(0, "NOT_SPECIFIED"), (1, "NO_SOCKET"), (0xffff0000, "SUBSYS_MASK")]);
    let merged = build_reason_table(core, &Vec::new());
    assert_eq!(merged.len(), 2);
    assert_eq!(name_of(&merged, 0), Some("NOT_SPECIFIED".to_string()));
    assert_eq!(name_of(&merged, 1), Some("NO_SOCKET".to_string()));
    assert!(merged.get(0xffff0000).is_none());
}

#[test]
fn sentinel_removal_is_idempotent() {
    // Core without the sentinel: removal changes nothing.
    let core = table(&[(0, "NOT_SPECIFIED")]);
    let merged = build_reason_table(core, &Vec::new());
    assert_eq!(merged.len(), 1);
    assert!(merged.get(0xffff0000).is_none());
}

#[test]
fn core_wins_over_extension() {
    let core = table(&[(2, "TCP_CSUM")]);
    let ext_a = table(&[(2, "MAC_FILTER"), (3, "RADIO_DROP")]);
    let merged = build_reason_table(core, &vec![ext_a]);
    assert_eq!(merged.len(), 2);
    assert_eq!(name_of(&merged, 2), Some("TCP_CSUM".to_string()));
    assert_eq!(name_of(&merged, 3), Some("RADIO_DROP".to_string()));
}

#[test]
fn extension_alone_defines_code() {
    let core = table(&[(0, "NOT_SPECIFIED")]);
    let ext_a = table(&[(0x20001, "WIFI_ONLY")]);
    let merged = build_reason_table(core, &vec![ext_a]);
    assert_eq!(name_of(&merged, 0x20001), Some("WIFI_ONLY".to_string()));
}

#[test]
fn earlier_extension_wins_over_later() {
    let core = table(&[(0, "NOT_SPECIFIED")]);
    let ext_a = table(&[(7, "FROM_FIRST")]);
    let ext_b = table(&[(7, "FROM_SECOND"), (8, "ONLY_SECOND")]);
    let merged = build_reason_table(core, &vec![ext_a, ext_b]);
    assert_eq!(name_of(&merged, 7), Some("FROM_FIRST".to_string()));
    assert_eq!(name_of(&merged, 8), Some("ONLY_SECOND".to_string()));
}

#[test]
fn merge_into_keeps_existing_entries() {
    let mut acc = table(&[(1, "KEEP")]);
    let ext = table(&[(1, "SHADOWED"), (2, "NEW")]);
    merge_into(&mut acc, &ext);
    assert_eq!(name_of(&acc, 1), Some("KEEP".to_string()));
    assert_eq!(name_of(&acc, 2), Some("NEW".to_string()));
}

#[test]
fn missing_core_is_unsupported() {
    let r = build_from_parts(None, Vec::new(), None);
    assert!(matches!(r, Err(TableError::Unsupported)));
}

#[test]
fn present_core_builds_tables() {
    let core = table(&[(0, "NOT_SPECIFIED")]);
    let subsys = table(&[(2, "wifi")]);
    let r = build_from_parts(Some(core), Vec::new(), Some(subsys));
    let (reasons, subsys) = r.expect("build should succeed with a core table");
    assert_eq!(name_of(&reasons, 0), Some("NOT_SPECIFIED".to_string()));
    let subsys = subsys.expect("subsystem table should pass through");
    assert_eq!(name_of(&subsys, 2), Some("wifi".to_string()));
}

#[test]
fn subsystem_count_check() {
    let small = table(&[(0, "A"), (1, "B"), (2, "C"), (3, "D"), (4, "E")]);
    assert!(!more_subsystems_than_known(&small));
    let grown = table(&[(0, "A"), (1, "B"), (2, "C"), (3, "D"), (4, "E"), (5, "F")]);
    assert!(more_subsystems_than_known(&grown));
}

#[test]
fn get_on_empty_table() {
    let t = EnumTable::new();
    assert!(t.get(0).is_none());
    assert_eq!(t.len(), 0);
}

#[test]
fn remove_absent_code_is_noop() {
    let mut t = table(&[(1, "A")]);
    t.remove(2);
    assert_eq!(t.len(), 1);
    assert_eq!(name_of(&t, 1), Some("A".to_string()));
}
