use dbtransfer::selection::{
    any_export_selected, any_import_selected, find_export_table, set_all_export_flags,
    set_all_import_flags, set_export_flag, set_import_flag, table_matches_filter,
};
use dbtransfer::{TableWithRowsCount, TableWithSize};

#[test]
fn filter_by_prefix_or_wildcard() {
    assert!(table_matches_filter("", "anything"));
    assert!(table_matches_filter("ord", "orders"));
    assert!(table_matches_filter("*cat*", "dog_cat_dog"));
    assert!(table_matches_filter("c?t", "cot"));
    assert!(!table_matches_filter("c?t", "cart"));
    assert!(!table_matches_filter("*d", "cat"));
    assert!(!table_matches_filter("Ord", "orders"));
    assert!(table_matches_filter("*s", "orders"));
}

fn export_tables() -> Vec<TableWithRowsCount> {
    vec![
        TableWithRowsCount::new("dbo", "a", 1),
        TableWithRowsCount::new("dbo", "b", 2),
        TableWithRowsCount::new("dbo", "a", 3),
    ]
}

#[test]
fn export_flags() {
    let mut tables = export_tables();
    assert!(!any_export_selected(&tables));
    set_export_flag(&mut tables, "dbo", "a", true);
    assert!(tables[0].export && !tables[1].export && !tables[2].export);
    assert!(any_export_selected(&tables));
    set_export_flag(&mut tables, "dbo", "zzz", true);
    assert!(!tables[1].export && !tables[2].export);
    assert_eq!(find_export_table(&tables, "dbo", "b"), Some(1));
    assert_eq!(find_export_table(&tables, "sales", "b"), None);
    set_all_export_flags(&mut tables, true);
    assert!(tables.iter().all(|t| t.export));
    set_all_export_flags(&mut tables, false);
    assert!(!any_export_selected(&tables));
    assert_eq!(tables[2].row_count, 3);
}

#[test]
fn import_flags() {
    let mut tables = vec![
        TableWithSize::new("dbo.a.bcp.gz", 1).unwrap(),
        TableWithSize::new("dbo.b.bcp.zstd", 2).unwrap(),
    ];
    assert!(!any_import_selected(&tables));
    set_import_flag(&mut tables, "dbo", "b", true);
    assert!(!tables[0].import && tables[1].import);
    set_all_import_flags(&mut tables, true);
    assert!(tables[0].import && tables[1].import);
    set_import_flag(&mut tables, "dbo", "a", false);
    assert!(!tables[0].import && any_import_selected(&tables));
}
