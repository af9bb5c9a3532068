use dbtransfer::archive::{codec_of_entry, tables_in_archive};
use dbtransfer::layout::{archive_entry_name, order_dir_entries, DirEntry};
use dbtransfer::{archive_names, locate_table_entries, path_to_string, ArchiveEntry, Codec};
use dbtransfer::{TableWithRowsCount, TableWithSize};

#[test]
fn parses_gzip_entry_name() {
    let t = TableWithSize::new("dbo.users.bcp.gz", 1234).unwrap();
    assert_eq!(t.schema, "dbo");
    assert_eq!(t.table, "users");
    assert_eq!(t.size_bytes, 1234);
    assert!(!t.import);
}

#[test]
fn parses_zstd_entry_name() {
    let t = TableWithSize::new("sales.order_lines.bcp.zstd", 7).unwrap();
    assert_eq!(t.schema, "sales");
    assert_eq!(t.table, "order_lines");
}

#[test]
fn entry_name_round_trip() {
    for codec in ["gz", "zstd"] {
        let name = format!("{}.{}.bcp.{}", "my_schema", "Table1", codec);
        let t = TableWithSize::new(&name, 0).unwrap();
        assert_eq!(t.schema, "my_schema");
        assert_eq!(t.table, "Table1");
    }
}

#[test]
fn rejects_malformed_entry_names() {
    for name in [
        "dbo.users.bcp",
        "a.b.c.bcp.gz",
        "dbo.users.csv.gz",
        "dbo.users.bcp.zip",
        "dbo.users.bcp.GZ",
        "",
        "users.bcp.gz",
    ] {
        let e = TableWithSize::new(name, 0).err().unwrap();
        assert_eq!(e.to_string(), format!("Unexpected ZIP entry name: {}", name));
    }
}

#[test]
fn accepts_empty_fields_in_the_right_shape() {
    let t = TableWithSize::new("..bcp.gz", 0).unwrap();
    assert_eq!(t.schema, "");
    assert_eq!(t.table, "");
}

#[test]
fn table_with_rows_count_flags() {
    let mut t = TableWithRowsCount::new("dbo", "t1", -1);
    assert!(!t.export);
    assert_eq!(t.row_count, -1);
    t.set_export(true);
    assert!(t.export);
    assert_eq!(t.schema, "dbo");
    assert_eq!(t.table, "t1");
    let mut s = TableWithSize::new("dbo.t1.bcp.gz", 3).unwrap();
    s.set_import(true);
    assert!(s.import);
}

#[test]
fn destination_name_without_extension() {
    let n = archive_names("nightly");
    assert_eq!(n.archive_filename, "nightly.zip");
    assert_eq!(n.work_dir_name, "nightly");
}

#[test]
fn destination_name_with_extension() {
    let n = archive_names("nightly.zip");
    assert_eq!(n.archive_filename, "nightly.zip");
    assert_eq!(n.work_dir_name, "nightly");
}

#[test]
fn destination_name_edge_cases() {
    let n = archive_names("backup.2024.zip");
    assert_eq!(n.archive_filename, "backup.2024.zip");
    assert_eq!(n.work_dir_name, "backup.2024");
    let n = archive_names(".hidden");
    assert_eq!(n.archive_filename, ".hidden.zip");
    assert_eq!(n.work_dir_name, ".hidden");
    let n = archive_names("name.");
    assert_eq!(n.archive_filename, "name..zip");
    assert_eq!(n.work_dir_name, "name.");
}

fn names(v: &[&str]) -> Vec<String> {
    v.iter().map(|s| s.to_string()).collect()
}

#[test]
fn locates_gzip_data_when_only_gzip_is_there() {
    let entries = names(&["nightly/", "nightly/a.t.bcp.gz", "nightly/a.t.xml"]);
    let found = locate_table_entries(&entries, "a", "t").ok().unwrap();
    assert_eq!(found.data_entry, "nightly/a.t.bcp.gz");
    assert_eq!(found.codec, Codec::Gzip);
    assert_eq!(found.format_entry, "nightly/a.t.xml");
    assert_eq!(found.data_filename, "a.t.bcp");
    assert_eq!(found.format_filename, "a.t.xml");
}

#[test]
fn prefers_zstd_data() {
    let entries = names(&["r/a.t.bcp.gz", "r/", "r/a.t.bcp.zstd", "r/a.t.xml"]);
    let found = locate_table_entries(&entries, "a", "t").ok().unwrap();
    assert_eq!(found.data_entry, "r/a.t.bcp.zstd");
    assert_eq!(found.codec, Codec::Zstd);
}

#[test]
fn missing_data_entry_names_both_forms() {
    let entries = names(&["nightly/", "nightly/a.t.xml", "nightly/b.t.bcp.gz"]);
    let e = locate_table_entries(&entries, "a", "t").err().unwrap();
    assert_eq!(
        e.to_string(),
        "Table data entry not found in archive, name: nightly/a.t.bcp.zstd or nightly/a.t.bcp.gz"
    );
    assert!(e.to_string().contains("data entry not found"));
}

#[test]
fn missing_root_directory() {
    let entries = names(&["a.t.bcp.gz", "a.t.xml"]);
    let e = locate_table_entries(&entries, "a", "t").err().unwrap();
    assert_eq!(e.to_string(), "Directory entry not found in ZIP file");
}

#[test]
fn codec_by_extension() {
    assert_eq!(codec_of_entry("r/a.t.bcp.zstd"), Codec::Zstd);
    assert_eq!(codec_of_entry("r/a.t.bcp.gz"), Codec::Gzip);
}

#[test]
fn lists_tables_of_an_archive() {
    let entries = vec![
        ArchiveEntry { name: "x/".to_string(), size: 0 },
        ArchiveEntry { name: "x/dbo.a.xml".to_string(), size: 10 },
        ArchiveEntry { name: "x/dbo.a.bcp.zstd".to_string(), size: 20 },
        ArchiveEntry { name: "x/sales.b.bcp.gz".to_string(), size: 30 },
    ];
    let tables = tables_in_archive(&entries).ok().unwrap();
    assert_eq!(tables.len(), 2);
    assert_eq!((tables[0].schema.as_str(), tables[0].table.as_str(), tables[0].size_bytes), ("dbo", "a", 20));
    assert_eq!((tables[1].schema.as_str(), tables[1].table.as_str(), tables[1].size_bytes), ("sales", "b", 30));
    assert!(!tables[0].import && !tables[1].import);
}

#[test]
fn listing_fails_on_a_malformed_data_entry() {
    let entries = vec![
        ArchiveEntry { name: "x/dbo.a.bcp.gz".to_string(), size: 1 },
        ArchiveEntry { name: "x/odd.name.here.bcp.gz".to_string(), size: 2 },
    ];
    let e = tables_in_archive(&entries).err().unwrap();
    assert_eq!(e.to_string(), "Unexpected ZIP entry name: odd.name.here.bcp.gz");
}

#[test]
fn listing_an_empty_archive() {
    let tables = tables_in_archive(&Vec::new()).ok().unwrap();
    assert!(tables.is_empty());
}

#[test]
fn paths_use_forward_slashes() {
    assert_eq!(path_to_string("nightly\\dbo.a.xml"), "nightly/dbo.a.xml");
    assert_eq!(path_to_string("a/b"), "a/b");
    assert_eq!(path_to_string(""), "");
}

#[test]
fn export_paths_lie_in_the_destination_directory() {
    let p = dbtransfer::naming::export_paths("/out", "nightly");
    assert_eq!(p.archive_filename, "nightly.zip");
    assert_eq!(p.work_dir, "/out/nightly");
    assert_eq!(p.archive_path, "/out/nightly.zip");
    let p = dbtransfer::naming::export_paths("/out/", "nightly.zip");
    assert_eq!(p.work_dir, "/out/nightly");
    let p = dbtransfer::naming::export_paths("", "a.b.zip");
    assert_eq!(p.work_dir, "a.b");
    assert_eq!(p.archive_path, "a.b.zip");
}

#[test]
fn missing_format_entry_fails() {
    let entries = names(&["nightly/", "nightly/a.t.bcp.gz"]);
    let e = locate_table_entries(&entries, "a", "t").err().unwrap();
    assert_eq!(e.to_string(), "Table format entry not found in archive, name: nightly/a.t.xml");
}

#[test]
fn root_is_the_top_level_directory() {
    let entries = names(&["nightly/sub/", "nightly/", "nightly/a.t.bcp.zstd", "nightly/a.t.xml"]);
    let found = locate_table_entries(&entries, "a", "t").ok().unwrap();
    assert_eq!(found.data_entry, "nightly/a.t.bcp.zstd");
    let only_nested = names(&["x/y/", "x/y/a.t.bcp.gz"]);
    assert_eq!(
        locate_table_entries(&only_nested, "a", "t").err().unwrap().to_string(),
        "Directory entry not found in ZIP file"
    );
}

#[test]
fn packing_order_and_entry_names() {
    let entries = vec![
        DirEntry { name: "sub".to_string(), is_dir: true },
        DirEntry { name: "dbo.b.xml".to_string(), is_dir: false },
        DirEntry { name: "dbo.a.xml".to_string(), is_dir: false },
        DirEntry { name: "dbo.a.bcp.zstd".to_string(), is_dir: false },
        DirEntry { name: "Z".to_string(), is_dir: true },
    ];
    let ordered: Vec<(String, bool)> =
        order_dir_entries(&entries).into_iter().map(|e| (e.name, e.is_dir)).collect();
    assert_eq!(
        ordered,
        vec![
            ("dbo.a.bcp.zstd".to_string(), false),
            ("dbo.a.xml".to_string(), false),
            ("dbo.b.xml".to_string(), false),
            ("Z".to_string(), true),
            ("sub".to_string(), true),
        ]
    );
    assert!(order_dir_entries(&Vec::new()).is_empty());
    assert_eq!(archive_entry_name("nightly", &Vec::new()), "nightly");
    assert_eq!(
        archive_entry_name("nightly", &vec!["sub".to_string(), "dbo.a.xml".to_string()]),
        "nightly/sub/dbo.a.xml"
    );
}
