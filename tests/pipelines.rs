use std::cell::RefCell;

use dbtransfer::catalog::{row_progress_line, tables_from_rows, table_from_row, CatalogRow, Dialect, DiscoveryStep};
use dbtransfer::cli::{check_command, conn_config_from_options, ConnOptions, TransferCommand};
use dbtransfer::{
    run_export, run_import, ExportAction, ExportArgs, ExportJob, ExportStage, ImportAction,
    ImportArgs, ImportDialogResult, LoadDbnamesDialogResult, LoadDbnamesResult,
    LoadTablesDialogResult, LoadTablesResult, TableWithRowsCount, TableWithSize, TdsConnConfig,
    TransferError,
};
use dbtransfer::{ExportResult, ImportResult};

fn profile() -> TdsConnConfig {
    TdsConnConfig {
        hostname: "h".to_string(),
        port: 5432,
        username: "u".to_string(),
        password: "pw".to_string(),
        database: "db".to_string(),
        accept_invalid_tls: true,
        use_win_auth: false,
        instance: String::new(),
        use_named_instance: false,
    }
}

fn export_args(tables: &[&str]) -> ExportArgs {
    ExportArgs {
        dbname: "db".to_string(),
        tables: tables.iter().map(|t| TableWithRowsCount::new("dbo", t, 10)).collect(),
        parent_dir: "/out".to_string(),
        dest_filename: "nightly".to_string(),
    }
}

fn describe_export(a: &ExportAction) -> String {
    match a {
        ExportAction::PrepareWorkDir => "prepare".to_string(),
        ExportAction::RunBcp(args) => format!("bcp {} {}", args[1], args[0]),
        ExportAction::PostProcessFormatFile(f) => format!("post {}", f),
        ExportAction::Compress { data_filename, compressed_filename } => {
            format!("compress {} {}", data_filename, compressed_filename)
        }
        ExportAction::ZipWorkDir(name) => format!("zip {}", name),
        ExportAction::Finish(_) => "finish".to_string(),
    }
}

#[test]
fn export_runs_every_step_in_order() {
    let log = RefCell::new(Vec::<String>::new());
    let progress = RefCell::new(Vec::<String>::new());
    let result = run_export(
        &|line: &str| progress.borrow_mut().push(line.to_string()),
        &|a: &ExportAction| {
            log.borrow_mut().push(describe_export(a));
            Ok(())
        },
        profile(),
        export_args(&["t1", "t2"]),
    );
    assert!(result.is_success());
    assert_eq!(result.error, "");
    assert_eq!(
        *log.borrow(),
        vec![
            "prepare",
            "bcp format [db].[dbo].[t1]",
            "post dbo.t1.xml",
            "bcp out [db].[dbo].[t1]",
            "compress dbo.t1.bcp dbo.t1.bcp.zstd",
            "bcp format [db].[dbo].[t2]",
            "post dbo.t2.xml",
            "bcp out [db].[dbo].[t2]",
            "compress dbo.t2.bcp dbo.t2.bcp.zstd",
            "zip nightly.zip",
        ]
    );
    let progress = progress.borrow();
    assert_eq!(progress[0], "Running export ...");
    assert_eq!(progress[1], "Export file: /out/nightly.zip");
    assert!(progress.contains(&"Creating bcp format file: dbo.t2".to_string()));
    assert!(progress.contains(&"Compressing: dbo.t1.bcp".to_string()));
    assert_eq!(progress.last().unwrap(), "Export complete");
}

#[test]
fn export_stops_at_the_first_failure() {
    let log = RefCell::new(Vec::<String>::new());
    let result = run_export(
        &|_: &str| {},
        &|a: &ExportAction| {
            let d = describe_export(a);
            log.borrow_mut().push(d.clone());
            if d == "bcp format [db].[dbo].[t2]" {
                Err(TransferError::from_str("format of t2 failed"))
            } else {
                Ok(())
            }
        },
        profile(),
        export_args(&["t1", "t2", "t3"]),
    );
    assert!(!result.is_success());
    assert_eq!(result.error, "format of t2 failed");
    let log = log.borrow();
    assert_eq!(log.last().unwrap(), "bcp format [db].[dbo].[t2]");
    assert!(log.iter().all(|d| !d.contains("t3")));
    assert!(log.iter().all(|d| !d.starts_with("zip")));
}

#[test]
fn failed_packaging_names_the_working_directory() {
    let result = run_export(
        &|_: &str| {},
        &|a: &ExportAction| match a {
            ExportAction::ZipWorkDir(_) => Err(TransferError::from_str("disk full")),
            _ => Ok(()),
        },
        profile(),
        export_args(&[]),
    );
    assert_eq!(
        result.error,
        "Error zipping destination directory, path: /out/nightly, error: disk full"
    );
}

#[test]
fn finished_export_ignores_further_outcomes() {
    let mut job = ExportJob::new(profile(), export_args(&["t1"]));
    job.advance(Err(TransferError::from_str("no directory")));
    assert_eq!(job.stage, ExportStage::Finished);
    job.advance(Ok(()));
    assert_eq!(job.stage, ExportStage::Finished);
    assert_eq!(job.work_dir, "/out/nightly");
    assert_eq!(job.archive_path, "/out/nightly.zip");
    match job.action() {
        ExportAction::Finish(r) => assert_eq!(r.error, "no directory"),
        _ => panic!("export should be over"),
    }
}

fn import_args(tables: &[&str]) -> ImportArgs {
    ImportArgs {
        dbname: "db".to_string(),
        tables: tables
            .iter()
            .map(|t| TableWithSize::new(&format!("dbo.{}.bcp.zstd", t), 1).unwrap())
            .collect(),
        import_file: "/in/nightly.zip".to_string(),
        work_dir: "/in/nightly".to_string(),
    }
}

fn describe_import(a: &ImportAction) -> String {
    match a {
        ImportAction::PrepareWorkDir => "prepare".to_string(),
        ImportAction::Extract { schema, table } => format!("extract {}.{}", schema, table),
        ImportAction::RunBcp(args) => format!("bcp {} {} {}", args[1], args[0], args[2]),
        ImportAction::RemoveWorkDir => "cleanup".to_string(),
        ImportAction::Finish(_) => "finish".to_string(),
    }
}

#[test]
fn import_loads_tables_in_selection_order() {
    let log = RefCell::new(Vec::<String>::new());
    let progress = RefCell::new(Vec::<String>::new());
    let result = run_import(
        &|line: &str| progress.borrow_mut().push(line.to_string()),
        &|a: &ImportAction| {
            log.borrow_mut().push(describe_import(a));
            Ok(())
        },
        profile(),
        import_args(&["b", "a"]),
    );
    assert!(result.is_success());
    assert_eq!(
        *log.borrow(),
        vec![
            "prepare",
            "extract dbo.b",
            "bcp in [db].[dbo].[b] dbo.b.bcp",
            "extract dbo.a",
            "bcp in [db].[dbo].[a] dbo.a.bcp",
            "cleanup",
        ]
    );
    let progress = progress.borrow();
    assert_eq!(progress[0], "Running import: /in/nightly.zip ...");
    assert_eq!(progress[1], "Unpacking dbo.b.bcp into directory /in/nightly");
    assert_eq!(progress.last().unwrap(), "Import complete");
}

#[test]
fn import_cleanup_failure_is_not_fatal() {
    let result = run_import(
        &|_: &str| {},
        &|a: &ImportAction| match a {
            ImportAction::RemoveWorkDir => Err(TransferError::from_str("busy")),
            _ => Ok(()),
        },
        profile(),
        import_args(&["a"]),
    );
    assert!(result.is_success());
}

#[test]
fn import_stops_at_the_first_failure() {
    let log = RefCell::new(Vec::<String>::new());
    let result = run_import(
        &|_: &str| {},
        &|a: &ImportAction| {
            let d = describe_import(a);
            log.borrow_mut().push(d.clone());
            if d == "extract dbo.a" {
                Err(TransferError::from_str("Table data entry not found"))
            } else {
                Ok(())
            }
        },
        profile(),
        import_args(&["a", "b"]),
    );
    assert_eq!(result.error, "Table data entry not found");
    assert_eq!(*log.borrow(), vec!["prepare", "extract dbo.a"]);
}

#[test]
fn result_constructors() {
    assert!(ExportResult::success().is_success());
    assert_eq!(ExportResult::failure("x".to_string()).error, "x");
    assert!(ImportResult::success().is_success());
    assert!(!ImportResult::failure("y".to_string()).is_success());
    assert!(ImportDialogResult::success().success);
    assert!(!ImportDialogResult::failure().success);
    let t = LoadTablesDialogResult::success(vec![TableWithRowsCount::new("a", "b", 1)]);
    assert!(t.success && t.tables.len() == 1);
    assert!(LoadTablesDialogResult::failure().tables.is_empty());
    assert_eq!(LoadTablesResult::failure("e".to_string()).error, "e");
    assert_eq!(LoadTablesResult::success(Vec::new()).error, "");
    let d = LoadDbnamesDialogResult::success(vec!["master".to_string()]);
    assert_eq!(d.dbnames, vec!["master"]);
    assert!(!LoadDbnamesDialogResult::failure().success);
    assert_eq!(LoadDbnamesResult::failure("f".to_string()).error, "f");
    assert_eq!(LoadDbnamesResult::success(vec!["x".to_string()]).dbnames.len(), 1);
}

#[test]
fn discovery_falls_back_through_the_dialects() {
    let d = Dialect::first();
    assert_eq!(d, Dialect::PgCompat);
    assert!(!d.query().bind_dbname);
    assert!(d.query().sql.contains("pg_catalog.pg_class"));
    let d = match d.after_failure(TransferError::from_str("no pg_class")) {
        DiscoveryStep::Query(next) => next,
        DiscoveryStep::Failed(_) => panic!("should fall back"),
    };
    assert_eq!(d, Dialect::Native);
    assert!(d.query().sql.contains("sys.dm_db_partition_stats"));
    let d = match d.after_failure(TransferError::from_str("no stats")) {
        DiscoveryStep::Query(next) => next,
        DiscoveryStep::Failed(_) => panic!("should fall back"),
    };
    assert_eq!(d, Dialect::Ansi);
    assert!(d.query().bind_dbname);
    assert!(d.query().sql.contains("information_schema.tables"));
    match d.after_failure(TransferError::from_str("last")) {
        DiscoveryStep::Failed(e) => assert_eq!(e.to_string(), "last"),
        DiscoveryStep::Query(_) => panic!("should give up"),
    }
}

fn row(schema: Option<&str>, table: Option<&str>, count: Option<i64>) -> CatalogRow {
    CatalogRow {
        schema: schema.map(|s| s.to_string()),
        table: table.map(|s| s.to_string()),
        row_count: count,
    }
}

#[test]
fn standard_dialect_rows_have_unknown_counts() {
    let rows = vec![row(Some("dbo"), Some("a"), Some(-1)), row(Some("dbo"), Some("b"), Some(17))];
    let tables = tables_from_rows(Dialect::Ansi, &rows).ok().unwrap();
    assert!(tables.iter().all(|t| t.row_count == -1));
    let tables = tables_from_rows(Dialect::Native, &rows).ok().unwrap();
    assert_eq!(tables[1].row_count, 17);
    assert_eq!(tables[1].table, "b");
    assert!(!tables[0].export);
}

#[test]
fn incomplete_row_fails_discovery() {
    let rows = vec![row(Some("dbo"), Some("a"), Some(1)), row(Some("dbo"), None, Some(2))];
    let e = tables_from_rows(Dialect::PgCompat, &rows).err().unwrap();
    assert_eq!(e.to_string(), "Tables select error");
    assert!(table_from_row(Dialect::Native, &row(None, Some("t"), Some(1))).is_err());
    assert!(table_from_row(Dialect::Native, &row(Some("s"), Some("t"), None)).is_err());
}

#[test]
fn row_progress_lines() {
    assert_eq!(row_progress_line(&TableWithRowsCount::new("dbo", "a", 42)), "dbo.a 42 rows");
    assert_eq!(row_progress_line(&TableWithRowsCount::new("dbo", "a", -1)), "dbo.a -1 rows");
    assert_eq!(row_progress_line(&TableWithRowsCount::new("s", "t", 0)), "s.t 0 rows");
    assert_eq!(
        row_progress_line(&TableWithRowsCount::new("s", "t", i64::MIN)),
        "s.t -9223372036854775808 rows"
    );
}

fn options() -> ConnOptions {
    ConnOptions {
        hostname: "h".to_string(),
        port: "1433".to_string(),
        instance: String::new(),
        username: "sa".to_string(),
        password: "pw".to_string(),
        windows_auth: false,
        database: "db".to_string(),
        check_certificate: false,
    }
}

#[test]
fn options_make_a_profile() {
    let c = conn_config_from_options(&options()).ok().unwrap();
    assert_eq!(c.port, 1433);
    assert!(!c.use_named_instance);
    assert!(c.accept_invalid_tls);
    let mut o = options();
    o.port = String::new();
    o.instance = "SQLEXPRESS".to_string();
    o.windows_auth = true;
    o.username = String::new();
    o.password = String::new();
    o.check_certificate = true;
    let c = conn_config_from_options(&o).ok().unwrap();
    assert!(c.use_named_instance && c.use_win_auth && !c.accept_invalid_tls);
    assert_eq!(c.port, 0);
}

#[test]
fn options_are_checked_in_order() {
    let mut o = options();
    o.hostname = String::new();
    assert_eq!(conn_config_from_options(&o).err().unwrap().to_string(), "'hostname' option must be specified");
    let mut o = options();
    o.port = "70000".to_string();
    assert_eq!(
        conn_config_from_options(&o).err().unwrap().to_string(),
        "'port' option must be specified with a value between 1 and 65535"
    );
    let mut o = options();
    o.port = "12x".to_string();
    assert!(conn_config_from_options(&o).is_err());
    let mut o = options();
    o.password = String::new();
    assert_eq!(
        conn_config_from_options(&o).err().unwrap().to_string(),
        "'username' and 'password' options must be specified"
    );
    let mut o = options();
    o.database = String::new();
    assert_eq!(conn_config_from_options(&o).err().unwrap().to_string(), "'database' option must be specified");
}

#[test]
fn commands_are_checked() {
    assert_eq!(check_command("export", "out.zip", false, false, false).ok(), Some(TransferCommand::Export));
    assert_eq!(
        check_command("export", "", false, false, false).err().unwrap().to_string(),
        "'output_file' option must be specified"
    );
    assert!(check_command("export", "out.zip", false, true, false).is_err());
    assert!(check_command("export", "out.zip", true, true, false).is_ok());
    assert_eq!(check_command("import", "", false, false, true).ok(), Some(TransferCommand::Import));
    assert_eq!(
        check_command("import", "", false, false, false).err().unwrap().to_string(),
        "specified input file does not exist"
    );
    assert!(check_command("copy", "", false, false, true).is_err());
}
