//! Moving table data between a SQL Server compatible database and a
//! portable zip archive, with an external bulk-copy utility doing the data
//! movement.
//!
//! The modules hold the decisions of that pipeline: which catalog query to
//! try, how archive entries are named and found, the command lines of the
//! bulk-copy utility, and the order and fail-fast policy of export and import
//! steps. Processes, files and the network are driven by the caller, which
//! performs the actions that the export and import jobs hand out.

pub mod archive;
pub mod bcp;
pub mod catalog;
pub mod cli;
pub mod conn;
pub mod error;
pub mod export;
pub mod import;
pub mod layout;
pub mod naming;
pub mod progress;
pub mod results;
pub mod selection;
pub mod table;
pub mod text;

pub use archive::{locate_table_entries, tables_in_archive, ArchiveEntry, Codec, TableEntries};
pub use conn::TdsConnConfig;
pub use error::TransferError;
pub use export::{run_export, ExportAction, ExportArgs, ExportJob, ExportResult, ExportStage};
pub use import::{run_import, ImportAction, ImportArgs, ImportJob, ImportResult, ImportStage};
pub use naming::{archive_names, ArchiveNames};
pub use results::{
    ImportDialogResult, LoadDbnamesDialogResult, LoadDbnamesResult, LoadTablesDialogResult,
    LoadTablesResult,
};
pub use table::{TableWithRowsCount, TableWithSize};
pub use text::path_to_string;
