use vstd::prelude::*;
use vstd::string::*;

use crate::table::TableWithRowsCount;

verus! {

/// The outcome of loading the tables of a database: the tables, or an
/// error.
pub struct LoadTablesResult {
    pub tables: Vec<TableWithRowsCount>,
    pub error: String,
}

impl LoadTablesResult {
    pub fn success(tables: Vec<TableWithRowsCount>) -> (r: Self)
        ensures
            r.tables == tables,
            r.error@.len() == 0,
    {
        LoadTablesResult { tables, error: String::new() }
    }

    pub fn failure(error: String) -> (r: Self)
        ensures
            r.tables@.len() == 0,
            r.error@ == error@,
    {
        LoadTablesResult { tables: Vec::new(), error }
    }
}

/// What the table loading dialog hands back to its caller.
pub struct LoadTablesDialogResult {
    pub success: bool,
    pub tables: Vec<TableWithRowsCount>,
}

impl LoadTablesDialogResult {
    pub fn success(tables: Vec<TableWithRowsCount>) -> (r: Self)
        ensures
            r.success,
            r.tables == tables,
    {
        LoadTablesDialogResult { success: true, tables }
    }

    pub fn failure() -> (r: Self)
        ensures
            !r.success,
            r.tables@.len() == 0,
    {
        LoadTablesDialogResult { success: false, tables: Vec::new() }
    }
}

/// The outcome of loading the database names of a server.
pub struct LoadDbnamesResult {
    pub dbnames: Vec<String>,
    pub error: String,
}

impl LoadDbnamesResult {
    pub fn success(dbnames: Vec<String>) -> (r: Self)
        ensures
            r.dbnames == dbnames,
            r.error@.len() == 0,
    {
        LoadDbnamesResult { dbnames, error: String::new() }
    }

    pub fn failure(error: String) -> (r: Self)
        ensures
            r.dbnames@.len() == 0,
            r.error@ == error@,
    {
        LoadDbnamesResult { dbnames: Vec::new(), error }
    }
}

/// What the database name loading dialog hands back to its caller.
pub struct LoadDbnamesDialogResult {
    pub success: bool,
    pub dbnames: Vec<String>,
}

impl LoadDbnamesDialogResult {
    pub fn success(dbnames: Vec<String>) -> (r: Self)
        ensures
            r.success,
            r.dbnames == dbnames,
    {
        LoadDbnamesDialogResult { success: true, dbnames }
    }

    pub fn failure() -> (r: Self)
        ensures
            !r.success,
            r.dbnames@.len() == 0,
    {
        LoadDbnamesDialogResult { success: false, dbnames: Vec::new() }
    }
}

/// What the import dialog hands back to its caller.
pub struct ImportDialogResult {
    pub success: bool,
}

impl ImportDialogResult {
    pub fn success() -> (r: Self)
        ensures
            r.success,
    {
        ImportDialogResult { success: true }
    }

    pub fn failure() -> (r: Self)
        ensures
            !r.success,
    {
        ImportDialogResult { success: false }
    }
}

} // verus!
