use vstd::prelude::*;
use vstd::string::*;

use crate::table::{TableWithRowsCount, TableWithSize};
use crate::text::{same_text, substring};

verus! {

/// `pattern` matches all of `text`, where `?` stands for any one character
/// and `*` for any run of characters, and every other character for itself.
pub open spec fn wildcard_match(pattern: Seq<char>, text: Seq<char>) -> bool
    decreases pattern.len() + text.len(),
{
    if pattern.len() == 0 {
        text.len() == 0
    } else if pattern[0] == '*' {
        wildcard_match(pattern.drop_first(), text) || (text.len() > 0 && wildcard_match(
            pattern,
            text.drop_first(),
        ))
    } else {
        text.len() > 0 && (pattern[0] == '?' || pattern[0] == text[0]) && wildcard_match(
            pattern.drop_first(),
            text.drop_first(),
        )
    }
}

/// Relies on `wildmatch::WildMatch::new` and `WildMatch::matches`: the
/// pattern matches the whole input, `?` matching one character and `*` any
/// run of characters.
#[verifier::external_body]
fn wildcard_matches(pattern: &str, text: &str) -> (r: bool)
    ensures
        r == wildcard_match(pattern@, text@),
{
    wildmatch::WildMatch::new(pattern).matches(text)
}

/// `text` begins with `prefix`.
pub open spec fn starts_with(text: Seq<char>, prefix: Seq<char>) -> bool {
    text.len() >= prefix.len() && text.take(prefix.len() as int) == prefix
}

/// A table name passes a filter that is empty, that it begins with, or that
/// matches it as a wildcard pattern.
pub open spec fn passes_filter(filter: Seq<char>, table: Seq<char>) -> bool {
    filter.len() == 0 || starts_with(table, filter) || wildcard_match(filter, table)
}

/// Whether a table name passes the filter of a table list.
pub fn table_matches_filter(filter: &str, table: &str) -> (r: bool)
    ensures
        r == passes_filter(filter@, table@),
{
    let n = filter.unicode_len();
    if n == 0 {
        return true;
    }
    if table.unicode_len() >= n {
        let head = substring(table, 0, n);
        if same_text(head.as_str(), filter) {
            proof {
                assert(table@.subrange(0, n as int) =~= table@.take(n as int));
            }
            return true;
        }
        proof {
            assert(table@.subrange(0, n as int) =~= table@.take(n as int));
        }
    }
    wildcard_matches(filter, table)
}

/// The position of the first table of `tables` named `schema.table`.
pub open spec fn first_named(names: Seq<(Seq<char>, Seq<char>)>, schema: Seq<char>, table: Seq<char>) -> Option<
    int,
>
    decreases names.len(),
{
    if names.len() == 0 {
        None
    } else {
        match first_named(names.drop_last(), schema, table) {
            Some(i) => Some(i),
            None => if names.last() == (schema, table) {
                Some(names.len() - 1)
            } else {
                None
            },
        }
    }
}

/// The (schema, table) names of a list of export tables.
pub open spec fn export_names(tables: Seq<TableWithRowsCount>) -> Seq<(Seq<char>, Seq<char>)> {
    tables.map_values(|t: TableWithRowsCount| (t.schema@, t.table@))
}

/// The (schema, table) names of a list of import tables.
pub open spec fn import_names(tables: Seq<TableWithSize>) -> Seq<(Seq<char>, Seq<char>)> {
    tables.map_values(|t: TableWithSize| (t.schema@, t.table@))
}

/// Whether the two names are the same.
fn same_name(a: &String, b: &String, c: &str, d: &str) -> (r: bool)
    ensures
        r == ((a@, b@) == (c@, d@)),
{
    same_text(a.as_str(), c) && same_text(b.as_str(), d)
}

/// Selects every table for export, or none.
pub fn set_all_export_flags(tables: &mut Vec<TableWithRowsCount>, export: bool)
    ensures
        final(tables)@.len() == old(tables)@.len(),
        forall|k: int|
            0 <= k < final(tables)@.len() ==> (#[trigger] final(tables)@[k]).export == export
                && final(tables)@[k].schema == old(tables)@[k].schema && final(tables)@[k].table
                == old(tables)@[k].table && final(tables)@[k].row_count == old(tables)@[k].row_count,
{
    let mut i: usize = 0;
    while i < tables.len()
        invariant
            i <= tables@.len(),
            tables@.len() == old(tables)@.len(),
            forall|k: int|
                0 <= k < tables@.len() ==> (#[trigger] tables@[k]).schema == old(tables)@[k].schema
                    && tables@[k].table == old(tables)@[k].table && tables@[k].row_count == old(
                    tables,
                )@[k].row_count && (k < i ==> tables@[k].export == export) && (k >= i
                    ==> tables@[k].export == old(tables)@[k].export),
        decreases tables@.len() - i,
    {
        tables[i].export = export;
        i = i + 1;
    }
}

proof fn lemma_first_named_extends(
    names: Seq<(Seq<char>, Seq<char>)>,
    schema: Seq<char>,
    table: Seq<char>,
    i: int,
)
    requires
        0 <= i <= names.len(),
        first_named(names.take(i), schema, table) is Some,
    ensures
        first_named(names, schema, table) == first_named(names.take(i), schema, table),
    decreases names.len() - i,
{
    if i < names.len() {
        assert(names.take(i + 1).drop_last() =~= names.take(i));
        lemma_first_named_extends(names, schema, table, i + 1);
    } else {
        assert(names.take(i) =~= names);
    }
}

/// The position of the first export table named `schema.table`.
pub fn find_export_table(tables: &Vec<TableWithRowsCount>, schema: &str, table: &str) -> (r: Option<usize>)
    ensures
        r is None <==> first_named(export_names(tables@), schema@, table@) is None,
        r is Some ==> r->0 == first_named(export_names(tables@), schema@, table@)->0 && r->0 < tables@.len(),
{
    let ghost names = export_names(tables@);
    let mut i: usize = 0;
    proof {
        assert(names.take(0) =~= Seq::<(Seq<char>, Seq<char>)>::empty());
    }
    while i < tables.len()
        invariant
            i <= tables@.len(),
            names == export_names(tables@),
            first_named(names.take(i as int), schema@, table@) is None,
        decreases tables@.len() - i,
    {
        proof {
            assert(names.take(i + 1).drop_last() =~= names.take(i as int));
        }
        if same_name(&tables[i].schema, &tables[i].table, schema, table) {
            proof {
                lemma_first_named_extends(names, schema@, table@, i + 1);
            }
            return Some(i);
        }
        i = i + 1;
    }
    proof {
        assert(names.take(i as int) =~= names);
    }
    None
}

/// Sets the export flag of the first table named `schema.table`; the list is
/// unchanged where no table has that name.
pub fn set_export_flag(tables: &mut Vec<TableWithRowsCount>, schema: &str, table: &str, export: bool)
    ensures
        final(tables)@.len() == old(tables)@.len(),
        forall|k: int|
            #![trigger final(tables)@[k]]
            0 <= k < final(tables)@.len() ==> final(tables)@[k].schema == old(tables)@[k].schema
                && final(tables)@[k].table == old(tables)@[k].table,
        forall|k: int|
            #![trigger final(tables)@[k]]
            0 <= k < final(tables)@.len() && first_named(export_names(old(tables)@), schema@, table@)
                == Some(k) ==> final(tables)@[k].export == export,
        forall|k: int|
            #![trigger final(tables)@[k]]
            0 <= k < final(tables)@.len() && first_named(export_names(old(tables)@), schema@, table@)
                != Some(k) ==> final(tables)@[k].export == old(tables)@[k].export,
{
    match find_export_table(tables, schema, table) {
        Some(j) => {
            tables[j].export = export;
        },
        None => {},
    }
}

/// Whether any table is selected for export.
pub fn any_export_selected(tables: &Vec<TableWithRowsCount>) -> (r: bool)
    ensures
        r == exists|k: int| 0 <= k < tables@.len() && (#[trigger] tables@[k]).export,
{
    let mut i: usize = 0;
    while i < tables.len()
        invariant
            i <= tables@.len(),
            forall|k: int| 0 <= k < i ==> !(#[trigger] tables@[k]).export,
        decreases tables@.len() - i,
    {
        if tables[i].export {
            return true;
        }
        i = i + 1;
    }
    false
}

/// Selects every table for import, or none.
pub fn set_all_import_flags(tables: &mut Vec<TableWithSize>, import: bool)
    ensures
        final(tables)@.len() == old(tables)@.len(),
        forall|k: int|
            0 <= k < final(tables)@.len() ==> (#[trigger] final(tables)@[k]).import == import
                && final(tables)@[k].schema == old(tables)@[k].schema && final(tables)@[k].table
                == old(tables)@[k].table && final(tables)@[k].size_bytes == old(tables)@[k].size_bytes,
{
    let mut i: usize = 0;
    while i < tables.len()
        invariant
            i <= tables@.len(),
            tables@.len() == old(tables)@.len(),
            forall|k: int|
                0 <= k < tables@.len() ==> (#[trigger] tables@[k]).schema == old(tables)@[k].schema
                    && tables@[k].table == old(tables)@[k].table && tables@[k].size_bytes == old(
                    tables,
                )@[k].size_bytes && (k < i ==> tables@[k].import == import) && (k >= i
                    ==> tables@[k].import == old(tables)@[k].import),
        decreases tables@.len() - i,
    {
        tables[i].import = import;
        i = i + 1;
    }
}

/// The position of the first import table named `schema.table`.
pub fn find_import_table(tables: &Vec<TableWithSize>, schema: &str, table: &str) -> (r: Option<usize>)
    ensures
        r is None <==> first_named(import_names(tables@), schema@, table@) is None,
        r is Some ==> r->0 == first_named(import_names(tables@), schema@, table@)->0 && r->0 < tables@.len(),
{
    let ghost names = import_names(tables@);
    let mut i: usize = 0;
    proof {
        assert(names.take(0) =~= Seq::<(Seq<char>, Seq<char>)>::empty());
    }
    while i < tables.len()
        invariant
            i <= tables@.len(),
            names == import_names(tables@),
            first_named(names.take(i as int), schema@, table@) is None,
        decreases tables@.len() - i,
    {
        proof {
            assert(names.take(i + 1).drop_last() =~= names.take(i as int));
        }
        if same_name(&tables[i].schema, &tables[i].table, schema, table) {
            proof {
                lemma_first_named_extends(names, schema@, table@, i + 1);
            }
            return Some(i);
        }
        i = i + 1;
    }
    proof {
        assert(names.take(i as int) =~= names);
    }
    None
}

/// Sets the import flag of the first table named `schema.table`; the list is
/// unchanged where no table has that name.
pub fn set_import_flag(tables: &mut Vec<TableWithSize>, schema: &str, table: &str, import: bool)
    ensures
        final(tables)@.len() == old(tables)@.len(),
        forall|k: int|
            #![trigger final(tables)@[k]]
            0 <= k < final(tables)@.len() ==> final(tables)@[k].schema == old(tables)@[k].schema
                && final(tables)@[k].table == old(tables)@[k].table,
        forall|k: int|
            #![trigger final(tables)@[k]]
            0 <= k < final(tables)@.len() && first_named(import_names(old(tables)@), schema@, table@)
                == Some(k) ==> final(tables)@[k].import == import,
        forall|k: int|
            #![trigger final(tables)@[k]]
            0 <= k < final(tables)@.len() && first_named(import_names(old(tables)@), schema@, table@)
                != Some(k) ==> final(tables)@[k].import == old(tables)@[k].import,
{
    match find_import_table(tables, schema, table) {
        Some(j) => {
            tables[j].import = import;
        },
        None => {},
    }
}

/// Whether any table is selected for import.
pub fn any_import_selected(tables: &Vec<TableWithSize>) -> (r: bool)
    ensures
        r == exists|k: int| 0 <= k < tables@.len() && (#[trigger] tables@[k]).import,
{
    let mut i: usize = 0;
    while i < tables.len()
        invariant
            i <= tables@.len(),
            forall|k: int| 0 <= k < i ==> !(#[trigger] tables@[k]).import,
        decreases tables@.len() - i,
    {
        if tables[i].import {
            return true;
        }
        i = i + 1;
    }
    false
}

} // verus!
