use vstd::prelude::*;
use vstd::string::*;

use crate::bcp::{data_filename, data_filename_text, format_filename, format_filename_text};
use crate::conn::texts;
use crate::error::TransferError;
use crate::table::{is_data_entry_name, unexpected_entry_message, TableWithSize};
use crate::text::{
    ends_with, fields, holds_text, lacks, lemma_fields_nonempty, split, substring, text_ends_with,
    text_lacks,
};

verus! {

/// How a table's data is compressed inside an archive.
#[derive(PartialEq, Eq, Structural, Clone, Copy, Debug)]
pub enum Codec {
    Gzip,
    Zstd,
}

/// The entry names a directory at the top of the archive: it ends with `/`
/// and holds no other `/`.
pub open spec fn is_top_dir_entry(name: Seq<char>) -> bool {
    ends_with(name, "/"@) && lacks(name.drop_last(), '/')
}

/// The root directory of an archive: the first top-level directory entry,
/// without its slash.
pub open spec fn first_dir_entry(names: Seq<Seq<char>>) -> Option<Seq<char>>
    decreases names.len(),
{
    if names.len() == 0 {
        None
    } else if is_top_dir_entry(names[0]) {
        Some(names[0].drop_last())
    } else {
        first_dir_entry(names.drop_first())
    }
}

/// The name of an entry under the root directory.
pub open spec fn entry_path(root: Seq<char>, file: Seq<char>) -> Seq<char> {
    root + "/"@ + file
}

/// The zstd-compressed data entry of a table.
pub open spec fn zstd_entry(root: Seq<char>, schema: Seq<char>, table: Seq<char>) -> Seq<char> {
    entry_path(root, data_filename(schema, table) + ".zstd"@)
}

/// The gzip-compressed data entry of a table.
pub open spec fn gz_entry(root: Seq<char>, schema: Seq<char>, table: Seq<char>) -> Seq<char> {
    entry_path(root, data_filename(schema, table) + ".gz"@)
}

/// The message of a table whose data is in neither form.
pub open spec fn missing_data_message(zstd: Seq<char>, gz: Seq<char>) -> Seq<char> {
    "Table data entry not found in archive, name: "@ + zstd + " or "@ + gz
}

/// The message of a table whose format descriptor is missing.
pub open spec fn missing_format_message(format: Seq<char>) -> Seq<char> {
    "Table format entry not found in archive, name: "@ + format
}

/// Where the files of one table are inside an archive, and what they are
/// called once extracted.
pub struct TableEntries {
    pub data_entry: String,
    pub codec: Codec,
    pub format_entry: String,
    pub data_filename: String,
    pub format_filename: String,
}

/// Finds the root directory of an archive from the names of its entries.
pub fn archive_root(names: &Vec<String>) -> (r: Option<String>)
    ensures
        r is None <==> first_dir_entry(texts(names@)) is None,
        r is Some ==> first_dir_entry(texts(names@)) == Some(r->0@),
{
    let mut i: usize = 0;
    proof {
        assert(texts(names@).skip(0) =~= texts(names@));
        reveal_strlit("/");
    }
    while i < names.len()
        invariant
            i <= names@.len(),
            "/"@.len() == 1,
            first_dir_entry(texts(names@)) == first_dir_entry(texts(names@).skip(i as int)),
        decreases names@.len() - i,
    {
        let name = names[i].as_str();
        proof {
            assert(texts(names@).skip(i as int)[0] == name@);
            assert(texts(names@).skip(i as int).drop_first() =~= texts(names@).skip(i + 1));
        }
        if text_ends_with(name, "/") {
            let n = name.unicode_len();
            let root = substring(name, 0, n - 1);
            proof {
                assert(root@ =~= name@.drop_last());
            }
            if text_lacks(root.as_str(), '/') {
                return Some(root);
            }
        }
        i = i + 1;
    }
    proof {
        assert(texts(names@).skip(i as int).len() == 0);
    }
    None
}

/// Locates the data and format entries of a table among the entries of an
/// archive. The data is taken zstd-compressed where the archive holds that
/// form, else gzip-compressed.
pub fn locate_table_entries(names: &Vec<String>, schema: &str, table: &str) -> (r: Result<
    TableEntries,
    TransferError,
>)
    ensures
        first_dir_entry(texts(names@)) is None ==> r is Err && r->Err_0@
            == "Directory entry not found in ZIP file"@,
        first_dir_entry(texts(names@)) is Some ==> ({
            let root = first_dir_entry(texts(names@))->0;
            let zstd = zstd_entry(root, schema@, table@);
            let gz = gz_entry(root, schema@, table@);
            let format = entry_path(root, format_filename(schema@, table@));
            &&& texts(names@).contains(zstd) && texts(names@).contains(format) ==> r is Ok
                && r->Ok_0.data_entry@ == zstd && r->Ok_0.codec == Codec::Zstd
            &&& !texts(names@).contains(zstd) && texts(names@).contains(gz) && texts(
                names@,
            ).contains(format) ==> r is Ok && r->Ok_0.data_entry@ == gz && r->Ok_0.codec
                == Codec::Gzip
            &&& !texts(names@).contains(zstd) && !texts(names@).contains(gz) ==> r is Err
                && r->Err_0@ == missing_data_message(zstd, gz)
            &&& (texts(names@).contains(zstd) || texts(names@).contains(gz)) && !texts(
                names@,
            ).contains(format) ==> r is Err && r->Err_0@ == missing_format_message(format)
            &&& r is Ok ==> r->Ok_0.format_entry@ == entry_path(
                root,
                format_filename(schema@, table@),
            ) && r->Ok_0.data_filename@ == data_filename(schema@, table@)
                && r->Ok_0.format_filename@ == format_filename(schema@, table@)
        }),
{
    let root = match archive_root(names) {
        Some(root) => root,
        None => {
            return Err(TransferError::from_str("Directory entry not found in ZIP file"));
        },
    };
    let data_file = data_filename_text(schema, table);
    let format_file = format_filename_text(schema, table);
    let base = root.clone().concat("/").concat(data_file.as_str());
    let zstd = base.clone().concat(".zstd");
    let gz = base.concat(".gz");
    let format_entry = root.concat("/").concat(format_file.as_str());
    proof {
        assert(zstd@ =~= zstd_entry(root@, schema@, table@));
        assert(gz@ =~= gz_entry(root@, schema@, table@));
        assert(format_entry@ =~= entry_path(root@, format_filename(schema@, table@)));
    }
    let (data_entry, codec) = if holds_text(names, zstd.as_str()) {
        (zstd, Codec::Zstd)
    } else if holds_text(names, gz.as_str()) {
        (gz, Codec::Gzip)
    } else {
        let message = String::from_str("Table data entry not found in archive, name: ").concat(
            zstd.as_str(),
        ).concat(" or ").concat(gz.as_str());
        return Err(TransferError::from_string(message));
    };
    if !holds_text(names, format_entry.as_str()) {
        let message = String::from_str("Table format entry not found in archive, name: ").concat(
            format_entry.as_str(),
        );
        return Err(TransferError::from_string(message));
    }
    Ok(
        TableEntries {
            data_entry,
            codec,
            format_entry,
            data_filename: data_file,
            format_filename: format_file,
        },
    )
}

/// The decompressor that a data entry's extension selects.
pub fn codec_of_entry(name: &str) -> (r: Codec)
    ensures
        r == (if ends_with(name@, ".zstd"@) {
            Codec::Zstd
        } else {
            Codec::Gzip
        }),
{
    if text_ends_with(name, ".zstd") {
        Codec::Zstd
    } else {
        Codec::Gzip
    }
}

/// An entry of an archive: its name and its compressed size.
#[derive(Clone, Debug)]
pub struct ArchiveEntry {
    pub name: String,
    pub size: u64,
}

/// The entry holds a table's compressed data.
pub open spec fn is_data_entry_path(name: Seq<char>) -> bool {
    ends_with(name, ".bcp.gz"@) || ends_with(name, ".bcp.zstd"@)
}

/// The file name of an entry: its name after the last `/`.
pub open spec fn base_name(name: Seq<char>) -> Seq<char> {
    fields(name, '/').last()
}

/// The entry is a data entry whose file name is not a table's.
pub open spec fn is_bad_entry(e: ArchiveEntry) -> bool {
    is_data_entry_path(e.name@) && !is_data_entry_name(base_name(e.name@))
}

/// The first entry that is a data entry with a malformed file name.
pub open spec fn first_bad_entry(entries: Seq<ArchiveEntry>) -> Option<int>
    decreases entries.len(),
{
    if entries.len() == 0 {
        None
    } else {
        match first_bad_entry(entries.drop_last()) {
            Some(j) => Some(j),
            None => if is_bad_entry(entries.last()) {
                Some(entries.len() - 1)
            } else {
                None
            },
        }
    }
}

/// A table as (schema, table, size).
pub open spec fn table_model(t: TableWithSize) -> (Seq<char>, Seq<char>, u64) {
    (t.schema@, t.table@, t.size_bytes)
}

/// The tables that the data entries of an archive name, in entry order.
pub open spec fn listed_tables(entries: Seq<ArchiveEntry>) -> Seq<(Seq<char>, Seq<char>, u64)>
    decreases entries.len(),
{
    if entries.len() == 0 {
        Seq::empty()
    } else {
        let e = entries.last();
        let f = fields(base_name(e.name@), '.');
        listed_tables(entries.drop_last()) + if is_data_entry_path(e.name@) {
            seq![(f[0], f[1], e.size)]
        } else {
            Seq::empty()
        }
    }
}

proof fn lemma_first_bad_prefix(entries: Seq<ArchiveEntry>, i: int)
    requires
        0 <= i < entries.len(),
        first_bad_entry(entries.take(i)) is None,
        !is_bad_entry(entries[i]),
    ensures
        first_bad_entry(entries.take(i + 1)) is None,
{
    assert(entries.take(i + 1).drop_last() =~= entries.take(i));
}

/// The tables that an archive holds, read from the names and sizes of its
/// entries: each entry whose name ends in `.bcp.gz` or `.bcp.zstd` gives
/// one table, none selected; a malformed one fails the whole listing.
pub fn tables_in_archive(entries: &Vec<ArchiveEntry>) -> (r: Result<
    Vec<TableWithSize>,
    TransferError,
>)
    ensures
        r is Ok <==> first_bad_entry(entries@) is None,
        r is Ok ==> r->Ok_0@.map_values(|t: TableWithSize| table_model(t)) == listed_tables(
            entries@,
        ),
        r is Ok ==> forall|k: int| 0 <= k < r->Ok_0@.len() ==> !r->Ok_0@[k].import,
        r is Err ==> r->Err_0@ == unexpected_entry_message(
            base_name(entries@[first_bad_entry(entries@)->0].name@),
        ),
{
    let mut tables: Vec<TableWithSize> = Vec::new();
    let mut i: usize = 0;
    while i < entries.len()
        invariant
            i <= entries@.len(),
            first_bad_entry(entries@.take(i as int)) is None,
            tables@.map_values(|t: TableWithSize| table_model(t)) == listed_tables(
                entries@.take(i as int),
            ),
            forall|k: int| 0 <= k < tables@.len() ==> !tables@[k].import,
        decreases entries@.len() - i,
    {
        let entry = &entries[i];
        let name = entry.name.as_str();
        let ghost before = tables@.map_values(|t: TableWithSize| table_model(t));
        proof {
            assert(entries@.take(i + 1).drop_last() =~= entries@.take(i as int));
            assert(entries@.take(i + 1).last() == entries@[i as int]);
        }
        if text_ends_with(name, ".bcp.gz") || text_ends_with(name, ".bcp.zstd") {
            let parts = split(name, '/');
            proof {
                lemma_fields_nonempty(name@, '/');
                assert(parts@.len() == fields(name@, '/').len());
                assert(parts@[parts@.len() - 1]@ == base_name(name@));
            }
            let file = parts[parts.len() - 1].as_str();
            match TableWithSize::new(file, entry.size) {
                Ok(t) => {
                    tables.push(t);
                    proof {
                        assert(tables@.map_values(|t: TableWithSize| table_model(t)) =~= listed_tables(
                            entries@.take(i + 1),
                        ));
                        lemma_first_bad_prefix(entries@, i as int);
                    }
                },
                Err(e) => {
                    proof {
                        assert(first_bad_entry(entries@.take(i + 1)) == Some(i as int));
                        lemma_first_bad_extends(entries@, i as int + 1);
                    }
                    return Err(e);
                },
            }
        } else {
            proof {
                assert(tables@.map_values(|t: TableWithSize| table_model(t)) =~= listed_tables(
                    entries@.take(i + 1),
                ));
                lemma_first_bad_prefix(entries@, i as int);
            }
        }
        i = i + 1;
    }
    proof {
        assert(entries@.take(i as int) =~= entries@);
    }
    Ok(tables)
}

/// The first malformed entry of a prefix stays the first of the whole list.
proof fn lemma_first_bad_extends(entries: Seq<ArchiveEntry>, i: int)
    requires
        0 <= i <= entries.len(),
        first_bad_entry(entries.take(i)) is Some,
    ensures
        first_bad_entry(entries) == first_bad_entry(entries.take(i)),
    decreases entries.len() - i,
{
    if i < entries.len() {
        assert(entries.take(i + 1).drop_last() =~= entries.take(i));
        lemma_first_bad_extends(entries, i + 1);
    } else {
        assert(entries.take(i) =~= entries);
    }
}

} // verus!
