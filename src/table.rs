use vstd::prelude::*;
use vstd::string::*;

use crate::error::TransferError;
use crate::text::{
    fields, joined, lacks, lemma_fields_join, lemma_fields_joined, lemma_fields_single, same_text,
    split,
};

verus! {

/// A table on the export side: where it lives, its estimated row count
/// (`-1` when unknown) and whether it is selected for transfer.
#[derive(Clone, Debug)]
pub struct TableWithRowsCount {
    pub schema: String,
    pub table: String,
    pub row_count: i64,
    pub export: bool,
}

impl TableWithRowsCount {
    pub fn new(schema: &str, table: &str, row_count: i64) -> (r: Self)
        ensures
            r.schema@ == schema@,
            r.table@ == table@,
            r.row_count == row_count,
            !r.export,
    {
        TableWithRowsCount {
            schema: String::from_str(schema),
            table: String::from_str(table),
            row_count,
            export: false,
        }
    }

    pub fn set_export(&mut self, export: bool)
        ensures
            final(self).export == export,
            final(self).schema == old(self).schema,
            final(self).table == old(self).table,
            final(self).row_count == old(self).row_count,
    {
        self.export = export;
    }
}

/// A table on the import side, read from an archive entry: where it goes,
/// the size of its compressed data and whether it is selected.
#[derive(Clone, Debug)]
pub struct TableWithSize {
    pub schema: String,
    pub table: String,
    pub size_bytes: u64,
    pub import: bool,
}

/// A codec suffix of a compressed data entry.
pub open spec fn is_codec(c: Seq<char>) -> bool {
    c == "gz"@ || c == "zstd"@
}

/// The file name of the compressed data of a table.
pub open spec fn data_entry_name(schema: Seq<char>, table: Seq<char>, codec: Seq<char>) -> Seq<
    char,
> {
    schema + seq!['.'] + table + seq!['.'] + "bcp"@ + seq!['.'] + codec
}

/// A data entry name has exactly four dot-separated fields, the third is
/// `bcp` and the fourth a codec.
pub open spec fn is_data_entry_name(name: Seq<char>) -> bool {
    let f = fields(name, '.');
    f.len() == 4 && f[2] == "bcp"@ && is_codec(f[3])
}

/// The message of a rejected entry name.
pub open spec fn unexpected_entry_message(name: Seq<char>) -> Seq<char> {
    "Unexpected ZIP entry name: "@ + name
}

impl TableWithSize {
    /// Reads the schema and table from the file name of a data entry.
    pub fn new(zip_entry_name: &str, size_bytes: u64) -> (r: Result<Self, TransferError>)
        ensures
            r is Ok <==> is_data_entry_name(zip_entry_name@),
            r is Ok ==> ({
                let t = r->Ok_0;
                &&& t.schema@ == fields(zip_entry_name@, '.')[0]
                &&& t.table@ == fields(zip_entry_name@, '.')[1]
                &&& t.size_bytes == size_bytes
                &&& !t.import
            }),
            r is Err ==> r->Err_0@ == unexpected_entry_message(zip_entry_name@),
    {
        let parts = split(zip_entry_name, '.');
        let ghost f = fields(zip_entry_name@, '.');
        proof {
            assert(parts@.len() == f.len());
        }
        if parts.len() == 4 && same_text(parts[2].as_str(), "bcp") && (same_text(
            parts[3].as_str(),
            "gz",
        ) || same_text(parts[3].as_str(), "zstd")) {
            proof {
                assert(parts@[0]@ == f[0]);
                assert(parts@[1]@ == f[1]);
                assert(parts@[2]@ == f[2]);
                assert(parts@[3]@ == f[3]);
            }
            Ok(
                TableWithSize {
                    schema: parts[0].clone(),
                    table: parts[1].clone(),
                    size_bytes,
                    import: false,
                },
            )
        } else {
            proof {
                if f.len() == 4 {
                    assert(parts@[2]@ == f[2]);
                    assert(parts@[3]@ == f[3]);
                }
            }
            Err(
                TransferError::from_string(
                    String::from_str("Unexpected ZIP entry name: ").concat(zip_entry_name),
                ),
            )
        }
    }

    pub fn set_import(&mut self, import: bool)
        ensures
            final(self).import == import,
            final(self).schema == old(self).schema,
            final(self).table == old(self).table,
            final(self).size_bytes == old(self).size_bytes,
    {
        self.import = import;
    }
}

/// The name of the data entry of a table, built from a schema and a table
/// that hold no dot and from a codec, is accepted and read back as that
/// schema and table; with `TableWithSize::new` rejecting every name that is
/// not four dot-separated fields ending in `bcp` and a codec, the two form a
/// round trip.
pub proof fn lemma_data_entry_name_round_trip(
    schema: Seq<char>,
    table: Seq<char>,
    codec: Seq<char>,
)
    requires
        lacks(schema, '.'),
        lacks(table, '.'),
        is_codec(codec),
    ensures
        is_data_entry_name(data_entry_name(schema, table, codec)),
        fields(data_entry_name(schema, table, codec), '.')[0] == schema,
        fields(data_entry_name(schema, table, codec), '.')[1] == table,
        fields(data_entry_name(schema, table, codec), '.')[3] == codec,
{
    reveal_strlit("bcp");
    reveal_strlit("gz");
    reveal_strlit("zstd");
    let bcp = "bcp"@;
    let tail = bcp + seq!['.'] + codec;
    let mid = table + seq!['.'] + tail;
    assert(data_entry_name(schema, table, codec) =~= schema + seq!['.'] + mid);
    lemma_fields_join(schema, mid, '.');
    lemma_fields_join(table, tail, '.');
    lemma_fields_join(bcp, codec, '.');
    lemma_fields_single(schema, '.');
    lemma_fields_single(table, '.');
    lemma_fields_single(bcp, '.');
    lemma_fields_single(codec, '.');
    assert(fields(data_entry_name(schema, table, codec), '.') =~= seq![schema, table, bcp, codec]);
}

/// Every accepted data entry name is the entry name of the schema, table
/// and codec read from it, and the schema and table hold no dot: reading a
/// name and writing it again gives the same name.
pub proof fn lemma_data_entry_name_written_back(name: Seq<char>)
    requires
        is_data_entry_name(name),
    ensures
        lacks(fields(name, '.')[0], '.'),
        lacks(fields(name, '.')[1], '.'),
        name == data_entry_name(fields(name, '.')[0], fields(name, '.')[1], fields(name, '.')[3]),
{
    let f = fields(name, '.');
    lemma_fields_joined(name, '.');
    assert(f.drop_last().drop_last().drop_last() =~= seq![f[0]]);
    assert(f.drop_last().drop_last() =~= seq![f[0], f[1]]);
    assert(f.drop_last() =~= seq![f[0], f[1], f[2]]);
    assert(joined(seq![f[0]], '.') == f[0]);
    assert(joined(seq![f[0], f[1]], '.') == f[0] + seq!['.'] + f[1]);
    assert(joined(seq![f[0], f[1], f[2]], '.') == f[0] + seq!['.'] + f[1] + seq!['.'] + f[2]);
    assert(joined(f, '.') == joined(seq![f[0], f[1], f[2]], '.') + seq!['.'] + f[3]);
    assert(name =~= data_entry_name(f[0], f[1], f[3]));
}

} // verus!
