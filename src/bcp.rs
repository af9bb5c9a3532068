use vstd::prelude::*;
use vstd::std_specs::iter::IteratorSpec;
use vstd::string::*;

use crate::conn::{connection_args, texts, TdsConnConfig};
use crate::error::{
    bcp_error_message, regex_replaced, replace_all_matches, TransferError,
};

verus! {

/// The fully qualified name of a table: `[db].[schema].[table]`.
pub open spec fn object_ref(dbname: Seq<char>, schema: Seq<char>, table: Seq<char>) -> Seq<char> {
    "["@ + dbname + "].["@ + schema + "].["@ + table + "]"@
}

/// The name of a table's format descriptor file: `schema.table.xml`.
pub open spec fn format_filename(schema: Seq<char>, table: Seq<char>) -> Seq<char> {
    schema + "."@ + table + ".xml"@
}

/// The name of a table's uncompressed data file: `schema.table.bcp`.
pub open spec fn data_filename(schema: Seq<char>, table: Seq<char>) -> Seq<char> {
    schema + "."@ + table + ".bcp"@
}

/// The arguments that generate a table's format descriptor without moving
/// any data.
pub open spec fn format_mode_args(
    c: TdsConnConfig,
    dbname: Seq<char>,
    schema: Seq<char>,
    table: Seq<char>,
) -> Seq<Seq<char>> {
    seq![
        object_ref(dbname, schema, table),
        "format"@,
        "nul"@,
        "-f"@,
        format_filename(schema, table),
        "-x"@,
        "-n"@,
        "-k"@,
        "-K"@,
        "ReadOnly"@,
    ] + connection_args(c)
}

/// The arguments that copy a table's data out to its data file.
pub open spec fn export_mode_args(
    c: TdsConnConfig,
    dbname: Seq<char>,
    schema: Seq<char>,
    table: Seq<char>,
) -> Seq<Seq<char>> {
    seq![
        object_ref(dbname, schema, table),
        "out"@,
        data_filename(schema, table),
        "-f"@,
        format_filename(schema, table),
        "-k"@,
        "-K"@,
        "ReadOnly"@,
    ] + connection_args(c)
}

/// The arguments that load a table's data file into the table.
pub open spec fn import_mode_args(
    c: TdsConnConfig,
    dbname: Seq<char>,
    schema: Seq<char>,
    table: Seq<char>,
) -> Seq<Seq<char>> {
    seq![
        object_ref(dbname, schema, table),
        "in"@,
        data_filename(schema, table),
        "-f"@,
        format_filename(schema, table),
        "-k"@,
        "-E"@,
        "-m"@,
        "1"@,
    ] + connection_args(c)
}

fn text(s: &str) -> (r: String)
    ensures
        r@ == s@,
{
    String::from_str(s)
}

/// `[db].[schema].[table]`.
pub fn object_ref_text(dbname: &str, schema: &str, table: &str) -> (r: String)
    ensures
        r@ == object_ref(dbname@, schema@, table@),
{
    text("[").concat(dbname).concat("].[").concat(schema).concat("].[").concat(table).concat("]")
}

/// `schema.table.xml`.
pub fn format_filename_text(schema: &str, table: &str) -> (r: String)
    ensures
        r@ == format_filename(schema@, table@),
{
    text(schema).concat(".").concat(table).concat(".xml")
}

/// `schema.table.bcp`.
pub fn data_filename_text(schema: &str, table: &str) -> (r: String)
    ensures
        r@ == data_filename(schema@, table@),
{
    text(schema).concat(".").concat(table).concat(".bcp")
}

/// The command line of the bulk-copy utility that generates the format
/// descriptor of a table.
pub fn format_args(conn: &TdsConnConfig, dbname: &str, schema: &str, table: &str) -> (r: Vec<
    String,
>)
    ensures
        texts(r@) == format_mode_args(*conn, dbname@, schema@, table@),
{
    let mut args: Vec<String> = Vec::new();
    args.push(object_ref_text(dbname, schema, table));
    args.push(text("format"));
    args.push(text("nul"));
    args.push(text("-f"));
    args.push(format_filename_text(schema, table));
    args.push(text("-x"));
    args.push(text("-n"));
    args.push(text("-k"));
    args.push(text("-K"));
    args.push(text("ReadOnly"));
    let ghost head = texts(args@);
    proof {
        assert(head =~= seq![
            object_ref(dbname@, schema@, table@),
            "format"@,
            "nul"@,
            "-f"@,
            format_filename(schema@, table@),
            "-x"@,
            "-n"@,
            "-k"@,
            "-K"@,
            "ReadOnly"@,
        ]);
    }
    conn.push_connection_args(&mut args);
    args
}

/// The command line of the bulk-copy utility that copies the data of a
/// table out to its data file.
pub fn export_args(conn: &TdsConnConfig, dbname: &str, schema: &str, table: &str) -> (r: Vec<
    String,
>)
    ensures
        texts(r@) == export_mode_args(*conn, dbname@, schema@, table@),
{
    let mut args: Vec<String> = Vec::new();
    args.push(object_ref_text(dbname, schema, table));
    args.push(text("out"));
    args.push(data_filename_text(schema, table));
    args.push(text("-f"));
    args.push(format_filename_text(schema, table));
    args.push(text("-k"));
    args.push(text("-K"));
    args.push(text("ReadOnly"));
    let ghost head = texts(args@);
    proof {
        assert(head =~= seq![
            object_ref(dbname@, schema@, table@),
            "out"@,
            data_filename(schema@, table@),
            "-f"@,
            format_filename(schema@, table@),
            "-k"@,
            "-K"@,
            "ReadOnly"@,
        ]);
    }
    conn.push_connection_args(&mut args);
    args
}

/// The command line of the bulk-copy utility that loads a table's data
/// file into the table.
pub fn import_args(conn: &TdsConnConfig, dbname: &str, schema: &str, table: &str) -> (r: Vec<
    String,
>)
    ensures
        texts(r@) == import_mode_args(*conn, dbname@, schema@, table@),
{
    let mut args: Vec<String> = Vec::new();
    args.push(object_ref_text(dbname, schema, table));
    args.push(text("in"));
    args.push(data_filename_text(schema, table));
    args.push(text("-f"));
    args.push(format_filename_text(schema, table));
    args.push(text("-k"));
    args.push(text("-E"));
    args.push(text("-m"));
    args.push(text("1"));
    let ghost head = texts(args@);
    proof {
        assert(head =~= seq![
            object_ref(dbname@, schema@, table@),
            "in"@,
            data_filename(schema@, table@),
            "-f"@,
            format_filename(schema@, table@),
            "-k"@,
            "-E"@,
            "-m"@,
            "1"@,
        ]);
    }
    conn.push_connection_args(&mut args);
    args
}

/// The line that a chunk of the utility's output up to a newline holds:
/// the chunk without its two closing characters (`\r\n`), and nothing for a
/// chunk shorter than that.
pub fn output_line(chunk: &Vec<u8>) -> (r: Option<Vec<u8>>)
    ensures
        chunk@.len() < 2 ==> r is None,
        chunk@.len() >= 2 ==> r is Some && r->0@ == chunk@.take(chunk@.len() - 2),
{
    if chunk.len() < 2 {
        None
    } else {
        let n = chunk.len() - 2;
        let mut line: Vec<u8> = Vec::new();
        let mut i: usize = 0;
        while i < n
            invariant
                n == chunk@.len() - 2,
                i <= n,
                line@ == chunk@.take(i as int),
            decreases n - i,
        {
            line.push(chunk[i]);
            proof {
                assert(chunk@.take(i + 1) =~= chunk@.take(i as int).push(chunk@[i as int]));
            }
            i = i + 1;
        }
        Some(line)
    }
}

/// The error of a utility that could not be started.
pub fn spawn_failure(msg: String) -> (r: TransferError)
    ensures
        r@ == bcp_error_message("bcp process spawn failure"@, msg@),
{
    TransferError::from_bcp_error("bcp process spawn failure", msg)
}

/// The error of a failure while reading the utility's output.
pub fn process_failure(msg: String) -> (r: TransferError)
    ensures
        r@ == bcp_error_message("bcp process failure"@, msg@),
{
    TransferError::from_bcp_error("bcp process failure", msg)
}

/// The outcome of a run of the utility once its output has ended, from
/// whether the process was seen to have exited (or the error of asking).
pub fn exit_outcome(status: Result<bool, String>) -> (r: Result<(), TransferError>)
    ensures
        status == Ok::<bool, String>(true) ==> r is Ok,
        status == Ok::<bool, String>(false) ==> r is Err && r->Err_0@ == "bcp process failure"@,
        status is Err ==> r is Err && r->Err_0@ == bcp_error_message(
            "bcp process failure"@,
            status->Err_0@,
        ),
{
    match status {
        Ok(true) => Ok(()),
        Ok(false) => Err(TransferError::from_str("bcp process failure")),
        Err(msg) => Err(process_failure(msg)),
    }
}

/// Matches a `COLLATION="..."` attribute, in any letter case.
pub const COLLATION_PATTERN: &'static str = "(?i)\\sCOLLATION=\"\\w+\"";

/// What a `COLLATION` attribute is replaced with.
pub const COLLATION_EMPTY: &'static str = " COLLATION=\"\"";

/// A format descriptor with the value of each collation attribute removed.
pub open spec fn collation_stripped(text: Seq<char>) -> Seq<char> {
    regex_replaced(COLLATION_PATTERN@, text, COLLATION_EMPTY@)
}

/// Empties every collation attribute of a format descriptor, so that it can
/// be replayed against a server with another default collation.
pub fn strip_collation(descriptor: &str) -> (r: String)
    ensures
        r@ == collation_stripped(descriptor@),
{
    replace_all_matches(COLLATION_PATTERN, descriptor, COLLATION_EMPTY)
}

/// The outcome of a step of format descriptor post-processing: its text,
/// or its error under a common prefix.
pub fn post_processing_outcome(step: Result<String, String>) -> (r: Result<String, TransferError>)
    ensures
        step is Ok ==> r is Ok && r->Ok_0 == step->Ok_0,
        step is Err ==> r is Err && r->Err_0@ == "Format file post-processing error: "@
            + step->Err_0@,
{
    match step {
        Ok(s) => Ok(s),
        Err(e) => Err(
            TransferError::from_string(text("Format file post-processing error: ").concat(e.as_str())),
        ),
    }
}

/// The little-endian 16-bit units of `bytes`, taken two bytes at a time; an
/// odd last byte is left out.
pub open spec fn le_units(bytes: Seq<u8>) -> Seq<u16> {
    Seq::new(
        (bytes.len() / 2) as nat,
        |i: int| (bytes[2 * i] as int + 256 * (bytes[2 * i + 1] as int)) as u16,
    )
}

/// The units are well-formed UTF-16: the encoding of some text.
pub open spec fn utf16_valid(units: Seq<u16>) -> bool {
    exists|t: Seq<char>| #[trigger] utf16_encoded(t) == units
}

/// Relies on `String::from_utf16`: well-formed UTF-16 (the encoding of a
/// text) decodes to the text it encodes, and anything else fails.
#[verifier::external_body]
fn decode_utf16(units: &Vec<u16>) -> (r: Result<String, String>)
    ensures
        r is Ok <==> utf16_valid(units@),
        r is Ok ==> utf16_encoded(r->Ok_0@) == units@,
{
    String::from_utf16(units).map_err(|e| e.to_string())
}

/// Reads the bytes of a format descriptor as little-endian 16-bit units.
pub fn utf16_units(bytes: &Vec<u8>) -> (r: Vec<u16>)
    ensures
        r@ == le_units(bytes@),
{
    let len = bytes.len();
    let n = len / 2;
    let mut units: Vec<u16> = Vec::new();
    let mut i: usize = 0;
    while i < n
        invariant
            n == bytes@.len() / 2,
            len == bytes@.len(),
            2 * n <= len,
            i <= n,
            units@ =~= le_units(bytes@).take(i as int),
        decreases n - i,
    {
        let lo = bytes[2 * i] as u16;
        let hi = bytes[2 * i + 1] as u16;
        let unit = lo + hi * 256;
        units.push(unit);
        i = i + 1;
    }
    units
}

/// Decodes a format descriptor, written by the utility as UTF-16 little
/// endian, into the text it encodes and empties its collation attributes;
/// it fails where the bytes are not well-formed UTF-16.
pub fn post_process_format_file(bytes: &Vec<u8>) -> (r: Result<String, TransferError>)
    ensures
        r is Ok <==> utf16_valid(le_units(bytes@)),
        r is Ok ==> exists|t: Seq<char>|
            #[trigger] utf16_encoded(t) == le_units(bytes@) && r->Ok_0@ == collation_stripped(t),
        r is Err ==> exists|e: Seq<char>| r->Err_0@ == "Format file post-processing error: "@ + e,
{
    let units = utf16_units(bytes);
    match post_processing_outcome(decode_utf16(&units)) {
        Ok(descriptor) => Ok(strip_collation(descriptor.as_str())),
        Err(e) => Err(e),
    }
}

/// The UTF-16 units of one character: itself below 0x10000, else a
/// surrogate pair.
pub open spec fn char_units(c: char) -> Seq<u16> {
    let v = c as u32;
    if v < 0x10000 {
        seq![v as u16]
    } else {
        seq![(0xD800 + (v - 0x10000) / 0x400) as u16, (0xDC00 + (v - 0x10000) % 0x400) as u16]
    }
}

/// The UTF-16 encoding of a text.
pub open spec fn utf16_encoded(s: Seq<char>) -> Seq<u16>
    decreases s.len(),
{
    if s.len() == 0 {
        Seq::empty()
    } else {
        utf16_encoded(s.drop_last()) + char_units(s.last())
    }
}

/// 16-bit units written little-endian, two bytes each.
pub open spec fn le_bytes(units: Seq<u16>) -> Seq<u8>
    decreases units.len(),
{
    if units.len() == 0 {
        Seq::empty()
    } else {
        le_bytes(units.drop_last()) + seq![(units.last() % 256) as u8, (units.last() / 256) as u8]
    }
}

fn push_unit(out: &mut Vec<u8>, unit: u16)
    ensures
        final(out)@ == old(out)@ + seq![(unit % 256) as u8, (unit / 256) as u8],
{
    out.push((unit % 256) as u8);
    out.push((unit / 256) as u8);
    proof {
        assert(final(out)@ =~= old(out)@ + seq![(unit % 256) as u8, (unit / 256) as u8]);
    }
}

/// A text encoded as UTF-16, little endian, as the bulk-copy utility reads
/// its format descriptors.
pub fn utf16le_bytes(s: &str) -> (r: Vec<u8>)
    ensures
        r@ == le_bytes(utf16_encoded(s@)),
{
    broadcast use vstd::string::group_string_axioms;

    let mut out: Vec<u8> = Vec::new();
    let mut it = s.chars();
    let n = s.unicode_len();
    let mut i: usize = 0;
    proof {
        assert(s@.take(0) =~= Seq::<char>::empty());
    }
    loop
        invariant
            n == s@.len(),
            i <= n,
            it.remaining() == s@.skip(i as int),
            out@ == le_bytes(utf16_encoded(s@.take(i as int))),
        decreases n - i,
    {
        let ghost before = it.remaining();
        match it.next() {
            None => {
                proof {
                    assert(s@.take(i as int) =~= s@);
                }
                return out;
            },
            Some(c) => {
                proof {
                    assert(before.len() > 0);
                    assert(c == s@[i as int]);
                    assert(s@.take(i + 1).drop_last() =~= s@.take(i as int));
                    assert(s@.skip(i + 1) =~= before.drop_first());
                    assert(s@.take(i + 1).last() == c);
                }
                let ghost start = utf16_encoded(s@.take(i as int));
                let ghost prev = out@;
                proof {
                    assert(utf16_encoded(s@.take(i + 1)) == start + char_units(c));
                }
                let v = c as u32;
                if v < 0x10000 {
                    push_unit(&mut out, v as u16);
                    proof {
                        assert(start + char_units(c) =~= start.push(v as u16));
                        assert((start.push(v as u16)).drop_last() =~= start);
                        assert(le_bytes(start.push(v as u16)) == le_bytes(start) + seq![
                            ((v as u16) % 256) as u8,
                            ((v as u16) / 256) as u8,
                        ]);
                    }
                } else {
                    let w = v - 0x10000;
                    let hi = (0xD800 + w / 0x400) as u16;
                    let lo = (0xDC00 + w % 0x400) as u16;
                    push_unit(&mut out, hi);
                    push_unit(&mut out, lo);
                    proof {
                        assert(start + char_units(c) =~= start.push(hi).push(lo));
                        assert(start.push(hi).push(lo).drop_last() =~= start.push(hi));
                        assert(start.push(hi).drop_last() =~= start);
                        assert(le_bytes(start.push(hi)) == le_bytes(start) + seq![
                            (hi % 256) as u8,
                            (hi / 256) as u8,
                        ]);
                        assert(le_bytes(start.push(hi).push(lo)) == le_bytes(start.push(hi)) + seq![
                            (lo % 256) as u8,
                            (lo / 256) as u8,
                        ]);
                        assert(out@ =~= le_bytes(start.push(hi).push(lo)));
                    }
                }
                i = i + 1;
            },
        }
    }
}

} // verus!
