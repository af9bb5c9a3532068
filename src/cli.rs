use vstd::prelude::*;
use vstd::string::*;

use crate::conn::TdsConnConfig;
use crate::error::TransferError;
use crate::text::same_text;

verus! {

/// `c` is an ASCII decimal digit.
pub open spec fn is_digit(c: char) -> bool {
    '0' <= c && c <= '9'
}

/// The value of a nonempty run of decimal digits.
pub open spec fn digits_value(s: Seq<char>) -> int
    decreases s.len(),
{
    if s.len() == 0 {
        0
    } else {
        digits_value(s.drop_last()) * 10 + (s.last() as u32 - '0' as u32)
    }
}

/// The integer that `s` writes in decimal: an optional `+` or `-`, then at
/// least one digit and nothing else.
pub open spec fn decimal_text_value(s: Seq<char>) -> Option<int> {
    let signed = s.len() > 0 && (s[0] == '+' || s[0] == '-');
    let digits = if signed {
        s.drop_first()
    } else {
        s
    };
    if digits.len() > 0 && forall|i: int| 0 <= i < digits.len() ==> is_digit(#[trigger] digits[i]) {
        Some(
            if signed && s[0] == '-' {
                -digits_value(digits)
            } else {
                digits_value(digits)
            },
        )
    } else {
        None
    }
}

/// `s` is the decimal text of a value that fits in an `i32`.
pub open spec fn is_i32_text(s: Seq<char>) -> bool {
    decimal_text_value(s) is Some && i32::MIN <= decimal_text_value(s)->0 <= i32::MAX
}

/// Relies on `str::parse::<i32>`: it accepts an optional sign followed by
/// decimal digits whose value fits in `i32`, and returns that value.
#[verifier::external_body]
fn parse_i32(s: &str) -> (r: Result<i32, String>)
    ensures
        r is Ok <==> is_i32_text(s@),
        r is Ok ==> r->Ok_0 == decimal_text_value(s@)->0,
{
    s.parse::<i32>().map_err(|e| e.to_string())
}

/// The connection options of the command line, as given; an empty text is
/// an option left out.
pub struct ConnOptions {
    pub hostname: String,
    pub port: String,
    pub instance: String,
    pub username: String,
    pub password: String,
    pub windows_auth: bool,
    pub database: String,
    pub check_certificate: bool,
}

/// The port that the options give, `0` where none is given.
pub open spec fn port_value(o: ConnOptions) -> int {
    if o.port@.len() == 0 {
        0
    } else {
        decimal_text_value(o.port@)->0
    }
}

/// The port option is absent or readable.
pub open spec fn port_readable(o: ConnOptions) -> bool {
    o.port@.len() == 0 || is_i32_text(o.port@)
}

/// A port is needed (no instance is named) and the one given is not
/// between 1 and 65535.
pub open spec fn port_missing(o: ConnOptions) -> bool {
    o.instance@.len() == 0 && (port_value(o) <= 0 || port_value(o) >= 65536)
}

/// A login is needed and its name or password is missing.
pub open spec fn login_missing(o: ConnOptions) -> bool {
    !o.windows_auth && (o.username@.len() == 0 || o.password@.len() == 0)
}

/// The options are complete and consistent.
pub open spec fn options_valid(o: ConnOptions) -> bool {
    &&& o.hostname@.len() > 0
    &&& port_readable(o)
    &&& !port_missing(o)
    &&& !login_missing(o)
    &&& o.database@.len() > 0
}

/// Builds a connection profile from command-line options, checking them in
/// order: host, port, login, database.
pub fn conn_config_from_options(o: &ConnOptions) -> (r: Result<TdsConnConfig, TransferError>)
    ensures
        r is Ok <==> options_valid(*o),
        o.hostname@.len() == 0 ==> r is Err && r->Err_0@ == "'hostname' option must be specified"@,
        o.hostname@.len() > 0 && port_readable(*o) && port_missing(*o) ==> r is Err && r->Err_0@
            == "'port' option must be specified with a value between 1 and 65535"@,
        o.hostname@.len() > 0 && port_readable(*o) && !port_missing(*o) && login_missing(*o) ==> r is Err
            && r->Err_0@ == "'username' and 'password' options must be specified"@,
        o.hostname@.len() > 0 && port_readable(*o) && !port_missing(*o) && !login_missing(*o)
            && o.database@.len() == 0 ==> r is Err && r->Err_0@
            == "'database' option must be specified"@,
        r is Ok ==> ({
            let c = r->Ok_0;
            &&& c.hostname@ == o.hostname@
            &&& c.port == port_value(*o) as u16
            &&& c.instance@ == o.instance@
            &&& c.use_named_instance == (o.instance@.len() > 0)
            &&& c.username@ == o.username@
            &&& c.password@ == o.password@
            &&& c.use_win_auth == o.windows_auth
            &&& c.database@ == o.database@
            &&& c.accept_invalid_tls == !o.check_certificate
        }),
{
    if o.hostname.as_str().unicode_len() == 0 {
        return Err(TransferError::from_str("'hostname' option must be specified"));
    }
    let port: i32 = if o.port.as_str().unicode_len() > 0 {
        match parse_i32(o.port.as_str()) {
            Ok(p) => p,
            Err(e) => {
                return Err(TransferError::from_string(e));
            },
        }
    } else {
        0
    };
    let no_instance = o.instance.as_str().unicode_len() == 0;
    if no_instance && (port <= 0 || port >= 65536) {
        return Err(
            TransferError::from_str(
                "'port' option must be specified with a value between 1 and 65535",
            ),
        );
    }
    if !o.windows_auth && (o.username.as_str().unicode_len() == 0
        || o.password.as_str().unicode_len() == 0) {
        return Err(TransferError::from_str("'username' and 'password' options must be specified"));
    }
    if o.database.as_str().unicode_len() == 0 {
        return Err(TransferError::from_str("'database' option must be specified"));
    }
    Ok(
        TdsConnConfig {
            hostname: o.hostname.clone(),
            port: port as u16,
            username: o.username.clone(),
            password: o.password.clone(),
            database: o.database.clone(),
            accept_invalid_tls: !o.check_certificate,
            use_win_auth: o.windows_auth,
            instance: o.instance.clone(),
            use_named_instance: !no_instance,
        },
    )
}

/// The task that the command line asks for.
#[derive(PartialEq, Eq, Structural, Clone, Copy, Debug)]
pub enum TransferCommand {
    Export,
    Import,
}

/// Checks the command and its file options: an export needs an output file
/// that is new unless overwriting is asked for, an import an input file that
/// exists.
pub fn check_command(
    command: &str,
    output_file: &str,
    overwrite_output_file: bool,
    output_exists: bool,
    input_exists: bool,
) -> (r: Result<TransferCommand, TransferError>)
    ensures
        command@ == "export"@ && output_file@.len() == 0 ==> r is Err && r->Err_0@
            == "'output_file' option must be specified"@,
        command@ == "export"@ && output_file@.len() > 0 && output_exists && !overwrite_output_file
            ==> r is Err && r->Err_0@
            == "specified output file already exists, add 'overwrite_output_file' (-r) option to overwrite it"@,
        command@ == "export"@ && output_file@.len() > 0 && (!output_exists || overwrite_output_file)
            ==> r == Ok::<TransferCommand, TransferError>(TransferCommand::Export),
        command@ == "import"@ && input_exists ==> r == Ok::<TransferCommand, TransferError>(
            TransferCommand::Import,
        ),
        command@ == "import"@ && !input_exists ==> r is Err && r->Err_0@
            == "specified input file does not exist"@,
        command@ != "export"@ && command@ != "import"@ ==> r is Err && r->Err_0@
            == "invalid command, either 'export' or 'import' command must be specified"@,
{
    proof {
        reveal_strlit("export");
        reveal_strlit("import");
        assert("export"@[0] != "import"@[0]);
    }
    if same_text(command, "export") {
        if output_file.unicode_len() == 0 {
            Err(TransferError::from_str("'output_file' option must be specified"))
        } else if output_exists && !overwrite_output_file {
            Err(
                TransferError::from_str(
                    "specified output file already exists, add 'overwrite_output_file' (-r) option to overwrite it",
                ),
            )
        } else {
            Ok(TransferCommand::Export)
        }
    } else if same_text(command, "import") {
        if input_exists {
            Ok(TransferCommand::Import)
        } else {
            Err(TransferError::from_str("specified input file does not exist"))
        }
    } else {
        Err(
            TransferError::from_str(
                "invalid command, either 'export' or 'import' command must be specified",
            ),
        )
    }
}

} // verus!
