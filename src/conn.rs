use vstd::prelude::*;
use vstd::string::*;

verus! {

/// The digits that decimal numbers are written with.
pub const DIGITS: &'static str = "0123456789";

/// `n` written in decimal, without leading zeros.
pub open spec fn decimal(n: nat) -> Seq<char>
    decreases n,
{
    if n < 10 {
        seq![DIGITS@[n as int]]
    } else {
        decimal(n / 10) + seq![DIGITS@[(n % 10) as int]]
    }
}

/// `n` written in decimal, with a leading `-` where it is negative.
pub open spec fn signed_decimal(n: int) -> Seq<char> {
    if n < 0 {
        "-"@ + decimal((-n) as nat)
    } else {
        decimal(n as nat)
    }
}

/// Appends `n` in decimal to `s`.
pub fn append_decimal(s: &mut String, n: u64)
    ensures
        final(s)@ == old(s)@ + decimal(n as nat),
    decreases n,
{
    proof {
        reveal_strlit("0123456789");
    }
    if n >= 10 {
        append_decimal(s, n / 10);
    }
    let d = (n % 10) as usize;
    let digit = DIGITS.substring_char(d, d + 1);
    proof {
        assert(digit@ =~= seq![DIGITS@[d as int]]);
    }
    s.append(digit);
}

/// Appends `n` in decimal to `s`, with a leading `-` where it is negative.
pub fn append_signed_decimal(s: &mut String, n: i64)
    ensures
        final(s)@ == old(s)@ + signed_decimal(n as int),
{
    if n < 0 {
        s.append("-");
        let magnitude: u64 = ((-(n + 1)) as u64) + 1;
        append_decimal(s, magnitude);
        proof {
            assert(old(s)@ + "-"@ + decimal((-n) as nat) =~= old(s)@ + ("-"@ + decimal(
                (-n) as nat,
            )));
        }
    } else {
        append_decimal(s, n as u64);
    }
}

/// How to reach a database: a host with either a TCP port or a named
/// instance, and either a login or integrated authentication.
#[derive(Clone, Debug)]
pub struct TdsConnConfig {
    pub hostname: String,
    pub port: u16,
    pub username: String,
    pub password: String,
    pub database: String,
    pub accept_invalid_tls: bool,
    pub use_win_auth: bool,
    pub instance: String,
    pub use_named_instance: bool,
}

/// The server address handed to the bulk-copy utility.
pub open spec fn server_address(c: TdsConnConfig) -> Seq<char> {
    if c.use_named_instance {
        "tcp:"@ + c.hostname@ + "\\"@ + c.instance@
    } else {
        "tcp:"@ + c.hostname@ + ","@ + decimal(c.port as nat)
    }
}

/// The arguments that tell the bulk-copy utility where to connect and how
/// to log in.
pub open spec fn connection_args(c: TdsConnConfig) -> Seq<Seq<char>> {
    seq!["-S"@, server_address(c)] + if c.use_win_auth {
        seq!["-T"@]
    } else {
        seq!["-U"@, c.username@, "-P"@, c.password@]
    }
}

/// The texts of a list of strings.
pub open spec fn texts(v: Seq<String>) -> Seq<Seq<char>> {
    v.map_values(|a: String| a@)
}

impl TdsConnConfig {
    /// The server address handed to the bulk-copy utility.
    pub fn server_address(&self) -> (r: String)
        ensures
            r@ == server_address(*self),
    {
        let mut s = String::from_str("tcp:").concat(self.hostname.as_str());
        if self.use_named_instance {
            s.append("\\");
            s.append(self.instance.as_str());
        } else {
            s.append(",");
            append_decimal(&mut s, self.port as u64);
        }
        s
    }

    /// Appends the connection and login arguments to `args`.
    pub fn push_connection_args(&self, args: &mut Vec<String>)
        ensures
            texts(final(args)@) == texts(old(args)@) + connection_args(*self),
    {
        let ghost start = texts(args@);
        args.push(String::from_str("-S"));
        args.push(self.server_address());
        if self.use_win_auth {
            args.push(String::from_str("-T"));
        } else {
            args.push(String::from_str("-U"));
            args.push(self.username.clone());
            args.push(String::from_str("-P"));
            args.push(self.password.clone());
        }
        proof {
            assert(texts(args@) =~= start + connection_args(*self));
        }
    }
}

} // verus!
