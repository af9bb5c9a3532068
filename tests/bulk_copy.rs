use dbtransfer::bcp::{
    exit_outcome, export_args, format_args, import_args, output_line, post_process_format_file,
    post_processing_outcome, process_failure, spawn_failure, strip_collation, utf16_units,
    utf16le_bytes,
};
use dbtransfer::{TdsConnConfig, TransferError};

fn login_profile() -> TdsConnConfig {
    TdsConnConfig {
        hostname: "db.local".to_string(),
        port: 1433,
        username: "sa".to_string(),
        password: "secret123".to_string(),
        database: "shop".to_string(),
        accept_invalid_tls: true,
        use_win_auth: false,
        instance: String::new(),
        use_named_instance: false,
    }
}

fn trusted_profile() -> TdsConnConfig {
    TdsConnConfig {
        hostname: "db.local".to_string(),
        port: 0,
        username: String::new(),
        password: String::new(),
        database: "shop".to_string(),
        accept_invalid_tls: false,
        use_win_auth: true,
        instance: "SQLEXPRESS".to_string(),
        use_named_instance: true,
    }
}

#[test]
fn format_mode_command_line() {
    let args = format_args(&login_profile(), "shop", "dbo", "users");
    assert_eq!(
        args,
        vec![
            "[shop].[dbo].[users]", "format", "nul", "-f", "dbo.users.xml", "-x", "-n", "-k", "-K",
            "ReadOnly", "-S", "tcp:db.local,1433", "-U", "sa", "-P", "secret123",
        ]
    );
}

#[test]
fn export_mode_command_line_with_trusted_connection() {
    let args = export_args(&trusted_profile(), "shop", "dbo", "users");
    assert_eq!(
        args,
        vec![
            "[shop].[dbo].[users]", "out", "dbo.users.bcp", "-f", "dbo.users.xml", "-k", "-K",
            "ReadOnly", "-S", "tcp:db.local\\SQLEXPRESS", "-T",
        ]
    );
}

#[test]
fn import_mode_command_line() {
    let args = import_args(&login_profile(), "shop", "sales", "orders");
    assert_eq!(
        args,
        vec![
            "[shop].[sales].[orders]", "in", "sales.orders.bcp", "-f", "sales.orders.xml", "-k", "-E",
            "-m", "1", "-S", "tcp:db.local,1433", "-U", "sa", "-P", "secret123",
        ]
    );
}

#[test]
fn server_address_ports() {
    let mut p = login_profile();
    p.port = 7;
    assert_eq!(p.server_address(), "tcp:db.local,7");
    p.port = 65535;
    assert_eq!(p.server_address(), "tcp:db.local,65535");
    p.port = 0;
    assert_eq!(p.server_address(), "tcp:db.local,0");
}

#[test]
fn password_is_redacted() {
    let fragment = "command [\"bcp.exe\", \"[shop].[dbo].[users]\", \"-U\", \"sa\", \"-P\", \"secret123\"] exited with code 1";
    let e = TransferError::from_bcp_error("bcp process failure", fragment.to_string());
    let msg = e.to_string();
    assert!(msg.contains("-P\", \"******"));
    assert!(!msg.contains("secret123"));
    assert!(msg.starts_with("bcp process failure: command [\"bcp.exe\""));
}

#[test]
fn message_without_password_is_kept() {
    let e = TransferError::from_bcp_error("bcp process spawn failure", "program not found".to_string());
    assert_eq!(e.to_string(), "bcp process spawn failure: program not found");
}

#[test]
fn runner_errors() {
    assert_eq!(spawn_failure("x".to_string()).to_string(), "bcp process spawn failure: x");
    assert_eq!(process_failure("y".to_string()).to_string(), "bcp process failure: y");
    assert!(exit_outcome(Ok(true)).is_ok());
    assert_eq!(exit_outcome(Ok(false)).err().unwrap().to_string(), "bcp process failure");
    assert_eq!(
        exit_outcome(Err("wait failed".to_string())).err().unwrap().to_string(),
        "bcp process failure: wait failed"
    );
}

#[test]
fn output_lines_lose_their_line_ending() {
    assert_eq!(output_line(&b"Starting copy...\r\n".to_vec()), Some(b"Starting copy...".to_vec()));
    assert_eq!(output_line(&b"\r\n".to_vec()), Some(Vec::new()));
    assert_eq!(output_line(&b"\n".to_vec()), None);
    assert_eq!(output_line(&Vec::new()), None);
}

#[test]
fn collation_is_emptied() {
    let xml = "<COLUMN SOURCE=\"1\" NAME=\"name\" xsi:type=\"SQLNVARCHAR\" COLLATION=\"SQL_Latin1_General_CP1_CI_AS\"/>\n<COLUMN SOURCE=\"2\" collation=\"Latin1_General_BIN\"/>";
    let out = strip_collation(xml);
    assert_eq!(
        out,
        "<COLUMN SOURCE=\"1\" NAME=\"name\" xsi:type=\"SQLNVARCHAR\" COLLATION=\"\"/>\n<COLUMN SOURCE=\"2\" COLLATION=\"\"/>"
    );
}

#[test]
fn descriptor_is_decoded_from_utf16() {
    let text = "<F a=\"1\" COLLATION=\"X_CI\"/>";
    let mut bytes: Vec<u8> = Vec::new();
    for u in text.encode_utf16() {
        bytes.extend_from_slice(&u.to_le_bytes());
    }
    bytes.push(0x41);
    let out = post_process_format_file(&bytes).ok().unwrap();
    assert_eq!(out, "<F a=\"1\" COLLATION=\"\"/>");
}

#[test]
fn ill_formed_utf16_is_an_error() {
    let bytes: Vec<u8> = vec![0x00, 0xD8, 0x41, 0x00];
    let e = post_process_format_file(&bytes).err().unwrap();
    assert!(e.to_string().starts_with("Format file post-processing error: "));
}

#[test]
fn utf16_units_are_little_endian() {
    assert_eq!(utf16_units(&vec![0x41, 0x00, 0x34, 0x12, 0xFF]), vec![0x0041u16, 0x1234u16]);
}

#[test]
fn masked_message_takes_the_prefix() {
    let e = TransferError::from_masked("bcp process failure", "[\"-P\", \"******\"]".to_string());
    assert_eq!(e.to_string(), "bcp process failure: [\"-P\", \"******\"]");
    let e = TransferError::from_masked("bcp process failure", String::new());
    assert_eq!(e.to_string(), "bcp process failure: ");
}

#[test]
fn post_processing_errors_are_prefixed() {
    assert_eq!(post_processing_outcome(Ok("x".to_string())).ok(), Some("x".to_string()));
    assert_eq!(
        post_processing_outcome(Err("invalid utf-16".to_string())).err().unwrap().to_string(),
        "Format file post-processing error: invalid utf-16"
    );
}

#[test]
fn descriptor_is_written_as_utf16le() {
    assert_eq!(
        utf16le_bytes("A\u{20AC}\u{1D11E}"),
        vec![0x41, 0x00, 0xAC, 0x20, 0x34, 0xD8, 0x1E, 0xDD]
    );
    assert!(utf16le_bytes("").is_empty());
    let text = "\u{FEFF}<F COLLATION=\"Latin1_General_CI_AS\"/>";
    let out = post_process_format_file(&utf16le_bytes(text)).ok().unwrap();
    assert_eq!(out, "\u{FEFF}<F COLLATION=\"\"/>");
    let expected: Vec<u8> = out.encode_utf16().flat_map(|u| u.to_le_bytes()).collect();
    assert_eq!(utf16le_bytes(&out), expected);
}
