use dualpane::ssh::{SshConnectionInfo, SshParseError};

#[test]
fn test_parse_connection_string_simple() {
    let info = SshConnectionInfo::parse("user@hostname").unwrap();
    assert_eq!(info.username, "user");
    assert_eq!(info.hostname, "hostname");
    assert_eq!(info.port, 22);
}

#[test]
fn test_parse_connection_string_with_port() {
    let info = SshConnectionInfo::parse("admin@server.com:2222").unwrap();
    assert_eq!(info.username, "admin");
    assert_eq!(info.hostname, "server.com");
    assert_eq!(info.port, 2222);
}

#[test]
fn test_parse_connection_string_invalid() {
    let result = SshConnectionInfo::parse("hostname");
    assert!(result.is_err());
}

#[test]
fn test_parse_connection_string_invalid_port() {
    let result = SshConnectionInfo::parse("user@host:notaport");
    assert!(result.is_err());
}

#[test]
fn test_parse_connection_string_port_errors() {
    assert_eq!(
        SshConnectionInfo::parse("user@host:").unwrap_err(),
        SshParseError::InvalidPort
    );
    assert_eq!(
        SshConnectionInfo::parse("user@host:70000").unwrap_err(),
        SshParseError::InvalidPort
    );
    assert_eq!(
        SshConnectionInfo::parse("nohost:22").unwrap_err(),
        SshParseError::InvalidFormat
    );
}

#[test]
fn test_parse_connection_string_empty_user() {
    let info = SshConnectionInfo::parse("@host").unwrap();
    assert_eq!(info.username, "");
    assert_eq!(info.hostname, "host");
    assert_eq!(info.port, 22);
}
