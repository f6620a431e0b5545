use lux::service::{parse_port, resolve_serve_addr, resolve_server_url};

#[test]
fn explicit_server_url_wins_over_port() {
    assert_eq!(
        resolve_server_url(Some("http://example.com:9999".to_string()), 4010),
        "http://example.com:9999"
    );
}

#[test]
fn port_is_used_when_no_explicit_server_url_is_given() {
    assert_eq!(resolve_server_url(None, 4010), "http://127.0.0.1:4010");
}

#[test]
fn serve_addr_uses_port_when_no_explicit_address_is_given() {
    assert_eq!(
        resolve_serve_addr(true, None, 4010),
        Some("127.0.0.1:4010".to_string())
    );
}

#[test]
fn serve_addr_prefers_explicit_address_over_port() {
    assert_eq!(
        resolve_serve_addr(true, Some("0.0.0.0:9999".to_string()), 4010),
        Some("0.0.0.0:9999".to_string())
    );
}

#[test]
fn nothing_is_served_unless_it_is_asked_for() {
    assert_eq!(resolve_serve_addr(false, Some("0.0.0.0:9999".to_string()), 4010), None);
}

#[test]
fn a_port_is_a_number_up_to_65535() {
    assert_eq!(parse_port("65535"), Ok(65535));
    assert_eq!(parse_port("65536"), Err("Invalid port: 65536".to_string()));
    assert_eq!(parse_port("x"), Err("Invalid port: x".to_string()));
}
