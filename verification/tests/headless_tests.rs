use vida::headless::{headless_settings, parse_port, DEFAULT_PORT};

#[test]
fn port_numbers() {
    assert_eq!(parse_port("3690"), Some(3690));
    assert_eq!(parse_port("+80"), Some(80));
    assert_eq!(parse_port("007"), Some(7));
    assert_eq!(parse_port("65535"), Some(65535));
    assert_eq!(parse_port("65536"), None);
    assert_eq!(parse_port("99999999999"), None);
    assert_eq!(parse_port(""), None);
    assert_eq!(parse_port("+"), None);
    assert_eq!(parse_port("-1"), None);
    assert_eq!(parse_port(" 80"), None);
    assert_eq!(parse_port("80a"), None);
    for text in ["0", "1", "443", "+8080", "65535", "65536", "12a", "", "+", "++1"] {
        assert_eq!(parse_port(text), text.parse::<u16>().ok());
    }
}

#[test]
fn settings_from_environment() {
    let s = headless_settings(None, None, None, Some("/home/ana"));
    assert_eq!(s.port, DEFAULT_PORT);
    assert_eq!(s.port, 3690);
    assert_eq!(s.bind_addr, "0.0.0.0");
    assert_eq!(s.data_dir, "/home/ana/.vida-ai");
    let s = headless_settings(Some("8080"), Some("127.0.0.1"), Some("/srv/vida"), Some("/home/ana"));
    assert_eq!(s.port, 8080);
    assert_eq!(s.bind_addr, "127.0.0.1");
    assert_eq!(s.data_dir, "/srv/vida");
    assert_eq!(headless_settings(Some("http"), None, None, None).port, 3690);
    assert_eq!(headless_settings(None, None, None, None).data_dir, "/tmp/.vida-ai");
    assert_eq!(headless_settings(None, None, None, Some("/root/")).data_dir, "/root/.vida-ai");
    assert_eq!(headless_settings(None, None, None, Some("")).data_dir, ".vida-ai");
}
