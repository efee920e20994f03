use shabtzak_shell::config::backend_url;
use shabtzak_shell::port::extract_port;

#[test]
fn announcement_line_yields_port_and_url() {
    let line = "Uvicorn running on http://127.0.0.1:8734 (Press CTRL+C to quit)";
    assert_eq!(extract_port(line), Some(8734));
    assert_eq!(backend_url(8734), "http://localhost:8734");
}

#[test]
fn line_without_marker_yields_nothing() {
    assert_eq!(extract_port("INFO: Application startup complete."), None);
    assert_eq!(extract_port(""), None);
    // The address prefix alone is not an announcement.
    assert_eq!(extract_port("serving at http://127.0.0.1:8000 now"), None);
}

#[test]
fn marker_without_address_yields_nothing() {
    assert_eq!(extract_port("Uvicorn running on some socket"), None);
    // Address prefix present but followed by nothing.
    assert_eq!(extract_port("Uvicorn running on http://127.0.0.1:"), None);
    // ... or by whitespace only.
    assert_eq!(extract_port("Uvicorn running on http://127.0.0.1:   "), None);
}

#[test]
fn port_token_is_parsed_as_u16() {
    assert_eq!(
        extract_port("Uvicorn running on http://127.0.0.1:65535 (Press CTRL+C to quit)"),
        Some(65535)
    );
    assert_eq!(
        extract_port("Uvicorn running on http://127.0.0.1:65536 (Press CTRL+C to quit)"),
        None
    );
    assert_eq!(extract_port("Uvicorn running on http://127.0.0.1:0 x"), Some(0));
    // u16 parsing accepts a leading plus sign and leading zeroes.
    assert_eq!(extract_port("Uvicorn running on http://127.0.0.1:+8001 x"), Some(8001));
    assert_eq!(extract_port("Uvicorn running on http://127.0.0.1:08002 x"), Some(8002));
    // A token with trailing garbage is not a number.
    assert_eq!(extract_port("Uvicorn running on http://127.0.0.1:8000abc x"), None);
    assert_eq!(extract_port("Uvicorn running on http://127.0.0.1:abc x"), None);
    assert_eq!(extract_port("Uvicorn running on http://127.0.0.1:99999999999999 x"), None);
}

#[test]
fn token_may_follow_extra_whitespace() {
    // The first whitespace-delimited token after the address prefix governs,
    // even when whitespace stands between the two.
    assert_eq!(extract_port("Uvicorn running on http://127.0.0.1:  9000 done"), Some(9000));
    // Unicode whitespace ends the token like ASCII whitespace does.
    assert_eq!(
        extract_port("Uvicorn running on http://127.0.0.1:9000\u{2028}rest"),
        Some(9000)
    );
}

#[test]
fn first_address_occurrence_governs() {
    // The token after the first occurrence of the address prefix is the one
    // parsed; here it is not numeric, so there is no announcement.
    assert_eq!(
        extract_port("Uvicorn running on http://127.0.0.1:abc http://127.0.0.1:9000"),
        None
    );
}
