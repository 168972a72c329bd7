use httplatency::canonicalize_http_address;

#[test]
fn add_scheme() {
    let url = canonicalize_http_address(&"www.google.com".to_string());
    assert_eq!(url.unwrap(), "http://www.google.com")
}

#[test]
fn add_scheme_trailing_slash() {
    let url = canonicalize_http_address(&"www.google.com/".to_string());
    assert_eq!(url.unwrap(), "http://www.google.com/")
}

#[test]
fn add_scheme_port_80() {
    let url = canonicalize_http_address(&"www.google.com:80".to_string());
    assert_eq!(url.unwrap(), "http://www.google.com:80")
}

#[test]
fn add_scheme_port_80_trailing_slash() {
    let url = canonicalize_http_address(&"www.google.com:80/".to_string());
    assert_eq!(url.unwrap(), "http://www.google.com:80/")
}

#[test]
fn add_scheme_port_8080() {
    let url = canonicalize_http_address(&"www.google.com:8080".to_string());
    assert_eq!(url.unwrap(), "http://www.google.com:8080")
}

#[test]
fn add_scheme_port_8080_trailing_slash() {
    let url = canonicalize_http_address(&"www.google.com:8080/".to_string());
    assert_eq!(url.unwrap(), "http://www.google.com:8080/")
}

#[test]
fn add_scheme_port_443() {
    let url = canonicalize_http_address(&"www.google.com:443".to_string());
    assert_eq!(url.unwrap(), "https://www.google.com:443")
}

#[test]
fn add_scheme_port_443_trailing_slash() {
    let url = canonicalize_http_address(&"www.google.com:443/".to_string());
    assert_eq!(url.unwrap(), "https://www.google.com:443/")
}

#[test]
fn http_canonicalized() {
    let url = canonicalize_http_address(&"http://www.google.com".to_string());
    assert_eq!(url.unwrap(), "http://www.google.com/")
}

#[test]
fn http_canonicalized_trailing_slash() {
    let url = canonicalize_http_address(&"http://www.google.com/".to_string());
    assert_eq!(url.unwrap(), "http://www.google.com/")
}

#[test]
fn http_canonicalized_port_80() {
    let url = canonicalize_http_address(&"http://www.google.com:80".to_string());
    assert_eq!(url.unwrap(), "http://www.google.com/")
}

#[test]
fn http_canonicalized_port_80_trailing_slash() {
    let url = canonicalize_http_address(&"http://www.google.com:80/".to_string());
    assert_eq!(url.unwrap(), "http://www.google.com/")
}

#[test]
fn http_canonicalized_port_8080() {
    let url = canonicalize_http_address(&"http://www.google.com:8080".to_string());
    assert_eq!(url.unwrap(), "http://www.google.com:8080/")
}

#[test]
fn http_canonicalized_port_8080_trailing_slash() {
    let url = canonicalize_http_address(&"http://www.google.com:8080/".to_string());
    assert_eq!(url.unwrap(), "http://www.google.com:8080/")
}

#[test]
fn https_canonicalized_port_443() {
    let url = canonicalize_http_address(&"https://www.google.com:443".to_string());
    assert_eq!(url.unwrap(), "https://www.google.com/")
}

#[test]
fn https_canonicalized_port_443_trailing_slash() {
    let url = canonicalize_http_address(&"https://www.google.com:443/".to_string());
    assert_eq!(url.unwrap(), "https://www.google.com/")
}

#[test]
fn https_canonicalized_port_80() {
    let url = canonicalize_http_address(&"https://www.google.com:80".to_string());
    assert_eq!(url.unwrap(), "https://www.google.com:80/")
}

#[test]
fn https_canonicalized_port_80_trailing_slash() {
    let url = canonicalize_http_address(&"https://www.google.com:80/".to_string());
    assert_eq!(url.unwrap(), "https://www.google.com:80/")
}

#[test]
fn https_canonicalized_port_8080() {
    let url = canonicalize_http_address(&"https://www.google.com:8080".to_string());
    assert_eq!(url.unwrap(), "https://www.google.com:8080/")
}

#[test]
fn https_canonicalized_port_8080_trailing_slash() {
    let url = canonicalize_http_address(&"https://www.google.com:8080/".to_string());
    assert_eq!(url.unwrap(), "https://www.google.com:8080/")
}

#[test]
fn http_canonicalized_port_443() {
    let url = canonicalize_http_address(&"http://www.google.com:443".to_string());
    assert_eq!(url.unwrap(), "http://www.google.com:443/")
}

#[test]
fn http_canonicalized_port_443_trailing_slash() {
    let url = canonicalize_http_address(&"http://www.google.com:443/".to_string());
    assert_eq!(url.unwrap(), "http://www.google.com:443/")
}

#[test]
fn non_http_canonicalized_trailing_slash() {
    let url = canonicalize_http_address(&"ftp://www.google.com/".to_string());
    assert!(url.is_none())
}

#[test]
fn non_http_canonicalized_port_21_trailing_slash() {
    let url = canonicalize_http_address(&"ftp://www.google.com:21/".to_string());
    assert!(url.is_none())
}

#[test]
fn non_http_canonicalized() {
    let url = canonicalize_http_address(&"ftp://www.google.com".to_string());
    assert!(url.is_none())
}

#[test]
fn non_http_canonicalized_port_21() {
    let url = canonicalize_http_address(&"ftp://www.google.com:21".to_string());
    assert!(url.is_none())
}
