use ante_gateway::http::webpki_root_certificates;

#[test]
fn bundled_roots_are_certificates() {
    let certificates = webpki_root_certificates();
    assert!(!certificates.is_empty());
    assert_eq!(certificates.len(), webpki_root_certs::TLS_SERVER_ROOT_CERTS.len());
}
