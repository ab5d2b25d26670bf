//! The root certificates that requests to the platforms trust.

use vstd::prelude::*;

verus! {

/// A certificate as `reqwest` holds it.
#[verifier::external_type_specification]
#[verifier::external_body]
pub struct ExCertificate(reqwest::Certificate);

/// The entry of `webpki_root_certs::TLS_SERVER_ROOT_CERTS` at `index`, as DER.
pub uninterp spec fn bundled_root(index: nat) -> Option<Seq<u8>>;

/// The certificate that `reqwest::Certificate::from_der` makes of `der`, if it
/// takes it.
pub uninterp spec fn certificate_of(der: Seq<u8>) -> Option<reqwest::Certificate>;

/// `webpki_root_certs::TLS_SERVER_ROOT_CERTS` is a constant list of the bundled
/// root certificates. This gives its entry at `index`, and nothing behind its
/// end: no list is so long that the largest index is one of its entries.
#[verifier::external_body]
fn bundled_root_at(index: usize) -> (r: Option<Vec<u8>>)
    ensures
        match r {
            Some(der) => bundled_root(index as nat) == Some(der@),
            None => bundled_root(index as nat) is None,
        },
        index == usize::MAX ==> r is None,
{
    webpki_root_certs::TLS_SERVER_ROOT_CERTS.get(index).map(|der| der.as_ref().to_vec())
}

/// `reqwest::Certificate::from_der` makes a certificate of its DER encoding, or
/// rejects it. Which of them, and the certificate, depends on the encoding
/// alone.
#[verifier::external_body]
fn certificate_from_der(der: &Vec<u8>) -> (r: Option<reqwest::Certificate>)
    ensures
        r == certificate_of(der@),
{
    reqwest::Certificate::from_der(der).ok()
}

/// Whether there are exactly `n` bundled root certificates.
pub open spec fn is_root_count(n: nat) -> bool {
    &&& bundled_root(n) is None
    &&& forall|i: nat| i < n ==> #[trigger] bundled_root(i) is Some
}

/// The certificates of the first `n` bundled roots, in order, without those that
/// are rejected.
pub open spec fn accepted_roots(n: nat) -> Seq<reqwest::Certificate>
    decreases n,
{
    if n == 0 {
        Seq::empty()
    } else {
        let before = accepted_roots((n - 1) as nat);
        match certificate_of(bundled_root((n - 1) as nat)->0) {
            Some(certificate) => before.push(certificate),
            None => before,
        }
    }
}

/// The bundled root certificates, in order. One that cannot be parsed is
/// skipped.
pub fn webpki_root_certificates() -> (r: Vec<reqwest::Certificate>)
    ensures
        exists|n: nat| #[trigger] is_root_count(n) && r@ == accepted_roots(n),
{
    let mut certificates: Vec<reqwest::Certificate> = Vec::new();
    let mut i: usize = 0;
    loop
        invariant
            certificates@ == accepted_roots(i as nat),
            forall|k: nat| k < i ==> #[trigger] bundled_root(k) is Some,
        decreases usize::MAX - i,
    {
        match bundled_root_at(i) {
            Some(der) => {
                if let Some(certificate) = certificate_from_der(&der) {
                    certificates.push(certificate);
                }
                i = i + 1;
            },
            None => {
                assert(is_root_count(i as nat));
                return certificates;
            },
        }
    }
}

/// The certificate of the bundled root at `index`.
pub open spec fn root_certificate(index: int) -> Option<reqwest::Certificate> {
    match bundled_root(index as nat) {
        Some(der) => certificate_of(der),
        None => None,
    }
}

/// Whether `places` are the places of the bundled roots, in order, that
/// `certificates` come from.
pub open spec fn come_from(certificates: Seq<reqwest::Certificate>, places: Seq<int>) -> bool {
    &&& places.len() == certificates.len()
    &&& forall|k: int|
        0 <= k < places.len() ==> #[trigger] places[k] >= 0 && root_certificate(places[k]) == Some(
            certificates[k],
        )
    &&& forall|j: int, k: int| 0 <= j < k < places.len() ==> places[j] < places[k]
}

proof fn accepted_roots_come_in_order(n: nat) -> (places: Seq<int>)
    requires
        forall|i: nat| i < n ==> #[trigger] bundled_root(i) is Some,
    ensures
        come_from(accepted_roots(n), places),
        forall|k: int| 0 <= k < places.len() ==> #[trigger] places[k] < n,
        forall|i: int|
            0 <= i < n && (#[trigger] root_certificate(i)) is Some ==> places.contains(i),
    decreases n,
{
    if n == 0 {
        Seq::empty()
    } else {
        let before = accepted_roots_come_in_order((n - 1) as nat);
        let last = n - 1;
        assert(bundled_root(last as nat) is Some);
        if root_certificate(last) is Some {
            let places = before.push(last);
            assert(places[places.len() - 1] == last);
            assert forall|i: int|
                0 <= i < n && (#[trigger] root_certificate(i)) is Some implies places.contains(
                i,
            ) by {
                if i < last {
                    let k = choose|k: int| 0 <= k < before.len() && before[k] == i;
                    assert(places[k] == i);
                }
            }
            places
        } else {
            before
        }
    }
}

/// What is trusted is each bundled root that is a certificate, once, in the
/// order in which they are bundled, and nothing else.
pub proof fn every_bundled_root_is_trusted(certificates: Vec<reqwest::Certificate>)
    requires
        call_ensures(webpki_root_certificates, (), certificates),
    ensures
        exists|places: Seq<int>|
            {
                &&& #[trigger] come_from(certificates@, places)
                &&& forall|i: int|
                    0 <= i && (forall|j: nat| j <= i ==> #[trigger] bundled_root(j) is Some) && (
                    #[trigger] root_certificate(i)) is Some ==> places.contains(i)
            },
{
    let n = choose|n: nat| #[trigger] is_root_count(n) && certificates@ == accepted_roots(n);
    let places = accepted_roots_come_in_order(n);
    assert(come_from(certificates@, places));
    assert forall|i: int|
        0 <= i && (forall|j: nat| j <= i ==> #[trigger] bundled_root(j) is Some) && (
        #[trigger] root_certificate(i)) is Some implies places.contains(i) by {
        if i >= n {
            assert(bundled_root(n) is Some);
        }
    }
}

}
