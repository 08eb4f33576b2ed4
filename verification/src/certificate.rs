//! Which certificates of a Cast receiver are accepted.
//!
//! Receivers use a chain whose root no system trusts, and a certificate that does
//! not match the address used to connect. An unknown root and another name are
//! accepted, and **nothing else is**: the root of the presented chain is adopted
//! as the anchor, and ordinary validation runs on top of that. Each link's
//! signature, the **validity period** and the key usage all keep being checked.
use rustls::crypto::ring::default_provider;
use rustls::pki_types::{CertificateDer, UnixTime};
use std::time::Duration;
use vstd::prelude::*;
use webpki::{anchor_from_trusted_cert, EndEntityCert, KeyUsage};

verus! {

/// Whether `webpki` can read bytes as a trust anchor.
pub uninterp spec fn reads_as_anchor(der: Seq<u8>) -> bool;

/// Whether `webpki` can read bytes as a receiver's certificate.
pub uninterp spec fn reads_as_certificate(der: Seq<u8>) -> bool;

/// What `webpki` finds when it validates a certificate, by a chain of others,
/// against an anchor, at a time in seconds since the Unix epoch.
pub uninterp spec fn chain_check(
    end_entity: Seq<u8>,
    chain: Seq<Seq<u8>>,
    anchor: Seq<u8>,
    now: u64,
) -> ChainCheck;

/// What validation finds.
#[derive(Clone, Copy, Debug, PartialEq, Eq, Structural)]
pub enum ChainCheck {
    Valid,
    /// The validity of a certificate has passed.
    PastValidity,
    /// The validity of a certificate has not begun.
    BeforeValidity,
    /// Anything else that validation rejects.
    Rejected,
}

/// What some byte strings hold.
pub open spec fn byte_strings(list: Seq<Vec<u8>>) -> Seq<Seq<u8>> {
    Seq::new(list.len(), |i: int| list[i]@)
}

/// `webpki::anchor_from_trusted_cert`: whether it reads the certificate as an
/// anchor. Which byte strings those are is left unsaid.
#[verifier::external_body]
fn is_anchor(der: &[u8]) -> (res: bool)
    ensures
        res == reads_as_anchor(der@),
{
    anchor_from_trusted_cert(&CertificateDer::from(der)).is_ok()
}

/// `webpki::EndEntityCert::try_from`: whether it reads the certificate. Which byte
/// strings those are is left unsaid.
#[verifier::external_body]
fn is_certificate(der: &[u8]) -> (res: bool)
    ensures
        res == reads_as_certificate(der@),
{
    EndEntityCert::try_from(&CertificateDer::from(der)).is_ok()
}

/// `webpki::EndEntityCert::verify_for_usage`, for a server, with the signature
/// algorithms of `rustls`' ring provider and without revocation lists: what it
/// finds, with its errors for a validity that has passed and for one that has not
/// begun told apart from the others. What validation consists of is left unsaid;
/// it depends on the certificates and the time given alone.
#[verifier::external_body]
fn check_chain(end_entity: &[u8], chain: &[Vec<u8>], anchor: &[u8], now: u64) -> (res: ChainCheck)
    requires
        reads_as_certificate(end_entity@),
        reads_as_anchor(anchor@),
    ensures
        res == chain_check(end_entity@, byte_strings(chain@), anchor@, now),
{
    let (end, root) = (CertificateDer::from(end_entity), CertificateDer::from(anchor));
    let anchors = [anchor_from_trusted_cert(&root).unwrap()];
    let cert = EndEntityCert::try_from(&end).unwrap();
    let links: Vec<_> = chain.iter().map(|der| CertificateDer::from(der.as_slice())).collect();
    let algorithms = default_provider().signature_verification_algorithms.all;
    let time = UnixTime::since_unix_epoch(Duration::from_secs(now));
    let usage = KeyUsage::server_auth();
    match cert.verify_for_usage(algorithms, &anchors, &links, time, usage, None, None) {
        Ok(_) => ChainCheck::Valid,
        Err(webpki::Error::CertExpired { .. }) => ChainCheck::PastValidity,
        Err(webpki::Error::CertNotValidYet { .. }) => ChainCheck::BeforeValidity,
        Err(_) => ChainCheck::Rejected,
    }
}

/// Why a certificate is refused.
#[derive(Clone, Copy, Debug, PartialEq, Eq, Structural)]
pub enum CertificateError {
    BadEncoding,
    Expired,
    BadSignature,
}

/// What a finding means to the handshake.
pub open spec fn verdict_of(check: ChainCheck) -> Result<(), CertificateError> {
    match check {
        ChainCheck::Valid => Ok(()),
        ChainCheck::PastValidity => Err(CertificateError::Expired),
        ChainCheck::BeforeValidity => Err(CertificateError::Expired),
        ChainCheck::Rejected => Err(CertificateError::BadSignature),
    }
}

/// What a finding means to the handshake.
pub fn verdict_on(check: ChainCheck) -> (res: Result<(), CertificateError>)
    ensures
        res == verdict_of(check),
{
    match check {
        ChainCheck::Valid => Ok(()),
        ChainCheck::PastValidity | ChainCheck::BeforeValidity => Err(CertificateError::Expired),
        ChainCheck::Rejected => Err(CertificateError::BadSignature),
    }
}

/// The anchor of a presented chain: its root, or the receiver's own certificate
/// where it presents nothing else.
pub open spec fn anchor_of(end_entity: Seq<u8>, intermediates: Seq<Seq<u8>>) -> Seq<u8> {
    if intermediates.len() > 0 {
        intermediates.last()
    } else {
        end_entity
    }
}

/// What lies between a certificate and the anchor.
pub open spec fn links_of(intermediates: Seq<Seq<u8>>) -> Seq<Seq<u8>> {
    if intermediates.len() > 0 {
        intermediates.drop_last()
    } else {
        intermediates
    }
}

/// Decides whether a receiver's certificate is accepted. Certificates are DER;
/// `now` is in seconds since the Unix epoch.
pub fn verify_server_cert(end_entity: &[u8], intermediates: &[Vec<u8>], now: u64) -> (res: Result<
    (),
    CertificateError,
>)
    ensures
        ({
            let presented = byte_strings(intermediates@);
            let anchor = anchor_of(end_entity@, presented);
            if !reads_as_anchor(anchor) || !reads_as_certificate(end_entity@) {
                res == Err::<(), CertificateError>(CertificateError::BadEncoding)
            } else {
                res == verdict_of(chain_check(end_entity@, links_of(presented), anchor, now))
            }
        }),
{
    let n: usize = intermediates.len();
    let ghost presented = byte_strings(intermediates@);
    let (anchor, links): (&[u8], &[Vec<u8>]) = if n > 0 {
        (intermediates[n - 1].as_slice(), vstd::slice::slice_subrange(intermediates, 0, n - 1))
    } else {
        (end_entity, intermediates)
    };
    assert(byte_strings(links@) =~= links_of(presented));
    if !is_anchor(anchor) || !is_certificate(end_entity) {
        return Err(CertificateError::BadEncoding);
    }
    verdict_on(check_chain(end_entity, links, anchor, now))
}

/// Only what validates is accepted. A validity that has passed and one that has
/// not begun are both told apart from everything else that is rejected.
pub proof fn only_what_validates_is_accepted(check: ChainCheck)
    ensures
        verdict_of(check) is Ok <==> check == ChainCheck::Valid,
        verdict_of(check) == Err::<(), CertificateError>(CertificateError::Expired) <==> check
            == ChainCheck::PastValidity || check == ChainCheck::BeforeValidity,
        verdict_of(check) == Err::<(), CertificateError>(CertificateError::BadSignature) <==> check
            == ChainCheck::Rejected,
{
}

/// The last certificate presented is the anchor, and those before it are the links
/// to it, all of them and in order; a certificate presented alone is its own
/// anchor, with no links.
pub proof fn the_last_presented_is_the_anchor(
    end_entity: Seq<u8>,
    links: Seq<Seq<u8>>,
    root: Seq<u8>,
)
    ensures
        anchor_of(end_entity, links.push(root)) == root,
        links_of(links.push(root)) == links,
        anchor_of(end_entity, Seq::empty()) == end_entity,
        links_of(Seq::empty()).len() == 0,
{
    assert(links.push(root).drop_last() =~= links);
}

} // verus!
