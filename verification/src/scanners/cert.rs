//! X.509 certificates as the scanners see them: the fields read from a
//! DER-encoded certificate, the friendly names of their algorithm OIDs, the
//! PQC status of a signature algorithm, and the finding a certificate gives.

use vstd::prelude::*;
use vstd::string::*;
use x509_parser::prelude::FromDer;
use crate::digest::{hex_spec, sha256_hex, sha256_of};
use crate::model::asset::PqcStatus;
use crate::model::finding::{Confidence, Finding, SourceType};
use crate::model::json::{Evidence, EvidenceValue, EvidenceView, JsonValue, JsonView};
use crate::text::{
    chars_of, contains, contains_str, eq_str, lower, lower_chars, occurs_at, push_str, string_of,
};

verus! {

broadcast use vstd::string::group_string_axioms;

/// The public key of a certificate, as far as its size is read.
#[derive(Debug, Clone, Copy, PartialEq, Eq, Structural)]
pub enum KeyShape {
    /// An RSA key of the given size in bits.
    Rsa(u64),
    /// An elliptic-curve point of the given length in bytes.
    Ec(u64),
    /// Any other key.
    Other,
}

/// The fields of a certificate that the scanners read.
pub struct CertFields {
    pub subject: String,
    pub issuer: String,
    pub signature_oid: String,
    pub public_key_oid: String,
    /// Unix seconds.
    pub not_before: i64,
    /// Unix seconds.
    pub not_after: i64,
    pub key: KeyShape,
}

/// The model of `CertFields`.
pub struct CertView {
    pub subject: Seq<char>,
    pub issuer: Seq<char>,
    pub signature_oid: Seq<char>,
    pub public_key_oid: Seq<char>,
    pub not_before: i64,
    pub not_after: i64,
    pub key: KeyShape,
}

impl View for CertFields {
    type V = CertView;

    open spec fn view(&self) -> CertView {
        CertView {
            subject: self.subject@,
            issuer: self.issuer@,
            signature_oid: self.signature_oid@,
            public_key_oid: self.public_key_oid@,
            not_before: self.not_before,
            not_after: self.not_after,
            key: self.key,
        }
    }
}

pub open spec fn opt_cert_view(c: Option<CertFields>) -> Option<CertView> {
    match c {
        Some(f) => Some(f@),
        None => None,
    }
}

/// What `x509-parser` reads from DER bytes: `None` where they are not a
/// certificate.
pub uninterp spec fn certificate_fields(der: Seq<u8>) -> Option<CertView>;

/// Calls `X509Certificate::from_der` from `x509-parser`, and reads the
/// subject and issuer names (`X509Name`'s `Display`), the signature and
/// public-key algorithm OIDs (`Oid::to_id_string`), the validity bounds
/// (`ASN1Time::timestamp`) and the parsed public key (`RSAPublicKey::key_size`
/// for RSA, the point's length for EC). The contract names the result, a
/// function of the bytes alone.
#[verifier::external_body]
pub(crate) fn parse_certificate(der: &[u8]) -> (r: Option<CertFields>)
    ensures
        opt_cert_view(r) == certificate_fields(der@),
{
    let (_, c) = x509_parser::certificate::X509Certificate::from_der(der).ok()?;
    let key = match c.public_key().parsed() {
        Ok(x509_parser::public_key::PublicKey::RSA(k)) => KeyShape::Rsa(k.key_size() as u64),
        Ok(x509_parser::public_key::PublicKey::EC(k)) => KeyShape::Ec(k.data().len() as u64),
        _ => KeyShape::Other,
    };
    Some(CertFields {
        subject: c.subject().to_string(),
        issuer: c.issuer().to_string(),
        signature_oid: c.signature_algorithm.algorithm.to_id_string(),
        public_key_oid: c.public_key().algorithm.algorithm.to_id_string(),
        not_before: c.validity().not_before.timestamp(),
        not_after: c.validity().not_after.timestamp(),
        key,
    })
}

/// The approximate size in bits of a public key: an RSA key's size; half
/// the bits of an elliptic-curve point less its leading format byte (a size
/// past `u64` saturates).
pub open spec fn key_bits_spec(key: KeyShape) -> Option<u64> {
    match key {
        KeyShape::Rsa(n) => Some(n),
        KeyShape::Ec(len) => {
            let m: int = if len == 0 {
                0
            } else {
                len - 1
            };
            Some(
                if m * 8 <= u64::MAX {
                    (m * 8 / 2) as u64
                } else {
                    u64::MAX
                },
            )
        },
        KeyShape::Other => None,
    }
}

/// The approximate size in bits of a public key.
pub fn approximate_key_bits(key: KeyShape) -> (r: Option<u64>)
    ensures
        r == key_bits_spec(key),
{
    match key {
        KeyShape::Rsa(n) => Some(n),
        KeyShape::Ec(len) => {
            let m: u64 = if len == 0 {
                0
            } else {
                len - 1
            };
            if m <= 0x1FFF_FFFF_FFFF_FFFF {
                Some(m * 8 / 2)
            } else {
                Some(0xFFFF_FFFF_FFFF_FFFF)
            }
        },
        KeyShape::Other => None,
    }
}

/// The name of a signature algorithm OID; any other OID stands for itself.
pub open spec fn friendly_sig_spec(oid: Seq<char>) -> Seq<char> {
    if oid == "1.2.840.113549.1.1.5"@ {
        "sha1WithRSAEncryption"@
    } else if oid == "1.2.840.113549.1.1.11"@ {
        "sha256WithRSAEncryption"@
    } else if oid == "1.2.840.113549.1.1.12"@ {
        "sha384WithRSAEncryption"@
    } else if oid == "1.2.840.113549.1.1.13"@ {
        "sha512WithRSAEncryption"@
    } else if oid == "1.2.840.10045.4.3.2"@ {
        "ecdsa-with-SHA256"@
    } else if oid == "1.2.840.10045.4.3.3"@ {
        "ecdsa-with-SHA384"@
    } else if oid == "1.2.840.10045.4.3.4"@ {
        "ecdsa-with-SHA512"@
    } else if oid == "1.3.101.112"@ {
        "Ed25519"@
    } else if oid == "1.3.101.113"@ {
        "Ed448"@
    } else {
        oid
    }
}

/// The friendly name of a signature algorithm OID.
pub fn friendly_sig_oid(oid: &str) -> (r: String)
    ensures
        r@ == friendly_sig_spec(oid@),
{
    let o = chars_of(oid);
    let s = o.as_slice();
    if eq_str(s, "1.2.840.113549.1.1.5") {
        String::from_str("sha1WithRSAEncryption")
    } else if eq_str(s, "1.2.840.113549.1.1.11") {
        String::from_str("sha256WithRSAEncryption")
    } else if eq_str(s, "1.2.840.113549.1.1.12") {
        String::from_str("sha384WithRSAEncryption")
    } else if eq_str(s, "1.2.840.113549.1.1.13") {
        String::from_str("sha512WithRSAEncryption")
    } else if eq_str(s, "1.2.840.10045.4.3.2") {
        String::from_str("ecdsa-with-SHA256")
    } else if eq_str(s, "1.2.840.10045.4.3.3") {
        String::from_str("ecdsa-with-SHA384")
    } else if eq_str(s, "1.2.840.10045.4.3.4") {
        String::from_str("ecdsa-with-SHA512")
    } else if eq_str(s, "1.3.101.112") {
        String::from_str("Ed25519")
    } else if eq_str(s, "1.3.101.113") {
        String::from_str("Ed448")
    } else {
        String::from_str(oid)
    }
}

/// The name of a public-key algorithm OID; any other OID stands for itself.
pub open spec fn friendly_pk_spec(oid: Seq<char>) -> Seq<char> {
    if oid == "1.2.840.113549.1.1.1"@ {
        "RSA"@
    } else if oid == "1.2.840.10045.2.1"@ {
        "EC"@
    } else if oid == "1.3.101.112"@ {
        "Ed25519"@
    } else if oid == "1.3.101.113"@ {
        "Ed448"@
    } else {
        oid
    }
}

/// The friendly name of a public-key algorithm OID.
pub fn friendly_pk_oid(oid: &str) -> (r: String)
    ensures
        r@ == friendly_pk_spec(oid@),
{
    let o = chars_of(oid);
    let s = o.as_slice();
    if eq_str(s, "1.2.840.113549.1.1.1") {
        String::from_str("RSA")
    } else if eq_str(s, "1.2.840.10045.2.1") {
        String::from_str("EC")
    } else if eq_str(s, "1.3.101.112") {
        String::from_str("Ed25519")
    } else if eq_str(s, "1.3.101.113") {
        String::from_str("Ed448")
    } else {
        String::from_str(oid)
    }
}

/// The PQC status of a signature algorithm, by its name in ASCII lower
/// case: SHA-1 and the classical RSA, ECDSA and EdDSA families are
/// vulnerable, ML-DSA and SLH-DSA resistant, anything else unknown.
pub open spec fn sig_alg_status(name: Seq<char>) -> PqcStatus {
    let l = lower(name);
    if contains(l, "sha1"@) {
        PqcStatus::Vulnerable
    } else if contains(l, "rsa"@) || contains(l, "ecdsa"@) || contains(l, "ed25519"@) || contains(
        l,
        "ed448"@,
    ) {
        PqcStatus::Vulnerable
    } else if contains(l, "mldsa"@) || contains(l, "ml-dsa"@) || contains(l, "slhdsa"@) {
        PqcStatus::Resistant
    } else {
        PqcStatus::Unknown
    }
}

/// Which signature algorithms are vulnerable: exactly those whose name, in
/// ASCII lower case, mentions SHA-1 or the RSA, ECDSA, Ed25519 or Ed448
/// families, whatever else it mentions. Of the rest, those mentioning ML-DSA
/// or SLH-DSA are resistant and all others unknown.
pub proof fn signature_status_law(name: Seq<char>)
    ensures
        ({
            let l = lower(name);
            let classical = contains(l, "sha1"@) || contains(l, "rsa"@) || contains(l, "ecdsa"@)
                || contains(l, "ed25519"@) || contains(l, "ed448"@);
            let pqc = contains(l, "mldsa"@) || contains(l, "ml-dsa"@) || contains(l, "slhdsa"@);
            &&& classical <==> sig_alg_status(name) == PqcStatus::Vulnerable
            &&& (!classical && pqc) <==> sig_alg_status(name) == PqcStatus::Resistant
            &&& (!classical && !pqc) <==> sig_alg_status(name) == PqcStatus::Unknown
        }),
{
}

/// EdDSA certificates are vulnerable: the signature algorithms named by the
/// Ed25519 and Ed448 OIDs have status Vulnerable.
pub proof fn eddsa_signatures_are_vulnerable()
    ensures
        sig_alg_status(friendly_sig_spec("1.3.101.112"@)) == PqcStatus::Vulnerable,
        sig_alg_status(friendly_sig_spec("1.3.101.113"@)) == PqcStatus::Vulnerable,
{
    reveal_strlit("1.3.101.112");
    reveal_strlit("1.3.101.113");
    reveal_strlit("Ed25519");
    reveal_strlit("Ed448");
    reveal_strlit("ed25519");
    reveal_strlit("ed448");
    reveal_strlit("1.2.840.113549.1.1.5");
    reveal_strlit("1.2.840.113549.1.1.11");
    reveal_strlit("1.2.840.113549.1.1.12");
    reveal_strlit("1.2.840.113549.1.1.13");
    reveal_strlit("1.2.840.10045.4.3.2");
    reveal_strlit("1.2.840.10045.4.3.3");
    reveal_strlit("1.2.840.10045.4.3.4");
    assert("1.2.840.113549.1.1.5"@.len() == 20 && "1.2.840.113549.1.1.11"@.len() == 21 && "1.2.840.113549.1.1.12"@.len() == 21 && "1.2.840.113549.1.1.13"@.len() == 21 && "1.2.840.10045.4.3.2"@.len() == 19 && "1.2.840.10045.4.3.3"@.len() == 19 && "1.2.840.10045.4.3.4"@.len() == 19);
    assert("1.3.101.112"@.len() == 11 && "1.3.101.113"@[10] != "1.3.101.112"@[10]);
    assert(friendly_sig_spec("1.3.101.112"@) == "Ed25519"@);
    assert(friendly_sig_spec("1.3.101.113"@) == "Ed448"@);
    assert(lower("Ed25519"@) =~= "ed25519"@);
    assert(lower("Ed448"@) =~= "ed448"@);
    assert(lower("Ed25519"@).subrange(0, 7) =~= "ed25519"@);
    assert(occurs_at(lower("Ed25519"@), "ed25519"@, 0));
    assert(lower("Ed448"@).subrange(0, 5) =~= "ed448"@);
    assert(occurs_at(lower("Ed448"@), "ed448"@, 0));
}

/// The PQC status of a signature algorithm, by name.
pub fn pqc_status_for_sig_alg(name: &str) -> (r: PqcStatus)
    ensures
        r == sig_alg_status(name@),
{
    let l = lower_chars(chars_of(name).as_slice());
    let s = l.as_slice();
    if contains_str(s, "sha1") {
        return PqcStatus::Vulnerable;
    }
    if contains_str(s, "rsa") || contains_str(s, "ecdsa") || contains_str(s, "ed25519")
        || contains_str(s, "ed448") {
        return PqcStatus::Vulnerable;
    }
    if contains_str(s, "mldsa") || contains_str(s, "ml-dsa") || contains_str(s, "slhdsa") {
        return PqcStatus::Resistant;
    }
    PqcStatus::Unknown
}

/// The name a PQC status is written with in evidence.
pub open spec fn status_name(s: PqcStatus) -> Seq<char> {
    match s {
        PqcStatus::Vulnerable => "vulnerable"@,
        PqcStatus::Hybrid => "hybrid"@,
        PqcStatus::Resistant => "resistant"@,
        PqcStatus::SymmetricOk => "symmetric_ok"@,
        PqcStatus::Unknown => "unknown"@,
    }
}

/// The name a PQC status is written with in evidence.
pub fn pqc_status_str(s: PqcStatus) -> (r: &'static str)
    ensures
        r@ == status_name(s),
{
    match s {
        PqcStatus::Vulnerable => "vulnerable",
        PqcStatus::Hybrid => "hybrid",
        PqcStatus::Resistant => "resistant",
        PqcStatus::SymmetricOk => "symmetric_ok",
        PqcStatus::Unknown => "unknown",
    }
}

/// A JSON string.
pub open spec fn jstr(s: Seq<char>) -> EvidenceView {
    EvidenceView::Value(JsonView::Str(s))
}

/// A JSON integer.
pub open spec fn jint(n: i64) -> EvidenceView {
    EvidenceView::Value(
        if n < 0 {
            JsonView::NegInt(n)
        } else {
            JsonView::UInt(n as u64)
        },
    )
}

/// A JSON integer, or null.
pub open spec fn jopt_u64(n: Option<u64>) -> EvidenceView {
    EvidenceView::Value(
        match n {
            Some(v) => JsonView::UInt(v),
            None => JsonView::Null,
        },
    )
}

pub fn json_int(n: i64) -> (r: EvidenceValue)
    ensures
        r@ == jint(n),
{
    if n < 0 {
        EvidenceValue::Value(JsonValue::NegInt(n))
    } else {
        EvidenceValue::Value(JsonValue::UInt(n as u64))
    }
}

pub fn json_str(s: String) -> (r: EvidenceValue)
    ensures
        r@ == jstr(s@),
{
    EvidenceValue::Value(JsonValue::Str(s))
}

/// The evidence of a certificate found at `target` (a TLS endpoint or a
/// file): its names, algorithms, validity, fingerprint and PQC status, with
/// the public key's approximate size where `key_bits` is given.
pub open spec fn cert_evidence(
    c: CertView,
    target: Seq<char>,
    der: Seq<u8>,
    key_bits: Option<Option<u64>>,
) -> Seq<(Seq<char>, EvidenceView)> {
    let sig = friendly_sig_spec(c.signature_oid);
    let head = seq![
        ("kind"@, jstr("tls_certificate"@)),
        ("target"@, jstr(target)),
        ("subject"@, jstr(c.subject)),
        ("issuer"@, jstr(c.issuer)),
        ("signature_algorithm"@, jstr(sig)),
        ("signature_algorithm_oid"@, jstr(c.signature_oid)),
        ("public_key_algorithm"@, jstr(friendly_pk_spec(c.public_key_oid))),
        ("public_key_algorithm_oid"@, jstr(c.public_key_oid)),
    ];
    let bits = match key_bits {
        Some(b) => seq![("public_key_bits"@, jopt_u64(b))],
        None => Seq::empty(),
    };
    head + bits + seq![
        ("not_before_unix"@, jint(c.not_before)),
        ("not_after_unix"@, jint(c.not_after)),
        ("fingerprint_sha256"@, jstr(hex_spec(sha256_of(der)))),
        ("pqc_status"@, jstr(status_name(sig_alg_status(sig)))),
    ]
}

/// `f` is the finding of certificate `c` (DER bytes `der`) found at
/// `target` by scan `scan_id`.
pub open spec fn cert_finding_holds(
    f: Finding,
    scan_id: u128,
    target: Seq<char>,
    der: Seq<u8>,
    c: CertView,
    key_bits: Option<Option<u64>>,
) -> bool {
    &&& f.scan_id == scan_id
    &&& f.crypto_asset_id is None
    &&& f.source_type == SourceType::CertSubject
    &&& f.source_location@ == target + "|"@ + c.subject
    &&& f.evidence@ == cert_evidence(c, target, der, key_bits)
    &&& f.confidence == Confidence::High
}

/// The finding of one DER-encoded certificate found at `target`, with the
/// public key's approximate size where `with_key_bits` is set; `None` where
/// the bytes are not a certificate.
pub fn certificate_finding(scan_id: u128, target: &str, der: &[u8], with_key_bits: bool) -> (r:
    Option<Finding>)
    ensures
        match certificate_fields(der@) {
            None => r is None,
            Some(c) => r is Some && cert_finding_holds(
                r->Some_0,
                scan_id,
                target@,
                der@,
                c,
                if with_key_bits {
                    Some(key_bits_spec(c.key))
                } else {
                    None
                },
            ),
        },
{
    let c = match parse_certificate(der) {
        Some(c) => c,
        None => return None,
    };
    let sig = friendly_sig_oid(c.signature_oid.as_str());
    let pk = friendly_pk_oid(c.public_key_oid.as_str());
    let status = pqc_status_for_sig_alg(sig.as_str());
    let fp = sha256_hex(der);
    let mut ev = Evidence::new();
    ev.push("kind", json_str(String::from_str("tls_certificate")));
    ev.push("target", json_str(String::from_str(target)));
    ev.push("subject", json_str(c.subject.clone()));
    ev.push("issuer", json_str(c.issuer.clone()));
    ev.push("signature_algorithm", json_str(sig));
    ev.push("signature_algorithm_oid", json_str(c.signature_oid.clone()));
    ev.push("public_key_algorithm", json_str(pk));
    ev.push("public_key_algorithm_oid", json_str(c.public_key_oid.clone()));
    let ghost head = ev@;
    if with_key_bits {
        let bits = approximate_key_bits(c.key);
        let v = match bits {
            Some(b) => EvidenceValue::Value(JsonValue::UInt(b)),
            None => EvidenceValue::Value(JsonValue::Null),
        };
        ev.push("public_key_bits", v);
    }
    ev.push("not_before_unix", json_int(c.not_before));
    ev.push("not_after_unix", json_int(c.not_after));
    ev.push("fingerprint_sha256", json_str(string_of(fp.as_slice())));
    ev.push("pqc_status", json_str(String::from_str(pqc_status_str(status))));
    let mut loc: Vec<char> = Vec::new();
    push_str(&mut loc, target);
    push_str(&mut loc, "|");
    push_str(&mut loc, c.subject.as_str());
    let f = Finding::new(
        scan_id,
        SourceType::CertSubject,
        string_of(loc.as_slice()),
        ev,
        Confidence::High,
    );
    assert(f.evidence@ =~= cert_evidence(
        c@,
        target@,
        der@,
        if with_key_bits {
            Some(key_bits_spec(c.key))
        } else {
            None
        },
    ));
    Some(f)
}

/// The certificates of `ders` that parse, in order.
pub open spec fn parsed_certs(ders: Seq<Seq<u8>>) -> Seq<Seq<u8>>
    decreases ders.len(),
{
    if ders.len() == 0 {
        ders
    } else if certificate_fields(ders.last()) is Some {
        parsed_certs(ders.drop_last()).push(ders.last())
    } else {
        parsed_certs(ders.drop_last())
    }
}

/// `fs` are the findings, in order, of the certificates of `ders` that
/// parse, found at `target` by scan `scan_id`.
pub open spec fn cert_findings_hold(
    fs: Seq<Finding>,
    scan_id: u128,
    target: Seq<char>,
    ders: Seq<Seq<u8>>,
    with_key_bits: bool,
) -> bool {
    let certs = parsed_certs(ders);
    &&& fs.len() == certs.len()
    &&& forall|k: int|
        0 <= k < certs.len() ==> {
            let c = certificate_fields(certs[k])->Some_0;
            cert_finding_holds(
                #[trigger] fs[k],
                scan_id,
                target,
                certs[k],
                c,
                if with_key_bits {
                    Some(key_bits_spec(c.key))
                } else {
                    None
                },
            )
        }
}

/// The views of a list of byte strings.
pub open spec fn bytes_list(v: Seq<Vec<u8>>) -> Seq<Seq<u8>> {
    v.map_values(|b: Vec<u8>| b@)
}

/// The findings of the certificates of `ders` that parse, in order.
pub fn certificate_findings(scan_id: u128, target: &str, ders: &Vec<Vec<u8>>, with_key_bits: bool) -> (r:
    Vec<Finding>)
    ensures
        cert_findings_hold(r@, scan_id, target@, bytes_list(ders@), with_key_bits),
{
    let ghost all = bytes_list(ders@);
    let mut out: Vec<Finding> = Vec::new();
    let mut i: usize = 0;
    assert(all.take(0) =~= Seq::<Seq<u8>>::empty());
    while i < ders.len()
        invariant
            i <= ders.len(),
            all == bytes_list(ders@),
            cert_findings_hold(out@, scan_id, target@, all.take(i as int), with_key_bits),
        decreases ders.len() - i,
    {
        let der = &ders[i];
        let ghost prev = parsed_certs(all.take(i as int));
        proof {
            assert(all.take(i + 1).drop_last() =~= all.take(i as int));
            assert(all.take(i + 1).last() == der@);
        }
        let ghost before = out@;
        match certificate_finding(scan_id, target, der.as_slice(), with_key_bits) {
            Some(f) => {
                out.push(f);
                proof {
                    let now = parsed_certs(all.take(i + 1));
                    assert(now == prev.push(der@));
                    assert forall|k: int| 0 <= k < now.len() implies {
                        let c = certificate_fields(now[k])->Some_0;
                        cert_finding_holds(
                            #[trigger] out@[k],
                            scan_id,
                            target@,
                            now[k],
                            c,
                            if with_key_bits {
                                Some(key_bits_spec(c.key))
                            } else {
                                None
                            },
                        )
                    } by {
                        if k < prev.len() {
                            assert(out@[k] == before[k]);
                            assert(now[k] == prev[k]);
                        }
                    }
                }
            },
            None => {},
        }
        i = i + 1;
    }
    assert(all.take(ders.len() as int) =~= all);
    out
}

} // verus!
