//! The certificate store scanner's work on one file: PEM, DER and PKCS#12
//! certificates give one finding each; a Java keystore is recorded as such.
//! Walking the store and reading the files is left to the caller.

use vstd::prelude::*;
use vstd::string::*;
use crate::clock::valid_instant;
use crate::model::finding::{Confidence, Finding, SourceType};
use crate::model::json::{Evidence, EvidenceValue, EvidenceView, JsonValue, JsonView};
use crate::model::scan::{Scan, ScanStatus, ScanType};
use crate::scanners::cert::{
    bytes_list, cert_finding_holds, cert_findings_hold, certificate_fields, certificate_finding,
    certificate_findings, jstr, json_str, parsed_certs,
};
use crate::text::{chars_of, eq_str, push_str, string_of, trim, trim_chars};

verus! {

broadcast use vstd::string::group_string_axioms;

/// Options of a certificate store scan.
#[derive(Debug)]
pub struct CertStoreOptions {
    /// A file holding the password of PKCS#12 stores.
    pub password_file: Option<String>,
    pub name: Option<String>,
}

impl Default for CertStoreOptions {
    fn default() -> (r: CertStoreOptions)
        ensures
            r.password_file is None,
            r.name is None,
    {
        CertStoreOptions { password_file: None, name: None }
    }
}

/// The extensions of the files the scanner reads (in ASCII lower case).
pub const SUPPORTED_EXTS: [&'static str; 8] = ["pem", "crt", "cer", "der", "p7b", "p12", "pfx", "jks"];

/// How the scanner reads a file, by its extension.
#[derive(Debug, Clone, Copy, PartialEq, Eq, Structural)]
pub enum StoreFormat {
    /// PEM blocks, or failing any, DER.
    Pem,
    Der,
    Pkcs12,
    /// A Java keystore, recorded without being read.
    Jks,
}

/// The format of a file with extension `e` (in ASCII lower case); `None`
/// for a file the scanner skips.
pub open spec fn format_of_ext(e: Seq<char>) -> Option<StoreFormat> {
    if e == "pem"@ || e == "crt"@ || e == "cer"@ || e == "p7b"@ {
        Some(StoreFormat::Pem)
    } else if e == "der"@ {
        Some(StoreFormat::Der)
    } else if e == "p12"@ || e == "pfx"@ {
        Some(StoreFormat::Pkcs12)
    } else if e == "jks"@ {
        Some(StoreFormat::Jks)
    } else {
        None
    }
}

/// The format of a file by its extension, in ASCII lower case.
pub fn format_of(ext: &str) -> (r: Option<StoreFormat>)
    ensures
        r == format_of_ext(ext@),
{
    let c = chars_of(ext);
    let e = c.as_slice();
    if eq_str(e, "pem") || eq_str(e, "crt") || eq_str(e, "cer") || eq_str(e, "p7b") {
        Some(StoreFormat::Pem)
    } else if eq_str(e, "der") {
        Some(StoreFormat::Der)
    } else if eq_str(e, "p12") || eq_str(e, "pfx") {
        Some(StoreFormat::Pkcs12)
    } else if eq_str(e, "jks") {
        Some(StoreFormat::Jks)
    } else {
        None
    }
}

/// The password of PKCS#12 stores, from the contents of the password file:
/// surrounding whitespace dropped.
pub fn password_from_file(raw: &str) -> (r: String)
    ensures
        r@ == trim(raw@),
{
    let c = chars_of(raw);
    let t = trim_chars(c.as_slice());
    string_of(t.as_slice())
}

/// The name of a certificate store scan: the one given, or `certs:` and
/// the store's path.
pub open spec fn store_scan_name(name: Option<Seq<char>>, root: Seq<char>) -> Seq<char> {
    match name {
        Some(n) => n,
        None => "certs:"@ + root,
    }
}

/// A new scan of the certificate store at `root`, running.
pub fn new_store_scan(root: &str, options: &CertStoreOptions) -> (r: Scan)
    ensures
        r.name@ == store_scan_name(crate::model::asset::opt_view(options.name), root@),
        r.scan_type == ScanType::CertificateStore,
        r.status == ScanStatus::Running,
        r.target@ == root@,
        r.findings@.len() == 0,
        r.completed_at is None,
        valid_instant(r.started_at),
{
    let name = match &options.name {
        Some(n) => n.clone(),
        None => {
            let mut v: Vec<char> = Vec::new();
            push_str(&mut v, "certs:");
            push_str(&mut v, root);
            string_of(v.as_slice())
        },
    };
    let mut scan = Scan::new(name, ScanType::CertificateStore, String::from_str(root));
    scan.status = ScanStatus::Running;
    scan
}

/// The contents of the PEM blocks of `bytes`, read in order up to the
/// first block that does not read.
pub uninterp spec fn pem_contents(bytes: Seq<u8>) -> Seq<Seq<u8>>;

/// Calls `x509_parser::pem::Pem::iter_from_buffer` and collects the
/// `contents` of the blocks it reads, stopping at the first error. The
/// contract names the result, a function of the bytes alone.
#[verifier::external_body]
pub(crate) fn pem_blocks(bytes: &[u8]) -> (r: Vec<Vec<u8>>)
    ensures
        bytes_list(r@) == pem_contents(bytes@),
{
    x509_parser::pem::Pem::iter_from_buffer(bytes).map_while(|p| p.ok()).map(|p| p.contents).collect()
}

/// The certificates of a PKCS#12 store opened with `password`, in alias
/// order, each key chain's certificates in chain order; `None` where the
/// store does not open.
pub uninterp spec fn pkcs12_certificates(bytes: Seq<u8>, password: Seq<char>) -> Option<
    Seq<Seq<u8>>,
>;

pub open spec fn opt_bytes_list(v: Option<Vec<Vec<u8>>>) -> Option<Seq<Seq<u8>>> {
    match v {
        Some(l) => Some(bytes_list(l@)),
        None => None,
    }
}

/// Calls `p12_keystore::KeyStore::from_pkcs12` with the strict import
/// policy, then walks `KeyStore::entries` (a `BTreeMap` by alias) and takes
/// `Certificate::as_der` of each certificate entry and of each certificate
/// of each private-key chain (`PrivateKeyChain::certs`). The contract names
/// the result, a function of the bytes and the password.
#[verifier::external_body]
pub(crate) fn pkcs12_store_certificates(bytes: &[u8], password: &str) -> (r: Option<Vec<Vec<u8>>>)
    ensures
        opt_bytes_list(r) == pkcs12_certificates(bytes@, password@),
{
    let policy = p12_keystore::Pkcs12ImportPolicy::Strict;
    let store = p12_keystore::KeyStore::from_pkcs12(bytes, password, policy).ok()?;
    let mut out = Vec::new();
    for (_alias, entry) in store.entries() {
        match entry {
            p12_keystore::KeyStoreEntry::Certificate(c) => out.push(c.as_der().to_vec()),
            p12_keystore::KeyStoreEntry::PrivateKeyChain(k) => {
                out.extend(k.certs().iter().map(|c| c.as_der().to_vec()))
            },
            _ => {},
        }
    }
    Some(out)
}

/// The evidence of a keystore recorded without being read.
pub open spec fn keystore_evidence(kind: Seq<char>) -> Seq<(Seq<char>, EvidenceView)> {
    seq![("kind"@, jstr("cert_or_keystore_file"@)), ("store_type"@, jstr(kind))]
}

/// `f` records the keystore at `file`, of kind `kind`, found by `scan_id`.
pub open spec fn keystore_finding_holds(f: Finding, scan_id: u128, file: Seq<char>, kind: Seq<char>) -> bool {
    &&& f.scan_id == scan_id
    &&& f.crypto_asset_id is None
    &&& f.source_type == SourceType::File
    &&& f.source_location@ == file
    &&& f.evidence@ == keystore_evidence(kind)
    &&& f.confidence == Confidence::Low
}

/// A low-confidence finding of a keystore the scanner does not read.
pub fn keystore_placeholder(scan_id: u128, file: &str, kind: &str) -> (r: Finding)
    ensures
        keystore_finding_holds(r, scan_id, file@, kind@),
{
    let mut ev = Evidence::new();
    ev.push("kind", json_str(String::from_str("cert_or_keystore_file")));
    ev.push("store_type", json_str(String::from_str(kind)));
    assert(ev@ =~= keystore_evidence(kind@));
    Finding::new(scan_id, SourceType::File, String::from_str(file), ev, Confidence::Low)
}

/// The kind a Java keystore is recorded as.
pub open spec fn jks_kind() -> Seq<char> {
    "JKS (convert to PKCS12 with keytool for full parsing)"@
}

/// The findings of a file in PEM form: one for each certificate among its
/// blocks, or, where none parses, the one of the whole file read as DER.
pub open spec fn pem_findings_hold(fs: Seq<Finding>, scan_id: u128, file: Seq<char>, bytes: Seq<u8>) -> bool {
    if parsed_certs(pem_contents(bytes)).len() > 0 {
        cert_findings_hold(fs, scan_id, file, pem_contents(bytes), false)
    } else {
        cert_findings_hold(fs, scan_id, file, seq![bytes], false)
    }
}

/// The findings of a certificate file in PEM form.
pub fn parse_pem_blocks(scan_id: u128, file: &str, bytes: &[u8]) -> (r: Vec<Finding>)
    ensures
        pem_findings_hold(r@, scan_id, file@, bytes@),
{
    let blocks = pem_blocks(bytes);
    let out = certificate_findings(scan_id, file, &blocks, false);
    if out.len() > 0 {
        return out;
    }
    let mut whole: Vec<Vec<u8>> = Vec::new();
    let mut b: Vec<u8> = Vec::new();
    let mut i: usize = 0;
    while i < bytes.len()
        invariant
            i <= bytes.len(),
            b@ == bytes@.take(i as int),
        decreases bytes.len() - i,
    {
        b.push(bytes[i]);
        assert(bytes@.take(i + 1) =~= bytes@.take(i as int).push(bytes@[i as int]));
        i = i + 1;
    }
    assert(bytes@.take(bytes.len() as int) =~= bytes@);
    whole.push(b);
    assert(bytes_list(whole@) =~= seq![bytes@]);
    certificate_findings(scan_id, file, &whole, false)
}

/// The findings of one file of a certificate store, read in the format its
/// extension gives: the certificates it holds (a PKCS#12 store opened with
/// `password`, the empty one where none is given), or for a Java keystore
/// one placeholder finding.
pub open spec fn store_file_findings_hold(
    fs: Seq<Finding>,
    scan_id: u128,
    file: Seq<char>,
    format: StoreFormat,
    bytes: Seq<u8>,
    password: Seq<char>,
) -> bool {
    match format {
        StoreFormat::Pem => pem_findings_hold(fs, scan_id, file, bytes),
        StoreFormat::Der => cert_findings_hold(fs, scan_id, file, seq![bytes], false),
        StoreFormat::Pkcs12 => match pkcs12_certificates(bytes, password) {
            Some(ders) => cert_findings_hold(fs, scan_id, file, ders, false),
            None => fs.len() == 0,
        },
        StoreFormat::Jks => fs.len() == 1 && keystore_finding_holds(fs[0], scan_id, file, jks_kind()),
    }
}

/// The findings of one file of a certificate store.
pub fn store_file_findings(
    scan_id: u128,
    file: &str,
    format: StoreFormat,
    bytes: &[u8],
    password: Option<&str>,
) -> (r: Vec<Finding>)
    ensures
        store_file_findings_hold(
            r@,
            scan_id,
            file@,
            format,
            bytes@,
            match password {
                Some(p) => p@,
                None => Seq::empty(),
            },
        ),
{
    match format {
        StoreFormat::Pem => parse_pem_blocks(scan_id, file, bytes),
        StoreFormat::Der => {
            let mut out: Vec<Finding> = Vec::new();
            match certificate_finding(scan_id, file, bytes, false) {
                Some(f) => {
                    out.push(f);
                },
                None => {},
            }
            proof {
                let s = seq![bytes@];
                assert(s.drop_last() =~= Seq::<Seq<u8>>::empty());
                assert(s.last() == bytes@);
                assert(parsed_certs(Seq::<Seq<u8>>::empty()) =~= Seq::<Seq<u8>>::empty());
                if certificate_fields(bytes@) is Some {
                    assert(parsed_certs(s) =~= seq![bytes@]);
                } else {
                    assert(parsed_certs(s) =~= Seq::<Seq<u8>>::empty());
                }
            }
            out
        },
        StoreFormat::Pkcs12 => {
            let pw = match password {
                Some(p) => p,
                None => "",
            };
            proof {
                reveal_strlit("");
                if password is None {
                    assert(pw@ =~= Seq::<char>::empty());
                }
            }
            match pkcs12_store_certificates(bytes, pw) {
                Some(ders) => certificate_findings(scan_id, file, &ders, false),
                None => Vec::new(),
            }
        },
        StoreFormat::Jks => {
            let mut out: Vec<Finding> = Vec::new();
            out.push(
                keystore_placeholder(
                    scan_id,
                    file,
                    "JKS (convert to PKCS12 with keytool for full parsing)",
                ),
            );
            out
        },
    }
}

} // verus!
