//! The dedup pipeline that promotes findings into the canonical inventory.

use vstd::prelude::*;
use vstd::string::*;
use crate::digest::{hex_spec, sha256_hex, sha256_of};
use crate::model::asset::{
    AssetType, AssetView, CryptoAsset, MigrationDifficulty, MigrationStatus, PqcStatus, Primitive,
};
use crate::model::finding::Finding;
use crate::model::json::{
    ev_object, ev_str, ev_u64, lemma_vget_push, lemma_vget_vinsert, lemma_vget_vinsert_absent, vget,
    vget_str, vget_u64, vinsert, vinsert_absent, EvidenceView, JsonObject, JsonValue, JsonView,
};
use crate::model::scan::Scan;
use crate::text::{
    chars_eq, chars_of, decimal, decimal_chars, decimal_injective, decimal_is_not_underscore, eq_str, lower, lower_chars, push_chars, push_str,
    string_of,
};

verus! {

/// What a finding's dedup key carries; `S` is `String` in executable code and
/// `Seq<char>` in specifications.
pub struct KeyFields<S> {
    pub dedup_key: S,
    pub asset_type: AssetType,
    pub algorithm_name: S,
    pub pqc_status: PqcStatus,
    pub primitive: Option<Primitive>,
    pub key_size_bits: Option<u64>,
    pub source_root: S,
    pub library_name: Option<S>,
    /// The fingerprint the asset records: the digest of a certificate or
    /// keystore file, or a TLS certificate's fingerprint.
    pub fingerprint: Option<S>,
}

impl View for KeyFields<String> {
    type V = KeyFields<Seq<char>>;

    open spec fn view(&self) -> KeyFields<Seq<char>> {
        KeyFields {
            dedup_key: self.dedup_key@,
            asset_type: self.asset_type,
            algorithm_name: self.algorithm_name@,
            pqc_status: self.pqc_status,
            primitive: self.primitive,
            key_size_bits: self.key_size_bits,
            source_root: self.source_root@,
            library_name: match self.library_name {
                Some(l) => Some(l@),
                None => None,
            },
            fingerprint: match self.fingerprint {
                Some(f) => Some(f@),
                None => None,
            },
        }
    }
}

pub open spec fn or_default(o: Option<Seq<char>>, d: Seq<char>) -> Seq<char> {
    match o {
        Some(s) => s,
        None => d,
    }
}

/// Everything before the last `:`, if there is one (`rsplit_once(':')`).
pub open spec fn before_last_colon(s: Seq<char>) -> Option<Seq<char>>
    decreases s.len(),
{
    if s.len() == 0 {
        None
    } else if s.last() == ':' {
        Some(s.drop_last())
    } else {
        before_last_colon(s.drop_last())
    }
}

/// The characters before the first `/`.
pub open spec fn up_to_slash(p: Seq<char>) -> Seq<char>
    decreases p.len(),
{
    if p.len() == 0 || p[0] == '/' {
        Seq::empty()
    } else {
        seq![p[0]] + up_to_slash(p.drop_first())
    }
}

/// The root of a source location: the location without its `:line` suffix,
/// then its first path component (`/` for an absolute path).
pub open spec fn source_root_spec(loc: Seq<char>) -> Seq<char> {
    let p = or_default(before_last_colon(loc), loc);
    if p.len() == 0 {
        p
    } else if p[0] == '/' {
        "/"@
    } else {
        up_to_slash(p)
    }
}

proof fn lemma_before_last_colon_at(s: Seq<char>, i: int)
    requires
        0 <= i < s.len(),
        s[i] == ':',
        forall|j: int| i < j < s.len() ==> s[j] != ':',
    ensures
        before_last_colon(s) == Some(s.take(i)),
    decreases s.len() - i,
{
    if i == s.len() - 1 {
        assert(s.drop_last() =~= s.take(i));
    } else {
        let t = s.drop_last();
        assert forall|j: int| i < j < t.len() implies t[j] != ':' by {
            assert(t[j] == s[j]);
        }
        lemma_before_last_colon_at(t, i);
        assert(t.take(i) =~= s.take(i));
    }
}

proof fn lemma_before_last_colon_none(s: Seq<char>)
    requires
        forall|j: int| 0 <= j < s.len() ==> s[j] != ':',
    ensures
        before_last_colon(s) is None,
    decreases s.len(),
{
    if s.len() > 0 {
        let t = s.drop_last();
        assert forall|j: int| 0 <= j < t.len() implies t[j] != ':' by {
            assert(t[j] == s[j]);
        }
        lemma_before_last_colon_none(t);
    }
}

proof fn lemma_up_to_slash_at(p: Seq<char>, k: int)
    requires
        0 <= k <= p.len(),
        forall|j: int| 0 <= j < k ==> p[j] != '/',
        k == p.len() || p[k] == '/',
    ensures
        up_to_slash(p) == p.take(k),
    decreases k,
{
    if k == 0 {
        assert(p.take(0) =~= Seq::<char>::empty());
    } else {
        let t = p.drop_first();
        assert forall|j: int| 0 <= j < k - 1 implies t[j] != '/' by {
            assert(t[j] == p[j + 1]);
        }
        if k - 1 < t.len() {
            assert(t[k - 1] == p[k]);
        }
        lemma_up_to_slash_at(t, k - 1);
        assert(seq![p[0]] + t.take(k - 1) =~= p.take(k));
    }
}

/// The root of a source location.
fn source_root_of(source_location: &str) -> (r: Vec<char>)
    ensures
        r@ == source_root_spec(source_location@),
{
    let loc = chars_of(source_location);
    let mut i: usize = loc.len();
    while i > 0 && loc[i - 1] != ':'
        invariant
            i <= loc.len(),
            forall|j: int| i <= j < loc.len() ==> loc@[j] != ':',
        decreases i,
    {
        i = i - 1;
    }
    let mut p: Vec<char> = Vec::new();
    if i == 0 {
        proof {
            lemma_before_last_colon_none(loc@);
        }
        push_chars(&mut p, loc.as_slice());
    } else {
        proof {
            lemma_before_last_colon_at(loc@, i - 1);
        }
        let mut k: usize = 0;
        while k < i - 1
            invariant
                k <= i - 1,
                i <= loc.len(),
                p@ == loc@.take(k as int),
            decreases i - 1 - k,
        {
            p.push(loc[k]);
            assert(loc@.take(k + 1) == loc@.take(k as int).push(loc@[k as int]));
            k = k + 1;
        }
    }
    if p.len() == 0 {
        return p;
    }
    if p[0] == '/' {
        let mut r: Vec<char> = Vec::new();
        push_str(&mut r, "/");
        return r;
    }
    let mut r: Vec<char> = Vec::new();
    let mut k: usize = 0;
    while k < p.len() && p[k] != '/'
        invariant
            k <= p.len(),
            r@ == p@.take(k as int),
            forall|j: int| 0 <= j < k ==> p@[j] != '/',
        decreases p.len() - k,
    {
        r.push(p[k]);
        assert(p@.take(k + 1) == p@.take(k as int).push(p@[k as int]));
        k = k + 1;
    }
    proof {
        lemma_up_to_slash_at(p@, k as int);
    }
    r
}

pub open spec fn parse_primitive_spec(s: Seq<char>) -> Option<Primitive> {
    if s == "block_cipher"@ {
        Some(Primitive::BlockCipher)
    } else if s == "stream_cipher"@ {
        Some(Primitive::StreamCipher)
    } else if s == "hash"@ {
        Some(Primitive::Hash)
    } else if s == "signature"@ {
        Some(Primitive::Signature)
    } else if s == "key_agreement"@ {
        Some(Primitive::KeyAgreement)
    } else if s == "kem"@ {
        Some(Primitive::Kem)
    } else if s == "pke"@ {
        Some(Primitive::Pke)
    } else if s == "mac"@ {
        Some(Primitive::Mac)
    } else if s == "drbg"@ {
        Some(Primitive::Drbg)
    } else {
        None
    }
}

fn parse_primitive(s: &[char]) -> (r: Option<Primitive>)
    ensures
        r == parse_primitive_spec(s@),
{
    if eq_str(s, "block_cipher") {
        Some(Primitive::BlockCipher)
    } else if eq_str(s, "stream_cipher") {
        Some(Primitive::StreamCipher)
    } else if eq_str(s, "hash") {
        Some(Primitive::Hash)
    } else if eq_str(s, "signature") {
        Some(Primitive::Signature)
    } else if eq_str(s, "key_agreement") {
        Some(Primitive::KeyAgreement)
    } else if eq_str(s, "kem") {
        Some(Primitive::Kem)
    } else if eq_str(s, "pke") {
        Some(Primitive::Pke)
    } else if eq_str(s, "mac") {
        Some(Primitive::Mac)
    } else if eq_str(s, "drbg") {
        Some(Primitive::Drbg)
    } else {
        None
    }
}

/// The PQC status named by an evidence string; anything else is unknown.
pub open spec fn pqc_status_spec(s: Option<Seq<char>>) -> PqcStatus {
    match s {
        Some(v) => if v == "vulnerable"@ {
            PqcStatus::Vulnerable
        } else if v == "hybrid"@ {
            PqcStatus::Hybrid
        } else if v == "resistant"@ {
            PqcStatus::Resistant
        } else if v == "symmetric_ok"@ {
            PqcStatus::SymmetricOk
        } else {
            PqcStatus::Unknown
        },
        None => PqcStatus::Unknown,
    }
}

fn parse_pqc_status(s: Option<&String>) -> (r: PqcStatus)
    ensures
        r == pqc_status_spec(
            match s {
                Some(v) => Some(v@),
                None => None,
            },
        ),
{
    match s {
        Some(v) => {
            let c = chars_of(v.as_str());
            let c = c.as_slice();
            if eq_str(c, "vulnerable") {
                PqcStatus::Vulnerable
            } else if eq_str(c, "hybrid") {
                PqcStatus::Hybrid
            } else if eq_str(c, "resistant") {
                PqcStatus::Resistant
            } else if eq_str(c, "symmetric_ok") {
                PqcStatus::SymmetricOk
            } else {
                PqcStatus::Unknown
            }
        },
        None => PqcStatus::Unknown,
    }
}

/// A key size as written in a dedup key: decimal, or `_` when absent.
pub open spec fn bits_text(b: Option<u64>) -> Seq<char> {
    match b {
        Some(n) => decimal(n as nat),
        None => "_"@,
    }
}

fn bits_text_exec(b: Option<u64>) -> (r: Vec<char>)
    ensures
        r@ == bits_text(b),
{
    match b {
        Some(n) => decimal_chars(n),
        None => {
            let mut v: Vec<char> = Vec::new();
            push_str(&mut v, "_");
            v
        },
    }
}

/// The dedup key and asset data of a finding, given the bytes of the file it
/// names (used only for cert and keystore files found in a codebase).
pub open spec fn finding_key_spec(
    loc: Seq<char>,
    ev: Seq<(Seq<char>, EvidenceView)>,
    bytes: Seq<u8>,
) -> KeyFields<Seq<char>> {
    let root = source_root_spec(loc);
    let kind = or_default(ev_str(ev, "kind"@), ""@);
    let pqc = pqc_status_spec(ev_str(ev, "pqc_status"@));
    if kind == "cert_or_keystore_file"@ {
        KeyFields {
            dedup_key: "cert:"@ + hex_spec(sha256_of(bytes)),
            asset_type: AssetType::Certificate,
            algorithm_name: "x509"@,
            pqc_status: PqcStatus::Unknown,
            primitive: None,
            key_size_bits: None,
            source_root: root,
            library_name: None,
            fingerprint: Some(hex_spec(sha256_of(bytes))),
        }
    } else if kind == "algorithm_match"@ {
        let algo = or_default(ev_str(ev, "algorithm_name"@), "unknown"@);
        let params = or_default_obj(ev_object(ev, "parameter_set"@));
        let primitive = match vget_str(params, "primitive"@) {
            Some(p) => parse_primitive_spec(p),
            None => None,
        };
        let bits = vget_u64(params, "key_size_bits"@);
        KeyFields {
            dedup_key: "algo:"@ + lower(algo) + ":"@ + bits_text(bits) + ":"@ + root,
            asset_type: AssetType::Algorithm,
            algorithm_name: algo,
            pqc_status: pqc,
            primitive,
            key_size_bits: bits,
            source_root: root,
            library_name: None,
            fingerprint: None,
        }
    } else if kind == "library_import"@ {
        let lib = or_default(ev_str(ev, "library_name"@), "unknown"@);
        KeyFields {
            dedup_key: "lib:"@ + lower(lib) + ":"@ + root,
            asset_type: AssetType::LibraryDependency,
            algorithm_name: lib,
            pqc_status: PqcStatus::Unknown,
            primitive: None,
            key_size_bits: None,
            source_root: root,
            library_name: Some(lib),
            fingerprint: None,
        }
    } else if kind == "tls_certificate"@ {
        KeyFields {
            dedup_key: "cert:"@ + or_default(ev_str(ev, "fingerprint_sha256"@), ""@),
            asset_type: AssetType::Certificate,
            algorithm_name: or_default(ev_str(ev, "signature_algorithm"@), "x509"@),
            pqc_status: pqc,
            primitive: Some(Primitive::Signature),
            key_size_bits: ev_u64(ev, "public_key_bits"@),
            source_root: root,
            library_name: None,
            fingerprint: Some(or_default(ev_str(ev, "fingerprint_sha256"@), ""@)),
        }
    } else if kind == "tls_endpoint"@ {
        let suite = or_default(ev_str(ev, "cipher_suite"@), "unknown"@);
        KeyFields {
            dedup_key: "tls_endpoint:"@ + loc + ":"@ + suite,
            asset_type: AssetType::ProtocolEndpoint,
            algorithm_name: suite,
            pqc_status: pqc,
            primitive: None,
            key_size_bits: None,
            source_root: root,
            library_name: None,
            fingerprint: None,
        }
    } else if kind == "tls_supported_group"@ {
        let group = or_default(ev_str(ev, "group"@), "unknown"@);
        KeyFields {
            dedup_key: "tls_group:"@ + loc + ":"@ + group,
            asset_type: AssetType::ProtocolEndpoint,
            algorithm_name: group,
            pqc_status: pqc,
            primitive: Some(Primitive::Kem),
            key_size_bits: None,
            source_root: root,
            library_name: None,
            fingerprint: None,
        }
    } else {
        KeyFields {
            dedup_key: "other:"@ + loc,
            asset_type: AssetType::Algorithm,
            algorithm_name: "unknown"@,
            pqc_status: PqcStatus::Unknown,
            primitive: None,
            key_size_bits: None,
            source_root: root,
            library_name: None,
            fingerprint: None,
        }
    }
}

pub open spec fn or_default_obj(o: Option<Seq<(Seq<char>, JsonView)>>) -> Seq<(Seq<char>, JsonView)> {
    match o {
        Some(p) => p,
        None => Seq::empty(),
    }
}

fn str_or(o: Option<&String>, d: &str) -> (r: Vec<char>)
    ensures
        r@ == or_default(
            match o {
                Some(s) => Some(s@),
                None => None,
            },
            d@,
        ),
{
    match o {
        Some(s) => chars_of(s.as_str()),
        None => chars_of(d),
    }
}

/// Key data of a finding; `bytes` are the contents of the file it names.
fn finding_dedup_key(finding: &Finding, bytes: &[u8]) -> (r: KeyFields<String>)
    ensures
        r@ == finding_key_spec(finding.source_location@, finding.evidence@, bytes@),
{
    let ev = &finding.evidence;
    let root = source_root_of(finding.source_location.as_str());
    let kind = str_or(ev.get_str("kind"), "");
    let kind = kind.as_slice();
    let pqc = parse_pqc_status(ev.get_str("pqc_status"));
    let root_s = string_of(root.as_slice());
    if eq_str(kind, "cert_or_keystore_file") {
        let mut k: Vec<char> = Vec::new();
        push_str(&mut k, "cert:");
        let d = sha256_hex(bytes);
        push_chars(&mut k, d.as_slice());
        KeyFields {
            dedup_key: string_of(k.as_slice()),
            asset_type: AssetType::Certificate,
            algorithm_name: String::from_str("x509"),
            pqc_status: PqcStatus::Unknown,
            primitive: None,
            key_size_bits: None,
            source_root: root_s,
            library_name: None,
            fingerprint: Some(string_of(d.as_slice())),
        }
    } else if eq_str(kind, "algorithm_match") {
        let algo = str_or(ev.get_str("algorithm_name"), "unknown");
        let (primitive, bits) = match ev.get_object("parameter_set") {
            Some(params) => {
                let primitive = match params.get_str("primitive") {
                    Some(p) => parse_primitive(chars_of(p.as_str()).as_slice()),
                    None => None,
                };
                (primitive, params.get_u64("key_size_bits"))
            },
            None => {
                proof {
                    assert(vget_str(Seq::<(Seq<char>, JsonView)>::empty(), "primitive"@) is None);
                    assert(vget_u64(Seq::<(Seq<char>, JsonView)>::empty(), "key_size_bits"@) is None);
                }
                (None, None)
            },
        };
        let mut k: Vec<char> = Vec::new();
        push_str(&mut k, "algo:");
        let la = lower_chars(algo.as_slice());
        push_chars(&mut k, la.as_slice());
        push_str(&mut k, ":");
        let bt = bits_text_exec(bits);
        push_chars(&mut k, bt.as_slice());
        push_str(&mut k, ":");
        push_chars(&mut k, root.as_slice());
        KeyFields {
            dedup_key: string_of(k.as_slice()),
            asset_type: AssetType::Algorithm,
            algorithm_name: string_of(algo.as_slice()),
            pqc_status: pqc,
            primitive,
            key_size_bits: bits,
            source_root: root_s,
            library_name: None,
            fingerprint: None,
        }
    } else if eq_str(kind, "library_import") {
        let lib = str_or(ev.get_str("library_name"), "unknown");
        let mut k: Vec<char> = Vec::new();
        push_str(&mut k, "lib:");
        let ll = lower_chars(lib.as_slice());
        push_chars(&mut k, ll.as_slice());
        push_str(&mut k, ":");
        push_chars(&mut k, root.as_slice());
        KeyFields {
            dedup_key: string_of(k.as_slice()),
            asset_type: AssetType::LibraryDependency,
            algorithm_name: string_of(lib.as_slice()),
            pqc_status: PqcStatus::Unknown,
            primitive: None,
            key_size_bits: None,
            source_root: root_s,
            library_name: Some(string_of(lib.as_slice())),
            fingerprint: None,
        }
    } else if eq_str(kind, "tls_certificate") {
        let fp = str_or(ev.get_str("fingerprint_sha256"), "");
        let mut k: Vec<char> = Vec::new();
        push_str(&mut k, "cert:");
        push_chars(&mut k, fp.as_slice());
        let sig = str_or(ev.get_str("signature_algorithm"), "x509");
        KeyFields {
            dedup_key: string_of(k.as_slice()),
            asset_type: AssetType::Certificate,
            algorithm_name: string_of(sig.as_slice()),
            pqc_status: pqc,
            primitive: Some(Primitive::Signature),
            key_size_bits: ev.get_u64("public_key_bits"),
            source_root: root_s,
            library_name: None,
            fingerprint: Some(string_of(fp.as_slice())),
        }
    } else if eq_str(kind, "tls_endpoint") {
        let suite = str_or(ev.get_str("cipher_suite"), "unknown");
        let mut k: Vec<char> = Vec::new();
        push_str(&mut k, "tls_endpoint:");
        push_str(&mut k, finding.source_location.as_str());
        push_str(&mut k, ":");
        push_chars(&mut k, suite.as_slice());
        KeyFields {
            dedup_key: string_of(k.as_slice()),
            asset_type: AssetType::ProtocolEndpoint,
            algorithm_name: string_of(suite.as_slice()),
            pqc_status: pqc,
            primitive: None,
            key_size_bits: None,
            source_root: root_s,
            library_name: None,
            fingerprint: None,
        }
    } else if eq_str(kind, "tls_supported_group") {
        let group = str_or(ev.get_str("group"), "unknown");
        let mut k: Vec<char> = Vec::new();
        push_str(&mut k, "tls_group:");
        push_str(&mut k, finding.source_location.as_str());
        push_str(&mut k, ":");
        push_chars(&mut k, group.as_slice());
        KeyFields {
            dedup_key: string_of(k.as_slice()),
            asset_type: AssetType::ProtocolEndpoint,
            algorithm_name: string_of(group.as_slice()),
            pqc_status: pqc,
            primitive: Some(Primitive::Kem),
            key_size_bits: None,
            source_root: root_s,
            library_name: None,
            fingerprint: None,
        }
    } else {
        let mut k: Vec<char> = Vec::new();
        push_str(&mut k, "other:");
        push_str(&mut k, finding.source_location.as_str());
        KeyFields {
            dedup_key: string_of(k.as_slice()),
            asset_type: AssetType::Algorithm,
            algorithm_name: String::from_str("unknown"),
            pqc_status: PqcStatus::Unknown,
            primitive: None,
            key_size_bits: None,
            source_root: root_s,
            library_name: None,
            fingerprint: None,
        }
    }
}


/// The dedup key of an inventory asset.
pub open spec fn asset_key_spec(a: AssetView) -> Seq<char> {
    let params = a.parameter_set;
    let bits = vget_u64(params, "key_size_bits"@);
    let root = or_default(vget_str(params, "source_root"@), "_"@);
    match a.asset_type {
        AssetType::Algorithm => "algo:"@ + lower(a.algorithm_name) + ":"@ + bits_text(bits) + ":"@
            + root,
        AssetType::Certificate => "cert:"@ + or_default(
            vget_str(params, "fingerprint_sha256"@),
            a.name,
        ),
        AssetType::LibraryDependency => "lib:"@ + lower(a.algorithm_name) + ":"@ + root,
        AssetType::ProtocolEndpoint => (if vget_str(params, "kind"@) == Some(
            "tls_supported_group"@,
        ) {
            "tls_group"@
        } else {
            "tls_endpoint"@
        }) + ":"@ + or_default(vget_str(params, "target"@), a.name) + ":"@ + a.algorithm_name,
        AssetType::Key => "key:"@ + a.name,
    }
}

fn asset_dedup_key(asset: &CryptoAsset) -> (r: Vec<char>)
    ensures
        r@ == asset_key_spec(asset@),
{
    let params = &asset.parameter_set;
    let mut k: Vec<char> = Vec::new();
    match asset.asset_type {
        AssetType::Algorithm => {
            push_str(&mut k, "algo:");
            let la = lower_chars(chars_of(asset.algorithm_name.as_str()).as_slice());
            push_chars(&mut k, la.as_slice());
            push_str(&mut k, ":");
            let bt = bits_text_exec(params.get_u64("key_size_bits"));
            push_chars(&mut k, bt.as_slice());
            push_str(&mut k, ":");
            let root = str_or(params.get_str("source_root"), "_");
            push_chars(&mut k, root.as_slice());
        },
        AssetType::Certificate => {
            push_str(&mut k, "cert:");
            match params.get_str("fingerprint_sha256") {
                Some(fp) => push_str(&mut k, fp.as_str()),
                None => push_str(&mut k, asset.name.as_str()),
            }
        },
        AssetType::LibraryDependency => {
            push_str(&mut k, "lib:");
            let la = lower_chars(chars_of(asset.algorithm_name.as_str()).as_slice());
            push_chars(&mut k, la.as_slice());
            push_str(&mut k, ":");
            let root = str_or(params.get_str("source_root"), "_");
            push_chars(&mut k, root.as_slice());
        },
        AssetType::ProtocolEndpoint => {
            let is_group = match params.get_str("kind") {
                Some(kd) => crate::text::str_eq(kd.as_str(), "tls_supported_group"),
                None => false,
            };
            if is_group {
                push_str(&mut k, "tls_group");
            } else {
                push_str(&mut k, "tls_endpoint");
            }
            push_str(&mut k, ":");
            match params.get_str("target") {
                Some(t) => push_str(&mut k, t.as_str()),
                None => push_str(&mut k, asset.name.as_str()),
            }
            push_str(&mut k, ":");
            push_str(&mut k, asset.algorithm_name.as_str());
        },
        AssetType::Key => {
            push_str(&mut k, "key:");
            push_str(&mut k, asset.name.as_str());
        },
    }
    k
}

/// The migration difficulty given to a newly found asset.
pub open spec fn migration_difficulty_spec(t: AssetType, s: PqcStatus) -> MigrationDifficulty {
    match t {
        AssetType::Certificate => MigrationDifficulty::Medium,
        AssetType::Key => MigrationDifficulty::Medium,
        AssetType::LibraryDependency => MigrationDifficulty::Low,
        AssetType::ProtocolEndpoint => MigrationDifficulty::Medium,
        AssetType::Algorithm => match s {
            PqcStatus::SymmetricOk => MigrationDifficulty::Trivial,
            PqcStatus::Resistant => MigrationDifficulty::Trivial,
            _ => MigrationDifficulty::Medium,
        },
    }
}

fn migration_difficulty_for(t: AssetType, s: PqcStatus) -> (r: MigrationDifficulty)
    ensures
        r == migration_difficulty_spec(t, s),
{
    match (t, s) {
        (AssetType::Certificate, _) => MigrationDifficulty::Medium,
        (AssetType::Key, _) => MigrationDifficulty::Medium,
        (AssetType::LibraryDependency, _) => MigrationDifficulty::Low,
        (AssetType::ProtocolEndpoint, _) => MigrationDifficulty::Medium,
        (AssetType::Algorithm, PqcStatus::SymmetricOk) => MigrationDifficulty::Trivial,
        (AssetType::Algorithm, PqcStatus::Resistant) => MigrationDifficulty::Trivial,
        (AssetType::Algorithm, _) => MigrationDifficulty::Medium,
    }
}

/// The lower-cased debug name of a primitive, as a new asset records it.
pub open spec fn primitive_name(p: Primitive) -> Seq<char> {
    match p {
        Primitive::BlockCipher => "blockcipher"@,
        Primitive::StreamCipher => "streamcipher"@,
        Primitive::Hash => "hash"@,
        Primitive::Signature => "signature"@,
        Primitive::KeyAgreement => "keyagreement"@,
        Primitive::Kem => "kem"@,
        Primitive::Pke => "pke"@,
        Primitive::Mac => "mac"@,
        Primitive::Drbg => "drbg"@,
    }
}

fn primitive_name_exec(p: Primitive) -> (r: String)
    ensures
        r@ == primitive_name(p),
{
    match p {
        Primitive::BlockCipher => String::from_str("blockcipher"),
        Primitive::StreamCipher => String::from_str("streamcipher"),
        Primitive::Hash => String::from_str("hash"),
        Primitive::Signature => String::from_str("signature"),
        Primitive::KeyAgreement => String::from_str("keyagreement"),
        Primitive::Kem => String::from_str("kem"),
        Primitive::Pke => String::from_str("pke"),
        Primitive::Mac => String::from_str("mac"),
        Primitive::Drbg => String::from_str("drbg"),
    }
}

/// `extra`'s members added to `p` in order, each only where `p` has no member
/// of that name.
pub open spec fn insert_all_absent(
    p: Seq<(Seq<char>, JsonView)>,
    extra: Seq<(Seq<char>, JsonView)>,
) -> Seq<(Seq<char>, JsonView)>
    decreases extra.len(),
{
    if extra.len() == 0 {
        p
    } else {
        vinsert_absent(insert_all_absent(p, extra.drop_last()), extra.last().0, extra.last().1)
    }
}

/// The parameter set of an asset built from a finding at `loc`. Besides the
/// key's data and the evidence's parameters, target and fingerprint, the
/// asset records what its own dedup key is made of: the key's fingerprint,
/// and for a TLS endpoint or supported group the finding's kind and its
/// location as the target.
pub open spec fn built_params(
    loc: Seq<char>,
    ev: Seq<(Seq<char>, EvidenceView)>,
    key: KeyFields<Seq<char>>,
) -> Seq<(Seq<char>, JsonView)> {
    let p0 = Seq::<(Seq<char>, JsonView)>::empty();
    let p1 = match key.key_size_bits {
        Some(b) => vinsert(p0, "key_size_bits"@, JsonView::UInt(b)),
        None => p0,
    };
    let p2 = match key.primitive {
        Some(pr) => vinsert(p1, "primitive"@, JsonView::Str(primitive_name(pr))),
        None => p1,
    };
    let p3 = vinsert(p2, "source_root"@, JsonView::Str(key.source_root));
    let p4 = match ev_object(ev, "parameter_set"@) {
        Some(extra) => insert_all_absent(p3, extra),
        None => p3,
    };
    let p5 = match ev_str(ev, "target"@) {
        Some(t) => vinsert(p4, "target"@, JsonView::Str(t)),
        None => p4,
    };
    let p6 = match ev_str(ev, "fingerprint_sha256"@) {
        Some(f) => vinsert(p5, "fingerprint_sha256"@, JsonView::Str(f)),
        None => p5,
    };
    let p7 = match key.fingerprint {
        Some(f) => vinsert(p6, "fingerprint_sha256"@, JsonView::Str(f)),
        None => p6,
    };
    if key.asset_type == AssetType::ProtocolEndpoint {
        vinsert(
            vinsert(p7, "kind"@, JsonView::Str(or_default(ev_str(ev, "kind"@), ""@))),
            "target"@,
            JsonView::Str(loc),
        )
    } else {
        p7
    }
}

/// A lookup in the members `extra` adds where absent.
proof fn lemma_vget_insert_all_absent(
    p: Seq<(Seq<char>, JsonView)>,
    extra: Seq<(Seq<char>, JsonView)>,
    k: Seq<char>,
)
    ensures
        vget(insert_all_absent(p, extra), k) == (match vget(p, k) {
            Some(w) => Some(w),
            None => vget(extra, k),
        }),
    decreases extra.len(),
{
    if extra.len() > 0 {
        let e = extra.drop_last();
        let (lk, lv) = extra.last();
        lemma_vget_insert_all_absent(p, e, k);
        lemma_vget_vinsert_absent(insert_all_absent(p, e), lk, lv, k);
        lemma_vget_push(e, lk, lv, k);
        assert(e.push((lk, lv)) =~= extra);
    }
}

/// What the parameter set of a built asset holds under the names its dedup
/// key reads.
proof fn lemma_built_params_get(loc: Seq<char>, ev: Seq<(Seq<char>, EvidenceView)>, key: KeyFields<Seq<char>>)
    ensures
        ({
            let bp = built_params(loc, ev, key);
            &&& vget(bp, "source_root"@) == Some(JsonView::Str(key.source_root))
            &&& vget(bp, "key_size_bits"@) == (match key.key_size_bits {
                Some(b) => Some(JsonView::UInt(b)),
                None => vget(or_default_obj(ev_object(ev, "parameter_set"@)), "key_size_bits"@),
            })
            &&& (key.fingerprint matches Some(f) ==> vget(bp, "fingerprint_sha256"@) == Some(JsonView::Str(f)))
            &&& (key.asset_type == AssetType::ProtocolEndpoint ==> {
                &&& vget(bp, "kind"@) == Some(JsonView::Str(or_default(ev_str(ev, "kind"@), ""@)))
                &&& vget(bp, "target"@) == Some(JsonView::Str(loc))
            })
        }),
{
    reveal_strlit("key_size_bits");
    reveal_strlit("primitive");
    reveal_strlit("source_root");
    reveal_strlit("target");
    reveal_strlit("fingerprint_sha256");
    reveal_strlit("kind");
    let ksb = "key_size_bits"@;
    let pr = "primitive"@;
    let sr = "source_root"@;
    let tg = "target"@;
    let fpk = "fingerprint_sha256"@;
    let kd = "kind"@;
    assert(ksb.len() == 13 && pr.len() == 9 && sr.len() == 11 && tg.len() == 6 && fpk.len() == 18
        && kd.len() == 4);
    let p0 = Seq::<(Seq<char>, JsonView)>::empty();
    let p1 = match key.key_size_bits {
        Some(b) => vinsert(p0, ksb, JsonView::UInt(b)),
        None => p0,
    };
    if let Some(b) = key.key_size_bits {
        lemma_vget_vinsert(p0, ksb, JsonView::UInt(b), ksb);
        lemma_vget_vinsert(p0, ksb, JsonView::UInt(b), sr);
        lemma_vget_vinsert(p0, ksb, JsonView::UInt(b), fpk);
        lemma_vget_vinsert(p0, ksb, JsonView::UInt(b), kd);
        lemma_vget_vinsert(p0, ksb, JsonView::UInt(b), tg);
    }
    let p2 = match key.primitive {
        Some(x) => vinsert(p1, pr, JsonView::Str(primitive_name(x))),
        None => p1,
    };
    if let Some(x) = key.primitive {
        lemma_vget_vinsert(p1, pr, JsonView::Str(primitive_name(x)), ksb);
        lemma_vget_vinsert(p1, pr, JsonView::Str(primitive_name(x)), sr);
        lemma_vget_vinsert(p1, pr, JsonView::Str(primitive_name(x)), fpk);
        lemma_vget_vinsert(p1, pr, JsonView::Str(primitive_name(x)), kd);
        lemma_vget_vinsert(p1, pr, JsonView::Str(primitive_name(x)), tg);
    }
    let p3 = vinsert(p2, sr, JsonView::Str(key.source_root));
    lemma_vget_vinsert(p2, sr, JsonView::Str(key.source_root), ksb);
    lemma_vget_vinsert(p2, sr, JsonView::Str(key.source_root), sr);
    lemma_vget_vinsert(p2, sr, JsonView::Str(key.source_root), fpk);
    lemma_vget_vinsert(p2, sr, JsonView::Str(key.source_root), kd);
    lemma_vget_vinsert(p2, sr, JsonView::Str(key.source_root), tg);
    let p4 = match ev_object(ev, "parameter_set"@) {
        Some(extra) => insert_all_absent(p3, extra),
        None => p3,
    };
    if let Some(extra) = ev_object(ev, "parameter_set"@) {
        lemma_vget_insert_all_absent(p3, extra, ksb);
        lemma_vget_insert_all_absent(p3, extra, sr);
        lemma_vget_insert_all_absent(p3, extra, fpk);
        lemma_vget_insert_all_absent(p3, extra, kd);
        lemma_vget_insert_all_absent(p3, extra, tg);
    }
    let p5 = match ev_str(ev, tg) {
        Some(t) => vinsert(p4, tg, JsonView::Str(t)),
        None => p4,
    };
    if let Some(t) = ev_str(ev, tg) {
        lemma_vget_vinsert(p4, tg, JsonView::Str(t), ksb);
        lemma_vget_vinsert(p4, tg, JsonView::Str(t), sr);
        lemma_vget_vinsert(p4, tg, JsonView::Str(t), fpk);
        lemma_vget_vinsert(p4, tg, JsonView::Str(t), kd);
        lemma_vget_vinsert(p4, tg, JsonView::Str(t), tg);
    }
    let p6 = match ev_str(ev, fpk) {
        Some(f) => vinsert(p5, fpk, JsonView::Str(f)),
        None => p5,
    };
    if let Some(f) = ev_str(ev, fpk) {
        lemma_vget_vinsert(p5, fpk, JsonView::Str(f), ksb);
        lemma_vget_vinsert(p5, fpk, JsonView::Str(f), sr);
        lemma_vget_vinsert(p5, fpk, JsonView::Str(f), fpk);
        lemma_vget_vinsert(p5, fpk, JsonView::Str(f), kd);
        lemma_vget_vinsert(p5, fpk, JsonView::Str(f), tg);
    }
    let p7 = match key.fingerprint {
        Some(f) => vinsert(p6, fpk, JsonView::Str(f)),
        None => p6,
    };
    if let Some(f) = key.fingerprint {
        lemma_vget_vinsert(p6, fpk, JsonView::Str(f), ksb);
        lemma_vget_vinsert(p6, fpk, JsonView::Str(f), sr);
        lemma_vget_vinsert(p6, fpk, JsonView::Str(f), fpk);
        lemma_vget_vinsert(p6, fpk, JsonView::Str(f), kd);
        lemma_vget_vinsert(p6, fpk, JsonView::Str(f), tg);
    }
    if key.asset_type == AssetType::ProtocolEndpoint {
        let kv = JsonView::Str(or_default(ev_str(ev, kd), ""@));
        let p8 = vinsert(p7, kd, kv);
        lemma_vget_vinsert(p7, kd, kv, ksb);
        lemma_vget_vinsert(p7, kd, kv, sr);
        lemma_vget_vinsert(p7, kd, kv, fpk);
        lemma_vget_vinsert(p7, kd, kv, kd);
        lemma_vget_vinsert(p7, kd, kv, tg);
        lemma_vget_vinsert(p8, tg, JsonView::Str(loc), ksb);
        lemma_vget_vinsert(p8, tg, JsonView::Str(loc), sr);
        lemma_vget_vinsert(p8, tg, JsonView::Str(loc), fpk);
        lemma_vget_vinsert(p8, tg, JsonView::Str(loc), kd);
        lemma_vget_vinsert(p8, tg, JsonView::Str(loc), tg);
        assert(built_params(loc, ev, key) == vinsert(p8, tg, JsonView::Str(loc)));
    } else {
        assert(built_params(loc, ev, key) == p7);
    }
}

/// The display name of an asset built from a finding.
pub open spec fn built_name(loc: Seq<char>, key: KeyFields<Seq<char>>) -> Seq<char> {
    match key.asset_type {
        AssetType::LibraryDependency => or_default(key.library_name, key.algorithm_name),
        AssetType::Certificate => loc,
        AssetType::ProtocolEndpoint => key.algorithm_name + "@"@ + key.source_root,
        _ => key.algorithm_name,
    }
}

/// The asset that a finding not yet in the inventory becomes.
pub open spec fn built_view(
    loc: Seq<char>,
    ev: Seq<(Seq<char>, EvidenceView)>,
    key: KeyFields<Seq<char>>,
    now: i128,
    id: u128,
) -> AssetView {
    AssetView {
        id,
        asset_type: key.asset_type,
        algorithm_name: key.algorithm_name,
        algorithm_oid: None,
        primitive: key.primitive,
        parameter_set: built_params(loc, ev, key),
        pqc_status: key.pqc_status,
        quantum_vulnerable: key.pqc_status == PqcStatus::Vulnerable || key.pqc_status
            == PqcStatus::Unknown || key.pqc_status == PqcStatus::Hybrid,
        name: built_name(loc, key),
        description: None,
        system_id: None,
        data_classification: None,
        data_retention_horizon_year: None,
        migration_difficulty: migration_difficulty_spec(key.asset_type, key.pqc_status),
        migration_status: MigrationStatus::NotStarted,
        target_milestone: None,
        tags: Seq::empty(),
        first_seen_at: now,
        last_seen_at: now,
        notes: None,
    }
}

fn build_asset_from_finding(finding: &Finding, key: KeyFields<String>, now: i128, id: u128) -> (r:
    CryptoAsset)
    ensures
        r@ == built_view(finding.source_location@, finding.evidence@, key@, now, id),
{
    let ghost kv = key@;
    let ev = &finding.evidence;
    let pqc = key.pqc_status;
    let quantum_vulnerable = matches!(
        pqc,
        PqcStatus::Vulnerable | PqcStatus::Unknown | PqcStatus::Hybrid
    );
    let mig_diff = migration_difficulty_for(key.asset_type, pqc);
    let display_name = match key.asset_type {
        AssetType::LibraryDependency => match &key.library_name {
            Some(l) => l.clone(),
            None => key.algorithm_name.clone(),
        },
        AssetType::Certificate => finding.source_location.clone(),
        AssetType::ProtocolEndpoint => {
            let mut n: Vec<char> = Vec::new();
            push_str(&mut n, key.algorithm_name.as_str());
            push_str(&mut n, "@");
            push_str(&mut n, key.source_root.as_str());
            string_of(n.as_slice())
        },
        _ => key.algorithm_name.clone(),
    };
    let mut params = JsonObject::new();
    match key.key_size_bits {
        Some(b) => params.insert(String::from_str("key_size_bits"), JsonValue::UInt(b)),
        None => {},
    }
    match key.primitive {
        Some(p) => params.insert(String::from_str("primitive"), JsonValue::Str(primitive_name_exec(p))),
        None => {},
    }
    params.insert(String::from_str("source_root"), JsonValue::Str(key.source_root.clone()));
    match ev.get_object("parameter_set") {
        Some(extra) => {
            let ghost p3 = params@;
            let mut i: usize = 0;
            while i < extra.entries.len()
                invariant
                    i <= extra.entries.len(),
                    params@ == insert_all_absent(p3, extra@.take(i as int)),
                decreases extra.entries.len() - i,
            {
                let e = &extra.entries[i];
                params.insert_absent(e.0.clone(), e.1.copy());
                proof {
                    let t = extra@.take(i + 1);
                    assert(t.drop_last() =~= extra@.take(i as int));
                    assert(t.last() == extra@[i as int]);
                }
                i = i + 1;
            }
            assert(extra@.take(extra@.len() as int) =~= extra@);
        },
        None => {},
    }
    match ev.get_str("target") {
        Some(t) => params.insert(String::from_str("target"), JsonValue::Str(t.clone())),
        None => {},
    }
    match ev.get_str("fingerprint_sha256") {
        Some(fp) => params.insert(String::from_str("fingerprint_sha256"), JsonValue::Str(fp.clone())),
        None => {},
    }
    match &key.fingerprint {
        Some(fp) => params.insert(String::from_str("fingerprint_sha256"), JsonValue::Str(fp.clone())),
        None => {},
    }
    if key.asset_type == AssetType::ProtocolEndpoint {
        let kind = str_or(ev.get_str("kind"), "");
        params.insert(String::from_str("kind"), JsonValue::Str(string_of(kind.as_slice())));
        params.insert(String::from_str("target"), JsonValue::Str(finding.source_location.clone()));
    }
    let r = CryptoAsset {
        id,
        asset_type: key.asset_type,
        algorithm_name: key.algorithm_name,
        algorithm_oid: None,
        primitive: key.primitive,
        parameter_set: params,
        pqc_status: pqc,
        quantum_vulnerable,
        name: display_name,
        description: None,
        system_id: None,
        data_classification: None,
        data_retention_horizon_year: None,
        migration_difficulty: mig_diff,
        migration_status: MigrationStatus::NotStarted,
        target_milestone: None,
        tags: Vec::new(),
        first_seen_at: now,
        last_seen_at: now,
        notes: None,
    };
    proof {
        let b = built_view(finding.source_location@, finding.evidence@, kv, now, id);
        assert(r@.tags =~= b.tags);
        assert(r@.parameter_set == b.parameter_set);
        assert(r@.name == b.name);
        assert(r@.quantum_vulnerable == b.quantum_vulnerable);
    }
    r
}


/// The last index of `k` in `keys`, if any.
pub open spec fn last_index_of(keys: Seq<Seq<char>>, k: Seq<char>) -> Option<int>
    decreases keys.len(),
{
    if keys.len() == 0 {
        None
    } else if keys.last() == k {
        Some(keys.len() - 1)
    } else {
        last_index_of(keys.drop_last(), k)
    }
}

/// The dedup keys of the assets of an inventory.
pub open spec fn inventory_keys(inv: Seq<AssetView>) -> Seq<Seq<char>> {
    inv.map_values(|a: AssetView| asset_key_spec(a))
}

/// One finding promoted into an inventory: an asset with the finding's dedup
/// key (the last such asset) is marked as seen `now`; otherwise the asset
/// built from the finding, with identifier `id`, is appended. The second
/// component is the identifier of the asset the finding is linked to.
pub open spec fn promote_step(
    inv: Seq<AssetView>,
    f: Finding,
    bytes: Seq<u8>,
    now: i128,
    id: u128,
) -> (Seq<AssetView>, u128) {
    let key = finding_key_spec(f.source_location@, f.evidence@, bytes);
    match last_index_of(inventory_keys(inv), key.dedup_key) {
        Some(j) => (inv.update(j, AssetView { last_seen_at: now, ..inv[j] }), inv[j].id),
        None => (inv.push(built_view(f.source_location@, f.evidence@, key, now, id)), id),
    }
}

/// Findings promoted in order; `bytes[i]` are the contents of the file that
/// finding `i` names and `ids[i]` the identifier its asset gets if it is new.
/// The second component lists the asset each finding is linked to.
pub open spec fn promote_spec(
    inv: Seq<AssetView>,
    fs: Seq<Finding>,
    bytes: Seq<Seq<u8>>,
    now: i128,
    ids: Seq<u128>,
) -> (Seq<AssetView>, Seq<u128>)
    decreases fs.len(),
{
    if fs.len() == 0 {
        (inv, Seq::empty())
    } else {
        let prev = promote_spec(inv, fs.drop_last(), bytes.drop_last(), now, ids.drop_last());
        let n = fs.len() - 1;
        let step = promote_step(prev.0, fs[n], bytes[n], now, ids[n]);
        (step.0, prev.1.push(step.1))
    }
}

/// The models of the assets of an inventory.
pub open spec fn inventory_view(inv: Seq<CryptoAsset>) -> Seq<AssetView> {
    inv.map_values(|a: CryptoAsset| a@)
}

/// The contents of a list of byte buffers.
pub open spec fn bytes_view(b: Seq<Vec<u8>>) -> Seq<Seq<u8>> {
    b.map_values(|v: Vec<u8>| v@)
}

/// The findings after promotion: each linked to the asset of `links`, all
/// else unchanged.
pub open spec fn linked(old_fs: Seq<Finding>, new_fs: Seq<Finding>, links: Seq<u128>) -> bool {
    &&& new_fs.len() == old_fs.len()
    &&& links.len() == old_fs.len()
    &&& forall|i: int|
        0 <= i < old_fs.len() ==> #[trigger] new_fs[i] == (Finding {
            crypto_asset_id: Some(links[i]),
            ..old_fs[i]
        })
}

/// All fields of a scan but its findings are unchanged.
pub open spec fn same_scan_header(a: Scan, b: Scan) -> bool {
    &&& a.id == b.id
    &&& a.name == b.name
    &&& a.scan_type == b.scan_type
    &&& a.status == b.status
    &&& a.target == b.target
    &&& a.config == b.config
    &&& a.started_at == b.started_at
    &&& a.completed_at == b.completed_at
    &&& a.error_message == b.error_message
}

/// Whether the dedup key of a finding depends on the contents of the file it
/// names: the finding is a cert or keystore file found in a codebase.
pub open spec fn needs_file_bytes_spec(f: Finding) -> bool {
    ev_str(f.evidence@, "kind"@) == Some("cert_or_keystore_file"@)
}

pub fn needs_file_bytes(f: &Finding) -> (r: bool)
    ensures
        r == needs_file_bytes_spec(*f),
{
    match f.evidence.get_str("kind") {
        Some(k) => crate::text::str_eq(k.as_str(), "cert_or_keystore_file"),
        None => false,
    }
}

proof fn lemma_last_index_of_at(keys: Seq<Seq<char>>, k: Seq<char>, j: int)
    requires
        0 <= j < keys.len(),
        keys[j] == k,
        forall|t: int| j < t < keys.len() ==> keys[t] != k,
    ensures
        last_index_of(keys, k) == Some(j),
    decreases keys.len() - j,
{
    if j < keys.len() - 1 {
        let u = keys.drop_last();
        assert forall|t: int| j < t < u.len() implies u[t] != k by {
            assert(u[t] == keys[t]);
        }
        lemma_last_index_of_at(u, k, j);
    }
}

proof fn lemma_last_index_of_none(keys: Seq<Seq<char>>, k: Seq<char>)
    requires
        forall|t: int| 0 <= t < keys.len() ==> keys[t] != k,
    ensures
        last_index_of(keys, k) is None,
    decreases keys.len(),
{
    if keys.len() > 0 {
        let u = keys.drop_last();
        assert forall|t: int| 0 <= t < u.len() implies u[t] != k by {
            assert(u[t] == keys[t]);
        }
        lemma_last_index_of_none(u, k);
    }
}

/// `keys` holds the dedup key of each asset of `inv`.
pub open spec fn keys_match(keys: Seq<Vec<char>>, inv: Seq<CryptoAsset>) -> bool {
    &&& keys.len() == inv.len()
    &&& forall|t: int| 0 <= t < keys.len() ==> #[trigger] keys[t]@ == asset_key_spec(inv[t]@)
}

/// Promotes one finding; returns the identifier of the asset it is linked to.
fn promote_one(
    inventory: &mut Vec<CryptoAsset>,
    keys: &mut Vec<Vec<char>>,
    f: &Finding,
    bytes: &[u8],
    now: i128,
    id: u128,
) -> (aid: u128)
    requires
        keys_match(old(keys)@, old(inventory)@),
    ensures
        keys_match(final(keys)@, final(inventory)@),
        (inventory_view(final(inventory)@), aid) == promote_step(
            inventory_view(old(inventory)@),
            *f,
            bytes@,
            now,
            id,
        ),
{
    let ghost inv = inventory_view(inventory@);
    let key = finding_dedup_key(f, bytes);
    let kc = chars_of(key.dedup_key.as_str());
    let ghost ks = inventory_keys(inv);
    proof {
        assert forall|t: int| 0 <= t < keys@.len() implies ks[t] == #[trigger] keys@[t]@ by {
            assert(inv[t] == inventory@[t]@);
        }
    }
    let mut j: usize = keys.len();
    while j > 0 && !chars_eq(keys[j - 1].as_slice(), kc.as_slice())
        invariant
            j <= keys@.len(),
            ks.len() == keys@.len(),
            forall|t: int| 0 <= t < keys@.len() ==> ks[t] == #[trigger] keys@[t]@,
            forall|t: int| j <= t < keys@.len() ==> ks[t] != kc@,
        decreases j,
    {
        j = j - 1;
    }
    if j > 0 {
        let idx = j - 1;
        proof {
            lemma_last_index_of_at(ks, kc@, idx as int);
        }
        let ghost before = inventory@;
        let mut a = inventory.remove(idx);
        a.last_seen_at = now;
        let aid = a.id;
        inventory.insert(idx, a);
        proof {
            assert(inventory@ =~= before.update(idx as int, a));
            assert(inventory_view(inventory@) =~= inv.update(
                idx as int,
                AssetView { last_seen_at: now, ..inv[idx as int] },
            ));
            assert forall|t: int| 0 <= t < keys@.len() implies #[trigger] keys@[t]@
                == asset_key_spec(inventory@[t]@) by {
                if t == idx {
                    assert(inventory@[t]@ == AssetView { last_seen_at: now, ..before[t]@ });
                } else {
                    assert(inventory@[t] == before[t]);
                }
            }
        }
        aid
    } else {
        proof {
            lemma_last_index_of_none(ks, kc@);
        }
        let asset = build_asset_from_finding(f, key, now, id);
        let ak = asset_dedup_key(&asset);
        let ghost before = inventory@;
        let ghost kb = keys@;
        keys.push(ak);
        inventory.push(asset);
        proof {
            assert(inventory_view(inventory@) =~= inventory_view(before).push(asset@));
            assert forall|t: int| 0 <= t < keys@.len() implies #[trigger] keys@[t]@
                == asset_key_spec(inventory@[t]@) by {
                if t < kb.len() {
                    assert(keys@[t] == kb[t]);
                    assert(inventory@[t] == before[t]);
                }
            }
        }
        id
    }
}

/// Promotes the findings of a scan into an inventory, with the instant and
/// the identifiers for new assets given: see `promote_spec`. `file_bytes[i]`
/// are the contents of the file finding `i` names (read only where
/// `needs_file_bytes` holds; otherwise any bytes, usually none).
pub fn promote_findings_at(
    scan: &mut Scan,
    inventory: Vec<CryptoAsset>,
    file_bytes: &Vec<Vec<u8>>,
    now: i128,
    ids: &Vec<u128>,
) -> (r: Vec<CryptoAsset>)
    requires
        file_bytes.len() == old(scan).findings.len(),
        ids.len() == old(scan).findings.len(),
    ensures
        ({
            let res = promote_spec(
                inventory_view(inventory@),
                old(scan).findings@,
                bytes_view(file_bytes@),
                now,
                ids@,
            );
            &&& inventory_view(r@) == res.0
            &&& linked(old(scan).findings@, final(scan).findings@, res.1)
        }),
        same_scan_header(*final(scan), *old(scan)),
{
    let ghost inv0 = inventory_view(inventory@);
    let ghost f0 = scan.findings@;
    let ghost b0 = bytes_view(file_bytes@);
    let n = scan.findings.len();
    let mut findings: Vec<Finding> = Vec::new();
    std::mem::swap(&mut findings, &mut scan.findings);
    let mut inventory = inventory;
    let mut keys: Vec<Vec<char>> = Vec::new();
    let mut j: usize = 0;
    while j < inventory.len()
        invariant
            j <= inventory.len(),
            keys@.len() == j,
            forall|t: int| 0 <= t < j ==> #[trigger] keys@[t]@ == asset_key_spec(inventory@[t]@),
        decreases inventory.len() - j,
    {
        keys.push(asset_dedup_key(&inventory[j]));
        j = j + 1;
    }
    let mut i: usize = 0;
    let ghost links: Seq<u128> = Seq::empty();
    assert(f0.take(0) =~= Seq::<Finding>::empty());
    assert(b0.take(0) =~= Seq::<Seq<u8>>::empty());
    assert(ids@.take(0) =~= Seq::<u128>::empty());
    while i < n
        invariant
            i <= n,
            n == f0.len(),
            file_bytes.len() == n,
            ids.len() == n,
            b0 == bytes_view(file_bytes@),
            findings@.len() == n,
            keys_match(keys@, inventory@),
            promote_spec(inv0, f0.take(i as int), b0.take(i as int), now, ids@.take(i as int)) == (
            inventory_view(inventory@), links),
            links.len() == i,
            forall|t: int| 0 <= t < i ==> #[trigger] findings@[t] == (Finding {
                crypto_asset_id: Some(links[t]),
                ..f0[t]
            }),
            forall|t: int| i <= t < n ==> #[trigger] findings@[t] == f0[t],
        decreases n - i,
    {
        proof {
            let ft = f0.take(i + 1);
            assert(ft.drop_last() =~= f0.take(i as int));
            assert(b0.take(i + 1).drop_last() =~= b0.take(i as int));
            assert(ids@.take(i + 1).drop_last() =~= ids@.take(i as int));
            assert(ft[i as int] == f0[i as int]);
            assert(b0.take(i + 1)[i as int] == file_bytes@[i as int]@);
            assert(ids@.take(i + 1)[i as int] == ids@[i as int]);
        }
        let aid = promote_one(&mut inventory, &mut keys, &findings[i], file_bytes[i].as_slice(), now, ids[i]);
        proof {
            links = links.push(aid);
        }
        let ghost fb = findings@;
        let mut f = findings.remove(i);
        f.crypto_asset_id = Some(aid);
        findings.insert(i, f);
        assert(findings@ =~= fb.update(i as int, f));
        i = i + 1;
    }
    assert(f0.take(n as int) =~= f0);
    assert(b0.take(n as int) =~= b0);
    assert(ids@.take(n as int) =~= ids@);
    std::mem::swap(&mut findings, &mut scan.findings);
    inventory
}


/// Groups the findings of a scan into inventory upserts and returns the
/// merged inventory; each finding is linked to its asset. The current instant
/// and fresh identifiers for new assets are taken here; whatever they are,
/// the result is `promote_spec` of them. Existing assets keep every field but
/// `last_seen_at`.
pub fn promote_findings(scan: &mut Scan, inventory: Vec<CryptoAsset>, file_bytes: &Vec<Vec<u8>>) -> (r:
    Vec<CryptoAsset>)
    requires
        file_bytes.len() == old(scan).findings.len(),
    ensures
        exists|now: i128, ids: Seq<u128>|
            #![trigger promote_spec(inventory_view(inventory@), old(scan).findings@, bytes_view(file_bytes@), now, ids)]
            {
                let res = promote_spec(
                    inventory_view(inventory@),
                    old(scan).findings@,
                    bytes_view(file_bytes@),
                    now,
                    ids,
                );
                &&& ids.len() == old(scan).findings@.len()
                &&& crate::clock::valid_instant(now)
                &&& inventory_view(r@) == res.0
                &&& linked(old(scan).findings@, final(scan).findings@, res.1)
            },
        same_scan_header(*final(scan), *old(scan)),
{
    let now = crate::clock::now_nanos();
    let n = scan.findings.len();
    let mut ids: Vec<u128> = Vec::new();
    let mut i: usize = 0;
    while i < n
        invariant
            i <= n,
            ids@.len() == i,
        decreases n - i,
    {
        ids.push(crate::clock::new_id());
        i = i + 1;
    }
    let ghost inv0 = inventory_view(inventory@);
    let r = promote_findings_at(scan, inventory, file_bytes, now, &ids);
    assert(promote_spec(inv0, old(scan).findings@, bytes_view(file_bytes@), now, ids@).0 == inventory_view(r@));
    r
}


/// The algorithm name an algorithm match reports.
pub open spec fn match_algorithm(ev: Seq<(Seq<char>, EvidenceView)>) -> Seq<char> {
    or_default(ev_str(ev, "algorithm_name"@), "unknown"@)
}

/// The key size an algorithm match reports in its parameter set.
pub open spec fn match_key_bits(ev: Seq<(Seq<char>, EvidenceView)>) -> Option<u64> {
    vget_u64(or_default_obj(ev_object(ev, "parameter_set"@)), "key_size_bits"@)
}

proof fn lemma_bits_text_injective(a: Option<u64>, b: Option<u64>)
    requires
        bits_text(a) == bits_text(b),
    ensures
        a == b,
{
    match (a, b) {
        (Some(x), Some(y)) => decimal_injective(x as nat, y as nat),
        (Some(x), None) => decimal_is_not_underscore(x as nat),
        (None, Some(y)) => decimal_is_not_underscore(y as nat),
        (None, None) => {},
    }
}

/// The dedup key of an algorithm match: two matches whose algorithm names
/// agree ignoring ASCII case, with the same key size and the same source
/// root, share a key; two that differ only in key size do not.
pub proof fn algorithm_match_keys(f1: Finding, b1: Seq<u8>, f2: Finding, b2: Seq<u8>)
    requires
        ev_str(f1.evidence@, "kind"@) == Some("algorithm_match"@),
        ev_str(f2.evidence@, "kind"@) == Some("algorithm_match"@),
    ensures
        ({
            let (e1, e2) = (f1.evidence@, f2.evidence@);
            let same_name = lower(match_algorithm(e1)) == lower(match_algorithm(e2));
            let same_root = source_root_spec(f1.source_location@) == source_root_spec(
                f2.source_location@,
            );
            &&& (same_name && same_root && match_key_bits(e1) == match_key_bits(e2))
                ==> finding_dedup_key_spec(f1, b1) == finding_dedup_key_spec(f2, b2)
            &&& (same_name && same_root && match_key_bits(e1) != match_key_bits(e2))
                ==> finding_dedup_key_spec(f1, b1) != finding_dedup_key_spec(f2, b2)
        }),
{
    reveal_strlit("algorithm_match");
    reveal_strlit("cert_or_keystore_file");
    assert("algorithm_match"@.len() == 15 && "cert_or_keystore_file"@.len() == 21);
    let (e1, e2) = (f1.evidence@, f2.evidence@);
    let r1 = source_root_spec(f1.source_location@);
    let r2 = source_root_spec(f2.source_location@);
    let x = "algo:"@ + lower(match_algorithm(e1)) + ":"@;
    let t1 = bits_text(match_key_bits(e1));
    let t2 = bits_text(match_key_bits(e2));
    let k1 = finding_dedup_key_spec(f1, b1);
    let k2 = finding_dedup_key_spec(f2, b2);
    if lower(match_algorithm(e1)) == lower(match_algorithm(e2)) && r1 == r2 && match_key_bits(e1)
        != match_key_bits(e2) {
        assert(k1 == x + t1 + ":"@ + r1);
        assert(k2 == x + t2 + ":"@ + r1);
        if k1 == k2 {
            assert((x + t1 + ":"@ + r1).len() == x.len() + t1.len() + ":"@.len() + r1.len());
            assert((x + t2 + ":"@ + r1).len() == x.len() + t2.len() + ":"@.len() + r1.len());
            assert(t1.len() == t2.len());
            assert(k1 == x + t1 + ":"@ + r1);
            assert((x + t1 + ":"@ + r1).subrange(x.len() as int, (x.len() + t1.len()) as int) =~= t1);
            assert((x + t2 + ":"@ + r1).subrange(x.len() as int, (x.len() + t2.len()) as int) =~= t2);
            lemma_bits_text_injective(match_key_bits(e1), match_key_bits(e2));
        }
    }
}

/// A finding is self-keyed when the asset it would create carries the
/// finding's own dedup key.
pub open spec fn self_keyed(f: Finding, bytes: Seq<u8>) -> bool {
    let key = finding_key_spec(f.source_location@, f.evidence@, bytes);
    asset_key_spec(built_view(f.source_location@, f.evidence@, key, 0, 0)) == key.dedup_key
}

/// The finding is of a kind the scanners report: an algorithm match, a
/// library import, a cert or keystore file found in a codebase, a TLS
/// certificate, a TLS endpoint or a TLS supported group.
pub open spec fn documented_kind(f: Finding) -> bool {
    let k = ev_str(f.evidence@, "kind"@);
    ||| k == Some("algorithm_match"@)
    ||| k == Some("library_import"@)
    ||| k == Some("cert_or_keystore_file"@)
    ||| k == Some("tls_certificate"@)
    ||| k == Some("tls_endpoint"@)
    ||| k == Some("tls_supported_group"@)
}

/// Every finding of a kind the scanners report is self-keyed: the asset
/// built from it, at any instant and with any identifier, has the finding's
/// own dedup key, whatever bytes the file it names holds.
pub proof fn documented_findings_are_self_keyed(f: Finding, bytes: Seq<u8>, now: i128, id: u128)
    requires
        documented_kind(f),
    ensures
        self_keyed(f, bytes),
        ({
            let key = finding_key_spec(f.source_location@, f.evidence@, bytes);
            asset_key_spec(built_view(f.source_location@, f.evidence@, key, now, id)) == key.dedup_key
        }),
{
    let loc = f.source_location@;
    let ev = f.evidence@;
    let key = finding_key_spec(loc, ev, bytes);
    lemma_built_params_get(loc, ev, key);
    lemma_built_key_any(loc, ev, key, now, id);
    reveal_strlit("algorithm_match");
    reveal_strlit("library_import");
    reveal_strlit("cert_or_keystore_file");
    reveal_strlit("tls_certificate");
    reveal_strlit("tls_endpoint");
    reveal_strlit("tls_supported_group");
    reveal_strlit("tls_endpoint:");
    reveal_strlit("tls_group:");
    reveal_strlit("tls_group");
    reveal_strlit(":");
    reveal_strlit("kind");
    reveal_strlit("source_root");
    reveal_strlit("key_size_bits");
    reveal_strlit("fingerprint_sha256");
    reveal_strlit("target");
    let am = "algorithm_match"@;
    let tc = "tls_certificate"@;
    assert(am.len() == 15 && tc.len() == 15 && am[0] != tc[0]);
    assert("library_import"@.len() == 14);
    assert("cert_or_keystore_file"@.len() == 21);
    assert("tls_endpoint"@.len() == 12);
    assert("tls_supported_group"@.len() == 19);
    assert("tls_endpoint"@ + ":"@ =~= "tls_endpoint:"@);
    assert("tls_group"@ + ":"@ =~= "tls_group:"@);
    let b = built_view(loc, ev, key, 0, 0);
    let bp = b.parameter_set;
    assert(vget_str(bp, "source_root"@) == Some(key.source_root));
    if ev_str(ev, "kind"@) == Some(am) {
        let extra = or_default_obj(ev_object(ev, "parameter_set"@));
        assert(key.key_size_bits == vget_u64(extra, "key_size_bits"@));
        assert(vget_u64(bp, "key_size_bits"@) == key.key_size_bits);
    }
}

/// The dedup key of a finding.
pub open spec fn finding_dedup_key_spec(f: Finding, bytes: Seq<u8>) -> Seq<char> {
    finding_key_spec(f.source_location@, f.evidence@, bytes).dedup_key
}

/// The asset keeps every field but `last_seen_at`.
pub open spec fn same_but_seen(new: AssetView, old: AssetView) -> bool {
    (AssetView { last_seen_at: old.last_seen_at, ..new }) == old
}

proof fn lemma_last_index_of_spec(keys: Seq<Seq<char>>, k: Seq<char>)
    ensures
        match last_index_of(keys, k) {
            Some(j) => 0 <= j < keys.len() && keys[j] == k,
            None => !keys.contains(k),
        },
    decreases keys.len(),
{
    if keys.len() > 0 && keys.last() != k {
        lemma_last_index_of_spec(keys.drop_last(), k);
        if last_index_of(keys.drop_last(), k) is None {
            assert forall|t: int| 0 <= t < keys.len() implies keys[t] != k by {
                if t < keys.len() - 1 {
                    assert(keys.drop_last()[t] == keys[t]);
                }
            }
        }
    }
}

proof fn lemma_built_key_any(
    loc: Seq<char>,
    ev: Seq<(Seq<char>, EvidenceView)>,
    key: KeyFields<Seq<char>>,
    now: i128,
    id: u128,
)
    ensures
        asset_key_spec(built_view(loc, ev, key, now, id)) == asset_key_spec(
            built_view(loc, ev, key, 0, 0),
        ),
{
}

/// What one promotion step does to an inventory.
proof fn lemma_step(inv: Seq<AssetView>, f: Finding, bytes: Seq<u8>, now: i128, id: u128)
    ensures
        ({
            let r = promote_step(inv, f, bytes, now, id).0;
            let k = finding_dedup_key_spec(f, bytes);
            &&& inventory_keys(inv).contains(k) ==> r.len() == inv.len()
            &&& !inventory_keys(inv).contains(k) ==> r.len() == inv.len() + 1
            &&& forall|i: int| 0 <= i < inv.len() ==> same_but_seen(#[trigger] r[i], inv[i])
            &&& forall|i: int| 0 <= i < inv.len() ==> #[trigger] inventory_keys(r)[i]
                == inventory_keys(inv)[i]
            &&& self_keyed(f, bytes) ==> inventory_keys(r).contains(k)
            &&& (self_keyed(f, bytes) && !inventory_keys(inv).contains(k)) ==> inventory_keys(r)
                == inventory_keys(inv).push(k)
        }),
{
    let key = finding_key_spec(f.source_location@, f.evidence@, bytes);
    let k = key.dedup_key;
    let keys = inventory_keys(inv);
    lemma_last_index_of_spec(keys, k);
    let r = promote_step(inv, f, bytes, now, id).0;
    match last_index_of(keys, k) {
        Some(j) => {
            assert(keys.contains(k));
            assert forall|i: int| 0 <= i < inv.len() implies same_but_seen(#[trigger] r[i], inv[i]) by {
                if i == j {
                    assert(r[i] == AssetView { last_seen_at: now, ..inv[i] });
                }
            }
            assert forall|i: int| 0 <= i < inv.len() implies #[trigger] inventory_keys(r)[i]
                == inventory_keys(inv)[i] by {
                if i == j {
                    assert(r[i] == AssetView { last_seen_at: now, ..inv[i] });
                }
            }
            assert(inventory_keys(r)[j] == k);
        },
        None => {
            let b = built_view(f.source_location@, f.evidence@, key, now, id);
            assert(r == inv.push(b));
            lemma_built_key_any(f.source_location@, f.evidence@, key, now, id);
            assert forall|i: int| 0 <= i < inv.len() implies same_but_seen(#[trigger] r[i], inv[i]) by {
                assert(r[i] == inv[i]);
            }
            assert forall|i: int| 0 <= i < inv.len() implies #[trigger] inventory_keys(r)[i]
                == inventory_keys(inv)[i] by {
                assert(r[i] == inv[i]);
            }
            if self_keyed(f, bytes) {
                assert(inventory_keys(r)[inv.len() as int] == k);
                assert(inventory_keys(r) =~= inventory_keys(inv).push(k));
            }
        },
    }
}

/// Promotion keeps every asset already in the inventory, in place, with every
/// field but `last_seen_at` unchanged: user-set fields (notes, migration
/// status, target milestone, system, retention horizon, description, tags)
/// survive a rescan.
pub proof fn promotion_preserves_existing_assets(
    inv: Seq<AssetView>,
    fs: Seq<Finding>,
    bytes: Seq<Seq<u8>>,
    now: i128,
    ids: Seq<u128>,
)
    requires
        bytes.len() == fs.len(),
        ids.len() == fs.len(),
    ensures
        ({
            let r = promote_spec(inv, fs, bytes, now, ids).0;
            &&& r.len() >= inv.len()
            &&& forall|i: int| 0 <= i < inv.len() ==> same_but_seen(#[trigger] r[i], inv[i])
        }),
    decreases fs.len(),
{
    if fs.len() > 0 {
        let n = fs.len() - 1;
        promotion_preserves_existing_assets(inv, fs.drop_last(), bytes.drop_last(), now, ids.drop_last());
        let prev = promote_spec(inv, fs.drop_last(), bytes.drop_last(), now, ids.drop_last()).0;
        lemma_step(prev, fs[n], bytes[n], now, ids[n]);
        let r = promote_spec(inv, fs, bytes, now, ids).0;
        assert forall|i: int| 0 <= i < inv.len() implies same_but_seen(#[trigger] r[i], inv[i]) by {
            assert(same_but_seen(r[i], prev[i]));
            assert(same_but_seen(prev[i], inv[i]));
        }
    }
}

/// Promotion keeps the dedup keys of the assets already in the inventory,
/// and after it every self-keyed finding's key is in the inventory.
proof fn lemma_promote_keys(
    inv: Seq<AssetView>,
    fs: Seq<Finding>,
    bytes: Seq<Seq<u8>>,
    now: i128,
    ids: Seq<u128>,
)
    requires
        bytes.len() == fs.len(),
        ids.len() == fs.len(),
    ensures
        ({
            let r = promote_spec(inv, fs, bytes, now, ids).0;
            &&& r.len() >= inv.len()
            &&& forall|i: int| 0 <= i < inv.len() ==> #[trigger] inventory_keys(r)[i]
                == inventory_keys(inv)[i]
            &&& forall|j: int|
                0 <= j < fs.len() && self_keyed(fs[j], bytes[j]) ==> inventory_keys(r).contains(
                    #[trigger] finding_dedup_key_spec(fs[j], bytes[j]),
                )
        }),
    decreases fs.len(),
{
    if fs.len() > 0 {
        let n = fs.len() - 1;
        let fp = fs.drop_last();
        let bp = bytes.drop_last();
        lemma_promote_keys(inv, fp, bp, now, ids.drop_last());
        let prev = promote_spec(inv, fp, bp, now, ids.drop_last()).0;
        lemma_step(prev, fs[n], bytes[n], now, ids[n]);
        let r = promote_spec(inv, fs, bytes, now, ids).0;
        assert forall|j: int|
            0 <= j < fs.len() && self_keyed(fs[j], bytes[j]) implies inventory_keys(r).contains(
            #[trigger] finding_dedup_key_spec(fs[j], bytes[j]),
        ) by {
            if j < n {
                assert(fp[j] == fs[j] && bp[j] == bytes[j]);
                let k = finding_dedup_key_spec(fs[j], bytes[j]);
                assert(inventory_keys(prev).contains(k));
                let t = choose|t: int| 0 <= t < inventory_keys(prev).len() && inventory_keys(prev)[t] == k;
                assert(inventory_keys(r)[t] == k);
            }
        }
    }
}

/// Promoting findings whose keys are all in the inventory adds no asset and
/// changes no dedup key.
proof fn lemma_promote_known(
    inv: Seq<AssetView>,
    fs: Seq<Finding>,
    bytes: Seq<Seq<u8>>,
    now: i128,
    ids: Seq<u128>,
)
    requires
        bytes.len() == fs.len(),
        ids.len() == fs.len(),
        forall|j: int|
            0 <= j < fs.len() ==> inventory_keys(inv).contains(
                #[trigger] finding_dedup_key_spec(fs[j], bytes[j]),
            ),
    ensures
        promote_spec(inv, fs, bytes, now, ids).0.len() == inv.len(),
        inventory_keys(promote_spec(inv, fs, bytes, now, ids).0) == inventory_keys(inv),
    decreases fs.len(),
{
    if fs.len() > 0 {
        let n = fs.len() - 1;
        let fp = fs.drop_last();
        let bp = bytes.drop_last();
        assert forall|j: int| 0 <= j < fp.len() implies inventory_keys(inv).contains(
            #[trigger] finding_dedup_key_spec(fp[j], bp[j]),
        ) by {
            assert(fp[j] == fs[j] && bp[j] == bytes[j]);
        }
        lemma_promote_known(inv, fp, bp, now, ids.drop_last());
        let prev = promote_spec(inv, fp, bp, now, ids.drop_last()).0;
        assert(inventory_keys(prev).contains(finding_dedup_key_spec(fs[n], bytes[n])));
        lemma_step(prev, fs[n], bytes[n], now, ids[n]);
        let r = promote_spec(inv, fs, bytes, now, ids).0;
        assert(inventory_keys(r) =~= inventory_keys(prev));
    }
}

/// Promotion is idempotent: once a scan's findings have been promoted,
/// promoting findings with the same locations, evidence and file contents
/// again (a rescan) adds no inventory entry and changes no dedup key,
/// whatever instant and identifiers the second run uses. This holds for
/// every kind of finding the scanners report.
pub proof fn promotion_is_idempotent(
    inv: Seq<AssetView>,
    fs: Seq<Finding>,
    bytes: Seq<Seq<u8>>,
    now: i128,
    ids: Seq<u128>,
    fs2: Seq<Finding>,
    now2: i128,
    ids2: Seq<u128>,
)
    requires
        bytes.len() == fs.len(),
        ids.len() == fs.len(),
        fs2.len() == fs.len(),
        ids2.len() == fs.len(),
        forall|j: int| 0 <= j < fs.len() ==> documented_kind(#[trigger] fs[j]),
        forall|j: int|
            0 <= j < fs.len() ==> (#[trigger] fs2[j]).source_location@ == fs[j].source_location@
                && fs2[j].evidence@ == fs[j].evidence@,
    ensures
        ({
            let once = promote_spec(inv, fs, bytes, now, ids).0;
            let twice = promote_spec(once, fs2, bytes, now2, ids2).0;
            &&& twice.len() == once.len()
            &&& inventory_keys(twice) == inventory_keys(once)
        }),
{
    let once = promote_spec(inv, fs, bytes, now, ids).0;
    assert forall|j: int| 0 <= j < fs.len() implies self_keyed(#[trigger] fs[j], bytes[j]) by {
        documented_findings_are_self_keyed(fs[j], bytes[j], 0, 0);
    }
    lemma_promote_keys(inv, fs, bytes, now, ids);
    assert forall|j: int| 0 <= j < fs2.len() implies inventory_keys(once).contains(
        #[trigger] finding_dedup_key_spec(fs2[j], bytes[j]),
    ) by {
        assert(self_keyed(fs[j], bytes[j]));
        assert(finding_dedup_key_spec(fs2[j], bytes[j]) == finding_dedup_key_spec(fs[j], bytes[j]));
    }
    lemma_promote_known(once, fs2, bytes, now2, ids2);
}

/// Promotion deduplicates: when the inventory has no two assets with the same
/// dedup key and every finding is of a kind the scanners report, the result
/// has no two assets with the same dedup key either.
pub proof fn promotion_keeps_keys_distinct(
    inv: Seq<AssetView>,
    fs: Seq<Finding>,
    bytes: Seq<Seq<u8>>,
    now: i128,
    ids: Seq<u128>,
)
    requires
        bytes.len() == fs.len(),
        ids.len() == fs.len(),
        inventory_keys(inv).no_duplicates(),
        forall|j: int| 0 <= j < fs.len() ==> documented_kind(#[trigger] fs[j]),
    ensures
        inventory_keys(promote_spec(inv, fs, bytes, now, ids).0).no_duplicates(),
    decreases fs.len(),
{
    if fs.len() > 0 {
        let n = fs.len() - 1;
        let fp = fs.drop_last();
        let bp = bytes.drop_last();
        assert forall|j: int| 0 <= j < fp.len() implies documented_kind(#[trigger] fp[j]) by {
            assert(fp[j] == fs[j]);
        }
        promotion_keeps_keys_distinct(inv, fp, bp, now, ids.drop_last());
        documented_findings_are_self_keyed(fs[n], bytes[n], 0, 0);
        let prev = promote_spec(inv, fp, bp, now, ids.drop_last()).0;
        lemma_step(prev, fs[n], bytes[n], now, ids[n]);
        let r = promote_spec(inv, fs, bytes, now, ids).0;
        let k = finding_dedup_key_spec(fs[n], bytes[n]);
        if inventory_keys(prev).contains(k) {
            assert(inventory_keys(r) =~= inventory_keys(prev));
        } else {
            let kr = inventory_keys(r);
            let kp = inventory_keys(prev);
            assert(kr == kp.push(k));
            assert forall|a: int, b: int| 0 <= a < kr.len() && 0 <= b < kr.len() && a != b implies kr[a] != kr[b] by {
                if a < kp.len() && b < kp.len() {
                    assert(kr[a] == kp[a] && kr[b] == kp[b]);
                } else if a == kp.len() {
                    assert(kr[b] == kp[b]);
                } else {
                    assert(kr[a] == kp[a]);
                }
            }
        }
    }
}

} // verus!
