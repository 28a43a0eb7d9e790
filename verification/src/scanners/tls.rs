//! The TLS endpoint scanner's decisions: which targets to probe and at what
//! pace, how a target names its host and port, and the findings a completed
//! handshake gives. The handshakes themselves are made by the caller.

use vstd::prelude::*;
use vstd::string::*;
use crate::clock::{now_nanos, valid_instant};
use crate::model::asset::{opt_view, PqcStatus};
use crate::model::finding::{Confidence, Finding, SourceType};
use crate::model::json::{Evidence, EvidenceValue, EvidenceView, JsonValue, JsonView};
use crate::model::scan::{Scan, ScanStatus, ScanType};
use crate::scanners::cert::{
    bytes_list, cert_findings_hold, certificate_findings, jstr, json_str, pqc_status_str,
    status_name,
};
use crate::text::{
    chars_of, contains, contains_str, eq_str, lower, lower_chars, parse_uint, parse_uint_spec,
    push_chars, push_str, string_of, trim, trim_chars, IntError,
};

verus! {

broadcast use vstd::string::group_string_axioms;

/// Options of a TLS scan.
#[derive(Debug)]
pub struct TlsOptions {
    /// How fast to probe, as `<n>/second` or `<n>/minute`.
    pub rate_limit: Option<String>,
    pub timeout_seconds: u64,
    pub probe_hsts: bool,
    /// Targets to skip.
    pub exclude: Vec<String>,
    pub name: Option<String>,
    pub air_gapped: bool,
}

impl Default for TlsOptions {
    /// No rate limit given, ten-second timeout, no HSTS probe, nothing
    /// excluded, no name, air-gapped.
    fn default() -> (r: TlsOptions)
        ensures
            r.rate_limit is None,
            r.timeout_seconds == 10,
            !r.probe_hsts,
            r.exclude@.len() == 0,
            r.name is None,
            r.air_gapped,
    {
        TlsOptions {
            rate_limit: None,
            timeout_seconds: 10,
            probe_hsts: false,
            exclude: Vec::new(),
            name: None,
            air_gapped: true,
        }
    }
}

/// Which protocol versions a handshake offers.
#[derive(Debug, Clone, Copy, PartialEq, Eq, Structural)]
pub enum TlsVersionPolicy {
    /// TLS 1.3, falling back to TLS 1.2.
    PreferTls13,
    /// TLS 1.2 alone.
    Tls12Only,
}

/// The friendly name of a TLS supported-group codepoint, the IETF hybrid
/// post-quantum groups included.
pub open spec fn group_name_spec(codepoint: u16) -> Seq<char> {
    if codepoint == 0x0017 {
        "secp256r1"@
    } else if codepoint == 0x0018 {
        "secp384r1"@
    } else if codepoint == 0x0019 {
        "secp521r1"@
    } else if codepoint == 0x001D {
        "x25519"@
    } else if codepoint == 0x001E {
        "x448"@
    } else if codepoint == 0x0100 {
        "ffdhe2048"@
    } else if codepoint == 0x0101 {
        "ffdhe3072"@
    } else if codepoint == 0x0102 {
        "ffdhe4096"@
    } else if codepoint == 0x11EC {
        "X25519MLKEM768"@
    } else if codepoint == 0x6399 {
        "X25519Kyber768Draft00"@
    } else {
        "unknown"@
    }
}

/// Maps a TLS supported-group codepoint to a friendly name.
pub fn group_name(codepoint: u16) -> (r: &'static str)
    ensures
        r@ == group_name_spec(codepoint),
{
    match codepoint {
        0x0017 => "secp256r1",
        0x0018 => "secp384r1",
        0x0019 => "secp521r1",
        0x001D => "x25519",
        0x001E => "x448",
        0x0100 => "ffdhe2048",
        0x0101 => "ffdhe3072",
        0x0102 => "ffdhe4096",
        0x11EC => "X25519MLKEM768",
        0x6399 => "X25519Kyber768Draft00",
        _ => "unknown",
    }
}

/// The group is a hybrid post-quantum key exchange.
pub fn is_hybrid_group(codepoint: u16) -> (r: bool)
    ensures
        r == (codepoint == 0x11EC || codepoint == 0x6399),
{
    codepoint == 0x11EC || codepoint == 0x6399
}

/// Everything before the first `/`, and everything after it.
pub open spec fn split_first_slash(s: Seq<char>) -> Option<(Seq<char>, Seq<char>)>
    decreases s.len(),
{
    if s.len() == 0 {
        None
    } else if s[0] == '/' {
        Some((Seq::empty(), s.drop_first()))
    } else {
        match split_first_slash(s.drop_first()) {
            Some((a, b)) => Some((seq![s[0]] + a, b)),
            None => None,
        }
    }
}

/// The pause after each target, in milliseconds, for a rate limit of
/// `<n>/<unit>` (both trimmed): a second or a minute shared out among `n`
/// targets; `None` for anything else, a zero `n` included.
pub open spec fn rate_limit_spec(s: Seq<char>) -> Option<u64> {
    match split_first_slash(s) {
        None => None,
        Some((n, unit)) => match parse_uint_spec(trim(n), u64::MAX as nat) {
            Err(_) => None,
            Ok(k) => if k == 0 {
                None
            } else {
                let u = trim(unit);
                if u == "second"@ || u == "sec"@ || u == "s"@ {
                    Some((1000nat / k) as u64)
                } else if u == "minute"@ || u == "min"@ {
                    Some((60000nat / k) as u64)
                } else {
                    None
                }
            },
        },
    }
}

fn split_at_first_slash(s: &[char]) -> (r: Option<(Vec<char>, Vec<char>)>)
    ensures
        match split_first_slash(s@) {
            Some((a, b)) => r is Some && r->Some_0.0@ == a && r->Some_0.1@ == b,
            None => r is None,
        },
{
    let mut i: usize = 0;
    proof {
        assert(s@.skip(0) =~= s@);
        assert(s@.take(0) =~= Seq::<char>::empty());
        match split_first_slash(s@) {
            Some((a, b)) => {
                assert(Seq::<char>::empty() + a =~= a);
            },
            None => {},
        }
    }
    while i < s.len() && s[i] != '/'
        invariant
            i <= s.len(),
            forall|j: int| 0 <= j < i ==> s@[j] != '/',
            split_first_slash(s@) == match split_first_slash(s@.skip(i as int)) {
                Some((a, b)) => Some((s@.take(i as int) + a, b)),
                None => None::<(Seq<char>, Seq<char>)>,
            },
        decreases s.len() - i,
    {
        proof {
            let t = s@.skip(i as int);
            assert(t[0] == s@[i as int]);
            assert(t.drop_first() =~= s@.skip(i + 1));
            assert(s@.take(i + 1) =~= s@.take(i as int) + seq![s@[i as int]]);
            match split_first_slash(t.drop_first()) {
                Some((a, b)) => {
                    assert(s@.take(i as int) + (seq![t[0]] + a) =~= s@.take(i + 1) + a);
                },
                None => {},
            }
        }
        i = i + 1;
    }
    if i == s.len() {
        assert(s@.skip(i as int) =~= Seq::<char>::empty());
        return None;
    }
    let mut a: Vec<char> = Vec::new();
    let mut k: usize = 0;
    while k < i
        invariant
            k <= i < s.len(),
            a@ == s@.take(k as int),
        decreases i - k,
    {
        a.push(s[k]);
        assert(s@.take(k + 1) =~= s@.take(k as int).push(s@[k as int]));
        k = k + 1;
    }
    let mut b: Vec<char> = Vec::new();
    let mut m: usize = i + 1;
    while m < s.len()
        invariant
            i < m <= s.len(),
            b@ == s@.subrange(i + 1, m as int),
        decreases s.len() - m,
    {
        b.push(s[m]);
        assert(s@.subrange(i + 1, m + 1) =~= s@.subrange(i + 1, m as int).push(s@[m as int]));
        m = m + 1;
    }
    proof {
        let t = s@.skip(i as int);
        assert(t[0] == '/');
        assert(t.drop_first() =~= s@.subrange(i + 1, s.len() as int));
        assert(s@.take(i as int) + Seq::<char>::empty() =~= s@.take(i as int));
    }
    Some((a, b))
}

/// Parses a rate limit, `<n>/second` or `<n>/minute` (also `sec`, `s`,
/// `min`), into the pause after each target in milliseconds.
pub fn parse_rate_limit(s: &str) -> (r: Option<u64>)
    ensures
        r == rate_limit_spec(s@),
{
    let cs = chars_of(s);
    let (n, unit) = match split_at_first_slash(cs.as_slice()) {
        Some(p) => p,
        None => return None,
    };
    let nt = trim_chars(n.as_slice());
    let k = match parse_uint(nt.as_slice(), 0xFFFF_FFFF_FFFF_FFFF) {
        Ok(k) => k,
        Err(_) => return None,
    };
    if k == 0 {
        return None;
    }
    let ut = trim_chars(unit.as_slice());
    let u = ut.as_slice();
    if eq_str(u, "second") || eq_str(u, "sec") || eq_str(u, "s") {
        Some(1000 / k)
    } else if eq_str(u, "minute") || eq_str(u, "min") {
        Some(60000 / k)
    } else {
        None
    }
}

/// The pause after each target: one second unless a rate limit is given,
/// and none where the given rate limit does not parse.
pub open spec fn delay_spec(rate_limit: Option<Seq<char>>) -> Option<u64> {
    match rate_limit {
        None => Some(1000),
        Some(rl) => rate_limit_spec(rl),
    }
}

/// The pause after each target, in milliseconds.
pub fn delay_after_target(options: &TlsOptions) -> (r: Option<u64>)
    ensures
        r == delay_spec(opt_view(options.rate_limit)),
{
    match &options.rate_limit {
        Some(rl) => parse_rate_limit(rl.as_str()),
        None => Some(1000),
    }
}

/// Why a TLS scan did not start.
#[derive(Debug, Clone, Copy, PartialEq, Eq, Structural)]
pub enum TlsScanError {
    /// An HSTS probe would reach beyond the targets.
    ProbeHstsAirGapped,
}

impl TlsScanError {
    /// The error's message.
    pub fn message(self) -> (r: &'static str)
        ensures
            r@ == "--probe-hsts is not allowed in air-gapped mode"@,
    {
        "--probe-hsts is not allowed in air-gapped mode"
    }
}

/// The targets of `targets` that are not excluded, in order.
pub open spec fn kept_targets(targets: Seq<Seq<char>>, exclude: Seq<Seq<char>>) -> Seq<Seq<char>> {
    targets.filter(|t: Seq<char>| !exclude.contains(t))
}

fn is_excluded(exclude: &Vec<String>, target: &str) -> (r: bool)
    ensures
        r == exclude@.map_values(|s: String| s@).contains(target@),
{
    let mut i: usize = 0;
    while i < exclude.len()
        invariant
            i <= exclude.len(),
            forall|j: int| 0 <= j < i ==> exclude@[j]@ != target@,
        decreases exclude.len() - i,
    {
        if crate::text::str_eq(exclude[i].as_str(), target) {
            assert(exclude@.map_values(|s: String| s@)[i as int] == target@);
            return true;
        }
        i = i + 1;
    }
    proof {
        let ex = exclude@.map_values(|s: String| s@);
        if ex.contains(target@) {
            let j = choose|j: int| 0 <= j < ex.len() && ex[j] == target@;
            assert(exclude@[j]@ == target@);
        }
    }
    false
}

/// The targets a TLS scan probes, in order: those not excluded. An HSTS
/// probe is refused in air-gapped mode.
pub fn targets_to_scan(targets: &Vec<String>, options: &TlsOptions) -> (r: Result<
    Vec<String>,
    TlsScanError,
>)
    ensures
        options.probe_hsts && options.air_gapped <==> r is Err,
        r is Ok ==> r->Ok_0@.map_values(|s: String| s@) == kept_targets(
            targets@.map_values(|s: String| s@),
            options.exclude@.map_values(|s: String| s@),
        ),
{
    if options.probe_hsts && options.air_gapped {
        return Err(TlsScanError::ProbeHstsAirGapped);
    }
    let ghost ts = targets@.map_values(|s: String| s@);
    let ghost ex = options.exclude@.map_values(|s: String| s@);
    let mut out: Vec<String> = Vec::new();
    let mut i: usize = 0;
    while i < targets.len()
        invariant
            i <= targets.len(),
            ts == targets@.map_values(|s: String| s@),
            ex == options.exclude@.map_values(|s: String| s@),
            out@.map_values(|s: String| s@) == kept_targets(ts.take(i as int), ex),
        decreases targets.len() - i,
    {
        let t = &targets[i];
        let skip = is_excluded(&options.exclude, t.as_str());
        proof {
            assert(ts.take(i + 1).drop_last() =~= ts.take(i as int));
            assert(ts.take(i + 1).last() == t@);
            reveal(Seq::filter);
        }
        let ghost before = out@;
        if !skip {
            out.push(t.clone());
            assert(out@.map_values(|s: String| s@) =~= before.map_values(|s: String| s@).push(
                t@,
            ));
        }
        i = i + 1;
    }
    assert(ts.take(targets.len() as int) =~= ts);
    Ok(out)
}

/// The position of the last `:`.
pub open spec fn last_colon(s: Seq<char>) -> Option<int>
    decreases s.len(),
{
    if s.len() == 0 {
        None
    } else if s.last() == ':' {
        Some(s.len() - 1)
    } else {
        last_colon(s.drop_last())
    }
}

/// Why a target is not `host:port`.
#[derive(Debug)]
pub enum TargetError {
    /// There is no `:`.
    MissingPort { target: String },
    /// What follows the last `:` is not a port number.
    InvalidPort { target: String, cause: IntError },
}

/// The message of a target error, as the command line prints it.
pub open spec fn target_error_message(e: TargetError) -> Seq<char> {
    match e {
        TargetError::MissingPort { target } => "target must be host:port, got "@ + target@,
        TargetError::InvalidPort { target, cause } => "invalid port in target "@ + target@ + ": "@
            + cause.message_spec(),
    }
}

impl TargetError {
    /// The error's message.
    pub fn message(&self) -> (r: String)
        ensures
            r@ == target_error_message(*self),
    {
        let mut v: Vec<char> = Vec::new();
        match self {
            TargetError::MissingPort { target } => {
                push_str(&mut v, "target must be host:port, got ");
                push_str(&mut v, target.as_str());
            },
            TargetError::InvalidPort { target, cause } => {
                push_str(&mut v, "invalid port in target ");
                push_str(&mut v, target.as_str());
                push_str(&mut v, ": ");
                push_str(&mut v, cause.message());
            },
        }
        string_of(v.as_slice())
    }
}

/// Splits a `host:port` target at its last `:`; the port is a decimal
/// number below 65536.
pub fn parse_target(target: &str) -> (r: Result<(String, u16), TargetError>)
    ensures
        match last_colon(target@) {
            None => r matches Err(TargetError::MissingPort { target: t }) && t@ == target@,
            Some(i) => match parse_uint_spec(target@.skip(i + 1), 65535) {
                Ok(p) => r matches Ok((h, q)) && h@ == target@.take(i) && q == p,
                Err(e) => r matches Err(TargetError::InvalidPort { target: t, cause: c }) && t@
                    == target@ && c == e,
            },
        },
{
    let cs = chars_of(target);
    let mut i: usize = cs.len();
    assert(target@.take(i as int) =~= target@);
    while i > 0 && cs[i - 1] != ':'
        invariant
            i <= cs.len(),
            cs@ == target@,
            last_colon(target@) == last_colon(target@.take(i as int)),
        decreases i,
    {
        assert(target@.take(i as int).drop_last() =~= target@.take(i - 1));
        i = i - 1;
    }
    if i == 0 {
        assert(target@.take(0) =~= Seq::<char>::empty());
        return Err(TargetError::MissingPort { target: String::from_str(target) });
    }
    assert(target@.take(i as int).last() == ':');
    let colon = i - 1;
    let mut host: Vec<char> = Vec::new();
    let mut k: usize = 0;
    while k < colon
        invariant
            k <= colon < cs.len(),
            cs@ == target@,
            host@ == target@.take(k as int),
        decreases colon - k,
    {
        host.push(cs[k]);
        assert(target@.take(k + 1) =~= target@.take(k as int).push(target@[k as int]));
        k = k + 1;
    }
    let mut port: Vec<char> = Vec::new();
    let mut m: usize = i;
    while m < cs.len()
        invariant
            i <= m <= cs.len(),
            cs@ == target@,
            port@ == target@.subrange(i as int, m as int),
        decreases cs.len() - m,
    {
        port.push(cs[m]);
        assert(target@.subrange(i as int, m + 1) =~= target@.subrange(i as int, m as int).push(
            target@[m as int],
        ));
        m = m + 1;
    }
    assert(port@ =~= target@.skip(i as int));
    match parse_uint(port.as_slice(), 65535) {
        Ok(p) => Ok((string_of(host.as_slice()), p as u16)),
        Err(e) => Err(TargetError::InvalidPort { target: String::from_str(target), cause: e }),
    }
}

/// What a completed handshake showed.
pub struct HandshakeResult {
    /// `TLSv1.3`, `TLSv1.2`, or `TLS` for any other version.
    pub negotiated_version: String,
    pub cipher_suite: String,
    /// The peer's certificates, DER-encoded, leaf first.
    pub cert_chain: Vec<Vec<u8>>,
    pub alpn: Option<String>,
}

/// The name of a TLS scan: the one given, or `tls:` and the target.
pub open spec fn tls_scan_name(name: Option<Seq<char>>, target: Seq<char>) -> Seq<char> {
    match name {
        Some(n) => n,
        None => "tls:"@ + target,
    }
}

/// A new TLS scan of `target`, running.
pub fn new_tls_scan(target: &str, options: &TlsOptions) -> (r: Scan)
    ensures
        r.name@ == tls_scan_name(opt_view(options.name), target@),
        r.scan_type == ScanType::TlsEndpoint,
        r.status == ScanStatus::Running,
        r.target@ == target@,
        r.findings@.len() == 0,
        r.completed_at is None,
        r.error_message is None,
        valid_instant(r.started_at),
{
    let name = match &options.name {
        Some(n) => n.clone(),
        None => {
            let mut v: Vec<char> = Vec::new();
            push_str(&mut v, "tls:");
            push_str(&mut v, target);
            string_of(v.as_slice())
        },
    };
    let mut scan = Scan::new(name, ScanType::TlsEndpoint, String::from_str(target));
    scan.status = ScanStatus::Running;
    scan
}

/// The PQC status of an endpoint by its cipher suite: symmetric-safe for an
/// AES or ChaCha20 suite, unknown otherwise.
pub open spec fn endpoint_status(cipher_suite: Seq<char>) -> PqcStatus {
    let l = lower(cipher_suite);
    if contains(l, "aes"@) || contains(l, "chacha20"@) {
        PqcStatus::SymmetricOk
    } else {
        PqcStatus::Unknown
    }
}

/// The evidence of a TLS endpoint.
pub open spec fn endpoint_evidence(
    target: Seq<char>,
    version: Seq<char>,
    cipher_suite: Seq<char>,
    alpn: Option<Seq<char>>,
) -> Seq<(Seq<char>, EvidenceView)> {
    seq![
        ("kind"@, jstr("tls_endpoint"@)),
        ("target"@, jstr(target)),
        ("tls_version"@, jstr(version)),
        ("cipher_suite"@, jstr(cipher_suite)),
        ("alpn"@, EvidenceView::Value(
            match alpn {
                Some(a) => JsonView::Str(a),
                None => JsonView::Null,
            },
        )),
        ("pqc_status"@, jstr(status_name(endpoint_status(cipher_suite)))),
    ]
}

/// The findings of a completed handshake with `target`: the endpoint, then
/// each certificate of the chain that parses, in order.
pub open spec fn handshake_findings_hold(
    fs: Seq<Finding>,
    scan_id: u128,
    target: Seq<char>,
    version: Seq<char>,
    cipher_suite: Seq<char>,
    alpn: Option<Seq<char>>,
    chain: Seq<Seq<u8>>,
) -> bool {
    &&& fs.len() >= 1
    &&& fs[0].scan_id == scan_id
    &&& fs[0].crypto_asset_id is None
    &&& fs[0].source_type == SourceType::Host
    &&& fs[0].source_location@ == target
    &&& fs[0].evidence@ == endpoint_evidence(target, version, cipher_suite, alpn)
    &&& fs[0].confidence == Confidence::High
    &&& cert_findings_hold(fs.skip(1), scan_id, target, chain, true)
}

/// The findings of a completed handshake with `target`.
pub fn handshake_findings(scan_id: u128, target: &str, result: &HandshakeResult) -> (r: Vec<
    Finding,
>)
    ensures
        handshake_findings_hold(
            r@,
            scan_id,
            target@,
            result.negotiated_version@,
            result.cipher_suite@,
            opt_view(result.alpn),
            bytes_list(result.cert_chain@),
        ),
{
    let l = lower_chars(chars_of(result.cipher_suite.as_str()).as_slice());
    let status = if contains_str(l.as_slice(), "aes") || contains_str(l.as_slice(), "chacha20") {
        PqcStatus::SymmetricOk
    } else {
        PqcStatus::Unknown
    };
    let mut ev = Evidence::new();
    ev.push("kind", json_str(String::from_str("tls_endpoint")));
    ev.push("target", json_str(String::from_str(target)));
    ev.push("tls_version", json_str(result.negotiated_version.clone()));
    ev.push("cipher_suite", json_str(result.cipher_suite.clone()));
    let alpn = match &result.alpn {
        Some(a) => EvidenceValue::Value(JsonValue::Str(a.clone())),
        None => EvidenceValue::Value(JsonValue::Null),
    };
    ev.push("alpn", alpn);
    ev.push("pqc_status", json_str(String::from_str(pqc_status_str(status))));
    let ghost alpn_view = opt_view(result.alpn);
    assert(ev@ =~= endpoint_evidence(
        target@,
        result.negotiated_version@,
        result.cipher_suite@,
        alpn_view,
    ));
    let mut out: Vec<Finding> = Vec::new();
    out.push(
        Finding::new(scan_id, SourceType::Host, String::from_str(target), ev, Confidence::High),
    );
    let ghost first = out@;
    let mut certs = certificate_findings(scan_id, target, &result.cert_chain, true);
    let ghost cs = certs@;
    out.append(&mut certs);
    assert(out@.skip(1) =~= cs);
    assert(out@[0] == first[0]);
    out
}

/// The message of a target on which both handshakes failed.
pub open spec fn handshake_failure(tls13: Seq<char>, tls12: Seq<char>) -> Seq<char> {
    "TLS handshake failed: tls13="@ + tls13 + " tls12="@ + tls12
}

/// Records the outcome of probing `target` in `scan`: the TLS 1.3
/// handshake's result, and, where it failed, the TLS 1.2 handshake's. A
/// handshake that completed gives its findings and completes the scan;
/// two failures fail it with both errors. The scan is completed now.
pub fn record_handshakes(
    scan: Scan,
    target: &str,
    first: Result<HandshakeResult, String>,
    second: Option<Result<HandshakeResult, String>>,
) -> (r: Scan)
    requires
        first is Err <==> second is Some,
    ensures
        r.id == scan.id,
        r.name == scan.name,
        r.scan_type == scan.scan_type,
        r.target == scan.target,
        r.started_at == scan.started_at,
        r.completed_at matches Some(t) && valid_instant(t),
        match (first, second) {
            (Ok(h), _) | (Err(_), Some(Ok(h))) => {
                &&& r.status == ScanStatus::Completed
                &&& r.error_message == scan.error_message
                &&& r.findings@.len() >= scan.findings@.len()
                &&& r.findings@.take(scan.findings@.len() as int) == scan.findings@
                &&& handshake_findings_hold(
                    r.findings@.skip(scan.findings@.len() as int),
                    scan.id,
                    target@,
                    h.negotiated_version@,
                    h.cipher_suite@,
                    opt_view(h.alpn),
                    bytes_list(h.cert_chain@),
                )
            },
            (Err(e1), Some(Err(e2))) => {
                &&& r.status == ScanStatus::Failed
                &&& r.findings@ == scan.findings@
                &&& r.error_message matches Some(m) && m@ == handshake_failure(e1@, e2@)
            },
            _ => false,
        },
{
    let mut scan = scan;
    let done = match first {
        Ok(h) => Ok(h),
        Err(e1) => match second {
            Some(Ok(h)) => Ok(h),
            Some(Err(e2)) => Err((e1, e2)),
            None => Err((e1, String::new())),
        },
    };
    match done {
        Ok(h) => {
            let mut fs = handshake_findings(scan.id, target, &h);
            let ghost before = scan.findings@;
            let ghost added = fs@;
            scan.findings.append(&mut fs);
            assert(scan.findings@.take(before.len() as int) =~= before);
            assert(scan.findings@.skip(before.len() as int) =~= added);
            scan.status = ScanStatus::Completed;
        },
        Err((e1, e2)) => {
            let mut v: Vec<char> = Vec::new();
            push_str(&mut v, "TLS handshake failed: tls13=");
            push_str(&mut v, e1.as_str());
            push_str(&mut v, " tls12=");
            push_str(&mut v, e2.as_str());
            scan.status = ScanStatus::Failed;
            scan.error_message = Some(string_of(v.as_slice()));
        },
    }
    scan.completed_at = Some(now_nanos());
    scan
}

} // verus!
