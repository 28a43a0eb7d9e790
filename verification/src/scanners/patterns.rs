//! The pattern packs of the codebase scanner: the algorithm names it looks
//! for in any file, and the crypto-library imports it looks for in files of
//! each language.

use vstd::prelude::*;
use vstd::string::*;
use crate::model::asset::PqcStatus;
use crate::model::finding::Confidence;
use crate::text::{chars_of, eq_str, lower, lower_chars};

verus! {

broadcast use vstd::string::group_string_axioms;

/// The languages the scanner tells apart, by file extension.
#[derive(Debug, Clone, Copy, PartialEq, Eq, Structural)]
pub enum Language {
    Rust,
    Go,
    Python,
    JavaScript,
    Java,
    DotNet,
    Generic,
}

/// The name of a language as evidence records it (its `Debug` form).
pub open spec fn language_name(l: Language) -> Seq<char> {
    match l {
        Language::Rust => "Rust"@,
        Language::Go => "Go"@,
        Language::Python => "Python"@,
        Language::JavaScript => "JavaScript"@,
        Language::Java => "Java"@,
        Language::DotNet => "DotNet"@,
        Language::Generic => "Generic"@,
    }
}

impl Language {
    /// The name of the language as evidence records it.
    pub fn name(self) -> (r: &'static str)
        ensures
            r@ == language_name(self),
    {
        match self {
            Language::Rust => "Rust",
            Language::Go => "Go",
            Language::Python => "Python",
            Language::JavaScript => "JavaScript",
            Language::Java => "Java",
            Language::DotNet => "DotNet",
            Language::Generic => "Generic",
        }
    }
}

/// `p` without its trailing `/`s.
pub open spec fn strip_trailing_slashes(p: Seq<char>) -> Seq<char>
    decreases p.len(),
{
    if p.len() > 0 && p.last() == '/' {
        strip_trailing_slashes(p.drop_last())
    } else {
        p
    }
}

/// The position of the last `c` in `s`.
pub open spec fn last_index(s: Seq<char>, c: char) -> Option<int>
    decreases s.len(),
{
    if s.len() == 0 {
        None
    } else if s.last() == c {
        Some(s.len() - 1)
    } else {
        last_index(s.drop_last(), c)
    }
}

/// The last component of a path: what follows its last `/`, trailing `/`s
/// aside.
pub open spec fn file_name(p: Seq<char>) -> Seq<char> {
    let q = strip_trailing_slashes(p);
    match last_index(q, '/') {
        Some(i) => q.skip(i + 1),
        None => q,
    }
}

/// The extension of a path (`Path::extension`): what follows the last `.`
/// of its file name, unless the name has no `.` but a leading one, or is
/// `.`, `..` or empty.
pub open spec fn extension(p: Seq<char>) -> Option<Seq<char>> {
    let n = file_name(p);
    if n.len() == 0 || n == "."@ || n == ".."@ {
        None
    } else {
        match last_index(n, '.') {
            Some(i) => if i == 0 {
                None
            } else {
                Some(n.skip(i + 1))
            },
            None => None,
        }
    }
}

/// The language of a file by its extension, in ASCII lower case.
pub open spec fn language_of_ext(e: Seq<char>) -> Option<Language> {
    if e == "rs"@ {
        Some(Language::Rust)
    } else if e == "go"@ {
        Some(Language::Go)
    } else if e == "py"@ {
        Some(Language::Python)
    } else if e == "js"@ || e == "mjs"@ || e == "cjs"@ || e == "ts"@ || e == "tsx"@ || e == "jsx"@ {
        Some(Language::JavaScript)
    } else if e == "java"@ || e == "kt"@ || e == "kts"@ {
        Some(Language::Java)
    } else if e == "cs"@ || e == "vb"@ || e == "fs"@ {
        Some(Language::DotNet)
    } else if e == "toml"@ || e == "yaml"@ || e == "yml"@ || e == "json"@ || e == "xml"@ || e == "conf"@
        || e == "ini"@ {
        Some(Language::Generic)
    } else {
        None
    }
}

/// The language of a file at path `p`.
pub open spec fn language_of_path(p: Seq<char>) -> Option<Language> {
    match extension(p) {
        Some(e) => language_of_ext(lower(e)),
        None => None,
    }
}

fn last_index_exec(s: &[char], c: char) -> (r: Option<usize>)
    ensures
        match last_index(s@, c) {
            Some(i) => r == Some(i as usize) && 0 <= i < s@.len(),
            None => r is None,
        },
{
    let mut k: usize = s.len();
    assert(s@.take(k as int) =~= s@);
    while k > 0 && s[k - 1] != c
        invariant
            k <= s.len(),
            last_index(s@, c) == last_index(s@.take(k as int), c),
        decreases k,
    {
        assert(s@.take(k as int).drop_last() =~= s@.take(k - 1));
        k = k - 1;
    }
    if k == 0 {
        assert(s@.take(0) =~= Seq::<char>::empty());
        None
    } else {
        assert(s@.take(k as int).last() == c);
        Some(k - 1)
    }
}

fn skip_chars(s: &[char], from: usize) -> (r: Vec<char>)
    requires
        from <= s.len(),
    ensures
        r@ == s@.skip(from as int),
{
    let mut r: Vec<char> = Vec::new();
    let mut i: usize = from;
    while i < s.len()
        invariant
            from <= i <= s.len(),
            r@ == s@.subrange(from as int, i as int),
        decreases s.len() - i,
    {
        r.push(s[i]);
        assert(s@.subrange(from as int, i + 1) =~= s@.subrange(from as int, i as int).push(
            s@[i as int],
        ));
        i = i + 1;
    }
    r
}

/// The extension of a path.
pub fn path_extension(path: &str) -> (r: Option<Vec<char>>)
    ensures
        match extension(path@) {
            Some(e) => r is Some && r->Some_0@ == e,
            None => r is None,
        },
{
    let cs = chars_of(path);
    let mut end: usize = cs.len();
    assert(cs@.take(end as int) =~= path@);
    while end > 0 && cs[end - 1] == '/'
        invariant
            end <= cs.len(),
            cs@ == path@,
            strip_trailing_slashes(path@) == strip_trailing_slashes(path@.take(end as int)),
        decreases end,
    {
        assert(path@.take(end as int).drop_last() =~= path@.take(end - 1));
        end = end - 1;
    }
    let mut q: Vec<char> = Vec::new();
    let mut i: usize = 0;
    while i < end
        invariant
            i <= end <= cs.len(),
            cs@ == path@,
            q@ == path@.take(i as int),
        decreases end - i,
    {
        q.push(cs[i]);
        assert(path@.take(i + 1) =~= path@.take(i as int).push(path@[i as int]));
        i = i + 1;
    }
    assert(strip_trailing_slashes(q@) == q@);
    let name = match last_index_exec(q.as_slice(), '/') {
        Some(k) => skip_chars(q.as_slice(), k + 1),
        None => q,
    };
    let n = name.as_slice();
    if n.len() == 0 || eq_str(n, ".") || eq_str(n, "..") {
        return None;
    }
    match last_index_exec(n, '.') {
        Some(i) => if i == 0 {
            None
        } else {
            Some(skip_chars(n, i + 1))
        },
        None => None,
    }
}

impl Language {
    /// The language of a file by its extension (compared in ASCII lower
    /// case); `None` for an extension the scanner does not know.
    pub fn from_path(path: &str) -> (r: Option<Language>)
        ensures
            r == language_of_path(path@),
    {
        let e = match path_extension(path) {
            Some(e) => lower_chars(e.as_slice()),
            None => return None,
        };
        let s = e.as_slice();
        if eq_str(s, "rs") {
            Some(Language::Rust)
        } else if eq_str(s, "go") {
            Some(Language::Go)
        } else if eq_str(s, "py") {
            Some(Language::Python)
        } else if eq_str(s, "js") || eq_str(s, "mjs") || eq_str(s, "cjs") || eq_str(s, "ts")
            || eq_str(s, "tsx") || eq_str(s, "jsx") {
            Some(Language::JavaScript)
        } else if eq_str(s, "java") || eq_str(s, "kt") || eq_str(s, "kts") {
            Some(Language::Java)
        } else if eq_str(s, "cs") || eq_str(s, "vb") || eq_str(s, "fs") {
            Some(Language::DotNet)
        } else if eq_str(s, "toml") || eq_str(s, "yaml") || eq_str(s, "yml") || eq_str(s, "json")
            || eq_str(s, "xml") || eq_str(s, "conf") || eq_str(s, "ini") {
            Some(Language::Generic)
        } else {
            None
        }
    }
}

/// An algorithm name the scanner looks for, by regular expression.
pub struct AlgorithmPattern {
    /// The regular expression, in `regex` syntax.
    pub regex: &'static str,
    pub algorithm_name: &'static str,
    pub pqc_status: PqcStatus,
    pub confidence: Confidence,
    pub primitive: Option<&'static str>,
    pub key_size_bits: Option<u32>,
}

/// The model of an `AlgorithmPattern`.
pub struct AlgorithmPatternView {
    pub regex: Seq<char>,
    pub algorithm_name: Seq<char>,
    pub pqc_status: PqcStatus,
    pub confidence: Confidence,
    pub primitive: Option<Seq<char>>,
    pub key_size_bits: Option<u32>,
}

impl View for AlgorithmPattern {
    type V = AlgorithmPatternView;

    open spec fn view(&self) -> AlgorithmPatternView {
        AlgorithmPatternView {
            regex: self.regex@,
            algorithm_name: self.algorithm_name@,
            pqc_status: self.pqc_status,
            confidence: self.confidence,
            primitive: match self.primitive {
                Some(p) => Some(p@),
                None => None,
            },
            key_size_bits: self.key_size_bits,
        }
    }
}

/// A crypto-library import the scanner looks for in files of one language.
pub struct LibraryPattern {
    /// The regular expression, in `regex` syntax.
    pub regex: &'static str,
    pub library_name: &'static str,
    pub language: Language,
    pub confidence: Confidence,
}

/// The model of a `LibraryPattern`.
pub struct LibraryPatternView {
    pub regex: Seq<char>,
    pub library_name: Seq<char>,
    pub language: Language,
    pub confidence: Confidence,
}

impl View for LibraryPattern {
    type V = LibraryPatternView;

    open spec fn view(&self) -> LibraryPatternView {
        LibraryPatternView {
            regex: self.regex@,
            library_name: self.library_name@,
            language: self.language,
            confidence: self.confidence,
        }
    }
}


/// The algorithm patterns, in the order they are tried.
pub open spec fn generic_table() -> Seq<AlgorithmPatternView> {
    seq![
        AlgorithmPatternView {
            regex: r#"(?i)\bMD5\b"#@,
            algorithm_name: "MD5"@,
            pqc_status: PqcStatus::Vulnerable,
            confidence: Confidence::High,
            primitive: Some("hash"@),
            key_size_bits: None,
        },
        AlgorithmPatternView {
            regex: r#"(?i)\bSHA[-_]?1\b"#@,
            algorithm_name: "SHA-1"@,
            pqc_status: PqcStatus::Vulnerable,
            confidence: Confidence::High,
            primitive: Some("hash"@),
            key_size_bits: None,
        },
        AlgorithmPatternView {
            regex: r#"(?i)\bRSA[-_]?1024\b"#@,
            algorithm_name: "RSA"@,
            pqc_status: PqcStatus::Vulnerable,
            confidence: Confidence::High,
            primitive: Some("signature"@),
            key_size_bits: Some(1024),
        },
        AlgorithmPatternView {
            regex: r#"(?i)\bRSA[-_]?2048\b"#@,
            algorithm_name: "RSA"@,
            pqc_status: PqcStatus::Vulnerable,
            confidence: Confidence::High,
            primitive: Some("signature"@),
            key_size_bits: Some(2048),
        },
        AlgorithmPatternView {
            regex: r#"(?i)\bRSA[-_]?3072\b"#@,
            algorithm_name: "RSA"@,
            pqc_status: PqcStatus::Vulnerable,
            confidence: Confidence::High,
            primitive: Some("signature"@),
            key_size_bits: Some(3072),
        },
        AlgorithmPatternView {
            regex: r#"(?i)\bRSA[-_]?4096\b"#@,
            algorithm_name: "RSA"@,
            pqc_status: PqcStatus::Vulnerable,
            confidence: Confidence::High,
            primitive: Some("signature"@),
            key_size_bits: Some(4096),
        },
        AlgorithmPatternView {
            regex: r#"(?i)\bECDSA[-_]?P[-_]?256\b"#@,
            algorithm_name: "ECDSA-P-256"@,
            pqc_status: PqcStatus::Vulnerable,
            confidence: Confidence::High,
            primitive: Some("signature"@),
            key_size_bits: Some(256),
        },
        AlgorithmPatternView {
            regex: r#"(?i)\bECDSA[-_]?P[-_]?384\b"#@,
            algorithm_name: "ECDSA-P-384"@,
            pqc_status: PqcStatus::Vulnerable,
            confidence: Confidence::High,
            primitive: Some("signature"@),
            key_size_bits: Some(384),
        },
        AlgorithmPatternView {
            regex: r#"(?i)\bED25519\b"#@,
            algorithm_name: "Ed25519"@,
            pqc_status: PqcStatus::Vulnerable,
            confidence: Confidence::High,
            primitive: Some("signature"@),
            key_size_bits: Some(255),
        },
        AlgorithmPatternView {
            regex: r#"(?i)\bX25519\b"#@,
            algorithm_name: "X25519"@,
            pqc_status: PqcStatus::Vulnerable,
            confidence: Confidence::High,
            primitive: Some("key_agreement"@),
            key_size_bits: Some(255),
        },
        AlgorithmPatternView {
            regex: r#"(?i)\bAES[-_]?256(?:[-_]?(?:GCM|CBC|CCM|CTR))?\b"#@,
            algorithm_name: "AES-256"@,
            pqc_status: PqcStatus::SymmetricOk,
            confidence: Confidence::High,
            primitive: Some("block_cipher"@),
            key_size_bits: Some(256),
        },
        AlgorithmPatternView {
            regex: r#"(?i)\bAES[-_]?128(?:[-_]?(?:GCM|CBC|CCM|CTR))?\b"#@,
            algorithm_name: "AES-128"@,
            pqc_status: PqcStatus::SymmetricOk,
            confidence: Confidence::High,
            primitive: Some("block_cipher"@),
            key_size_bits: Some(128),
        },
        AlgorithmPatternView {
            regex: r#"(?i)\bChaCha20(?:[-_]?Poly1305)?\b"#@,
            algorithm_name: "ChaCha20-Poly1305"@,
            pqc_status: PqcStatus::SymmetricOk,
            confidence: Confidence::High,
            primitive: Some("stream_cipher"@),
            key_size_bits: Some(256),
        },
        AlgorithmPatternView {
            regex: r#"(?i)\bSHA[-_]?256\b"#@,
            algorithm_name: "SHA-256"@,
            pqc_status: PqcStatus::SymmetricOk,
            confidence: Confidence::High,
            primitive: Some("hash"@),
            key_size_bits: None,
        },
        AlgorithmPatternView {
            regex: r#"(?i)\bSHA[-_]?384\b"#@,
            algorithm_name: "SHA-384"@,
            pqc_status: PqcStatus::SymmetricOk,
            confidence: Confidence::High,
            primitive: Some("hash"@),
            key_size_bits: None,
        },
        AlgorithmPatternView {
            regex: r#"(?i)\bSHA[-_]?512\b"#@,
            algorithm_name: "SHA-512"@,
            pqc_status: PqcStatus::SymmetricOk,
            confidence: Confidence::High,
            primitive: Some("hash"@),
            key_size_bits: None,
        },
        AlgorithmPatternView {
            regex: r#"(?i)\bML[-_]?KEM[-_]?(?:512|768|1024)?\b"#@,
            algorithm_name: "ML-KEM"@,
            pqc_status: PqcStatus::Resistant,
            confidence: Confidence::High,
            primitive: Some("kem"@),
            key_size_bits: None,
        },
        AlgorithmPatternView {
            regex: r#"(?i)\bML[-_]?DSA[-_]?(?:44|65|87)?\b"#@,
            algorithm_name: "ML-DSA"@,
            pqc_status: PqcStatus::Resistant,
            confidence: Confidence::High,
            primitive: Some("signature"@),
            key_size_bits: None,
        },
        AlgorithmPatternView {
            regex: r#"(?i)\bSLH[-_]?DSA\b"#@,
            algorithm_name: "SLH-DSA"@,
            pqc_status: PqcStatus::Resistant,
            confidence: Confidence::High,
            primitive: Some("signature"@),
            key_size_bits: None,
        },
        AlgorithmPatternView {
            regex: r#"(?i)\bKyber(?:512|768|1024)?\b"#@,
            algorithm_name: "Kyber"@,
            pqc_status: PqcStatus::Resistant,
            confidence: Confidence::High,
            primitive: Some("kem"@),
            key_size_bits: None,
        },
        AlgorithmPatternView {
            regex: r#"(?i)\bDilithium[2-5]?\b"#@,
            algorithm_name: "Dilithium"@,
            pqc_status: PqcStatus::Resistant,
            confidence: Confidence::High,
            primitive: Some("signature"@),
            key_size_bits: None,
        },
        AlgorithmPatternView {
            regex: r#"(?i)\bX25519MLKEM768\b"#@,
            algorithm_name: "X25519MLKEM768"@,
            pqc_status: PqcStatus::Hybrid,
            confidence: Confidence::High,
            primitive: Some("kem"@),
            key_size_bits: None,
        },
        AlgorithmPatternView {
            regex: r#"(?i)\b3DES\b|\bTripleDES\b|\bDES[-_]EDE3?\b"#@,
            algorithm_name: "3DES"@,
            pqc_status: PqcStatus::Vulnerable,
            confidence: Confidence::High,
            primitive: Some("block_cipher"@),
            key_size_bits: Some(168),
        },
        AlgorithmPatternView {
            regex: r#"(?i)\bRC4\b"#@,
            algorithm_name: "RC4"@,
            pqc_status: PqcStatus::Vulnerable,
            confidence: Confidence::High,
            primitive: Some("stream_cipher"@),
            key_size_bits: None,
        },
        AlgorithmPatternView {
            regex: r#""alg"\s*:\s*"RS256""#@,
            algorithm_name: "RSA"@,
            pqc_status: PqcStatus::Vulnerable,
            confidence: Confidence::High,
            primitive: Some("signature"@),
            key_size_bits: Some(2048),
        },
        AlgorithmPatternView {
            regex: r#""alg"\s*:\s*"ES256""#@,
            algorithm_name: "ECDSA-P-256"@,
            pqc_status: PqcStatus::Vulnerable,
            confidence: Confidence::High,
            primitive: Some("signature"@),
            key_size_bits: Some(256),
        },
        AlgorithmPatternView {
            regex: r#""alg"\s*:\s*"EdDSA""#@,
            algorithm_name: "Ed25519"@,
            pqc_status: PqcStatus::Vulnerable,
            confidence: Confidence::High,
            primitive: Some("signature"@),
            key_size_bits: Some(255),
        },
        AlgorithmPatternView {
            regex: r#""alg"\s*:\s*"HS256""#@,
            algorithm_name: "HMAC-SHA256"@,
            pqc_status: PqcStatus::SymmetricOk,
            confidence: Confidence::High,
            primitive: Some("mac"@),
            key_size_bits: None,
        },
    ]
}

/// The algorithm patterns (names in literal strings, in any language).
pub fn generic_patterns() -> (r: Vec<AlgorithmPattern>)
    ensures
        r@.map_values(|p: AlgorithmPattern| p@) == generic_table(),
{
    let mut v: Vec<AlgorithmPattern> = Vec::new();
    v.push(
        AlgorithmPattern {
            regex: r#"(?i)\bMD5\b"#,
            algorithm_name: "MD5",
            pqc_status: PqcStatus::Vulnerable,
            confidence: Confidence::High,
            primitive: Some("hash"),
            key_size_bits: None,
        },
    );
    v.push(
        AlgorithmPattern {
            regex: r#"(?i)\bSHA[-_]?1\b"#,
            algorithm_name: "SHA-1",
            pqc_status: PqcStatus::Vulnerable,
            confidence: Confidence::High,
            primitive: Some("hash"),
            key_size_bits: None,
        },
    );
    v.push(
        AlgorithmPattern {
            regex: r#"(?i)\bRSA[-_]?1024\b"#,
            algorithm_name: "RSA",
            pqc_status: PqcStatus::Vulnerable,
            confidence: Confidence::High,
            primitive: Some("signature"),
            key_size_bits: Some(1024),
        },
    );
    v.push(
        AlgorithmPattern {
            regex: r#"(?i)\bRSA[-_]?2048\b"#,
            algorithm_name: "RSA",
            pqc_status: PqcStatus::Vulnerable,
            confidence: Confidence::High,
            primitive: Some("signature"),
            key_size_bits: Some(2048),
        },
    );
    v.push(
        AlgorithmPattern {
            regex: r#"(?i)\bRSA[-_]?3072\b"#,
            algorithm_name: "RSA",
            pqc_status: PqcStatus::Vulnerable,
            confidence: Confidence::High,
            primitive: Some("signature"),
            key_size_bits: Some(3072),
        },
    );
    v.push(
        AlgorithmPattern {
            regex: r#"(?i)\bRSA[-_]?4096\b"#,
            algorithm_name: "RSA",
            pqc_status: PqcStatus::Vulnerable,
            confidence: Confidence::High,
            primitive: Some("signature"),
            key_size_bits: Some(4096),
        },
    );
    v.push(
        AlgorithmPattern {
            regex: r#"(?i)\bECDSA[-_]?P[-_]?256\b"#,
            algorithm_name: "ECDSA-P-256",
            pqc_status: PqcStatus::Vulnerable,
            confidence: Confidence::High,
            primitive: Some("signature"),
            key_size_bits: Some(256),
        },
    );
    v.push(
        AlgorithmPattern {
            regex: r#"(?i)\bECDSA[-_]?P[-_]?384\b"#,
            algorithm_name: "ECDSA-P-384",
            pqc_status: PqcStatus::Vulnerable,
            confidence: Confidence::High,
            primitive: Some("signature"),
            key_size_bits: Some(384),
        },
    );
    v.push(
        AlgorithmPattern {
            regex: r#"(?i)\bED25519\b"#,
            algorithm_name: "Ed25519",
            pqc_status: PqcStatus::Vulnerable,
            confidence: Confidence::High,
            primitive: Some("signature"),
            key_size_bits: Some(255),
        },
    );
    v.push(
        AlgorithmPattern {
            regex: r#"(?i)\bX25519\b"#,
            algorithm_name: "X25519",
            pqc_status: PqcStatus::Vulnerable,
            confidence: Confidence::High,
            primitive: Some("key_agreement"),
            key_size_bits: Some(255),
        },
    );
    v.push(
        AlgorithmPattern {
            regex: r#"(?i)\bAES[-_]?256(?:[-_]?(?:GCM|CBC|CCM|CTR))?\b"#,
            algorithm_name: "AES-256",
            pqc_status: PqcStatus::SymmetricOk,
            confidence: Confidence::High,
            primitive: Some("block_cipher"),
            key_size_bits: Some(256),
        },
    );
    v.push(
        AlgorithmPattern {
            regex: r#"(?i)\bAES[-_]?128(?:[-_]?(?:GCM|CBC|CCM|CTR))?\b"#,
            algorithm_name: "AES-128",
            pqc_status: PqcStatus::SymmetricOk,
            confidence: Confidence::High,
            primitive: Some("block_cipher"),
            key_size_bits: Some(128),
        },
    );
    v.push(
        AlgorithmPattern {
            regex: r#"(?i)\bChaCha20(?:[-_]?Poly1305)?\b"#,
            algorithm_name: "ChaCha20-Poly1305",
            pqc_status: PqcStatus::SymmetricOk,
            confidence: Confidence::High,
            primitive: Some("stream_cipher"),
            key_size_bits: Some(256),
        },
    );
    v.push(
        AlgorithmPattern {
            regex: r#"(?i)\bSHA[-_]?256\b"#,
            algorithm_name: "SHA-256",
            pqc_status: PqcStatus::SymmetricOk,
            confidence: Confidence::High,
            primitive: Some("hash"),
            key_size_bits: None,
        },
    );
    v.push(
        AlgorithmPattern {
            regex: r#"(?i)\bSHA[-_]?384\b"#,
            algorithm_name: "SHA-384",
            pqc_status: PqcStatus::SymmetricOk,
            confidence: Confidence::High,
            primitive: Some("hash"),
            key_size_bits: None,
        },
    );
    v.push(
        AlgorithmPattern {
            regex: r#"(?i)\bSHA[-_]?512\b"#,
            algorithm_name: "SHA-512",
            pqc_status: PqcStatus::SymmetricOk,
            confidence: Confidence::High,
            primitive: Some("hash"),
            key_size_bits: None,
        },
    );
    v.push(
        AlgorithmPattern {
            regex: r#"(?i)\bML[-_]?KEM[-_]?(?:512|768|1024)?\b"#,
            algorithm_name: "ML-KEM",
            pqc_status: PqcStatus::Resistant,
            confidence: Confidence::High,
            primitive: Some("kem"),
            key_size_bits: None,
        },
    );
    v.push(
        AlgorithmPattern {
            regex: r#"(?i)\bML[-_]?DSA[-_]?(?:44|65|87)?\b"#,
            algorithm_name: "ML-DSA",
            pqc_status: PqcStatus::Resistant,
            confidence: Confidence::High,
            primitive: Some("signature"),
            key_size_bits: None,
        },
    );
    v.push(
        AlgorithmPattern {
            regex: r#"(?i)\bSLH[-_]?DSA\b"#,
            algorithm_name: "SLH-DSA",
            pqc_status: PqcStatus::Resistant,
            confidence: Confidence::High,
            primitive: Some("signature"),
            key_size_bits: None,
        },
    );
    v.push(
        AlgorithmPattern {
            regex: r#"(?i)\bKyber(?:512|768|1024)?\b"#,
            algorithm_name: "Kyber",
            pqc_status: PqcStatus::Resistant,
            confidence: Confidence::High,
            primitive: Some("kem"),
            key_size_bits: None,
        },
    );
    v.push(
        AlgorithmPattern {
            regex: r#"(?i)\bDilithium[2-5]?\b"#,
            algorithm_name: "Dilithium",
            pqc_status: PqcStatus::Resistant,
            confidence: Confidence::High,
            primitive: Some("signature"),
            key_size_bits: None,
        },
    );
    v.push(
        AlgorithmPattern {
            regex: r#"(?i)\bX25519MLKEM768\b"#,
            algorithm_name: "X25519MLKEM768",
            pqc_status: PqcStatus::Hybrid,
            confidence: Confidence::High,
            primitive: Some("kem"),
            key_size_bits: None,
        },
    );
    v.push(
        AlgorithmPattern {
            regex: r#"(?i)\b3DES\b|\bTripleDES\b|\bDES[-_]EDE3?\b"#,
            algorithm_name: "3DES",
            pqc_status: PqcStatus::Vulnerable,
            confidence: Confidence::High,
            primitive: Some("block_cipher"),
            key_size_bits: Some(168),
        },
    );
    v.push(
        AlgorithmPattern {
            regex: r#"(?i)\bRC4\b"#,
            algorithm_name: "RC4",
            pqc_status: PqcStatus::Vulnerable,
            confidence: Confidence::High,
            primitive: Some("stream_cipher"),
            key_size_bits: None,
        },
    );
    v.push(
        AlgorithmPattern {
            regex: r#""alg"\s*:\s*"RS256""#,
            algorithm_name: "RSA",
            pqc_status: PqcStatus::Vulnerable,
            confidence: Confidence::High,
            primitive: Some("signature"),
            key_size_bits: Some(2048),
        },
    );
    v.push(
        AlgorithmPattern {
            regex: r#""alg"\s*:\s*"ES256""#,
            algorithm_name: "ECDSA-P-256",
            pqc_status: PqcStatus::Vulnerable,
            confidence: Confidence::High,
            primitive: Some("signature"),
            key_size_bits: Some(256),
        },
    );
    v.push(
        AlgorithmPattern {
            regex: r#""alg"\s*:\s*"EdDSA""#,
            algorithm_name: "Ed25519",
            pqc_status: PqcStatus::Vulnerable,
            confidence: Confidence::High,
            primitive: Some("signature"),
            key_size_bits: Some(255),
        },
    );
    v.push(
        AlgorithmPattern {
            regex: r#""alg"\s*:\s*"HS256""#,
            algorithm_name: "HMAC-SHA256",
            pqc_status: PqcStatus::SymmetricOk,
            confidence: Confidence::High,
            primitive: Some("mac"),
            key_size_bits: None,
        },
    );
    assert(v@.map_values(|p: AlgorithmPattern| p@) =~= generic_table());
    v
}

/// The library patterns, in the order they are tried. A bare import shows
/// that crypto is in use but not which algorithm, so each has Low confidence.
pub open spec fn library_table() -> Seq<LibraryPatternView> {
    seq![
        LibraryPatternView {
            regex: r#"\buse\s+ring(?:::|;)"#@,
            library_name: "ring"@,
            language: Language::Rust,
            confidence: Confidence::Low,
        },
        LibraryPatternView {
            regex: r#"\buse\s+rustls(?:::|;)"#@,
            library_name: "rustls"@,
            language: Language::Rust,
            confidence: Confidence::Low,
        },
        LibraryPatternView {
            regex: r#"\buse\s+openssl(?:::|;)"#@,
            library_name: "openssl"@,
            language: Language::Rust,
            confidence: Confidence::Low,
        },
        LibraryPatternView {
            regex: r#"\buse\s+sha2(?:::|;)"#@,
            library_name: "sha2"@,
            language: Language::Rust,
            confidence: Confidence::Low,
        },
        LibraryPatternView {
            regex: r#""crypto/[a-z0-9]+""#@,
            library_name: "stdlib crypto"@,
            language: Language::Go,
            confidence: Confidence::Low,
        },
        LibraryPatternView {
            regex: r#""golang\.org/x/crypto/[a-z0-9]+""#@,
            library_name: "x/crypto"@,
            language: Language::Go,
            confidence: Confidence::Low,
        },
        LibraryPatternView {
            regex: r#"(?m)^\s*(?:from|import)\s+cryptography(?:\.|\s|$)"#@,
            library_name: "cryptography"@,
            language: Language::Python,
            confidence: Confidence::Low,
        },
        LibraryPatternView {
            regex: r#"(?m)^\s*(?:from|import)\s+Crypto(?:\.|\s|$)"#@,
            library_name: "pycryptodome"@,
            language: Language::Python,
            confidence: Confidence::Low,
        },
        LibraryPatternView {
            regex: r#"(?m)^\s*(?:from|import)\s+hashlib"#@,
            library_name: "hashlib"@,
            language: Language::Python,
            confidence: Confidence::Low,
        },
        LibraryPatternView {
            regex: r#"(?m)^\s*(?:from|import)\s+ssl"#@,
            library_name: "ssl"@,
            language: Language::Python,
            confidence: Confidence::Low,
        },
        LibraryPatternView {
            regex: r#"(?m)^\s*(?:from|import)\s+jwt"#@,
            library_name: "pyjwt"@,
            language: Language::Python,
            confidence: Confidence::Low,
        },
        LibraryPatternView {
            regex: r#"require\(\s*["']crypto["']\s*\)"#@,
            library_name: "node:crypto"@,
            language: Language::JavaScript,
            confidence: Confidence::Low,
        },
        LibraryPatternView {
            regex: r#"from\s+["']crypto["']"#@,
            library_name: "node:crypto"@,
            language: Language::JavaScript,
            confidence: Confidence::Low,
        },
        LibraryPatternView {
            regex: r#"require\(\s*["']node-forge["']\s*\)"#@,
            library_name: "node-forge"@,
            language: Language::JavaScript,
            confidence: Confidence::Low,
        },
        LibraryPatternView {
            regex: r#"require\(\s*["']tweetnacl["']\s*\)"#@,
            library_name: "tweetnacl"@,
            language: Language::JavaScript,
            confidence: Confidence::Low,
        },
        LibraryPatternView {
            regex: r#"require\(\s*["']jsonwebtoken["']\s*\)"#@,
            library_name: "jsonwebtoken"@,
            language: Language::JavaScript,
            confidence: Confidence::Low,
        },
        LibraryPatternView {
            regex: r#"\bimport\s+javax\.crypto\."#@,
            library_name: "javax.crypto"@,
            language: Language::Java,
            confidence: Confidence::Low,
        },
        LibraryPatternView {
            regex: r#"\bimport\s+java\.security\."#@,
            library_name: "java.security"@,
            language: Language::Java,
            confidence: Confidence::Low,
        },
        LibraryPatternView {
            regex: r#"\bimport\s+org\.bouncycastle\."#@,
            library_name: "BouncyCastle"@,
            language: Language::Java,
            confidence: Confidence::Low,
        },
        LibraryPatternView {
            regex: r#"\busing\s+System\.Security\.Cryptography\b"#@,
            library_name: "System.Security.Cryptography"@,
            language: Language::DotNet,
            confidence: Confidence::Low,
        },
    ]
}

/// The library import patterns (Low confidence: a bare import shows that
/// crypto is in use where the algorithm cannot be told).
pub fn library_patterns() -> (r: Vec<LibraryPattern>)
    ensures
        r@.map_values(|p: LibraryPattern| p@) == library_table(),
{
    let mut v: Vec<LibraryPattern> = Vec::new();
    v.push(
        LibraryPattern {
            regex: r#"\buse\s+ring(?:::|;)"#,
            library_name: "ring",
            language: Language::Rust,
            confidence: Confidence::Low,
        },
    );
    v.push(
        LibraryPattern {
            regex: r#"\buse\s+rustls(?:::|;)"#,
            library_name: "rustls",
            language: Language::Rust,
            confidence: Confidence::Low,
        },
    );
    v.push(
        LibraryPattern {
            regex: r#"\buse\s+openssl(?:::|;)"#,
            library_name: "openssl",
            language: Language::Rust,
            confidence: Confidence::Low,
        },
    );
    v.push(
        LibraryPattern {
            regex: r#"\buse\s+sha2(?:::|;)"#,
            library_name: "sha2",
            language: Language::Rust,
            confidence: Confidence::Low,
        },
    );
    v.push(
        LibraryPattern {
            regex: r#""crypto/[a-z0-9]+""#,
            library_name: "stdlib crypto",
            language: Language::Go,
            confidence: Confidence::Low,
        },
    );
    v.push(
        LibraryPattern {
            regex: r#""golang\.org/x/crypto/[a-z0-9]+""#,
            library_name: "x/crypto",
            language: Language::Go,
            confidence: Confidence::Low,
        },
    );
    v.push(
        LibraryPattern {
            regex: r#"(?m)^\s*(?:from|import)\s+cryptography(?:\.|\s|$)"#,
            library_name: "cryptography",
            language: Language::Python,
            confidence: Confidence::Low,
        },
    );
    v.push(
        LibraryPattern {
            regex: r#"(?m)^\s*(?:from|import)\s+Crypto(?:\.|\s|$)"#,
            library_name: "pycryptodome",
            language: Language::Python,
            confidence: Confidence::Low,
        },
    );
    v.push(
        LibraryPattern {
            regex: r#"(?m)^\s*(?:from|import)\s+hashlib"#,
            library_name: "hashlib",
            language: Language::Python,
            confidence: Confidence::Low,
        },
    );
    v.push(
        LibraryPattern {
            regex: r#"(?m)^\s*(?:from|import)\s+ssl"#,
            library_name: "ssl",
            language: Language::Python,
            confidence: Confidence::Low,
        },
    );
    v.push(
        LibraryPattern {
            regex: r#"(?m)^\s*(?:from|import)\s+jwt"#,
            library_name: "pyjwt",
            language: Language::Python,
            confidence: Confidence::Low,
        },
    );
    v.push(
        LibraryPattern {
            regex: r#"require\(\s*["']crypto["']\s*\)"#,
            library_name: "node:crypto",
            language: Language::JavaScript,
            confidence: Confidence::Low,
        },
    );
    v.push(
        LibraryPattern {
            regex: r#"from\s+["']crypto["']"#,
            library_name: "node:crypto",
            language: Language::JavaScript,
            confidence: Confidence::Low,
        },
    );
    v.push(
        LibraryPattern {
            regex: r#"require\(\s*["']node-forge["']\s*\)"#,
            library_name: "node-forge",
            language: Language::JavaScript,
            confidence: Confidence::Low,
        },
    );
    v.push(
        LibraryPattern {
            regex: r#"require\(\s*["']tweetnacl["']\s*\)"#,
            library_name: "tweetnacl",
            language: Language::JavaScript,
            confidence: Confidence::Low,
        },
    );
    v.push(
        LibraryPattern {
            regex: r#"require\(\s*["']jsonwebtoken["']\s*\)"#,
            library_name: "jsonwebtoken",
            language: Language::JavaScript,
            confidence: Confidence::Low,
        },
    );
    v.push(
        LibraryPattern {
            regex: r#"\bimport\s+javax\.crypto\."#,
            library_name: "javax.crypto",
            language: Language::Java,
            confidence: Confidence::Low,
        },
    );
    v.push(
        LibraryPattern {
            regex: r#"\bimport\s+java\.security\."#,
            library_name: "java.security",
            language: Language::Java,
            confidence: Confidence::Low,
        },
    );
    v.push(
        LibraryPattern {
            regex: r#"\bimport\s+org\.bouncycastle\."#,
            library_name: "BouncyCastle",
            language: Language::Java,
            confidence: Confidence::Low,
        },
    );
    v.push(
        LibraryPattern {
            regex: r#"\busing\s+System\.Security\.Cryptography\b"#,
            library_name: "System.Security.Cryptography",
            language: Language::DotNet,
            confidence: Confidence::Low,
        },
    );
    assert(v@.map_values(|p: LibraryPattern| p@) =~= library_table());
    v
}

} // verus!
