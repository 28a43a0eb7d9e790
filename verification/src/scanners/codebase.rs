//! The codebase scanner's work on one file: a certificate or key file is
//! recorded as such; a source file is searched for algorithm names and, in
//! its language, for crypto-library imports. Walking the tree and reading
//! the files is left to the caller.

use vstd::prelude::*;
use vstd::string::*;
use crate::clock::valid_instant;
use crate::model::asset::opt_view;
use crate::model::finding::{Confidence, Finding, SourceType};
use crate::model::scan::{Scan, ScanStatus, ScanType};
use crate::model::json::{
    ev_str, ev_u64, lemma_first_key_index_unique, Evidence, EvidenceValue, EvidenceView, JsonObject,
    JsonValue, JsonView,
};
use crate::scanners::cert::{jstr, json_str, pqc_status_str, status_name};
use crate::scanners::patterns::{
    extension, generic_patterns, generic_table, language_name, language_of_path, library_patterns,
    library_table, path_extension, AlgorithmPattern, AlgorithmPatternView, Language,
    LibraryPattern, LibraryPatternView,
};
use crate::text::{
    chars_of, decimal, decimal_chars, ends_with, eq_str, lower, lower_chars, push_chars, push_str,
    starts_with, string_of,
};

verus! {

broadcast use vstd::string::group_string_axioms;

/// Directories the scanner never enters.
pub const DEFAULT_EXCLUDES: [&'static str; 8] = [
    "node_modules",
    "vendor",
    ".venv",
    "venv",
    "target",
    "dist",
    "build",
    ".git",
];

/// Extensions of certificate, key and keystore files, recorded as crypto
/// material without reading them.
pub open spec fn is_cert_key_ext(e: Seq<char>) -> bool {
    e == "pem"@ || e == "crt"@ || e == "cer"@ || e == "der"@ || e == "p7b"@ || e == "p12"@ || e
        == "pfx"@ || e == "jks"@ || e == "key"@
}

fn is_cert_key_ext_exec(e: &[char]) -> (r: bool)
    ensures
        r == is_cert_key_ext(e@),
{
    eq_str(e, "pem") || eq_str(e, "crt") || eq_str(e, "cer") || eq_str(e, "der") || eq_str(e, "p7b")
        || eq_str(e, "p12") || eq_str(e, "pfx") || eq_str(e, "jks") || eq_str(e, "key")
}

/// Files larger than this (4 MiB) are not searched.
pub const MAX_SEARCHED_BYTES: u64 = 4194304;

/// Options of a codebase scan.
#[derive(Debug)]
pub struct CodebaseOptions {
    /// Globs of files to scan; where any is given, only matching files are scanned.
    pub include_globs: Vec<String>,
    /// Directory names to exclude, besides the default ones.
    pub exclude: Vec<String>,
    pub name: Option<String>,
}

impl Default for CodebaseOptions {
    fn default() -> (r: CodebaseOptions)
        ensures
            r.include_globs@.len() == 0,
            r.exclude@.len() == 0,
            r.name is None,
    {
        CodebaseOptions { include_globs: Vec::new(), exclude: Vec::new(), name: None }
    }
}

/// `root` without one trailing `/`, unless it is `/` itself.
pub open spec fn trimmed_root(root: Seq<char>) -> Seq<char> {
    if root.len() > 1 && root.last() == '/' {
        root.drop_last()
    } else {
        root
    }
}

/// `file` relative to `root` (`Path::strip_prefix`), or `file` itself where
/// it is not under `root`.
pub open spec fn relative_spec(root: Seq<char>, file: Seq<char>) -> Seq<char> {
    let r = trimmed_root(root);
    if file == r {
        Seq::empty()
    } else if r == seq!['/'] && file.len() > 0 && file[0] == '/' {
        file.skip(1)
    } else if file.len() > r.len() && file.take(r.len() as int) == r && file[r.len() as int] == '/' {
        file.skip(r.len() + 1int)
    } else {
        file
    }
}

/// `file` relative to `root`.
pub fn relative(root: &str, file: &str) -> (r: String)
    ensures
        r@ == relative_spec(root@, file@),
{
    let rc = chars_of(root);
    let fc = chars_of(file);
    let n = if rc.len() > 1 && rc[rc.len() - 1] == '/' {
        rc.len() - 1
    } else {
        rc.len()
    };
    let mut r: Vec<char> = Vec::new();
    let mut i: usize = 0;
    while i < n
        invariant
            i <= n <= rc.len(),
            r@ == root@.take(i as int),
            rc@ == root@,
        decreases n - i,
    {
        r.push(rc[i]);
        assert(root@.take(i + 1) =~= root@.take(i as int).push(root@[i as int]));
        i = i + 1;
    }
    proof {
        if rc.len() > 1 && root@.last() == '/' {
            assert(root@.take(n as int) =~= root@.drop_last());
        } else {
            assert(root@.take(n as int) =~= root@);
        }
        assert(r@ == trimmed_root(root@));
    }
    if crate::text::chars_eq(fc.as_slice(), r.as_slice()) {
        return String::new();
    }
    if r.len() == 1 && r[0] == '/' && fc.len() > 0 && fc[0] == '/' {
        assert(r@ =~= seq!['/']);
        let rest = skip_from(fc.as_slice(), 1);
        return string_of(rest.as_slice());
    }
    proof {
        if r@ == seq!['/'] {
            assert(r@.len() == 1 && r@[0] == '/');
        }
    }
    if fc.len() > r.len() && fc[r.len()] == '/' {
        let mut k: usize = 0;
        while k < r.len() && fc[k] == r[k]
            invariant
                k <= r.len() < fc.len(),
                forall|j: int| 0 <= j < k ==> fc@[j] == r@[j],
            decreases r.len() - k,
        {
            k = k + 1;
        }
        if k == r.len() {
            assert(fc@.take(r.len() as int) =~= r@);
            let rest = skip_from(fc.as_slice(), r.len() + 1);
            return string_of(rest.as_slice());
        }
        assert(fc@.take(r.len() as int)[k as int] != r@[k as int]);
    }
    String::from_str(file)
}

fn skip_from(s: &[char], from: usize) -> (r: Vec<char>)
    requires
        from <= s.len(),
    ensures
        r@ == s@.skip(from as int),
{
    let mut r: Vec<char> = Vec::new();
    let mut i: usize = from;
    while i < s.len()
        invariant
            from <= i <= s.len(),
            r@ == s@.subrange(from as int, i as int),
        decreases s.len() - i,
    {
        r.push(s[i]);
        assert(s@.subrange(from as int, i + 1) =~= s@.subrange(from as int, i as int).push(
            s@[i as int],
        ));
        i = i + 1;
    }
    r
}

/// The number of newline bytes in `b`.
pub open spec fn newlines(b: Seq<u8>) -> nat
    decreases b.len(),
{
    if b.len() == 0 {
        0
    } else {
        newlines(b.drop_last()) + if b.last() == 10 {
            1nat
        } else {
            0nat
        }
    }
}

/// `c` without one trailing carriage return.
pub open spec fn strip_cr(c: Seq<char>) -> Seq<char> {
    if c.len() > 0 && c.last() == '\r' {
        c.drop_last()
    } else {
        c
    }
}

/// The lines ended so far in `s`, and the line in progress.
pub open spec fn line_split(s: Seq<char>) -> (Seq<Seq<char>>, Seq<char>)
    decreases s.len(),
{
    if s.len() == 0 {
        (Seq::empty(), Seq::empty())
    } else {
        let (done, cur) = line_split(s.drop_last());
        if s.last() == '\n' {
            (done.push(strip_cr(cur)), Seq::empty())
        } else {
            (done, cur.push(s.last()))
        }
    }
}

/// The lines of a text (`str::lines`): split at `\n`, each line ended by
/// one dropping a `\r` before it, the last line kept where it is not empty.
pub open spec fn lines_of(s: Seq<char>) -> Seq<Seq<char>> {
    let (done, cur) = line_split(s);
    if cur.len() == 0 {
        done
    } else {
        done.push(cur)
    }
}

/// Lines joined with `\n`.
pub open spec fn join_lines(ls: Seq<Seq<char>>) -> Seq<char>
    decreases ls.len(),
{
    if ls.len() == 0 {
        Seq::empty()
    } else if ls.len() == 1 {
        ls[0]
    } else {
        join_lines(ls.drop_last()) + "\n"@ + ls.last()
    }
}

/// The line number (from 1) of byte offset `start` of a text.
pub open spec fn line_number(bytes: Seq<u8>, start: int) -> nat {
    newlines(bytes.take(start)) + 1
}

/// Three lines of context around line `line` (from 1): the one before it,
/// it, and the one after it, where they exist.
pub open spec fn snippet_spec(text: Seq<char>, line: nat) -> Seq<char> {
    let ls = lines_of(text);
    let idx: int = line - 1;
    let lo: int = if idx >= 1 {
        idx - 1
    } else {
        0
    };
    let hi: int = if idx + 2 <= ls.len() {
        idx + 2
    } else {
        ls.len() as int
    };
    if lo < hi {
        join_lines(ls.subrange(lo, hi))
    } else {
        Seq::empty()
    }
}

proof fn lemma_newlines_bound(b: Seq<u8>)
    ensures
        newlines(b) <= b.len(),
    decreases b.len(),
{
    if b.len() > 0 {
        lemma_newlines_bound(b.drop_last());
    }
}

fn count_newlines(bytes: &[u8], start: usize) -> (r: u64)
    requires
        start <= bytes@.len(),
    ensures
        r == newlines(bytes@.take(start as int)),
{
    let mut n: u64 = 0;
    let mut i: usize = 0;
    assert(bytes@.take(0) =~= Seq::<u8>::empty());
    while i < start
        invariant
            i <= start <= bytes@.len(),
            n == newlines(bytes@.take(i as int)),
            n <= i,
        decreases start - i,
    {
        assert(bytes@.take(i + 1).drop_last() =~= bytes@.take(i as int));
        if bytes[i] == 10u8 {
            n = n + 1;
        }
        i = i + 1;
    }
    n
}

pub fn split_lines(text: &[char]) -> (r: Vec<Vec<char>>)
    ensures
        r@.map_values(|l: Vec<char>| l@) == lines_of(text@),
{
    let mut done: Vec<Vec<char>> = Vec::new();
    let mut cur: Vec<char> = Vec::new();
    let mut i: usize = 0;
    assert(text@.take(0) =~= Seq::<char>::empty());
    while i < text.len()
        invariant
            i <= text.len(),
            (done@.map_values(|l: Vec<char>| l@), cur@) == line_split(text@.take(i as int)),
        decreases text.len() - i,
    {
        assert(text@.take(i + 1).drop_last() =~= text@.take(i as int));
        assert(text@.take(i + 1).last() == text@[i as int]);
        let c = text[i];
        if c == '\n' {
            let ghost before = done@.map_values(|l: Vec<char>| l@);
            let ghost cv = cur@;
            let mut line = cur;
            if line.len() > 0 && line[line.len() - 1] == '\r' {
                line.pop();
            }
            assert(line@ == strip_cr(cv));
            done.push(line);
            assert(done@.map_values(|l: Vec<char>| l@) =~= before.push(strip_cr(cv)));
            cur = Vec::new();
        } else {
            cur.push(c);
        }
        i = i + 1;
    }
    assert(text@.take(text.len() as int) =~= text@);
    if cur.len() > 0 {
        let ghost before = done@.map_values(|l: Vec<char>| l@);
        let ghost cv = cur@;
        done.push(cur);
        assert(done@.map_values(|l: Vec<char>| l@) =~= before.push(cv));
    }
    done
}

/// The line number of byte offset `start` in `content`, and the three lines
/// of context around it.
pub fn line_and_snippet(content: &str, start: usize, end: usize) -> (r: (u32, String))
    requires
        start <= content.spec_bytes().len(),
        content.spec_bytes().len() < u32::MAX,
    ensures
        r.0 == line_number(content.spec_bytes(), start as int),
        r.1@ == snippet_spec(content@, line_number(content.spec_bytes(), start as int)),
{
    let bytes = content.as_bytes();
    let n = count_newlines(bytes, start);
    proof {
        lemma_newlines_bound(bytes@.take(start as int));
    }
    let line_no: u32 = (n + 1) as u32;
    let text = chars_of(content);
    let lines = split_lines(text.as_slice());
    let ghost ls = lines@.map_values(|l: Vec<char>| l@);
    let idx: usize = (line_no - 1) as usize;
    let lo: usize = if idx >= 1 {
        idx - 1
    } else {
        0
    };
    let hi: usize = if idx <= lines.len() && lines.len() - idx >= 2 {
        idx + 2
    } else {
        lines.len()
    };
    let mut out: Vec<char> = Vec::new();
    if lo < hi {
        let mut k: usize = lo;
        while k < hi
            invariant
                lo <= k <= hi <= lines.len(),
                lo < hi,
                ls == lines@.map_values(|l: Vec<char>| l@),
                k > lo ==> out@ == join_lines(ls.subrange(lo as int, k as int)),
                k == lo ==> out@.len() == 0,
            decreases hi - k,
        {
            if k > lo {
                push_str(&mut out, "\n");
            }
            push_chars(&mut out, lines[k].as_slice());
            proof {
                let sub = ls.subrange(lo as int, k + 1);
                assert(sub.drop_last() =~= ls.subrange(lo as int, k as int));
                assert(sub.last() == lines@[k as int]@);
                if k == lo {
                    assert(sub.len() == 1);
                    assert(out@ =~= sub[0]);
                }
            }
            k = k + 1;
        }
    }
    (line_no, string_of(out.as_slice()))
}

/// One match of a regular expression: its byte range in the text searched,
/// and the text matched.
pub struct RegexMatch {
    pub start: usize,
    pub end: usize,
    pub text: String,
}

/// The model of a `RegexMatch`.
pub struct MatchView {
    pub start: usize,
    pub end: usize,
    pub text: Seq<char>,
}

impl View for RegexMatch {
    type V = MatchView;

    open spec fn view(&self) -> MatchView {
        MatchView { start: self.start, end: self.end, text: self.text@ }
    }
}

pub open spec fn matches_view(ms: Option<Vec<RegexMatch>>) -> Option<Seq<MatchView>> {
    match ms {
        Some(v) => Some(v@.map_values(|m: RegexMatch| m@)),
        None => None,
    }
}

/// The successive non-overlapping matches, left to right, that `regex`
/// finds for a pattern in a text; `None` where the pattern does not compile.
pub uninterp spec fn regex_matches(pattern: Seq<char>, text: Seq<char>) -> Option<Seq<MatchView>>;

/// Calls `regex::Regex::new` on `pattern`, then `Regex::find_iter` on
/// `text`, reading each match's `start`, `end` and `as_str`. The contract
/// names the result, a function of the pattern and the text, and claims
/// what the documentation of `Match` gives: each match lies within the
/// text, by byte offsets.
#[verifier::external_body]
pub(crate) fn find_matches(pattern: &str, text: &str) -> (r: Option<Vec<RegexMatch>>)
    ensures
        matches_view(r) == regex_matches(pattern@, text@),
        r matches Some(ms) ==> forall|i: int|
            0 <= i < ms@.len() ==> (#[trigger] ms@[i]).start <= ms@[i].end
                <= text.spec_bytes().len(),
{
    let re = regex::Regex::new(pattern).ok()?;
    let mut out = Vec::new();
    for m in re.find_iter(text) {
        out.push(RegexMatch { start: m.start(), end: m.end(), text: m.as_str().to_string() });
    }
    Some(out)
}

/// What a finding made from a file records.
pub struct FindingSpec {
    pub location: Seq<char>,
    pub evidence: Seq<(Seq<char>, EvidenceView)>,
    pub confidence: Confidence,
}

/// `f` is the finding `s` describes, made by scan `scan_id` from a file.
pub open spec fn finding_is(f: Finding, s: FindingSpec, scan_id: u128) -> bool {
    &&& f.scan_id == scan_id
    &&& f.crypto_asset_id is None
    &&& f.source_type == SourceType::File
    &&& f.source_location@ == s.location
    &&& f.evidence@ == s.evidence
    &&& f.confidence == s.confidence
}

/// The findings `fs` are, in order, those `specs` describe.
pub open spec fn findings_are(fs: Seq<Finding>, specs: Seq<FindingSpec>, scan_id: u128) -> bool {
    &&& fs.len() == specs.len()
    &&& forall|i: int| 0 <= i < specs.len() ==> finding_is(#[trigger] fs[i], specs[i], scan_id)
}

/// A location in a file: its relative path and a line.
pub open spec fn line_location(rel: Seq<char>, line: nat) -> Seq<char> {
    rel + ":"@ + decimal(line)
}

/// The parameters an algorithm pattern records: key size and primitive.
pub open spec fn pattern_params(p: AlgorithmPatternView) -> Seq<(Seq<char>, JsonView)> {
    let bits = match p.key_size_bits {
        Some(b) => seq![("key_size_bits"@, JsonView::UInt(b as u64))],
        None => Seq::empty(),
    };
    let prim = match p.primitive {
        Some(q) => seq![("primitive"@, JsonView::Str(q))],
        None => Seq::empty(),
    };
    bits + prim
}

/// The finding of one match of algorithm pattern `p` in a file.
pub open spec fn algorithm_finding(
    p: AlgorithmPatternView,
    m: MatchView,
    content: &str,
    language: Language,
    rel: Seq<char>,
) -> FindingSpec {
    let line = line_number(content.spec_bytes(), m.start as int);
    FindingSpec {
        location: line_location(rel, line),
        evidence: seq![
            ("kind"@, jstr("algorithm_match"@)),
            ("algorithm_name"@, jstr(p.algorithm_name)),
            ("pqc_status"@, jstr(status_name(p.pqc_status))),
            ("parameter_set"@, EvidenceView::Object(pattern_params(p))),
            ("language"@, jstr(language_name(language))),
            ("match"@, jstr(m.text)),
            ("line"@, EvidenceView::Value(JsonView::UInt(line as u64))),
            ("snippet"@, jstr(snippet_spec(content@, line))),
        ],
        confidence: p.confidence,
    }
}

/// The finding of one match of library pattern `p` in a file.
pub open spec fn library_finding(
    p: LibraryPatternView,
    m: MatchView,
    content: &str,
    language: Language,
    rel: Seq<char>,
) -> FindingSpec {
    let line = line_number(content.spec_bytes(), m.start as int);
    FindingSpec {
        location: line_location(rel, line),
        evidence: seq![
            ("kind"@, jstr("library_import"@)),
            ("library_name"@, jstr(p.library_name)),
            ("language"@, jstr(language_name(language))),
            ("match"@, jstr(m.text)),
            ("line"@, EvidenceView::Value(JsonView::UInt(line as u64))),
            ("snippet"@, jstr(snippet_spec(content@, line))),
        ],
        confidence: p.confidence,
    }
}

/// The findings of algorithm patterns `pats`, in order, each pattern's
/// matches in order.
pub open spec fn algorithm_findings(
    pats: Seq<AlgorithmPatternView>,
    content: &str,
    language: Language,
    rel: Seq<char>,
) -> Seq<FindingSpec>
    decreases pats.len(),
{
    if pats.len() == 0 {
        Seq::empty()
    } else {
        let p = pats.last();
        algorithm_findings(pats.drop_last(), content, language, rel) + match regex_matches(
            p.regex,
            content@,
        ) {
            Some(ms) => ms.map_values(|m: MatchView| algorithm_finding(p, m, content, language, rel)),
            None => Seq::empty(),
        }
    }
}

/// The findings of the library patterns of `pats` for `language`, in order,
/// each pattern's matches in order.
pub open spec fn library_findings(
    pats: Seq<LibraryPatternView>,
    content: &str,
    language: Language,
    rel: Seq<char>,
) -> Seq<FindingSpec>
    decreases pats.len(),
{
    if pats.len() == 0 {
        Seq::empty()
    } else {
        let p = pats.last();
        library_findings(pats.drop_last(), content, language, rel) + if p.language == language {
            match regex_matches(p.regex, content@) {
                Some(ms) => ms.map_values(
                    |m: MatchView| library_finding(p, m, content, language, rel),
                ),
                None => Seq::empty(),
            }
        } else {
            Seq::empty()
        }
    }
}

/// The language a file is searched as: its own, or generic.
pub open spec fn file_language(path: Seq<char>) -> Language {
    match language_of_path(path) {
        Some(l) => l,
        None => Language::Generic,
    }
}

/// The findings of a source file's text.
pub open spec fn content_findings(content: &str, path: Seq<char>, rel: Seq<char>) -> Seq<
    FindingSpec,
> {
    let lang = file_language(path);
    algorithm_findings(generic_table(), content, lang, rel) + library_findings(
        library_table(),
        content,
        lang,
        rel,
    )
}

/// The finding of a certificate, key or keystore file.
pub open spec fn cert_key_file_finding(ext: Seq<char>, size: u64, rel: Seq<char>) -> FindingSpec {
    FindingSpec {
        location: rel,
        evidence: seq![
            ("kind"@, jstr("cert_or_keystore_file"@)),
            ("extension"@, jstr(ext)),
            ("size_bytes"@, EvidenceView::Value(JsonView::UInt(size))),
        ],
        confidence: Confidence::Low,
    }
}

/// Certificate, key and keystore files are recorded by extension, in any
/// case: for a path ending in `.pem`, `.crt`, `.cer`, `.der`, `.p7b`,
/// `.p12`, `.pfx`, `.jks` or `.key`, the findings `scan_file` gives (its
/// postcondition for that extension, taken as `requires`) are one
/// low-confidence `cert_or_keystore_file` finding at the file's relative
/// path, recording the extension in lower case and the file's size.
pub proof fn cert_and_key_files_law(
    path: Seq<char>,
    e: Seq<char>,
    rel: Seq<char>,
    size: u64,
    scan_id: u128,
    r: Seq<Finding>,
)
    requires
        extension(path) == Some(e),
        lower(e) == "pem"@ || lower(e) == "crt"@ || lower(e) == "cer"@ || lower(e) == "der"@
            || lower(e) == "p7b"@ || lower(e) == "p12"@ || lower(e) == "pfx"@ || lower(e) == "jks"@
            || lower(e) == "key"@,
        is_cert_key_ext(lower(e)) ==> findings_are(
            r,
            seq![cert_key_file_finding(lower(e), size, rel)],
            scan_id,
        ),
    ensures
        r.len() == 1,
        ev_str(r[0].evidence@, "kind"@) == Some("cert_or_keystore_file"@),
        ev_str(r[0].evidence@, "extension"@) == Some(lower(e)),
        ev_u64(r[0].evidence@, "size_bytes"@) == Some(size),
        r[0].confidence == Confidence::Low,
        r[0].source_location@ == rel,
{
    let spec = cert_key_file_finding(lower(e), size, rel);
    assert(seq![spec][0] == spec);
    assert(finding_is(r[0], seq![spec][0], scan_id));
    let ev = spec.evidence;
    reveal_strlit("kind");
    reveal_strlit("extension");
    reveal_strlit("size_bytes");
    assert("kind"@.len() == 4 && "extension"@.len() == 9 && "size_bytes"@.len() == 10);
    lemma_first_key_index_unique(ev, "kind"@, 0);
    lemma_first_key_index_unique(ev, "extension"@, 1);
    lemma_first_key_index_unique(ev, "size_bytes"@, 2);
}

fn location_string(rel: &str, line: u32) -> (r: String)
    ensures
        r@ == line_location(rel@, line as nat),
{
    let mut v: Vec<char> = Vec::new();
    push_str(&mut v, rel);
    push_str(&mut v, ":");
    let d = decimal_chars(line as u64);
    push_chars(&mut v, d.as_slice());
    string_of(v.as_slice())
}

fn params_object(p: &AlgorithmPattern) -> (r: JsonObject)
    ensures
        r@ == pattern_params(p@),
{
    let mut o = JsonObject::new();
    if let Some(b) = p.key_size_bits {
        o.push("key_size_bits", JsonValue::UInt(b as u64));
    }
    if let Some(q) = p.primitive {
        o.push("primitive", JsonValue::Str(String::from_str(q)));
    }
    assert(o@ =~= pattern_params(p@));
    o
}

fn algorithm_match_findings(
    scan_id: u128,
    p: &AlgorithmPattern,
    content: &str,
    language: Language,
    rel: &str,
    out: &mut Vec<Finding>,
)
    requires
        content.spec_bytes().len() < u32::MAX,
    ensures
        final(out)@.len() >= old(out)@.len(),
        final(out)@.take(old(out)@.len() as int) == old(out)@,
        findings_are(
            final(out)@.skip(old(out)@.len() as int),
            match regex_matches(p@.regex, content@) {
                Some(ms) => ms.map_values(
                    |m: MatchView| algorithm_finding(p@, m, content, language, rel@),
                ),
                None => Seq::empty(),
            },
            scan_id,
        ),
{
    let ghost start = out@;
    let ms = match find_matches(p.regex, content) {
        Some(ms) => ms,
        None => {
            assert(out@.skip(start.len() as int) =~= Seq::<Finding>::empty());
            assert(out@.take(start.len() as int) =~= start);
            return;
        },
    };
    let ghost specs = ms@.map_values(|m: RegexMatch| m@).map_values(
        |m: MatchView| algorithm_finding(p@, m, content, language, rel@),
    );
    let mut i: usize = 0;
    assert(out@.skip(start.len() as int) =~= Seq::<Finding>::empty());
    assert(out@.take(start.len() as int) =~= start);
    while i < ms.len()
        invariant
            i <= ms.len(),
            content.spec_bytes().len() < u32::MAX,
            specs == ms@.map_values(|m: RegexMatch| m@).map_values(
                |m: MatchView| algorithm_finding(p@, m, content, language, rel@),
            ),
            forall|k: int|
                0 <= k < ms@.len() ==> (#[trigger] ms@[k]).start <= ms@[k].end
                    <= content.spec_bytes().len(),
            out@.len() == start.len() + i,
            out@.take(start.len() as int) == start,
            forall|k: int|
                0 <= k < i ==> finding_is(#[trigger] out@[start.len() + k], specs[k], scan_id),
        decreases ms.len() - i,
    {
        let m = &ms[i];
        assert(ms@[i as int].start <= content.spec_bytes().len());
        let (line, snippet) = line_and_snippet(content, m.start, m.end);
        let mut ev = Evidence::new();
        ev.push("kind", json_str(String::from_str("algorithm_match")));
        ev.push("algorithm_name", json_str(String::from_str(p.algorithm_name)));
        ev.push("pqc_status", json_str(String::from_str(pqc_status_str(p.pqc_status))));
        ev.push("parameter_set", EvidenceValue::Object(params_object(p)));
        ev.push("language", json_str(String::from_str(language.name())));
        ev.push("match", json_str(m.text.clone()));
        ev.push("line", EvidenceValue::Value(JsonValue::UInt(line as u64)));
        ev.push("snippet", json_str(snippet));
        let f = Finding::new(
            scan_id,
            SourceType::File,
            location_string(rel, line),
            ev,
            p.confidence,
        );
        proof {
            let s = specs[i as int];
            assert(s == algorithm_finding(p@, ms@[i as int]@, content, language, rel@));
            assert(f.evidence@ =~= s.evidence);
        }
        let ghost before = out@;
        out.push(f);
        proof {
            assert(out@.take(start.len() as int) =~= before.take(start.len() as int));
            assert forall|k: int| 0 <= k < i + 1 implies finding_is(
                #[trigger] out@[start.len() + k],
                specs[k],
                scan_id,
            ) by {
                if k < i {
                    assert(out@[start.len() + k] == before[start.len() + k]);
                }
            }
        }
        i = i + 1;
    }
    proof {
        let added = out@.skip(start.len() as int);
        assert(added.len() == specs.len());
        assert forall|k: int| 0 <= k < specs.len() implies finding_is(
            #[trigger] added[k],
            specs[k],
            scan_id,
        ) by {
            assert(added[k] == out@[start.len() + k]);
        }
        assert(ms@.map_values(|m: RegexMatch| m@) == matches_view(Some(ms))->Some_0);
    }
}

fn library_match_findings(
    scan_id: u128,
    p: &LibraryPattern,
    content: &str,
    language: Language,
    rel: &str,
    out: &mut Vec<Finding>,
)
    requires
        content.spec_bytes().len() < u32::MAX,
    ensures
        final(out)@.len() >= old(out)@.len(),
        final(out)@.take(old(out)@.len() as int) == old(out)@,
        findings_are(
            final(out)@.skip(old(out)@.len() as int),
            match regex_matches(p@.regex, content@) {
                Some(ms) => ms.map_values(
                    |m: MatchView| library_finding(p@, m, content, language, rel@),
                ),
                None => Seq::empty(),
            },
            scan_id,
        ),
{
    let ghost start = out@;
    let ms = match find_matches(p.regex, content) {
        Some(ms) => ms,
        None => {
            assert(out@.skip(start.len() as int) =~= Seq::<Finding>::empty());
            assert(out@.take(start.len() as int) =~= start);
            return;
        },
    };
    let ghost specs = ms@.map_values(|m: RegexMatch| m@).map_values(
        |m: MatchView| library_finding(p@, m, content, language, rel@),
    );
    let mut i: usize = 0;
    assert(out@.skip(start.len() as int) =~= Seq::<Finding>::empty());
    assert(out@.take(start.len() as int) =~= start);
    while i < ms.len()
        invariant
            i <= ms.len(),
            content.spec_bytes().len() < u32::MAX,
            specs == ms@.map_values(|m: RegexMatch| m@).map_values(
                |m: MatchView| library_finding(p@, m, content, language, rel@),
            ),
            forall|k: int|
                0 <= k < ms@.len() ==> (#[trigger] ms@[k]).start <= ms@[k].end
                    <= content.spec_bytes().len(),
            out@.len() == start.len() + i,
            out@.take(start.len() as int) == start,
            forall|k: int|
                0 <= k < i ==> finding_is(#[trigger] out@[start.len() + k], specs[k], scan_id),
        decreases ms.len() - i,
    {
        let m = &ms[i];
        assert(ms@[i as int].start <= content.spec_bytes().len());
        let (line, snippet) = line_and_snippet(content, m.start, m.end);
        let mut ev = Evidence::new();
        ev.push("kind", json_str(String::from_str("library_import")));
        ev.push("library_name", json_str(String::from_str(p.library_name)));
        ev.push("language", json_str(String::from_str(language.name())));
        ev.push("match", json_str(m.text.clone()));
        ev.push("line", EvidenceValue::Value(JsonValue::UInt(line as u64)));
        ev.push("snippet", json_str(snippet));
        let f = Finding::new(
            scan_id,
            SourceType::File,
            location_string(rel, line),
            ev,
            p.confidence,
        );
        proof {
            let s = specs[i as int];
            assert(s == library_finding(p@, ms@[i as int]@, content, language, rel@));
            assert(f.evidence@ =~= s.evidence);
        }
        let ghost before = out@;
        out.push(f);
        proof {
            assert(out@.take(start.len() as int) =~= before.take(start.len() as int));
            assert forall|k: int| 0 <= k < i + 1 implies finding_is(
                #[trigger] out@[start.len() + k],
                specs[k],
                scan_id,
            ) by {
                if k < i {
                    assert(out@[start.len() + k] == before[start.len() + k]);
                }
            }
        }
        i = i + 1;
    }
    proof {
        let added = out@.skip(start.len() as int);
        assert(added.len() == specs.len());
        assert forall|k: int| 0 <= k < specs.len() implies finding_is(
            #[trigger] added[k],
            specs[k],
            scan_id,
        ) by {
            assert(added[k] == out@[start.len() + k]);
        }
        assert(ms@.map_values(|m: RegexMatch| m@) == matches_view(Some(ms))->Some_0);
    }
}

proof fn lemma_findings_concat(
    a: Seq<Finding>,
    sa: Seq<FindingSpec>,
    b: Seq<Finding>,
    sb: Seq<FindingSpec>,
    scan_id: u128,
)
    requires
        findings_are(a, sa, scan_id),
        findings_are(b, sb, scan_id),
    ensures
        findings_are(a + b, sa + sb, scan_id),
{
    assert forall|i: int| 0 <= i < (sa + sb).len() implies finding_is(
        #[trigger] (a + b)[i],
        (sa + sb)[i],
        scan_id,
    ) by {
        if i < sa.len() {
            assert((a + b)[i] == a[i]);
        } else {
            assert((a + b)[i] == b[i - sa.len()]);
        }
    }
}

/// The findings of a source file's text: each algorithm pattern's matches,
/// then those of the library patterns of the file's language.
pub fn content_findings_exec(scan_id: u128, path: &str, rel: &str, content: &str) -> (r: Vec<
    Finding,
>)
    requires
        content.spec_bytes().len() < u32::MAX,
    ensures
        findings_are(r@, content_findings(content, path@, rel@), scan_id),
{
    let language = match Language::from_path(path) {
        Some(l) => l,
        None => Language::Generic,
    };
    let mut out: Vec<Finding> = Vec::new();
    let gen = generic_patterns();
    let ghost gt = gen@.map_values(|p: AlgorithmPattern| p@);
    let mut i: usize = 0;
    assert(gt.take(0) =~= Seq::<AlgorithmPatternView>::empty());
    while i < gen.len()
        invariant
            i <= gen.len(),
            content.spec_bytes().len() < u32::MAX,
            gt == gen@.map_values(|p: AlgorithmPattern| p@),
            findings_are(out@, algorithm_findings(gt.take(i as int), content, language, rel@), scan_id),
        decreases gen.len() - i,
    {
        let ghost before = out@;
        algorithm_match_findings(scan_id, &gen[i], content, language, rel, &mut out);
        proof {
            let t = gt.take(i + 1);
            assert(t.drop_last() =~= gt.take(i as int));
            assert(t.last() == gen@[i as int]@);
            assert(out@ =~= out@.take(before.len() as int) + out@.skip(before.len() as int));
            assert(out@ =~= before + out@.skip(before.len() as int));
            lemma_findings_concat(
                before,
                algorithm_findings(gt.take(i as int), content, language, rel@),
                out@.skip(before.len() as int),
                match regex_matches(gen@[i as int]@.regex, content@) {
                    Some(ms) => ms.map_values(
                        |m: MatchView| algorithm_finding(gen@[i as int]@, m, content, language, rel@),
                    ),
                    None => Seq::empty(),
                },
                scan_id,
            );
        }
        i = i + 1;
    }
    assert(gt.take(gen.len() as int) =~= gt);
    let ghost algo_out = out@;
    let libs = library_patterns();
    let ghost lt = libs@.map_values(|p: LibraryPattern| p@);
    let mut j: usize = 0;
    assert(out@.skip(algo_out.len() as int) =~= Seq::<Finding>::empty());
    assert(lt.take(0) =~= Seq::<LibraryPatternView>::empty());
    while j < libs.len()
        invariant
            j <= libs.len(),
            content.spec_bytes().len() < u32::MAX,
            lt == libs@.map_values(|p: LibraryPattern| p@),
            out@.len() >= algo_out.len(),
            out@.take(algo_out.len() as int) == algo_out,
            findings_are(
                out@.skip(algo_out.len() as int),
                library_findings(lt.take(j as int), content, language, rel@),
                scan_id,
            ),
        decreases libs.len() - j,
    {
        let ghost before = out@;
        let p = &libs[j];
        if p.language == language {
            library_match_findings(scan_id, p, content, language, rel, &mut out);
        }
        proof {
            let t = lt.take(j + 1);
            assert(t.drop_last() =~= lt.take(j as int));
            assert(t.last() == libs@[j as int]@);
            assert(out@.len() >= before.len());
            assert(out@.take(before.len() as int) == before);
            assert(out@.take(algo_out.len() as int) =~= before.take(algo_out.len() as int));
            assert(out@.take(algo_out.len() as int) =~= algo_out);
            let extra = out@.skip(before.len() as int);
            assert(out@ =~= out@.take(before.len() as int) + extra);
            assert(out@.skip(algo_out.len() as int) =~= before.skip(algo_out.len() as int) + extra);
            if p.language != language {
                assert(extra =~= Seq::<Finding>::empty());
            }
            lemma_findings_concat(
                before.skip(algo_out.len() as int),
                library_findings(lt.take(j as int), content, language, rel@),
                extra,
                if libs@[j as int]@.language == language {
                    match regex_matches(libs@[j as int]@.regex, content@) {
                        Some(ms) => ms.map_values(
                            |m: MatchView| library_finding(libs@[j as int]@, m, content, language, rel@),
                        ),
                        None => Seq::empty(),
                    }
                } else {
                    Seq::empty()
                },
                scan_id,
            );
        }
        j = j + 1;
    }
    proof {
        assert(lt.take(libs.len() as int) =~= lt);
        assert(out@ =~= algo_out + out@.skip(algo_out.len() as int));
        lemma_findings_concat(
            algo_out,
            algorithm_findings(generic_table(), content, language, rel@),
            out@.skip(algo_out.len() as int),
            library_findings(library_table(), content, language, rel@),
            scan_id,
        );
    }
    out
}

/// The findings of one file, given its size and, for a file not larger than
/// 4 MiB, its text where it is UTF-8: a certificate, key or keystore file
/// (by extension, in ASCII lower case) gives one low-confidence finding of
/// its kind and size; a larger file or one that is not text gives none; a
/// source file gives those of its text.
pub fn scan_file(scan_id: u128, path: &str, rel: &str, size: u64, content: Option<&str>) -> (r: Vec<
    Finding,
>)
    requires
        content matches Some(c) ==> c.spec_bytes().len() < u32::MAX,
    ensures
        match extension(path@) {
            Some(e) if is_cert_key_ext(lower(e)) => findings_are(
                r@,
                seq![cert_key_file_finding(lower(e), size, rel@)],
                scan_id,
            ),
            _ => if size > MAX_SEARCHED_BYTES || content is None {
                r@.len() == 0
            } else {
                findings_are(r@, content_findings(content->Some_0, path@, rel@), scan_id)
            },
        },
{
    if let Some(e) = path_extension(path) {
        let l = lower_chars(e.as_slice());
        if is_cert_key_ext_exec(l.as_slice()) {
            let mut ev = Evidence::new();
            ev.push("kind", json_str(String::from_str("cert_or_keystore_file")));
            ev.push("extension", json_str(string_of(l.as_slice())));
            ev.push("size_bytes", EvidenceValue::Value(JsonValue::UInt(size)));
            let f = Finding::new(
                scan_id,
                SourceType::File,
                String::from_str(rel),
                ev,
                Confidence::Low,
            );
            let mut out: Vec<Finding> = Vec::new();
            out.push(f);
            proof {
                let s = cert_key_file_finding(lower(e@), size, rel@);
                assert(out@[0].evidence@ =~= s.evidence);
                assert(seq![s][0] == s);
            }
            return out;
        }
    }
    if size > MAX_SEARCHED_BYTES {
        return Vec::new();
    }
    match content {
        Some(c) => content_findings_exec(scan_id, path, rel, c),
        None => Vec::new(),
    }
}

/// The name of a codebase scan: the one given, or `codebase:` and the
/// scanned path.
pub open spec fn codebase_scan_name(name: Option<Seq<char>>, root: Seq<char>) -> Seq<char> {
    match name {
        Some(n) => n,
        None => "codebase:"@ + root,
    }
}

/// A new scan of the codebase at `root`, running.
pub fn new_codebase_scan(root: &str, options: &CodebaseOptions) -> (r: Scan)
    ensures
        r.name@ == codebase_scan_name(opt_view(options.name), root@),
        r.scan_type == ScanType::Codebase,
        r.status == ScanStatus::Running,
        r.target@ == root@,
        r.findings@.len() == 0,
        r.completed_at is None,
        valid_instant(r.started_at),
{
    let name = match &options.name {
        Some(n) => n.clone(),
        None => {
            let mut v: Vec<char> = Vec::new();
            push_str(&mut v, "codebase:");
            push_str(&mut v, root);
            string_of(v.as_slice())
        },
    };
    let mut scan = Scan::new(name, ScanType::Codebase, String::from_str(root));
    scan.status = ScanStatus::Running;
    scan
}

} // verus!
