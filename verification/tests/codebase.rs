use boab::model::finding::Confidence;
use boab::scanners::codebase::{line_and_snippet, relative, scan_file};
use boab::scanners::patterns::{generic_patterns, library_patterns, Language};

fn strs(f: &boab::model::finding::Finding, k: &str) -> Option<String> {
    f.evidence.get_str(k).cloned()
}

#[test]
fn detects_md5_in_rust() {
    let content = "use sha2;\n// MD5 is dangerous\nlet h = md5();\n";
    let fs = scan_file(1, "/w/a.rs", "a.rs", content.len() as u64, Some(content));
    assert!(fs.iter().any(|f| strs(f, "algorithm_name").as_deref() == Some("MD5")));
}

#[test]
fn detects_python_import() {
    let content = "from cryptography.hazmat import primitives\n";
    let fs = scan_file(1, "/w/a.py", "a.py", content.len() as u64, Some(content));
    assert!(fs.iter().any(|f| strs(f, "library_name").as_deref() == Some("cryptography")));
}

#[test]
fn detects_ml_kem_resistant() {
    let content = "// switching to ML-KEM-768 next quarter\n";
    let fs = scan_file(1, "/w/a.go", "a.go", content.len() as u64, Some(content));
    assert!(fs.iter().any(|f| strs(f, "algorithm_name").as_deref() == Some("ML-KEM")));
}

#[test]
fn detects_cert_file_extension() {
    let fs = scan_file(1, "/w/server.PEM", "server.PEM", 28, None);
    assert_eq!(fs.len(), 1);
    assert_eq!(strs(&fs[0], "kind").as_deref(), Some("cert_or_keystore_file"));
    assert_eq!(strs(&fs[0], "extension").as_deref(), Some("pem"));
    assert_eq!(fs[0].evidence.get_u64("size_bytes"), Some(28));
    assert_eq!(fs[0].confidence, Confidence::Low);
    assert_eq!(fs[0].source_location, "server.PEM");
}

#[test]
fn findings_carry_line_and_snippet() {
    let content = "a\nb\nuse of RC4 here\nc\nd\n";
    let fs = scan_file(5, "/w/x.txt", "x.txt", content.len() as u64, Some(content));
    let f = fs
        .iter()
        .find(|f| strs(f, "algorithm_name").as_deref() == Some("RC4"))
        .expect("an RC4 finding");
    assert_eq!(f.source_location, "x.txt:3");
    assert_eq!(f.evidence.get_u64("line"), Some(3));
    assert_eq!(strs(f, "snippet").as_deref(), Some("b\nuse of RC4 here\nc"));
    assert_eq!(strs(f, "match").as_deref(), Some("RC4"));
    assert_eq!(strs(f, "language").as_deref(), Some("Generic"));
    assert_eq!(strs(f, "pqc_status").as_deref(), Some("vulnerable"));
    assert_eq!(f.scan_id, 5);
}

#[test]
fn libraries_only_match_their_language() {
    let content = "import hashlib\n";
    let py = scan_file(1, "/w/a.py", "a.py", content.len() as u64, Some(content));
    assert!(py.iter().any(|f| strs(f, "library_name").as_deref() == Some("hashlib")));
    let js = scan_file(1, "/w/a.js", "a.js", content.len() as u64, Some(content));
    assert!(js.iter().all(|f| strs(f, "library_name").is_none()));
}

#[test]
fn large_or_binary_files_give_nothing() {
    assert!(scan_file(1, "/w/a.rs", "a.rs", 5 * 1024 * 1024, Some("MD5")).is_empty());
    assert!(scan_file(1, "/w/a.rs", "a.rs", 10, None).is_empty());
}

#[test]
fn line_and_snippet_at_edges() {
    let content = "first MD5\nsecond\nthird";
    assert_eq!(line_and_snippet(content, 0, 3), (1, "first MD5\nsecond".to_string()));
    assert_eq!(line_and_snippet(content, 17, 20), (3, "second\nthird".to_string()));
    assert_eq!(line_and_snippet("x\r\ny\r\n", 3, 4), (2, "x\ny".to_string()));
}

#[test]
fn languages_by_extension() {
    assert_eq!(Language::from_path("src/main.rs"), Some(Language::Rust));
    assert_eq!(Language::from_path("a/B.TSX"), Some(Language::JavaScript));
    assert_eq!(Language::from_path("cfg.yml"), Some(Language::Generic));
    assert_eq!(Language::from_path("Program.cs"), Some(Language::DotNet));
    assert_eq!(Language::from_path(".bashrc"), None);
    assert_eq!(Language::from_path("README"), None);
    assert_eq!(Language::from_path("x.c"), None);
}

#[test]
fn relative_paths() {
    assert_eq!(relative("/w", "/w/src/a.rs"), "src/a.rs");
    assert_eq!(relative("/w/", "/w/src/a.rs"), "src/a.rs");
    assert_eq!(relative("/w", "/work/a.rs"), "/work/a.rs");
    assert_eq!(relative("/", "/a.rs"), "a.rs");
}

#[test]
fn pattern_tables_are_complete() {
    assert_eq!(generic_patterns().len(), 28);
    assert_eq!(library_patterns().len(), 20);
}

#[test]
fn bare_imports_have_low_confidence() {
    let content = "from cryptography.hazmat import primitives\nkey = \"RSA-2048\"\n";
    let fs = scan_file(1, "/w/a.py", "a.py", content.len() as u64, Some(content));
    let import = fs.iter().find(|f| strs(f, "kind").as_deref() == Some("library_import")).unwrap();
    assert_eq!(import.confidence, Confidence::Low);
    let algo = fs.iter().find(|f| strs(f, "kind").as_deref() == Some("algorithm_match")).unwrap();
    assert_eq!(algo.confidence, Confidence::High);
}
