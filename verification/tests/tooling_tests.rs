use near_multisig::build_manifest::{get_git_info, get_near_sdk_version, BuildManifest};
use near_multisig::checksum::{ChecksumEntry, ChecksumError, SHA256SUMS};
use near_multisig::project::{select_template, validate_project_name, ProjectNameError, Template};
use near_multisig::text::{split_lines, trim_text};

const ABC: &str = "ba7816bf8f01cfea414140de5dae2223b00361a396177a9cb410ff61f20015ad";

fn fields(sums: &SHA256SUMS) -> Vec<(String, String, bool)> {
    sums.entries.iter().map(|e| (e.hash.clone(), e.filename.clone(), e.binary_mode)).collect()
}

fn row(hash: &str, filename: &str, binary_mode: bool) -> (String, String, bool) {
    (hash.to_string(), filename.to_string(), binary_mode)
}

#[test]
fn lines_end_at_line_feeds() {
    assert_eq!(split_lines(""), Vec::<String>::new());
    assert_eq!(split_lines("a"), vec!["a".to_string()]);
    assert_eq!(split_lines("a\n"), vec!["a".to_string()]);
    assert_eq!(split_lines("a\n\nb"), vec!["a".to_string(), String::new(), "b".to_string()]);
    assert_eq!(split_lines("a\r\nb\r"), vec!["a".to_string(), "b\r".to_string()]);
    assert_eq!(split_lines("\n"), vec![String::new()]);
    assert_eq!(split_lines("é\r\r\nz"), vec!["é\r".to_string(), "z".to_string()]);
    let text = "one\ntwo\r\n\nthree";
    let expected: Vec<String> = text.lines().map(|l| l.to_string()).collect();
    assert_eq!(split_lines(text), expected);
}

#[test]
fn trimming_drops_white_space_at_both_ends() {
    assert_eq!(trim_text("  a b \n"), "a b");
    assert_eq!(trim_text("\t\u{a0}x\u{3000}"), "x");
    assert_eq!(trim_text("   "), "");
    assert_eq!(trim_text(""), "");
    assert_eq!(trim_text("x"), "x");
}

#[test]
fn digest_list_is_read_line_by_line() {
    let sums = SHA256SUMS::from_file("abc *file.wasm\nDEF  other\n\n  \t\nzzz x\r\n").unwrap();
    assert_eq!(
        fields(&sums),
        vec![row("abc", "file.wasm", true), row("DEF", " other", false), row("zzz", "x", false)]
    );
    assert_eq!(fields(&SHA256SUMS::from_file("").unwrap()), Vec::new());
    assert_eq!(fields(&SHA256SUMS::from_file(" name").unwrap()), vec![row("", "name", false)]);
    assert_eq!(fields(&SHA256SUMS::from_file("h *").unwrap()), vec![row("h", "", true)]);
    assert_eq!(fields(&SHA256SUMS::from_file("h ").unwrap()), vec![row("h", "", false)]);
}

#[test]
fn line_without_space_is_refused() {
    match SHA256SUMS::from_file("abc *ok.wasm\nnospace\nalso-bad\n") {
        Err(ChecksumError::InvalidFormat { line }) => assert_eq!(line, "nospace"),
        Ok(_) => panic!("a line without a space was accepted"),
    }
}

#[test]
fn digest_list_is_written_one_line_per_entry() {
    let sums = SHA256SUMS {
        entries: vec![
            ChecksumEntry {
                hash: ABC.to_string(),
                filename: "a.wasm".to_string(),
                binary_mode: true,
            },
            ChecksumEntry {
                hash: "00ff".to_string(),
                filename: "notes.txt".to_string(),
                binary_mode: false,
            },
        ],
    };
    let text = sums.write_to_file();
    assert_eq!(text, format!("{} *a.wasm\n00ff  notes.txt\n", ABC));
    assert_eq!(SHA256SUMS { entries: Vec::new() }.write_to_file(), "");
    let back = SHA256SUMS::from_file(&text).unwrap();
    assert_eq!(
        fields(&back),
        vec![row(ABC, "a.wasm", true), row("00ff", " notes.txt", false)]
    );
}

#[test]
fn sdk_version_is_found_in_the_package_manifest() {
    assert_eq!(
        get_near_sdk_version("[dependencies]\nnear-sdk = \"5.24.0\"\nserde = \"1\"\n"),
        Some("5.24.0".to_string())
    );
    assert_eq!(
        get_near_sdk_version("near-sdk = { version = \"5.1.0\", features = [\"x\"] }"),
        Some("5.1.0".to_string())
    );
    assert_eq!(
        get_near_sdk_version("near-sdk = 5\n# near-sdk = \"4.0.0\"\n"),
        Some("4.0.0".to_string())
    );
    assert_eq!(get_near_sdk_version("near-sdk \"1\"\nnear-sdk = \"unclosed\n"), None);
    assert_eq!(get_near_sdk_version("serde = \"1\"\n"), None);
    assert_eq!(get_near_sdk_version(""), None);
    assert_eq!(get_near_sdk_version("near-sdk = \"\""), Some(String::new()));
}

#[test]
fn source_facts_are_trimmed_or_unknown() {
    let source = get_git_info(Some("https://example.org/repo.git\n"), None, Some(" v1.0.0\n"));
    assert_eq!(source.repository, "https://example.org/repo.git");
    assert_eq!(source.commit, "unknown");
    assert_eq!(source.tag, Some("v1.0.0".to_string()));
    assert_eq!(source.path, ".");
    let bare = get_git_info(None, Some("abc123\n"), None);
    assert_eq!(bare.repository, "unknown");
    assert_eq!(bare.commit, "abc123");
    assert_eq!(bare.tag, None);
}

#[test]
fn manifest_describes_the_artifact() {
    let source = get_git_info(Some("repo"), Some("c0ffee"), None);
    let manifest = BuildManifest::assemble(
        b"abc",
        "contract.wasm",
        source,
        Some("near-sdk = \"5.9.0\"\n"),
        "2024-01-02T03:04:05+00:00".to_string(),
    );
    assert_eq!(manifest.version, "1.0.0");
    assert_eq!(manifest.source.repository, "repo");
    assert_eq!(manifest.source.commit, "c0ffee");
    assert_eq!(manifest.build.builder_image, "sourcescan/cargo-near:0.18.0-rust-1.86.0");
    assert_eq!(
        manifest.build.builder_image_digest,
        "sha256:2d0d458d2357277df669eac6fa23a1ac922e5ed16646e1d3315336e4dff18043"
    );
    assert_eq!(manifest.build.command, vec!["cargo", "near", "build", "--locked"]);
    assert_eq!(manifest.build.timestamp, "2024-01-02T03:04:05+00:00");
    assert_eq!(manifest.build.toolchain.rust_version, "1.86.0");
    assert_eq!(manifest.build.toolchain.near_sdk_version, "5.9.0");
    assert_eq!(manifest.build.toolchain.cargo_near_version, "0.18.0");
    assert_eq!(manifest.output.wasm_hash, format!("sha256:{}", ABC));
    assert_eq!(manifest.output.wasm_size, 3);
    assert_eq!(manifest.output.filename, "contract.wasm");
    assert!(manifest.metadata.reproducible);
    assert_eq!(manifest.metadata.standards.len(), 2);
    assert_eq!(manifest.metadata.standards[0].name, "nep330");
    assert_eq!(manifest.metadata.standards[0].version, "1.3.0");
    assert_eq!(manifest.metadata.standards[1].name, "slsa");
    assert_eq!(manifest.metadata.standards[1].version, "1.0");
}

#[test]
fn manifest_falls_back_to_the_known_sdk_version() {
    let none = BuildManifest::assemble(b"", "a.wasm", get_git_info(None, None, None), None, String::new());
    assert_eq!(none.build.toolchain.near_sdk_version, "5.24.0");
    assert_eq!(none.output.wasm_size, 0);
    let silent = BuildManifest::assemble(
        b"",
        "a.wasm",
        get_git_info(None, None, None),
        Some("[package]\nname = \"x\"\n"),
        String::new(),
    );
    assert_eq!(silent.build.toolchain.near_sdk_version, "5.24.0");
}

fn generate_at(secs: i64, nanos: u32) -> Option<BuildManifest> {
    BuildManifest::generate(
        b"abc",
        "contract.wasm",
        get_git_info(None, None, None),
        None,
        secs,
        nanos,
    )
}

#[test]
fn generated_manifest_carries_the_moment_of_the_build() {
    let manifest = generate_at(1_704_164_645, 0).unwrap();
    assert_eq!(manifest.build.timestamp, "2024-01-02T03:04:05+00:00");
    assert_eq!(manifest.output.wasm_hash, format!("sha256:{}", ABC));
    assert_eq!(manifest.output.wasm_hash.len(), 7 + 64);
    assert_eq!(generate_at(0, 0).unwrap().build.timestamp, "1970-01-01T00:00:00+00:00");
    assert_eq!(
        generate_at(1_704_164_645, 500_000_000).unwrap().build.timestamp,
        "2024-01-02T03:04:05.500+00:00"
    );
    assert_eq!(generate_at(-1, 0).unwrap().build.timestamp, "1969-12-31T23:59:59+00:00");
    let now = chrono::Utc::now();
    let stamped = generate_at(now.timestamp(), now.timestamp_subsec_nanos()).unwrap();
    assert_eq!(stamped.build.timestamp, now.to_rfc3339());
}

#[test]
fn moment_that_cannot_be_written_gives_no_manifest() {
    assert!(generate_at(i64::MAX, 0).is_none());
    assert!(generate_at(i64::MIN, 0).is_none());
    assert!(generate_at(0, 2_000_000_000).is_none());
}

#[test]
fn project_names_follow_the_rules() {
    assert_eq!(validate_project_name(""), Err(ProjectNameError::Empty));
    assert_eq!(validate_project_name("a/b"), Err(ProjectNameError::PathSeparator));
    assert_eq!(validate_project_name("a\\b"), Err(ProjectNameError::PathSeparator));
    assert_eq!(validate_project_name("./x"), Err(ProjectNameError::PathSeparator));
    assert_eq!(validate_project_name(".x"), Err(ProjectNameError::BadStart));
    assert_eq!(validate_project_name("-x"), Err(ProjectNameError::BadStart));
    assert_eq!(validate_project_name("a b"), Err(ProjectNameError::InvalidCharacter));
    assert_eq!(validate_project_name("a.b"), Err(ProjectNameError::InvalidCharacter));
    assert_eq!(validate_project_name("my-proj_1"), Ok(()));
    assert_eq!(validate_project_name("_x"), Ok(()));
    assert_eq!(validate_project_name("é1"), Ok(()));
}

#[test]
fn templates_are_picked_by_name() {
    assert_eq!(select_template("basic"), Some(Template::Basic));
    assert_eq!(select_template("timelock"), Some(Template::Timelock));
    assert_eq!(select_template("weighted"), Some(Template::Weighted));
    assert_eq!(select_template("Basic"), None);
    assert_eq!(select_template(""), None);
    assert_eq!(
        Template::Basic.description(),
        "Basic M-of-N multisig with security hardening"
    );
    assert_eq!(
        Template::Timelock.description(),
        "Timelock multisig with delayed execution and security hardening"
    );
    assert_eq!(
        Template::Weighted.description(),
        "Weighted voting multisig with security hardening"
    );
}
