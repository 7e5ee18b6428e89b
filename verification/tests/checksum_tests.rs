use near_multisig::checksum::{ArtifactFile, ChecksumEntry, VerificationResult, SHA256SUMS};
use near_multisig::digest::sha256_hex;

const EMPTY: &str = "e3b0c44298fc1c149afbf4c8996fb92427ae41e4649b934ca495991b7852b855";
const ABC: &str = "ba7816bf8f01cfea414140de5dae2223b00361a396177a9cb410ff61f20015ad";

fn file(name: &str, content: &[u8]) -> ArtifactFile {
    ArtifactFile { name: name.to_string(), content: content.to_vec() }
}

fn entry(hash: &str, filename: &str) -> ChecksumEntry {
    ChecksumEntry { hash: hash.to_string(), filename: filename.to_string(), binary_mode: true }
}

#[test]
fn digests_are_sha256_in_lower_case_hex() {
    assert_eq!(sha256_hex(b""), EMPTY);
    assert_eq!(sha256_hex(b"abc"), ABC);
    assert_ne!(sha256_hex(b"abd"), ABC);
}

#[test]
fn directory_gives_entries_for_wasm_files() {
    let files = vec![
        file("contract.wasm", b"abc"),
        file("notes.txt", b"abc"),
        file(".wasm", b"abc"),
        file("wasm", b"abc"),
        file("a.b.wasm", b""),
        file("x.wasm2", b""),
    ];
    let sums = SHA256SUMS::from_directory(&files);
    assert_eq!(sums.entries.len(), 2);
    assert_eq!(sums.entries[0].filename, "contract.wasm");
    assert_eq!(sums.entries[0].hash, ABC);
    assert!(sums.entries[0].binary_mode);
    assert_eq!(sums.entries[1].filename, "a.b.wasm");
    assert_eq!(sums.entries[1].hash, EMPTY);
}

#[test]
fn verification_sorts_entries_by_what_it_finds() {
    let sums = SHA256SUMS {
        entries: vec![
            entry(ABC, "good.wasm"),
            entry(EMPTY, "changed.wasm"),
            entry(ABC, "gone.wasm"),
            entry(EMPTY, "empty.wasm"),
        ],
    };
    let files = vec![
        file("changed.wasm", b"abc"),
        file("empty.wasm", b""),
        file("good.wasm", b"abc"),
        file("extra.wasm", b"zzz"),
    ];
    let result = sums.verify(&files);
    assert_eq!(result.verified, vec!["good.wasm".to_string(), "empty.wasm".to_string()]);
    assert_eq!(result.missing, vec!["gone.wasm".to_string()]);
    assert_eq!(result.mismatch.len(), 1);
    assert_eq!(result.mismatch[0].filename, "changed.wasm");
    assert_eq!(result.mismatch[0].expected, EMPTY);
    assert_eq!(result.mismatch[0].actual, ABC);
    assert!(!result.is_success());
}

#[test]
fn verification_succeeds_when_all_match() {
    let sums = SHA256SUMS { entries: vec![entry(ABC, "a.wasm")] };
    let result = sums.verify(&vec![file("a.wasm", b"abc")]);
    assert!(result.is_success());
    assert_eq!(result.verified, vec!["a.wasm".to_string()]);
    let nothing = SHA256SUMS { entries: Vec::new() }.verify(&Vec::new());
    assert!(nothing.is_success());
    assert!(VerificationResult::default().is_success());
}

#[test]
fn success_needs_no_mismatch_and_nothing_missing() {
    let mut result = VerificationResult::default();
    result.verified.push("a".to_string());
    assert!(result.is_success());
    result.missing.push("b".to_string());
    assert!(!result.is_success());
    let sums = SHA256SUMS { entries: vec![entry(ABC, "a.wasm")] };
    assert!(!sums.verify(&vec![file("a.wasm", b"abd")]).is_success());
}
