//! The manifest that describes how an artifact was built.

use vstd::prelude::*;
use vstd::string::{StrSliceExecFns, StringExecFns};
use crate::digest::{format_rfc3339, hex_lower, rfc3339_text, sha256_digest, sha256_hex};
use crate::text::{
    chars_of, contains_part, find_char, first_at, has_part, lines_of, split_lines, trim_text,
    trimmed,
};

verus! {

/// Where the source of an artifact lies.
#[derive(Debug)]
pub struct SourceInfo {
    pub repository: String,
    pub commit: String,
    pub tag: Option<String>,
    pub path: String,
}

/// The tools of a build.
#[derive(Debug)]
pub struct ToolchainInfo {
    pub rust_version: String,
    pub near_sdk_version: String,
    pub cargo_near_version: String,
}

/// How an artifact was built.
#[derive(Debug)]
pub struct BuildInfo {
    pub builder_image: String,
    pub builder_image_digest: String,
    pub command: Vec<String>,
    pub timestamp: String,
    pub toolchain: ToolchainInfo,
}

/// The artifact.
#[derive(Debug)]
pub struct OutputInfo {
    /// `sha256:` and the digest of the artifact in hexadecimal digits.
    pub wasm_hash: String,
    pub wasm_size: u64,
    pub filename: String,
}

/// A standard that a build meets.
#[derive(Debug)]
pub struct Standard {
    pub name: String,
    pub version: String,
}

/// What a build claims.
#[derive(Debug)]
pub struct MetadataInfo {
    pub reproducible: bool,
    pub standards: Vec<Standard>,
}

/// The manifest of a build.
#[derive(Debug)]
pub struct BuildManifest {
    pub version: String,
    pub source: SourceInfo,
    pub build: BuildInfo,
    pub output: OutputInfo,
    pub metadata: MetadataInfo,
}

/// What a [`SourceInfo`] is, as plain mathematical data.
pub ghost struct SourceView {
    pub repository: Seq<char>,
    pub commit: Seq<char>,
    pub tag: Option<Seq<char>>,
    pub path: Seq<char>,
}

/// What a [`BuildManifest`] is, as plain mathematical data.
pub ghost struct ManifestView {
    pub version: Seq<char>,
    pub source: SourceView,
    pub builder_image: Seq<char>,
    pub builder_image_digest: Seq<char>,
    pub command: Seq<Seq<char>>,
    pub timestamp: Seq<char>,
    pub rust_version: Seq<char>,
    pub near_sdk_version: Seq<char>,
    pub cargo_near_version: Seq<char>,
    pub wasm_hash: Seq<char>,
    pub wasm_size: u64,
    pub filename: Seq<char>,
    pub reproducible: bool,
    pub standards: Seq<(Seq<char>, Seq<char>)>,
}

impl View for SourceInfo {
    type V = SourceView;

    open spec fn view(&self) -> SourceView {
        SourceView {
            repository: self.repository@,
            commit: self.commit@,
            tag: match self.tag {
                Some(t) => Some(t@),
                None => None,
            },
            path: self.path@,
        }
    }
}

impl View for Standard {
    type V = (Seq<char>, Seq<char>);

    open spec fn view(&self) -> (Seq<char>, Seq<char>) {
        (self.name@, self.version@)
    }
}

impl DeepView for Standard {
    type V = (Seq<char>, Seq<char>);

    open spec fn deep_view(&self) -> (Seq<char>, Seq<char>) {
        self@
    }
}

impl View for BuildManifest {
    type V = ManifestView;

    open spec fn view(&self) -> ManifestView {
        ManifestView {
            version: self.version@,
            source: self.source@,
            builder_image: self.build.builder_image@,
            builder_image_digest: self.build.builder_image_digest@,
            command: self.build.command.deep_view(),
            timestamp: self.build.timestamp@,
            rust_version: self.build.toolchain.rust_version@,
            near_sdk_version: self.build.toolchain.near_sdk_version@,
            cargo_near_version: self.build.toolchain.cargo_near_version@,
            wasm_hash: self.output.wasm_hash@,
            wasm_size: self.output.wasm_size,
            filename: self.output.filename@,
            reproducible: self.metadata.reproducible,
            standards: self.metadata.standards.deep_view(),
        }
    }
}

/// The version that a line of a package manifest gives for the SDK: in a
/// line that names `near-sdk` and holds `=`, what stands between the first
/// two double quotes.
pub open spec fn version_in_line(line: Seq<char>) -> Option<Seq<char>> {
    let open = first_at(line, '"', 0);
    let close = first_at(line, '"', open + 1);
    if has_part(line, "near-sdk"@) && has_part(line, "="@) && open < line.len() && close
        < line.len() {
        Some(line.subrange(open + 1, close))
    } else {
        None
    }
}

/// The version that the first line gives which gives one.
pub open spec fn version_in_lines(lines: Seq<Seq<char>>) -> Option<Seq<char>>
    decreases lines.len(),
{
    if lines.len() == 0 {
        None
    } else {
        match version_in_lines(lines.drop_last()) {
            Some(v) => Some(v),
            None => version_in_line(lines.last()),
        }
    }
}

/// A version found among the first `n` lines is the answer for all lines.
pub proof fn lemma_version_stays(lines: Seq<Seq<char>>, n: int)
    requires
        0 <= n <= lines.len(),
        version_in_lines(lines.take(n)) is Some,
    ensures
        version_in_lines(lines) == version_in_lines(lines.take(n)),
    decreases lines.len() - n,
{
    if n < lines.len() {
        assert(lines.take(n + 1).drop_last() =~= lines.take(n));
        lemma_version_stays(lines, n + 1);
    } else {
        assert(lines.take(n) =~= lines);
    }
}

/// The SDK version that a line of a package manifest gives, if it gives one.
pub fn read_version_line(line: &str) -> (r: Option<String>)
    ensures
        r is Some <==> version_in_line(line@) is Some,
        r is Some ==> r.unwrap()@ == version_in_line(line@).unwrap(),
{
    let chars = chars_of(line);
    let n = chars.len();
    let name = chars_of("near-sdk");
    let equals = chars_of("=");
    if !contains_part(&chars, &name) || !contains_part(&chars, &equals) {
        return None;
    }
    let open = find_char(&chars, '"', 0);
    if open >= n {
        return None;
    }
    let close = find_char(&chars, '"', open + 1);
    if close >= n {
        return None;
    }
    Some(line.substring_char(open + 1, close).to_owned())
}

/// The SDK version that a package manifest names, if it names one.
pub fn get_near_sdk_version(cargo_toml: &str) -> (r: Option<String>)
    ensures
        r is Some <==> version_in_lines(lines_of(cargo_toml@)) is Some,
        r is Some ==> r.unwrap()@ == version_in_lines(lines_of(cargo_toml@)).unwrap(),
{
    let lines = split_lines(cargo_toml);
    let ghost all = lines.deep_view();
    let mut i: usize = 0;
    proof {
        assert(all.take(0) =~= seq![]);
    }
    while i < lines.len()
        invariant
            i <= lines.len(),
            all == lines.deep_view(),
            all == lines_of(cargo_toml@),
            version_in_lines(all.take(i as int)) is None,
        decreases lines.len() - i,
    {
        proof {
            assert(all.take(i + 1).drop_last() =~= all.take(i as int));
            assert(all.take(i + 1).last() == lines[i as int]@);
        }
        match read_version_line(lines[i].as_str()) {
            Some(version) => {
                proof {
                    lemma_version_stays(all, i + 1);
                }
                return Some(version);
            },
            None => {},
        }
        i += 1;
    }
    proof {
        assert(all.take(all.len() as int) =~= all);
    }
    None
}

/// What is reported of a source fact: its text without the white space
/// round it, or `unknown` where the fact could not be had.
pub open spec fn known_or_unknown(fact: Option<&str>) -> Seq<char> {
    match fact {
        Some(text) => trimmed(text@),
        None => "unknown"@,
    }
}

/// The source description for what the repository told: its address, the
/// commit, and the tag if the commit has one.
pub open spec fn source_of(
    repository: Option<&str>,
    commit: Option<&str>,
    tag: Option<&str>,
) -> SourceView {
    SourceView {
        repository: known_or_unknown(repository),
        commit: known_or_unknown(commit),
        tag: match tag {
            Some(text) => Some(trimmed(text@)),
            None => None,
        },
        path: "."@,
    }
}

/// The manifest for an artifact that was built at the moment that
/// `timestamp` writes.
pub open spec fn manifest_of(
    wasm: Seq<u8>,
    filename: Seq<char>,
    source: SourceView,
    cargo_toml: Option<&str>,
    timestamp: Seq<char>,
) -> ManifestView {
    ManifestView {
        version: "1.0.0"@,
        source,
        builder_image: "sourcescan/cargo-near:0.18.0-rust-1.86.0"@,
        builder_image_digest: "sha256:2d0d458d2357277df669eac6fa23a1ac922e5ed16646e1d3315336e4dff18043"@,
        command: seq!["cargo"@, "near"@, "build"@, "--locked"@],
        timestamp,
        rust_version: "1.86.0"@,
        near_sdk_version: match cargo_toml {
            Some(text) => match version_in_lines(lines_of(text@)) {
                Some(v) => v,
                None => "5.24.0"@,
            },
            None => "5.24.0"@,
        },
        cargo_near_version: "0.18.0"@,
        wasm_hash: "sha256:"@ + hex_lower(sha256_digest(wasm)),
        wasm_size: wasm.len() as u64,
        filename,
        reproducible: true,
        standards: seq![("nep330"@, "1.3.0"@), ("slsa"@, "1.0"@)],
    }
}

/// A source fact as it is reported.
pub fn report_fact(fact: Option<&str>) -> (r: String)
    ensures
        r@ == known_or_unknown(fact),
{
    match fact {
        Some(text) => trim_text(text),
        None => String::from_str("unknown"),
    }
}

/// Describes the source from what the repository told.
pub fn get_git_info(repository: Option<&str>, commit: Option<&str>, tag: Option<&str>) -> (r:
    SourceInfo)
    ensures
        r@ == source_of(repository, commit, tag),
{
    SourceInfo {
        repository: report_fact(repository),
        commit: report_fact(commit),
        tag: match tag {
            Some(text) => Some(trim_text(text)),
            None => None,
        },
        path: String::from_str("."),
    }
}

impl BuildManifest {
    /// The manifest of an artifact that was built at `timestamp`.
    pub fn assemble(
        wasm: &[u8],
        filename: &str,
        source: SourceInfo,
        cargo_toml: Option<&str>,
        timestamp: String,
    ) -> (r: Self)
        ensures
            r@ == manifest_of(wasm@, filename@, source@, cargo_toml, timestamp@),
    {
        let near_sdk_version = match cargo_toml {
            Some(text) => match get_near_sdk_version(text) {
                Some(v) => v,
                None => String::from_str("5.24.0"),
            },
            None => String::from_str("5.24.0"),
        };
        let wasm_hash = String::from_str("sha256:").concat(sha256_hex(wasm).as_str());
        let mut command: Vec<String> = Vec::new();
        command.push(String::from_str("cargo"));
        command.push(String::from_str("near"));
        command.push(String::from_str("build"));
        command.push(String::from_str("--locked"));
        assert(command.deep_view() =~= seq!["cargo"@, "near"@, "build"@, "--locked"@]);
        let mut standards: Vec<Standard> = Vec::new();
        standards.push(
            Standard { name: String::from_str("nep330"), version: String::from_str("1.3.0") },
        );
        standards.push(
            Standard { name: String::from_str("slsa"), version: String::from_str("1.0") },
        );
        assert(standards.deep_view() =~= seq![("nep330"@, "1.3.0"@), ("slsa"@, "1.0"@)]);
        BuildManifest {
            version: String::from_str("1.0.0"),
            source,
            build: BuildInfo {
                builder_image: String::from_str("sourcescan/cargo-near:0.18.0-rust-1.86.0"),
                builder_image_digest: String::from_str(
                    "sha256:2d0d458d2357277df669eac6fa23a1ac922e5ed16646e1d3315336e4dff18043",
                ),
                command,
                timestamp,
                toolchain: ToolchainInfo {
                    rust_version: String::from_str("1.86.0"),
                    near_sdk_version,
                    cargo_near_version: String::from_str("0.18.0"),
                },
            },
            output: OutputInfo {
                wasm_hash,
                wasm_size: wasm.len() as u64,
                filename: filename.to_owned(),
            },
            metadata: MetadataInfo { reproducible: true, standards },
        }
    }

    /// The manifest of an artifact that was built `secs` seconds and `nanos`
    /// nanoseconds after 1970 began, with the moment written as RFC 3339
    /// asks. There is none where the moment cannot be written so.
    pub fn generate(
        wasm: &[u8],
        filename: &str,
        source: SourceInfo,
        cargo_toml: Option<&str>,
        secs: i64,
        nanos: u32,
    ) -> (r: Option<Self>)
        ensures
            match rfc3339_text(secs, nanos) {
                Some(timestamp) => r is Some && r.unwrap()@ == manifest_of(
                    wasm@,
                    filename@,
                    source@,
                    cargo_toml,
                    timestamp,
                ),
                None => r is None,
            },
    {
        match format_rfc3339(secs, nanos) {
            Some(timestamp) => Some(
                BuildManifest::assemble(wasm, filename, source, cargo_toml, timestamp),
            ),
            None => None,
        }
    }
}

} // verus!
