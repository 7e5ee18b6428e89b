//! Lists of artifact digests and their verification against the artifacts.

use vstd::prelude::*;
use vstd::string::{StrSliceExecFns, StringExecFns};
use crate::digest::{hex_lower, sha256_digest, sha256_hex};
use crate::text::{chars_of, check_blank, find_char, first_at, is_blank, lines_of, split_lines};

verus! {

/// One line of a digest list.
#[derive(Debug)]
pub struct ChecksumEntry {
    /// The digest, in hexadecimal digits.
    pub hash: String,
    pub filename: String,
    /// Whether the digest was taken in binary mode.
    pub binary_mode: bool,
}

/// What a [`ChecksumEntry`] is, as plain mathematical data.
pub ghost struct EntryView {
    pub hash: Seq<char>,
    pub filename: Seq<char>,
    pub binary_mode: bool,
}

impl View for ChecksumEntry {
    type V = EntryView;

    open spec fn view(&self) -> EntryView {
        EntryView { hash: self.hash@, filename: self.filename@, binary_mode: self.binary_mode }
    }
}

impl DeepView for ChecksumEntry {
    type V = EntryView;

    open spec fn deep_view(&self) -> EntryView {
        self@
    }
}

/// A list of artifact digests.
#[derive(Debug)]
pub struct SHA256SUMS {
    pub entries: Vec<ChecksumEntry>,
}

impl View for SHA256SUMS {
    type V = Seq<EntryView>;

    open spec fn view(&self) -> Seq<EntryView> {
        self.entries.deep_view()
    }
}

/// A file of the directory that holds the artifacts.
#[derive(Debug)]
pub struct ArtifactFile {
    pub name: String,
    pub content: Vec<u8>,
}

/// What an [`ArtifactFile`] is, as plain mathematical data.
pub ghost struct FileView {
    pub name: Seq<char>,
    pub content: Seq<u8>,
}

impl View for ArtifactFile {
    type V = FileView;

    open spec fn view(&self) -> FileView {
        FileView { name: self.name@, content: self.content@ }
    }
}

impl DeepView for ArtifactFile {
    type V = FileView;

    open spec fn deep_view(&self) -> FileView {
        self@
    }
}

/// An artifact whose digest differs from the listed one.
#[derive(Debug)]
pub struct ChecksumMismatch {
    pub filename: String,
    pub expected: String,
    pub actual: String,
}

/// What a [`ChecksumMismatch`] is, as plain mathematical data.
pub ghost struct MismatchView {
    pub filename: Seq<char>,
    pub expected: Seq<char>,
    pub actual: Seq<char>,
}

impl View for ChecksumMismatch {
    type V = MismatchView;

    open spec fn view(&self) -> MismatchView {
        MismatchView { filename: self.filename@, expected: self.expected@, actual: self.actual@ }
    }
}

impl DeepView for ChecksumMismatch {
    type V = MismatchView;

    open spec fn deep_view(&self) -> MismatchView {
        self@
    }
}

/// The outcome of a verification: the names of the artifacts whose digest
/// matches, the artifacts whose digest differs, and the names of those that
/// were not found.
#[derive(Debug)]
pub struct VerificationResult {
    pub verified: Vec<String>,
    pub mismatch: Vec<ChecksumMismatch>,
    pub missing: Vec<String>,
}

/// What a [`VerificationResult`] is, as plain mathematical data.
pub ghost struct ResultView {
    pub verified: Seq<Seq<char>>,
    pub mismatch: Seq<MismatchView>,
    pub missing: Seq<Seq<char>>,
}

impl View for VerificationResult {
    type V = ResultView;

    open spec fn view(&self) -> ResultView {
        ResultView {
            verified: self.verified.deep_view(),
            mismatch: self.mismatch.deep_view(),
            missing: self.missing.deep_view(),
        }
    }
}

impl Default for VerificationResult {
    fn default() -> (r: Self)
        ensures
            r@ == (ResultView { verified: seq![], mismatch: seq![], missing: seq![] }),
    {
        let r = VerificationResult {
            verified: Vec::new(),
            mismatch: Vec::new(),
            missing: Vec::new(),
        };
        assert(r.verified.deep_view() =~= seq![]);
        assert(r.mismatch.deep_view() =~= seq![]);
        assert(r.missing.deep_view() =~= seq![]);
        r
    }
}

impl VerificationResult {
    /// Whether every listed artifact was found with the listed digest.
    pub fn is_success(&self) -> (r: bool)
        ensures
            r == (self@.mismatch.len() == 0 && self@.missing.len() == 0),
    {
        self.mismatch.len() == 0 && self.missing.len() == 0
    }
}

/// The content of the file called `name`, if the directory holds one. Of
/// several files of one name the last counts.
pub open spec fn content_of(files: Seq<FileView>, name: Seq<char>) -> Option<Seq<u8>>
    decreases files.len(),
{
    if files.len() == 0 {
        None
    } else if files.last().name == name {
        Some(files.last().content)
    } else {
        content_of(files.drop_last(), name)
    }
}

/// What verification finds for a list of entries: each entry, in order,
/// goes to the missing ones if the directory holds no file of its name, to
/// the verified ones if the digest of the file is the listed one, and to the
/// mismatches otherwise, with the listed and the actual digest.
pub open spec fn verification_of(entries: Seq<EntryView>, files: Seq<FileView>) -> ResultView
    decreases entries.len(),
{
    if entries.len() == 0 {
        ResultView { verified: seq![], mismatch: seq![], missing: seq![] }
    } else {
        let before = verification_of(entries.drop_last(), files);
        let entry = entries.last();
        match content_of(files, entry.filename) {
            None => ResultView { missing: before.missing.push(entry.filename), ..before },
            Some(content) => {
                let actual = hex_lower(sha256_digest(content));
                if actual == entry.hash {
                    ResultView { verified: before.verified.push(entry.filename), ..before }
                } else {
                    ResultView {
                        mismatch: before.mismatch.push(
                            MismatchView {
                                filename: entry.filename,
                                expected: entry.hash,
                                actual,
                            },
                        ),
                        ..before
                    }
                }
            },
        }
    }
}

/// The name's bytes end in `.wasm` and more stands before that.
pub open spec fn is_wasm_name(name: Seq<char>) -> bool {
    let bytes = vstd::utf8::encode_utf8(name);
    bytes.len() > 5 && bytes.subrange(bytes.len() - 5, bytes.len() as int) == seq![
        0x2eu8,
        0x77u8,
        0x61u8,
        0x73u8,
        0x6du8,
    ]
}

/// The entries that a directory gives: one for each file with a `.wasm`
/// name, in order, with the digest of its content, in binary mode.
pub open spec fn entries_of(files: Seq<FileView>) -> Seq<EntryView>
    decreases files.len(),
{
    if files.len() == 0 {
        seq![]
    } else {
        let before = entries_of(files.drop_last());
        let file = files.last();
        if is_wasm_name(file.name) {
            before.push(
                EntryView {
                    hash: hex_lower(sha256_digest(file.content)),
                    filename: file.name,
                    binary_mode: true,
                },
            )
        } else {
            before
        }
    }
}

/// Looks up the file called `name`.
pub fn find_file<'a>(files: &'a Vec<ArtifactFile>, name: &String) -> (r: Option<&'a ArtifactFile>)
    ensures
        match r {
            Some(file) => content_of(files.deep_view(), name@) == Some(file.content@),
            None => content_of(files.deep_view(), name@) is None,
        },
{
    let ghost all = files.deep_view();
    let mut i: usize = files.len();
    proof {
        assert(all.take(i as int) =~= all);
    }
    while i > 0
        invariant
            i <= files.len(),
            all == files.deep_view(),
            content_of(all, name@) == content_of(all.take(i as int), name@),
        decreases i,
    {
        proof {
            assert(all.take(i as int).drop_last() =~= all.take(i - 1));
            assert(all.take(i as int).last() == files[i - 1]@);
        }
        if files[i - 1].name == *name {
            return Some(&files[i - 1]);
        }
        i -= 1;
    }
    None
}

/// Whether a file name ends in `.wasm`, with more before it.
pub fn has_wasm_name(name: &String) -> (r: bool)
    ensures
        r == is_wasm_name(name@),
{
    let bytes = name.as_str().as_bytes();
    let n = bytes.len();
    if n <= 5 {
        return false;
    }
    let r = bytes[n - 5] == 0x2e && bytes[n - 4] == 0x77 && bytes[n - 3] == 0x61 && bytes[n - 2]
        == 0x73 && bytes[n - 1] == 0x6d;
    proof {
        let tail = bytes@.subrange(n - 5, n as int);
        let want = seq![0x2eu8, 0x77u8, 0x61u8, 0x73u8, 0x6du8];
        assert(tail.len() == 5);
        assert(tail[0] == bytes@[n - 5]);
        assert(tail[1] == bytes@[n - 4]);
        assert(tail[2] == bytes@[n - 3]);
        assert(tail[3] == bytes@[n - 2]);
        assert(tail[4] == bytes@[n - 1]);
        if r {
            assert(tail =~= want);
        } else {
            assert(tail != want) by {
                if tail == want {
                    assert(want[0] == 0x2e && want[1] == 0x77 && want[2] == 0x61 && want[3] == 0x73
                        && want[4] == 0x6d);
                }
            }
        }
    }
    r
}

impl SHA256SUMS {
    /// The digest list for the files of a directory: an entry for each
    /// `.wasm` file.
    pub fn from_directory(files: &Vec<ArtifactFile>) -> (r: Self)
        ensures
            r@ == entries_of(files.deep_view()),
    {
        let ghost all = files.deep_view();
        let mut entries: Vec<ChecksumEntry> = Vec::new();
        let mut i: usize = 0;
        proof {
            assert(all.take(0) =~= seq![]);
            assert(entries.deep_view() =~= seq![]);
        }
        while i < files.len()
            invariant
                i <= files.len(),
                all == files.deep_view(),
                entries.deep_view() == entries_of(all.take(i as int)),
            decreases files.len() - i,
        {
            let ghost before = entries.deep_view();
            proof {
                assert(all.take(i + 1).drop_last() =~= all.take(i as int));
                assert(all.take(i + 1).last() == files[i as int]@);
            }
            if has_wasm_name(&files[i].name) {
                let entry = ChecksumEntry {
                    hash: sha256_hex(files[i].content.as_slice()),
                    filename: files[i].name.clone(),
                    binary_mode: true,
                };
                entries.push(entry);
                assert(entries.deep_view() =~= before.push(entry@));
            }
            i += 1;
        }
        proof {
            assert(all.take(all.len() as int) =~= all);
        }
        SHA256SUMS { entries }
    }

    /// Checks each listed artifact against the files of the directory.
    pub fn verify(&self, files: &Vec<ArtifactFile>) -> (r: VerificationResult)
        ensures
            r@ == verification_of(self@, files.deep_view()),
    {
        let ghost all = self@;
        let mut results = VerificationResult::default();
        let mut i: usize = 0;
        proof {
            assert(all.take(0) =~= seq![]);
        }
        while i < self.entries.len()
            invariant
                i <= self.entries.len(),
                all == self.entries.deep_view(),
                results@ == verification_of(all.take(i as int), files.deep_view()),
            decreases self.entries.len() - i,
        {
            let entry = &self.entries[i];
            let ghost before = results@;
            proof {
                assert(all.take(i + 1).drop_last() =~= all.take(i as int));
                assert(all.take(i + 1).last() == entry@);
            }
            match find_file(files, &entry.filename) {
                None => {
                    results.missing.push(entry.filename.clone());
                    assert(results.missing.deep_view() =~= before.missing.push(entry.filename@));
                },
                Some(file) => {
                    let actual_hash = sha256_hex(file.content.as_slice());
                    if actual_hash == entry.hash {
                        results.verified.push(entry.filename.clone());
                        assert(results.verified.deep_view() =~= before.verified.push(
                            entry.filename@,
                        ));
                    } else {
                        let found = ChecksumMismatch {
                            filename: entry.filename.clone(),
                            expected: entry.hash.clone(),
                            actual: actual_hash,
                        };
                        results.mismatch.push(found);
                        assert(results.mismatch.deep_view() =~= before.mismatch.push(found@));
                    }
                },
            }
            i += 1;
        }
        proof {
            assert(all.take(all.len() as int) =~= all);
        }
        results
    }
}

/// Why a digest list cannot be read.
#[derive(Debug)]
pub enum ChecksumError {
    /// A line that is not blank holds no space between digest and name.
    InvalidFormat { line: String },
}

impl ChecksumError {
    /// The line that could not be read.
    pub open spec fn line_view(self) -> Seq<char> {
        match self {
            ChecksumError::InvalidFormat { line } => line@,
        }
    }
}

/// What one line of a digest list says.
pub ghost enum LineView {
    /// Nothing: the line holds white space only.
    Blank,
    /// Nothing that can be read: no space parts digest and name.
    Malformed,
    /// An entry.
    Entry(EntryView),
}

/// What a line says. The digest is what stands before the first space.
/// What follows that space is the name, in binary mode if a `*` stands
/// before it, which is no part of the name.
pub open spec fn parse_line(line: Seq<char>) -> LineView {
    let space = first_at(line, ' ', 0);
    if is_blank(line) {
        LineView::Blank
    } else if space >= line.len() {
        LineView::Malformed
    } else if space + 1 < line.len() && line[space + 1] == '*' {
        LineView::Entry(
            EntryView {
                hash: line.subrange(0, space),
                filename: line.subrange(space + 2, line.len() as int),
                binary_mode: true,
            },
        )
    } else {
        LineView::Entry(
            EntryView {
                hash: line.subrange(0, space),
                filename: line.subrange(space + 1, line.len() as int),
                binary_mode: false,
            },
        )
    }
}

/// What a list of lines says: the entries of its lines, in order, or the
/// first line that cannot be read.
pub open spec fn parse_lines(lines: Seq<Seq<char>>) -> Result<Seq<EntryView>, Seq<char>>
    decreases lines.len(),
{
    if lines.len() == 0 {
        Ok(seq![])
    } else {
        match parse_lines(lines.drop_last()) {
            Err(line) => Err(line),
            Ok(entries) => match parse_line(lines.last()) {
                LineView::Blank => Ok(entries),
                LineView::Malformed => Err(lines.last()),
                LineView::Entry(entry) => Ok(entries.push(entry)),
            },
        }
    }
}

/// A line that cannot be read among the first `n` is the answer for the
/// whole list.
pub proof fn lemma_malformed_stays(lines: Seq<Seq<char>>, n: int)
    requires
        0 <= n <= lines.len(),
        parse_lines(lines.take(n)) is Err,
    ensures
        parse_lines(lines) == parse_lines(lines.take(n)),
    decreases lines.len() - n,
{
    if n < lines.len() {
        assert(lines.take(n + 1).drop_last() =~= lines.take(n));
        lemma_malformed_stays(lines, n + 1);
    } else {
        assert(lines.take(n) =~= lines);
    }
}

/// The text of a digest list: for each entry a line of digest, space, `*`
/// in binary mode and a space otherwise, and the name.
pub open spec fn text_of(entries: Seq<EntryView>) -> Seq<char>
    decreases entries.len(),
{
    if entries.len() == 0 {
        seq![]
    } else {
        let entry = entries.last();
        text_of(entries.drop_last()) + entry.hash + seq![' '] + seq![
            if entry.binary_mode {
                '*'
            } else {
                ' '
            },
        ] + entry.filename + seq!['\n']
    }
}

/// What one line says, as far as it says anything.
pub enum ParsedLine {
    Blank,
    Malformed,
    Entry(ChecksumEntry),
}

impl View for ParsedLine {
    type V = LineView;

    open spec fn view(&self) -> LineView {
        match *self {
            ParsedLine::Blank => LineView::Blank,
            ParsedLine::Malformed => LineView::Malformed,
            ParsedLine::Entry(entry) => LineView::Entry(entry@),
        }
    }
}

/// Reads one line of a digest list.
pub fn read_line(line: &str) -> (r: ParsedLine)
    ensures
        r@ == parse_line(line@),
{
    let chars = chars_of(line);
    let n = chars.len();
    if check_blank(&chars) {
        return ParsedLine::Blank;
    }
    let space = find_char(&chars, ' ', 0);
    if space >= n {
        return ParsedLine::Malformed;
    }
    let hash = line.substring_char(0, space).to_owned();
    if space + 1 < n && chars[space + 1] == '*' {
        ParsedLine::Entry(
            ChecksumEntry {
                hash,
                filename: line.substring_char(space + 2, n).to_owned(),
                binary_mode: true,
            },
        )
    } else {
        ParsedLine::Entry(
            ChecksumEntry {
                hash,
                filename: line.substring_char(space + 1, n).to_owned(),
                binary_mode: false,
            },
        )
    }
}

impl SHA256SUMS {
    /// Reads a digest list from the text of its file. Blank lines are passed
    /// over. The first other line without a space is the error.
    pub fn from_file(content: &str) -> (r: Result<Self, ChecksumError>)
        ensures
            match r {
                Ok(sums) => parse_lines(lines_of(content@)) == Ok::<Seq<EntryView>, Seq<char>>(
                    sums@,
                ),
                Err(e) => parse_lines(lines_of(content@)) == Err::<Seq<EntryView>, Seq<char>>(
                    e.line_view(),
                ),
            },
    {
        let lines = split_lines(content);
        let ghost all = lines.deep_view();
        let mut entries: Vec<ChecksumEntry> = Vec::new();
        let mut i: usize = 0;
        proof {
            assert(all.take(0) =~= seq![]);
            assert(entries.deep_view() =~= seq![]);
        }
        while i < lines.len()
            invariant
                i <= lines.len(),
                all == lines.deep_view(),
                all == lines_of(content@),
                parse_lines(all.take(i as int)) == Ok::<Seq<EntryView>, Seq<char>>(
                    entries.deep_view(),
                ),
            decreases lines.len() - i,
        {
            let ghost before = entries.deep_view();
            proof {
                assert(all.take(i + 1).drop_last() =~= all.take(i as int));
                assert(all.take(i + 1).last() == lines[i as int]@);
            }
            match read_line(lines[i].as_str()) {
                ParsedLine::Blank => {},
                ParsedLine::Malformed => {
                    let line = lines[i].clone();
                    proof {
                        assert(parse_line(all.take(i + 1).last()) == LineView::Malformed);
                        assert(parse_lines(all.take(i + 1)) == Err::<Seq<EntryView>, Seq<char>>(
                            line@,
                        ));
                        lemma_malformed_stays(all, i + 1);
                    }
                    return Err(ChecksumError::InvalidFormat { line });
                },
                ParsedLine::Entry(entry) => {
                    entries.push(entry);
                    assert(entries.deep_view() =~= before.push(entry@));
                },
            }
            i += 1;
        }
        proof {
            assert(all.take(all.len() as int) =~= all);
        }
        Ok(SHA256SUMS { entries })
    }

    /// The text to write to the file of the digest list.
    pub fn write_to_file(&self) -> (r: String)
        ensures
            r@ == text_of(self@),
    {
        let ghost all = self@;
        let mut content = String::new();
        let mut i: usize = 0;
        proof {
            assert(all.take(0) =~= seq![]);
        }
        while i < self.entries.len()
            invariant
                i <= self.entries.len(),
                all == self.entries.deep_view(),
                content@ == text_of(all.take(i as int)),
            decreases self.entries.len() - i,
        {
            let entry = &self.entries[i];
            proof {
                assert(all.take(i + 1).drop_last() =~= all.take(i as int));
                assert(all.take(i + 1).last() == entry@);
                reveal_strlit(" ");
                reveal_strlit("*");
                reveal_strlit("\n");
                assert(" "@ =~= seq![' ']);
                assert("*"@ =~= seq!['*']);
                assert("\n"@ =~= seq!['\n']);
            }
            content.append(entry.hash.as_str());
            content.append(" ");
            if entry.binary_mode {
                content.append("*");
            } else {
                content.append(" ");
            }
            content.append(entry.filename.as_str());
            content.append("\n");
            i += 1;
        }
        proof {
            assert(all.take(all.len() as int) =~= all);
        }
        content
    }
}

} // verus!
