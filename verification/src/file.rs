//! The record kept for each ingested file, its lifecycle, and the hashing of
//! its content.

use vstd::prelude::*;
use vstd::slice::slice_subrange;
use crate::digest::{
    context_compute, context_consume, context_data, context_new, digest_hex, hex_lower,
    lemma_hex_lower_injective, lemma_hex_lower_len, md5_digest, CHUNK_SIZE,
};

verus! {

/// The stages a file passes through.
///
/// A file starts in `Analyzing`. Hashing takes it to `Analyzed` or `Failed`;
/// the batched duplicate check takes it through `CheckingDuplicate` to
/// `Duplicate` or `Pending`; the user moves it to `Queued`; the upload takes
/// it through `Uploading` to `Completed` or `Failed`.
#[allow(dead_code)]
#[derive(Debug, Clone, Copy, PartialEq, Eq, Structural)]
pub enum FileState {
    Analyzing,
    Analyzed,
    CheckingDuplicate,
    Pending,
    Uploading,
    Completed,
    Failed,
    Duplicate,
    Queued,
}

impl Default for FileState {
    fn default() -> (state: Self)
        ensures
            state == FileState::Analyzing,
    {
        FileState::Analyzing
    }
}

impl FileState {
    /// The name of a state as the file list shows it.
    pub open spec fn label_text(self) -> Seq<char> {
        match self {
            FileState::Analyzing => "Analyzing"@,
            FileState::Analyzed => "Analyzed"@,
            FileState::CheckingDuplicate => "Checking Duplicate"@,
            FileState::Pending => "Pending"@,
            FileState::Uploading => "Uploading"@,
            FileState::Completed => "Completed"@,
            FileState::Failed => "Failed"@,
            FileState::Duplicate => "Duplicate"@,
            FileState::Queued => "Queued"@,
        }
    }

    /// The name of this state as the file list shows it.
    pub fn label(&self) -> (text: String)
        ensures
            text@ == self.label_text(),
    {
        match self {
            FileState::Analyzing => "Analyzing".to_owned(),
            FileState::Analyzed => "Analyzed".to_owned(),
            FileState::CheckingDuplicate => "Checking Duplicate".to_owned(),
            FileState::Pending => "Pending".to_owned(),
            FileState::Uploading => "Uploading".to_owned(),
            FileState::Completed => "Completed".to_owned(),
            FileState::Failed => "Failed".to_owned(),
            FileState::Duplicate => "Duplicate".to_owned(),
            FileState::Queued => "Queued".to_owned(),
        }
    }

    /// Whether no event moves a file out of this state.
    pub open spec fn is_terminal(self) -> bool {
        self == FileState::Completed || self == FileState::Failed || self == FileState::Duplicate
    }

    /// Whether a file in this state can come to be in `next` by one event.
    /// Hashing ends in `Analyzed` or `Failed`, and the file whose hashing
    /// completes a wave is taken into the check at once; a check takes
    /// `Analyzed` files in and hands them out as `Duplicate` or `Pending`,
    /// or as `Analyzed` again where it fails; the user queues `Pending`
    /// files and starts the uploads of `Queued` ones; an upload ends in
    /// `Completed` or `Failed`.
    pub open spec fn leads_to(self, next: FileState) -> bool {
        match self {
            FileState::Analyzing => next == FileState::Analyzed || next == FileState::Failed
                || next == FileState::CheckingDuplicate,
            FileState::Analyzed => next == FileState::CheckingDuplicate,
            FileState::CheckingDuplicate => next == FileState::Duplicate || next
                == FileState::Pending || next == FileState::Analyzed,
            FileState::Pending => next == FileState::Queued,
            FileState::Queued => next == FileState::Uploading,
            FileState::Uploading => next == FileState::Completed || next == FileState::Failed,
            FileState::Completed => false,
            FileState::Failed => false,
            FileState::Duplicate => false,
        }
    }
}

/// The part of an upload that a file in `Uploading` is waiting for.
#[derive(Debug, Clone, Copy, PartialEq, Eq, Structural)]
pub enum UploadStep {
    /// A slot is being reserved.
    Reserving,
    /// The file's bytes are being sent to the reserved address.
    Sending,
    /// The upload is being completed with the file's metadata.
    Finalizing,
}

/// One ingested file.
#[derive(Debug, PartialEq, Eq)]
pub struct File {
    pub id: u64,
    pub path: String,
    pub state: FileState,
    pub md5: Option<[u8; 16]>,
    pub tags: String,
    pub source: String,
    pub description: String,
    pub remote_id: Option<String>,
    pub remote_upload_url: Option<String>,
    pub step: UploadStep,
}

/// A file as the contracts speak of it.
pub struct FileView {
    pub id: u64,
    pub path: Seq<char>,
    pub state: FileState,
    pub md5: Option<Seq<u8>>,
    pub tags: Seq<char>,
    pub source: Seq<char>,
    pub description: Seq<char>,
    pub remote_id: Option<Seq<char>>,
    pub remote_upload_url: Option<Seq<char>>,
    pub step: UploadStep,
}

/// The characters of an optional string.
pub open spec fn text_of(text: Option<String>) -> Option<Seq<char>> {
    match text {
        Some(s) => Some(s@),
        None => None,
    }
}

impl View for File {
    type V = FileView;

    open spec fn view(&self) -> FileView {
        FileView {
            id: self.id,
            path: self.path@,
            state: self.state,
            md5: match self.md5 {
                Some(digest) => Some(digest@),
                None => None,
            },
            tags: self.tags@,
            source: self.source@,
            description: self.description@,
            remote_id: text_of(self.remote_id),
            remote_upload_url: text_of(self.remote_upload_url),
            step: self.step,
        }
    }
}

/// The text that stands for a missing fingerprint.
pub open spec fn not_calculated() -> Seq<char> {
    "Not calculated"@
}

impl FileView {
    /// A file as it is right after ingestion.
    pub open spec fn fresh(id: u64, path: Seq<char>) -> FileView {
        FileView {
            id,
            path,
            state: FileState::Analyzing,
            md5: None,
            tags: Seq::empty(),
            source: Seq::empty(),
            description: Seq::empty(),
            remote_id: None,
            remote_upload_url: None,
            step: UploadStep::Reserving,
        }
    }

    /// The fingerprint of the file as text, or the text that stands for a
    /// missing one.
    pub open spec fn checksum(self) -> Seq<char> {
        match self.md5 {
            Some(digest) => hex_lower(digest),
            None => not_calculated(),
        }
    }

    /// What holds of every file the pipeline keeps: a file that is still
    /// being hashed has no fingerprint, a file that was hashed has one, and
    /// the slot of an upload is known from the moment it was reserved and
    /// not before.
    pub open spec fn wf(self) -> bool {
        &&& self.state == FileState::Analyzing ==> self.md5 is None
        &&& (self.state != FileState::Analyzing && self.state != FileState::Failed) ==> self.md5 is Some
        &&& self.md5 matches Some(digest) ==> digest.len() == 16
        &&& (self.state == FileState::Analyzing || self.state == FileState::Analyzed || self.state
            == FileState::CheckingDuplicate || self.state == FileState::Duplicate || self.state
            == FileState::Pending || self.state == FileState::Queued) ==> self.remote_id is None
            && self.remote_upload_url is None
        &&& (self.state == FileState::Uploading && self.step == UploadStep::Reserving)
            ==> self.remote_id is None && self.remote_upload_url is None
        &&& (self.state == FileState::Uploading && self.step != UploadStep::Reserving)
            ==> self.remote_id is Some && self.remote_upload_url is Some
        &&& self.state == FileState::Completed ==> self.remote_id is Some
            && self.remote_upload_url is Some
    }

    /// The file after its content was hashed to `digest`. Only a file that
    /// is being hashed takes a fingerprint.
    pub open spec fn analyzed(self, digest: Seq<u8>) -> FileView {
        if self.state == FileState::Analyzing {
            FileView { md5: Some(digest), state: FileState::Analyzed, ..self }
        } else {
            self
        }
    }
}

/// What hashing a file's content produced.
#[derive(Debug, Clone, PartialEq, Eq)]
pub struct FileAnalysis {
    id: u64,
    md5: [u8; 16],
}

impl FileAnalysis {
    /// The file whose content was hashed.
    pub closed spec fn file_id(&self) -> u64 {
        self.id
    }

    /// The file whose content was hashed.
    pub fn id(&self) -> (id: u64)
        ensures
            id == self.file_id(),
    {
        self.id
    }

    /// The digest that the analysis found.
    pub closed spec fn digest(&self) -> Seq<u8> {
        self.md5@
    }

    /// The digest as the text that names the file's content: thirty-two
    /// hexadecimal digits.
    pub fn fingerprint(&self) -> (text: String)
        ensures
            text@ == hex_lower(self.digest()),
            text@.len() == 32,
    {
        proof {
            lemma_hex_lower_len(self.md5@);
        }
        digest_hex(&self.md5)
    }

    /// A digest has sixteen bytes.
    pub proof fn lemma_digest_len(&self)
        ensures
            self.digest().len() == 16,
    {
    }
}

#[derive(Debug, Clone, PartialEq, Eq)]
pub enum FileMessage {
    Analyzed(FileAnalysis),
}

/// Why the content of a file could not be hashed.
#[derive(Debug, Clone, Copy, PartialEq, Eq, Structural)]
pub enum AnalyzeError {
    /// The file could not be opened.
    FileOpen,
    /// Reading the file failed before its end.
    FileRead,
}

pub type AnalyzeResult = Result<FileAnalysis, AnalyzeError>;

/// What the reader of a file reports to the hashing of its content.
#[derive(Debug)]
pub enum ReadEvent<'a> {
    /// The file could not be opened.
    OpenFailed,
    /// A read failed.
    ReadFailed,
    /// A read returned these bytes; none at the end of the file.
    Data(&'a [u8]),
}

/// The hashing of one file's content, fed chunk by chunk.
pub struct Analyzer {
    id: u64,
    context: md5::Context,
}

/// Where the hashing of a file stands after an event.
pub enum AnalyzeStep {
    /// More of the file is to be read.
    Continue(Analyzer),
    /// The hashing has ended, with the analysis or with the reason it failed.
    Done(AnalyzeResult),
}

impl Analyzer {
    /// The file that is being hashed.
    pub closed spec fn file_id(&self) -> u64 {
        self.id
    }

    /// The bytes taken in so far.
    pub closed spec fn consumed(&self) -> Seq<u8> {
        context_data(self.context)
    }

    /// Starts hashing the content of file `id`.
    pub fn new(id: u64) -> (analyzer: Self)
        ensures
            analyzer.file_id() == id,
            analyzer.consumed() == Seq::<u8>::empty(),
    {
        Analyzer { id, context: context_new() }
    }

    /// Takes in the next bytes of the file.
    pub fn consume(&mut self, data: &[u8])
        ensures
            final(self).file_id() == old(self).file_id(),
            final(self).consumed() == old(self).consumed() + data@,
    {
        context_consume(&mut self.context, data);
    }

    /// Ends the hashing: the analysis holds the digest of all the bytes taken
    /// in, under the file's identifier.
    pub fn finish(self) -> (analysis: FileAnalysis)
        ensures
            analysis.file_id() == self.file_id(),
            analysis.digest() == md5_digest(self.consumed()),
    {
        FileAnalysis { id: self.id, md5: context_compute(self.context) }
    }

    /// Handles one report of the file's reader.
    ///
    /// A failure to open or to read ends the hashing with the matching error,
    /// and what was read before is dropped. An empty read is the end of the
    /// file and ends the hashing with the digest. Any other read is taken in
    /// and the hashing goes on.
    pub fn advance(self, event: ReadEvent<'_>) -> (step: AnalyzeStep)
        ensures
            event is OpenFailed ==> step == AnalyzeStep::Done(Err(AnalyzeError::FileOpen)),
            event is ReadFailed ==> step == AnalyzeStep::Done(Err(AnalyzeError::FileRead)),
            event matches ReadEvent::Data(data) ==> (if data@.len() == 0 {
                step matches AnalyzeStep::Done(Ok(analysis)) && analysis.file_id() == self.file_id()
                    && analysis.digest() == md5_digest(self.consumed())
            } else {
                step matches AnalyzeStep::Continue(next) && next.file_id() == self.file_id()
                    && next.consumed() == self.consumed() + data@
            }),
    {
        match event {
            ReadEvent::OpenFailed => AnalyzeStep::Done(Err(AnalyzeError::FileOpen)),
            ReadEvent::ReadFailed => AnalyzeStep::Done(Err(AnalyzeError::FileRead)),
            ReadEvent::Data(data) => {
                if data.len() == 0 {
                    AnalyzeStep::Done(Ok(self.finish()))
                } else {
                    let mut next = self;
                    next.consume(data);
                    AnalyzeStep::Continue(next)
                }
            },
        }
    }
}

/// The first `limit` characters of a name followed by three dots where the
/// name is longer than `limit`, the name itself where it is not.
pub open spec fn truncated(name: Seq<char>, limit: int) -> Seq<char> {
    if name.len() > limit {
        name.subrange(0, limit) + "..."@
    } else {
        name
    }
}

/// The number of characters of a file name that the file list shows.
pub const NAME_LIMIT: usize = 75;

/// The name of a file as the file list shows it: cut to `NAME_LIMIT`
/// characters, with three dots in place of the rest.
pub fn truncate_name(name: &str) -> (shown: String)
    ensures
        shown@ == truncated(name@, NAME_LIMIT as int),
        shown@.len() <= NAME_LIMIT + 3,
{
    proof {
        reveal_strlit("...");
    }
    let length = name.unicode_len();
    if length > NAME_LIMIT {
        name.substring_char(0, NAME_LIMIT).to_owned().concat("...")
    } else {
        name.to_owned()
    }
}

/// The final component of `path` as `std::path::Path::file_name` gives it,
/// as text, or `None` where the path has none: a function of the path's
/// text alone.
pub uninterp spec fn final_component(path: Seq<char>) -> Option<Seq<char>>;

/// `std::path::Path::file_name`, as text: the final component of `path`, or
/// `None` where the path has none.
#[verifier::external_body]
fn path_file_name(path: &str) -> (name: Option<String>)
    ensures
        text_of(name) == final_component(path@),
{
    match std::path::Path::new(path).file_name() {
        Some(name) => name.to_str().map(str::to_owned),
        None => None,
    }
}

/// The name of the file at `path` as the file list shows it: the final
/// component of the path, cut to `NAME_LIMIT` characters with three dots in
/// place of the rest; none where the path has no final component.
pub open spec fn shown_name(path: Seq<char>) -> Option<Seq<char>> {
    match final_component(path) {
        Some(name) => Some(truncated(name, NAME_LIMIT as int)),
        None => None,
    }
}

impl File {
    /// The record of a file right after ingestion.
    pub fn new(id: u64, path: String) -> (file: Self)
        ensures
            file@ == FileView::fresh(id, path@),
    {
        File {
            id,
            path,
            state: FileState::Analyzing,
            md5: None,
            tags: String::new(),
            source: String::new(),
            description: String::new(),
            remote_id: None,
            remote_upload_url: None,
            step: UploadStep::Reserving,
        }
    }

    /// The final component of the file's path, where it has one.
    #[allow(dead_code)]
    pub fn file_name(&self) -> (name: Option<String>)
        ensures
            text_of(name) == final_component(self@.path),
    {
        path_file_name(self.path.as_str())
    }

    /// The file's name as the file list shows it, where its path has one:
    /// the final component of the path, cut as `truncate_name` cuts it.
    pub fn truncated_file_name(&self) -> (shown: Option<String>)
        ensures
            text_of(shown) == shown_name(self@.path),
            shown matches Some(text) ==> text@.len() <= NAME_LIMIT + 3,
    {
        match self.file_name() {
            Some(name) => Some(truncate_name(name.as_str())),
            None => None,
        }
    }

    /// The file's fingerprint as text, or `Not calculated` while it has none.
    pub fn get_md5(&self) -> (text: String)
        ensures
            text@ == self@.checksum(),
    {
        match &self.md5 {
            Some(digest) => digest_hex(digest),
            None => "Not calculated".to_owned(),
        }
    }

    /// Applies the result of hashing to a file that is being hashed: it gets
    /// its fingerprint and becomes `Analyzed`. A file in any other state
    /// already has its fingerprint, or will never have one, and is left as
    /// it is.
    pub fn update(&mut self, message: FileMessage)
        ensures
            message matches FileMessage::Analyzed(analysis) && final(self)@ == old(self)@.analyzed(
                analysis.digest(),
            ),
            old(self)@.wf() ==> final(self)@.wf(),
    {
        match message {
            FileMessage::Analyzed(analysis) => {
                if self.state == FileState::Analyzing {
                    self.md5 = Some(analysis.md5);
                    self.state = FileState::Analyzed;
                }
            },
        }
    }

    /// Hashes `content` as the content of file `id`, taking it in
    /// `CHUNK_SIZE` bytes at a time. The result depends on the bytes alone.
    pub fn analyze_file(id: u64, content: &[u8]) -> (analysis: FileAnalysis)
        ensures
            analysis.file_id() == id,
            analysis.digest() == md5_digest(content@),
    {
        let mut analyzer = Analyzer::new(id);
        let mut offset: usize = 0;
        while offset < content.len()
            invariant
                offset <= content.len(),
                analyzer.file_id() == id,
                analyzer.consumed() == content@.subrange(0, offset as int),
            decreases content.len() - offset,
        {
            let rest = content.len() - offset;
            let size = if rest < CHUNK_SIZE {
                rest
            } else {
                CHUNK_SIZE
            };
            let chunk = slice_subrange(content, offset, offset + size);
            analyzer.consume(chunk);
            assert(content@.subrange(0, offset as int) + content@.subrange(
                offset as int,
                offset + size,
            ) =~= content@.subrange(0, offset + size));
            offset = offset + size;
        }
        assert(content@.subrange(0, offset as int) =~= content@);
        analyzer.finish()
    }
}

/// Hashing is a function of the content: two analyses of the same bytes,
/// however their readers cut the bytes into chunks, carry the same digest
/// and so the same fingerprint.
pub proof fn lemma_same_content_same_fingerprint(
    first: FileAnalysis,
    second: FileAnalysis,
    content: Seq<u8>,
)
    requires
        first.digest() == md5_digest(content),
        second.digest() == md5_digest(content),
    ensures
        first.digest() == second.digest(),
        hex_lower(first.digest()) == hex_lower(second.digest()),
{
}

/// Two analyses have the same fingerprint only where they have the same
/// digest: matching files by the text of their fingerprints matches them by
/// their digests.
pub proof fn lemma_same_fingerprint_same_digest(first: FileAnalysis, second: FileAnalysis)
    requires
        hex_lower(first.digest()) == hex_lower(second.digest()),
    ensures
        first.digest() == second.digest(),
{
    lemma_hex_lower_injective(first.digest(), second.digest());
}

} // verus!
