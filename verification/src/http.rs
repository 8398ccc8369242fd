//! Reading a download response: the file name it announces, whether the file
//! on disk can be kept, and how the body reaches its final place.

use crate::text::{concat_str, decimal, parse_u64, parsed_u64, push_decimal, strip_prefix, without_prefix};
use vstd::prelude::*;
use vstd::string::*;
use vstd::utf8::{
    decode_utf8, encode_utf8, encode_utf8_decode_utf8, encode_utf8_valid_utf8, is_ascii_chars,
    is_ascii_chars_encode_utf8, valid_utf8,
};

verus! {

/// Why a download did not end with a file in place.
#[derive(Debug, Clone, Copy, PartialEq, Eq, Structural)]
pub enum FetchError {
    /// The response status, which was not in the range 200 to 299.
    Status(u16),
    /// The response has no length header.
    MissingLength,
    /// The length header is not the decimal notation of a 64-bit number.
    InvalidLength,
    /// The response has no content-disposition header.
    MissingDisposition,
    /// The content-disposition header is not text.
    InvalidDisposition,
    /// The content-disposition header does not announce an attachment.
    NotAttachment,
    /// The content-disposition header names no file.
    NoFilename,
    /// The target path is taken by something that is not a regular file.
    NotRegularFile,
    /// The page holds no element with embedded data.
    NoPageData,
    /// The page's data element lacks the attribute that holds the data.
    NoDataBlob,
    /// The page's embedded data cannot be read.
    InvalidPageData,
    /// The asset page offers no download at all.
    NoDownloadItems,
    /// The asset page does not offer the requested encoding.
    FormatUnavailable,
    /// The request or the body stream failed.
    Transport,
    /// The directory or the file could not be written.
    Storage,
}

/// The classified result of fetching one asset.
#[derive(Debug, Clone, Copy, PartialEq, Eq, Structural)]
pub enum FetchOutcome {
    /// The file did not exist and was written; the payload is its size in bytes.
    Downloaded(u64),
    /// A file of the announced length was already in place; nothing was read.
    SkippedIdentical,
    /// A file of another length was replaced; the payload is the new size in bytes.
    Redownloaded(u64),
    /// No file was put in place.
    Failed(FetchError),
}

/// The disposition type of a content-disposition header.
#[derive(Debug, Clone, PartialEq, Eq)]
pub enum DispositionType {
    Inline,
    Attachment,
    FormData,
    /// Any other type, in lower case.
    Extension(String),
}

/// A disposition type with its text as a sequence of characters.
pub enum DispositionKind {
    Inline,
    Attachment,
    FormData,
    Extension(Seq<char>),
}

/// A content-disposition header taken apart.
#[derive(Debug, Clone, PartialEq, Eq)]
pub struct ContentDisposition {
    pub disposition: DispositionType,
    /// The parameters as pairs of a lower-case name and a value. What the
    /// parser hands over has no name twice; where a value built by hand has,
    /// the first pair of a name is the one that counts.
    pub params: Vec<(String, String)>,
}

impl DispositionType {
    pub open spec fn view(&self) -> DispositionKind {
        match self {
            DispositionType::Inline => DispositionKind::Inline,
            DispositionType::Attachment => DispositionKind::Attachment,
            DispositionType::FormData => DispositionKind::FormData,
            DispositionType::Extension(s) => DispositionKind::Extension(s@),
        }
    }
}

/// Pairs of strings as pairs of texts.
pub open spec fn pairs_view(params: Seq<(String, String)>) -> Seq<(Seq<char>, Seq<char>)> {
    Seq::new(params.len(), |i: int| (params[i].0@, params[i].1@))
}

impl ContentDisposition {
    /// The disposition type and the parameters.
    pub open spec fn view(&self) -> (DispositionKind, Seq<(Seq<char>, Seq<char>)>) {
        (self.disposition@, pairs_view(self.params@))
    }
}

/// Whether no two of the parameters have the same name.
pub open spec fn names_distinct(params: Seq<(Seq<char>, Seq<char>)>) -> bool {
    forall|i: int, j: int|
        0 <= i < j < params.len() ==> (#[trigger] params[i]).0 != (#[trigger] params[j]).0
}

/// What `mailparse::parse_content_disposition` makes of a header value: the
/// disposition type, and the parameters as pairs of name and value in the
/// order of their names.
pub uninterp spec fn parsed_disposition(header: Seq<char>) -> (
    DispositionKind,
    Seq<(Seq<char>, Seq<char>)>,
);

/// Calls `mailparse::parse_content_disposition`.
///
/// Nothing is claimed of how the header is read beyond that the result is a
/// function of the header's text, and that no parameter name occurs twice,
/// since the crate keeps the parameters in a map. The type and every
/// parameter are handed on as they come.
#[verifier::external_body]
fn parse_content_disposition(header: &str) -> (r: ContentDisposition)
    ensures
        r@ == parsed_disposition(header@),
        names_distinct(r@.1),
{
    let parsed = mailparse::parse_content_disposition(header);
    let disposition = match parsed.disposition {
        mailparse::DispositionType::Inline => DispositionType::Inline,
        mailparse::DispositionType::Attachment => DispositionType::Attachment,
        mailparse::DispositionType::FormData => DispositionType::FormData,
        mailparse::DispositionType::Extension(s) => DispositionType::Extension(s),
    };
    ContentDisposition { disposition, params: parsed.params.into_iter().collect() }
}

/// The value of the first parameter named `key`, if there is one.
pub open spec fn param_value(params: Seq<(Seq<char>, Seq<char>)>, key: Seq<char>) -> Option<
    Seq<char>,
>
    decreases params.len(),
{
    if params.len() == 0 {
        None
    } else if params[0].0 == key {
        Some(params[0].1)
    } else {
        param_value(params.skip(1), key)
    }
}

/// The value of the first parameter named `key`, if there is one.
pub fn find_param<'a>(params: &'a Vec<(String, String)>, key: &str) -> (r: Option<&'a String>)
    ensures
        match r {
            Some(v) => param_value(pairs_view(params@), key@) == Some(v@),
            None => param_value(pairs_view(params@), key@) is None,
        },
{
    let wanted = key.to_owned();
    let ghost all = pairs_view(params@);
    let mut i: usize = 0;
    proof {
        assert(all.skip(0) =~= all);
    }
    while i < params.len()
        invariant
            i <= params.len(),
            wanted@ == key@,
            all == pairs_view(params@),
            param_value(all, key@) == param_value(all.skip(i as int), key@),
        decreases params.len() - i,
    {
        proof {
            assert(all.skip(i as int)[0] == all[i as int]);
            assert(all.skip(i as int).skip(1) =~= all.skip(i + 1));
        }
        if params[i].0 == wanted {
            return Some(&params[i].1);
        }
        i = i + 1;
    }
    proof {
        assert(all.skip(i as int).len() == 0);
    }
    None
}

/// Whether `b` is the ASCII code of a hexadecimal digit.
pub open spec fn is_hex_digit(b: u8) -> bool {
    (0x30 <= b <= 0x39) || (0x41 <= b <= 0x46) || (0x61 <= b <= 0x66)
}

/// The number that the hexadecimal digit with ASCII code `b` stands for.
pub open spec fn hex_value(b: u8) -> int {
    if 0x30 <= b <= 0x39 {
        b - 0x30
    } else if 0x41 <= b <= 0x46 {
        b - 0x41 + 10
    } else {
        b - 0x61 + 10
    }
}

/// Percent-decoding of bytes: each `%` that two hexadecimal digits follow
/// stands, with them, for the byte that the digits write; every other byte
/// stands for itself.
pub open spec fn percent_decoded(b: Seq<u8>) -> Seq<u8>
    decreases b.len(),
{
    if b.len() == 0 {
        Seq::empty()
    } else if b[0] == 0x25 && b.len() >= 3 && is_hex_digit(b[1]) && is_hex_digit(b[2]) {
        seq![(hex_value(b[1]) * 16 + hex_value(b[2])) as u8] + percent_decoded(b.skip(3))
    } else {
        seq![b[0]] + percent_decoded(b.skip(1))
    }
}

/// The text that the percent-decoded UTF-8 bytes of `s` spell, if they are
/// well-formed UTF-8.
pub open spec fn percent_decoded_text(s: Seq<char>) -> Option<Seq<char>> {
    let bytes = percent_decoded(encode_utf8(s));
    if valid_utf8(bytes) {
        Some(decode_utf8(bytes))
    } else {
        None
    }
}

/// Calls `percent_encoding::percent_decode_str` and then `decode_utf8` on
/// what it gives.
///
/// The crate decodes every `%` that two hexadecimal digits follow and leaves
/// all other bytes alone; the decoded bytes are then accepted exactly if they
/// are well-formed UTF-8.
#[verifier::external_body]
fn percent_decode_utf8(s: &str) -> (r: Option<String>)
    ensures
        match r {
            Some(t) => percent_decoded_text(s@) == Some(t@),
            None => percent_decoded_text(s@) is None,
        },
{
    percent_encoding::percent_decode_str(s).decode_utf8().ok().map(|t| t.into_owned())
}

/// Bytes without a `%` stand for themselves.
proof fn lemma_percent_free_bytes(b: Seq<u8>)
    requires
        forall|i: int| 0 <= i < b.len() ==> b[i] != 0x25,
    ensures
        percent_decoded(b) == b,
    decreases b.len(),
{
    if b.len() > 0 {
        lemma_percent_free_bytes(b.skip(1));
        assert(seq![b[0]] + b.skip(1) =~= b);
    }
}

/// A text of ASCII characters without a `%` is its own percent-decoding.
pub proof fn lemma_plain_text_decodes_to_itself(s: Seq<char>)
    requires
        is_ascii_chars(s),
        !s.contains('%'),
    ensures
        percent_decoded_text(s) == Some(s),
{
    let bytes = encode_utf8(s);
    is_ascii_chars_encode_utf8(s);
    assert forall|i: int| 0 <= i < bytes.len() implies bytes[i] != 0x25 by {
        assert(s.contains(s[i]));
        assert(bytes[i] == s[i] as u8);
        if bytes[i] == 0x25 {
            assert(s[i] as u32 == 0x25);
            assert(s[i] == '%');
        }
    }
    lemma_percent_free_bytes(bytes);
    encode_utf8_valid_utf8(s);
    encode_utf8_decode_utf8(s);
}

/// The file name that the extended parameter `filename*` gives: its value
/// must begin with `UTF-8''`, and the rest is percent-decoded.
pub open spec fn extended_filename(params: Seq<(Seq<char>, Seq<char>)>) -> Option<Seq<char>> {
    match param_value(params, "filename*"@) {
        Some(value) => match without_prefix(value, "UTF-8''"@) {
            Some(rest) => percent_decoded_text(rest),
            None => None,
        },
        None => None,
    }
}

/// The file name that the plain parameter `filename` gives: its value as it
/// stands.
pub open spec fn plain_filename(params: Seq<(Seq<char>, Seq<char>)>) -> Option<Seq<char>> {
    param_value(params, "filename"@)
}

/// The file name that a parsed content-disposition header announces.
///
/// Only an attachment names a file. The extended parameter is preferred and
/// percent-decoded; the plain one is used, undecoded, where the extended one
/// is absent or unusable.
pub open spec fn attachment_filename(
    kind: DispositionKind,
    params: Seq<(Seq<char>, Seq<char>)>,
) -> Result<Seq<char>, FetchError> {
    if kind is Attachment {
        match extended_filename(params) {
            Some(name) => Ok(name),
            None => match plain_filename(params) {
                Some(name) => Ok(name),
                None => Err(FetchError::NoFilename),
            },
        }
    } else {
        Err(FetchError::NotAttachment)
    }
}

/// An attachment that has only the plain parameter announces its value,
/// whatever it holds, as its file name.
pub proof fn lemma_plain_filename_is_announced(
    kind: DispositionKind,
    params: Seq<(Seq<char>, Seq<char>)>,
    name: Seq<char>,
)
    requires
        kind is Attachment,
        param_value(params, "filename*"@) is None,
        param_value(params, "filename"@) == Some(name),
    ensures
        attachment_filename(kind, params) == Ok::<Seq<char>, FetchError>(name),
{
}

/// An attachment whose extended parameter is `UTF-8''` followed by ASCII
/// characters without a `%` announces those characters as its file name,
/// whatever the plain parameter holds.
pub proof fn lemma_extended_filename_is_preferred(
    kind: DispositionKind,
    params: Seq<(Seq<char>, Seq<char>)>,
    name: Seq<char>,
)
    requires
        kind is Attachment,
        param_value(params, "filename*"@) == Some("UTF-8''"@ + name),
        is_ascii_chars(name),
        !name.contains('%'),
    ensures
        attachment_filename(kind, params) == Ok::<Seq<char>, FetchError>(name),
{
    let prefix = "UTF-8''"@;
    let value = prefix + name;
    assert(value.take(prefix.len() as int) =~= prefix);
    assert(value.skip(prefix.len() as int) =~= name);
    lemma_plain_text_decodes_to_itself(name);
}

/// Whether `r` is the result `model` with its text as a string.
pub open spec fn names_agree(r: Result<String, FetchError>, model: Result<Seq<char>, FetchError>) -> bool {
    match (r, model) {
        (Ok(s), Ok(m)) => s@ == m,
        (Err(e), Err(f)) => e == f,
        _ => false,
    }
}

/// The file name that a header, already taken apart, announces.
pub fn filename_from_parsed(parsed: &ContentDisposition) -> (r: Result<String, FetchError>)
    ensures
        names_agree(r, attachment_filename(parsed@.0, parsed@.1)),
{
    match parsed.disposition {
        DispositionType::Attachment => {},
        _ => {
            return Err(FetchError::NotAttachment);
        },
    }
    let extended = match find_param(&parsed.params, "filename*") {
        None => None,
        Some(value) => match strip_prefix(value.as_str(), "UTF-8''") {
            None => None,
            Some(rest) => percent_decode_utf8(rest.as_str()),
        },
    };
    match extended {
        Some(name) => Ok(name),
        None => {
            match find_param(&parsed.params, "filename") {
                Some(value) => Ok(value.clone()),
                None => Err(FetchError::NoFilename),
            }
        },
    }
}

/// The file name that the content-disposition header `cd` announces.
///
/// The header must announce an attachment. Its parameter `filename*` is used
/// if it begins with `UTF-8''` and its percent-decoded rest is well-formed
/// UTF-8; otherwise the parameter `filename` is used as it stands.
pub fn filename_from_disposition(cd: &str) -> (r: Result<String, FetchError>)
    ensures
        names_agree(r, attachment_filename(parsed_disposition(cd@).0, parsed_disposition(cd@).1)),
{
    let parsed = parse_content_disposition(cd);
    filename_from_parsed(&parsed)
}

/// One header of a response, as the transport hands it over.
#[derive(Debug, Clone, PartialEq, Eq)]
pub enum HeaderField {
    /// The response does not carry the header.
    Absent,
    /// The header is there, but its value is not text.
    Opaque,
    /// The header's value.
    Text(String),
}

/// What a response says of itself before its body is read.
#[derive(Debug, Clone, PartialEq, Eq)]
pub struct ResponseHead {
    pub status: u16,
    pub content_length: HeaderField,
    pub content_disposition: HeaderField,
}

/// What is to be fetched: the file's name and its announced length in bytes.
#[derive(Debug, Clone, PartialEq, Eq)]
pub struct FetchPlan {
    pub filename: String,
    pub length: u64,
}

/// Whether a status code reports success.
pub open spec fn is_success(status: u16) -> bool {
    200 <= status <= 299
}

/// The announced length of a response, or the reason why it has none.
pub open spec fn announced_length(field: HeaderField) -> Result<u64, FetchError> {
    match field {
        HeaderField::Absent => Err(FetchError::MissingLength),
        HeaderField::Opaque => Err(FetchError::InvalidLength),
        HeaderField::Text(t) => match parsed_u64(t@) {
            Some(n) => Ok(n),
            None => Err(FetchError::InvalidLength),
        },
    }
}

/// The file name that a response announces, or the reason why it has none.
pub open spec fn announced_name(field: HeaderField) -> Result<Seq<char>, FetchError> {
    match field {
        HeaderField::Absent => Err(FetchError::MissingDisposition),
        HeaderField::Opaque => Err(FetchError::InvalidDisposition),
        HeaderField::Text(t) => attachment_filename(
            parsed_disposition(t@).0,
            parsed_disposition(t@).1,
        ),
    }
}

/// What a response head asks for. The status is looked at first, then the
/// length, then the file name; the first fault found is the one reported.
pub open spec fn planned(head: ResponseHead) -> Result<(Seq<char>, u64), FetchError> {
    if !is_success(head.status) {
        Err(FetchError::Status(head.status))
    } else {
        match announced_length(head.content_length) {
            Err(e) => Err(e),
            Ok(length) => match announced_name(head.content_disposition) {
                Err(e) => Err(e),
                Ok(name) => Ok((name, length)),
            },
        }
    }
}

/// Whether `r` is the result `model` with its file name as a string.
pub open spec fn plans_agree(
    r: Result<FetchPlan, FetchError>,
    model: Result<(Seq<char>, u64), FetchError>,
) -> bool {
    match (r, model) {
        (Ok(p), Ok(m)) => p.filename@ == m.0 && p.length == m.1,
        (Err(e), Err(f)) => e == f,
        _ => false,
    }
}

/// Reads the announced length of a response from its length header.
pub fn content_length(field: &HeaderField) -> (r: Result<u64, FetchError>)
    ensures
        r == announced_length(*field),
{
    match field {
        HeaderField::Absent => Err(FetchError::MissingLength),
        HeaderField::Opaque => Err(FetchError::InvalidLength),
        HeaderField::Text(t) => match parse_u64(t.as_str()) {
            Some(n) => Ok(n),
            None => Err(FetchError::InvalidLength),
        },
    }
}

/// Decides from the head of a response what is to be fetched.
///
/// A status outside 200 to 299 fails with that status. Then the length header
/// must be there and hold a number, and the content-disposition header must
/// be there and name an attachment's file.
pub fn plan_fetch(head: &ResponseHead) -> (r: Result<FetchPlan, FetchError>)
    ensures
        plans_agree(r, planned(*head)),
{
    if head.status < 200 || head.status > 299 {
        return Err(FetchError::Status(head.status));
    }
    let length = match content_length(&head.content_length) {
        Ok(n) => n,
        Err(e) => {
            return Err(e);
        },
    };
    let filename = match &head.content_disposition {
        HeaderField::Absent => {
            return Err(FetchError::MissingDisposition);
        },
        HeaderField::Opaque => {
            return Err(FetchError::InvalidDisposition);
        },
        HeaderField::Text(t) => match filename_from_disposition(t.as_str()) {
            Ok(name) => name,
            Err(e) => {
                return Err(e);
            },
        },
    };
    Ok(FetchPlan { filename, length })
}

/// What is found at the path where the file is to go.
#[derive(Debug, Clone, Copy, PartialEq, Eq, Structural)]
pub enum TargetEntry {
    /// Nothing is there.
    Absent,
    /// A regular file of this many bytes.
    File(u64),
    /// Something that is not a regular file.
    Other,
}

/// What to do about the file on disk before the body is read.
#[derive(Debug, Clone, Copy, PartialEq, Eq, Structural)]
pub enum Resume {
    /// Create the destination directory with its parents, then write the file.
    CreateAndWrite,
    /// Write the file, which does not exist yet.
    Write,
    /// Replace the file, whose length is not the announced one.
    Overwrite,
    /// Keep the file, whose length is the announced one; do not read the body.
    Skip,
    /// Leave the entry alone and fail: it is not a regular file.
    Refuse,
}

/// The rule by which an existing file is kept, replaced or refused.
pub open spec fn resume_rule(directory_exists: bool, entry: TargetEntry, length: u64) -> Resume {
    if !directory_exists {
        Resume::CreateAndWrite
    } else {
        match entry {
            TargetEntry::Absent => Resume::Write,
            TargetEntry::File(n) => if n == length {
                Resume::Skip
            } else {
                Resume::Overwrite
            },
            TargetEntry::Other => Resume::Refuse,
        }
    }
}

/// Decides what to do about the file on disk, from whether the destination
/// directory exists, what is at the target path, and the announced length.
pub fn resume_decision(directory_exists: bool, entry: TargetEntry, length: u64) -> (r: Resume)
    ensures
        r == resume_rule(directory_exists, entry, length),
{
    if !directory_exists {
        Resume::CreateAndWrite
    } else {
        match entry {
            TargetEntry::Absent => Resume::Write,
            TargetEntry::File(n) => if n == length {
                Resume::Skip
            } else {
                Resume::Overwrite
            },
            TargetEntry::Other => Resume::Refuse,
        }
    }
}

/// Where a transfer stands.
#[derive(Debug, Clone, Copy, PartialEq, Eq, Structural)]
pub enum Phase {
    /// The body is being read into the temporary file.
    Receiving,
    /// The body is complete and the temporary file is being promoted.
    Promoting,
    /// The transfer is over, with this outcome.
    Finished(FetchOutcome),
}

/// What happened while the body of a response was stored.
#[derive(Debug, Clone, Copy, PartialEq, Eq, Structural)]
pub enum BodyEvent {
    /// A chunk of this many bytes was read and written to the temporary file.
    Stored(u64),
    /// Reading the body failed.
    ReadFailed,
    /// Writing to the temporary file failed.
    WriteFailed,
    /// The body ended.
    EndOfBody,
    /// The temporary file was moved to the final path.
    Promoted,
    /// Moving the temporary file to the final path failed.
    PromoteFailed,
}

/// What the caller is to do next.
#[derive(Debug, Clone, Copy, PartialEq, Eq, Structural)]
pub enum Directive {
    /// Read the next chunk and write it to the temporary file.
    KeepReading,
    /// Move the temporary file to the final path.
    Promote,
    /// Drop the temporary file; the final path stays as it was.
    Abandon,
    /// Nothing is left to do.
    Stop,
}

/// The bookkeeping of one transfer: a body is streamed into a temporary file,
/// which is moved to the final path only once the body is complete.
#[derive(Debug, Clone, Copy, PartialEq, Eq, Structural)]
pub struct Transfer {
    /// Whether a file of another length is being replaced.
    pub replacing: bool,
    /// The number of bytes stored so far, at most `u64::MAX`.
    pub stored: u64,
    pub phase: Phase,
}

/// The sum of two byte counts, held at `u64::MAX`.
pub open spec fn capped_sum(a: u64, b: u64) -> u64 {
    if a + b > u64::MAX {
        u64::MAX
    } else {
        (a + b) as u64
    }
}

/// The state of a transfer after an event, and what the caller is to do then.
pub open spec fn transfer_step(t: Transfer, event: BodyEvent) -> (Transfer, Directive) {
    match t.phase {
        Phase::Receiving => match event {
            BodyEvent::Stored(n) => (
                Transfer { stored: capped_sum(t.stored, n), ..t },
                Directive::KeepReading,
            ),
            BodyEvent::EndOfBody => (Transfer { phase: Phase::Promoting, ..t }, Directive::Promote),
            BodyEvent::WriteFailed => (
                Transfer { phase: Phase::Finished(FetchOutcome::Failed(FetchError::Storage)), ..t },
                Directive::Abandon,
            ),
            _ => (
                Transfer { phase: Phase::Finished(FetchOutcome::Failed(FetchError::Transport)), ..t },
                Directive::Abandon,
            ),
        },
        Phase::Promoting => match event {
            BodyEvent::Promoted => (
                Transfer {
                    phase: Phase::Finished(
                        if t.replacing {
                            FetchOutcome::Redownloaded(t.stored)
                        } else {
                            FetchOutcome::Downloaded(t.stored)
                        },
                    ),
                    ..t
                },
                Directive::Stop,
            ),
            _ => (
                Transfer { phase: Phase::Finished(FetchOutcome::Failed(FetchError::Storage)), ..t },
                Directive::Stop,
            ),
        },
        Phase::Finished(_) => (t, Directive::Stop),
    }
}

/// The outcome of a fetch that ends before any body is read, if the decision
/// is one of those.
pub open spec fn settled_outcome(resume: Resume) -> Option<FetchOutcome> {
    match resume {
        Resume::Skip => Some(FetchOutcome::SkippedIdentical),
        Resume::Refuse => Some(FetchOutcome::Failed(FetchError::NotRegularFile)),
        _ => None,
    }
}

impl Transfer {
    /// Begins a transfer for a decision that asks for the body, and settles
    /// the outcome at once for one that does not.
    pub fn begin(resume: Resume) -> (r: Result<Transfer, FetchOutcome>)
        ensures
            match r {
                Ok(t) => settled_outcome(resume) is None && t == (Transfer {
                    replacing: resume == Resume::Overwrite,
                    stored: 0,
                    phase: Phase::Receiving,
                }),
                Err(outcome) => settled_outcome(resume) == Some(outcome),
            },
    {
        match resume {
            Resume::Skip => Err(FetchOutcome::SkippedIdentical),
            Resume::Refuse => Err(FetchOutcome::Failed(FetchError::NotRegularFile)),
            Resume::Overwrite => Ok(Transfer { replacing: true, stored: 0, phase: Phase::Receiving }),
            _ => Ok(Transfer { replacing: false, stored: 0, phase: Phase::Receiving }),
        }
    }

    /// Takes note of an event and says what to do next.
    pub fn on_event(&mut self, event: BodyEvent) -> (d: Directive)
        ensures
            (*final(self), d) == transfer_step(*old(self), event),
    {
        match self.phase {
            Phase::Receiving => match event {
                BodyEvent::Stored(n) => {
                    self.stored = self.stored.saturating_add(n);
                    Directive::KeepReading
                },
                BodyEvent::EndOfBody => {
                    self.phase = Phase::Promoting;
                    Directive::Promote
                },
                BodyEvent::WriteFailed => {
                    self.phase = Phase::Finished(FetchOutcome::Failed(FetchError::Storage));
                    Directive::Abandon
                },
                _ => {
                    self.phase = Phase::Finished(FetchOutcome::Failed(FetchError::Transport));
                    Directive::Abandon
                },
            },
            Phase::Promoting => match event {
                BodyEvent::Promoted => {
                    let outcome = if self.replacing {
                        FetchOutcome::Redownloaded(self.stored)
                    } else {
                        FetchOutcome::Downloaded(self.stored)
                    };
                    self.phase = Phase::Finished(outcome);
                    Directive::Stop
                },
                _ => {
                    self.phase = Phase::Finished(FetchOutcome::Failed(FetchError::Storage));
                    Directive::Stop
                },
            },
            Phase::Finished(_) => Directive::Stop,
        }
    }

    /// The outcome, once the transfer is over.
    pub fn outcome(&self) -> (r: Option<FetchOutcome>)
        ensures
            r == (match self.phase {
                Phase::Finished(o) => Some(o),
                _ => None,
            }),
    {
        match self.phase {
            Phase::Finished(o) => Some(o),
            _ => None,
        }
    }
}

/// The state of a transfer after a run of events.
pub open spec fn transfer_after(t: Transfer, events: Seq<BodyEvent>) -> Transfer
    decreases events.len(),
{
    if events.len() == 0 {
        t
    } else {
        transfer_step(transfer_after(t, events.drop_last()), events.last()).0
    }
}

/// What the caller is told on the event at position `i` of a run.
pub open spec fn directive_at(t: Transfer, events: Seq<BodyEvent>, i: int) -> Directive {
    transfer_step(transfer_after(t, events.take(i)), events[i]).1
}

/// Whether each of the first `n` events reports a stored chunk.
pub open spec fn all_stored(events: Seq<BodyEvent>, n: int) -> bool {
    forall|j: int| 0 <= j < n ==> (#[trigger] events[j]) is Stored
}

/// The number of bytes that the stored chunks of a run hold together.
pub open spec fn stored_total(events: Seq<BodyEvent>) -> nat
    decreases events.len(),
{
    if events.len() == 0 {
        0
    } else {
        stored_total(events.drop_last()) + (match events.last() {
            BodyEvent::Stored(n) => n as nat,
            _ => 0,
        })
    }
}

/// `n`, held at `u64::MAX`.
pub open spec fn capped(n: nat) -> u64 {
    if n > u64::MAX {
        u64::MAX
    } else {
        n as u64
    }
}

/// While nothing but stored chunks is reported, a transfer goes on
/// receiving and counts their bytes; after anything else it has left that
/// phase for good.
pub proof fn lemma_receiving_while_stored(t: Transfer, events: Seq<BodyEvent>)
    requires
        t.phase is Receiving,
    ensures
        all_stored(events, events.len() as int) ==> transfer_after(t, events) == (Transfer {
            stored: capped(t.stored as nat + stored_total(events)),
            ..t
        }),
        !all_stored(events, events.len() as int) ==> !(transfer_after(t, events).phase is Receiving),
    decreases events.len(),
{
    if events.len() > 0 {
        let front = events.drop_last();
        lemma_receiving_while_stored(t, front);
        if all_stored(events, events.len() as int) {
            assert(all_stored(front, front.len() as int)) by {
                assert forall|j: int| 0 <= j < front.len() implies (#[trigger] front[j]) is Stored by {
                    assert(events[j] is Stored);
                }
            }
            assert(events[events.len() - 1] is Stored);
        } else if all_stored(front, front.len() as int) {
            if events.last() is Stored {
                assert forall|j: int| 0 <= j < events.len() implies (#[trigger] events[j]) is Stored by {
                    if j < front.len() {
                        assert(front[j] is Stored);
                    }
                }
            }
        }
    }
}

/// The temporary file is promoted only when the whole body has been stored:
/// wherever a run of events leads to the directive to promote, the event is
/// the end of the body and every event before it reports a stored chunk.
pub proof fn lemma_promote_only_after_whole_body(t: Transfer, events: Seq<BodyEvent>, i: int)
    requires
        t.phase is Receiving,
        0 <= i < events.len(),
        directive_at(t, events, i) is Promote,
    ensures
        events[i] is EndOfBody,
        all_stored(events, i),
{
    let front = events.take(i);
    lemma_receiving_while_stored(t, front);
    if !all_stored(events, i) {
        assert(!all_stored(front, front.len() as int)) by {
            if all_stored(front, front.len() as int) {
                assert forall|j: int| 0 <= j < i implies (#[trigger] events[j]) is Stored by {
                    assert(front[j] is Stored);
                }
            }
        }
    }
}

/// A body that arrives whole is put in place, and the outcome names its
/// size: after the stored chunks, the end of the body and the promotion, a
/// transfer is finished as a download, or as a replacement if a file of
/// another length was there.
pub proof fn lemma_whole_body_is_put_in_place(t: Transfer, chunks: Seq<BodyEvent>)
    requires
        t.phase is Receiving,
        all_stored(chunks, chunks.len() as int),
    ensures
        directive_at(t, chunks.push(BodyEvent::EndOfBody), chunks.len() as int) is Promote,
        transfer_after(t, chunks.push(BodyEvent::EndOfBody).push(BodyEvent::Promoted)).phase
            == Phase::Finished(
            if t.replacing {
                FetchOutcome::Redownloaded(capped(t.stored as nat + stored_total(chunks)))
            } else {
                FetchOutcome::Downloaded(capped(t.stored as nat + stored_total(chunks)))
            },
        ),
{
    lemma_receiving_while_stored(t, chunks);
    let ended = chunks.push(BodyEvent::EndOfBody);
    let full = ended.push(BodyEvent::Promoted);
    assert(ended.take(chunks.len() as int) =~= chunks);
    assert(ended.drop_last() =~= chunks);
    assert(full.drop_last() =~= ended);
    let received = transfer_after(t, chunks);
    assert(transfer_after(t, ended) == transfer_step(received, BodyEvent::EndOfBody).0);
    assert(transfer_after(t, full) == transfer_step(
        transfer_after(t, ended),
        BodyEvent::Promoted,
    ).0);
}

/// A failure while the body is read or stored ends the transfer as failed,
/// and from then on nothing is promoted.
pub proof fn lemma_failure_leaves_file_alone(
    t: Transfer,
    chunks: Seq<BodyEvent>,
    failure: BodyEvent,
    later: Seq<BodyEvent>,
    i: int,
)
    requires
        t.phase is Receiving,
        all_stored(chunks, chunks.len() as int),
        failure is ReadFailed || failure is WriteFailed,
        0 <= i < chunks.len() + 1 + later.len(),
    ensures
        transfer_after(t, chunks.push(failure) + later).phase is Finished,
        transfer_after(t, chunks.push(failure) + later).phase->Finished_0 is Failed,
        !(directive_at(t, chunks.push(failure) + later, i) is Promote),
{
    let events = chunks.push(failure) + later;
    lemma_receiving_while_stored(t, chunks);
    lemma_failed_stays_failed(t, chunks, failure, later);
    if directive_at(t, events, i) is Promote {
        lemma_promote_only_after_whole_body(t, events, i);
        if i < chunks.len() {
            assert(events[i] == chunks[i]);
        } else {
            assert(events[chunks.len() as int] == failure);
        }
    }
}

proof fn lemma_failed_stays_failed(
    t: Transfer,
    chunks: Seq<BodyEvent>,
    failure: BodyEvent,
    later: Seq<BodyEvent>,
)
    requires
        t.phase is Receiving,
        all_stored(chunks, chunks.len() as int),
        failure is ReadFailed || failure is WriteFailed,
    ensures
        transfer_after(t, chunks.push(failure) + later).phase is Finished,
        transfer_after(t, chunks.push(failure) + later).phase->Finished_0 is Failed,
    decreases later.len(),
{
    let events = chunks.push(failure) + later;
    if later.len() == 0 {
        assert(events =~= chunks.push(failure));
        assert(events.drop_last() =~= chunks);
        lemma_receiving_while_stored(t, chunks);
    } else {
        lemma_failed_stays_failed(t, chunks, failure, later.drop_last());
        assert(events.drop_last() =~= chunks.push(failure) + later.drop_last());
    }
}

/// A file that is in place with the announced length is kept, and the body
/// is not asked for.
pub proof fn lemma_unchanged_file_is_skipped(length: u64)
    ensures
        settled_outcome(resume_rule(true, TargetEntry::File(length), length)) == Some(
            FetchOutcome::SkippedIdentical,
        ),
{
}

/// A file whose length is not the announced one is replaced: the decision is
/// to overwrite, and a body that then arrives whole is counted as a
/// replacement of the size that was stored. Where the chunks hold as many
/// bytes as were announced, that size is the announced length.
pub proof fn lemma_stale_file_is_replaced(existing: u64, length: u64, chunks: Seq<BodyEvent>)
    requires
        existing != length,
        all_stored(chunks, chunks.len() as int),
    ensures
        resume_rule(true, TargetEntry::File(existing), length) == Resume::Overwrite,
        settled_outcome(Resume::Overwrite) is None,
        transfer_after(
            Transfer { replacing: true, stored: 0, phase: Phase::Receiving },
            chunks.push(BodyEvent::EndOfBody).push(BodyEvent::Promoted),
        ).phase == Phase::Finished(FetchOutcome::Redownloaded(capped(stored_total(chunks)))),
        stored_total(chunks) == length ==> transfer_after(
            Transfer { replacing: true, stored: 0, phase: Phase::Receiving },
            chunks.push(BodyEvent::EndOfBody).push(BodyEvent::Promoted),
        ).phase == Phase::Finished(FetchOutcome::Redownloaded(length)),
{
    lemma_whole_body_is_put_in_place(
        Transfer { replacing: true, stored: 0, phase: Phase::Receiving },
        chunks,
    );
}

impl FetchError {
    /// The text that tells of the failure. `subject` is what the failure is
    /// about: the header's value, the page's address or the file's path.
    pub open spec fn description(self, subject: Seq<char>) -> Seq<char> {
        match self {
            FetchError::Status(code) => "Unexpected response status "@ + decimal(code as nat),
            FetchError::MissingLength => "No content-length header"@,
            FetchError::InvalidLength => "The content-length header is not a length"@,
            FetchError::MissingDisposition => "No content-disposition header"@,
            FetchError::InvalidDisposition => "The content-disposition header is not text"@,
            FetchError::NotAttachment =>
                "Content-disposition is expected to be an attachment with filename param. got '"@
                    + subject + "'"@,
            FetchError::NoFilename =>
                "Could not parse a filename from the content-disposition header '"@ + subject
                    + "'"@,
            FetchError::NotRegularFile => "File '"@ + subject
                + "' already exists and is not a regular file!"@,
            FetchError::NoPageData => "No page-data for download at: "@ + subject,
            FetchError::NoDataBlob => "data-blob attribute not found"@,
            FetchError::InvalidPageData => "data-blob attribute parse error: "@ + subject,
            FetchError::NoDownloadItems => "No download items present!"@,
            FetchError::FormatUnavailable => "The requested format is not available in: "@
                + subject,
            FetchError::Transport => "Transfer failed: "@ + subject,
            FetchError::Storage => "Could not store the file: "@ + subject,
        }
    }

    /// The text that tells of the failure.
    pub fn describe(&self, subject: &str) -> (s: String)
        ensures
            s@ == self.description(subject@),
    {
        match self {
            FetchError::Status(code) => {
                let mut s = "Unexpected response status ".to_owned();
                push_decimal(&mut s, *code as u64);
                s
            },
            FetchError::MissingLength => "No content-length header".to_owned(),
            FetchError::InvalidLength => "The content-length header is not a length".to_owned(),
            FetchError::MissingDisposition => "No content-disposition header".to_owned(),
            FetchError::InvalidDisposition => "The content-disposition header is not text".to_owned(),
            FetchError::NotAttachment => {
                let mut s = concat_str(
                    "Content-disposition is expected to be an attachment with filename param. got '",
                    subject,
                );
                s.append("'");
                s
            },
            FetchError::NoFilename => {
                let mut s = concat_str(
                    "Could not parse a filename from the content-disposition header '",
                    subject,
                );
                s.append("'");
                s
            },
            FetchError::NotRegularFile => {
                let mut s = concat_str("File '", subject);
                s.append("' already exists and is not a regular file!");
                s
            },
            FetchError::NoPageData => concat_str("No page-data for download at: ", subject),
            FetchError::NoDataBlob => "data-blob attribute not found".to_owned(),
            FetchError::InvalidPageData => concat_str("data-blob attribute parse error: ", subject),
            FetchError::NoDownloadItems => "No download items present!".to_owned(),
            FetchError::FormatUnavailable => concat_str(
                "The requested format is not available in: ",
                subject,
            ),
            FetchError::Transport => concat_str("Transfer failed: ", subject),
            FetchError::Storage => concat_str("Could not store the file: ", subject),
        }
    }
}

} // verus!
