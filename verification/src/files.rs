use vstd::prelude::*;

use std::time::SystemTime;

use crate::base64_bridge::{base64_text, encode_base64};
use crate::clock::{now_unix, unix_time};
use crate::digest::{hex_digest, sha256_text};
use crate::errors::{json_error, plain_error, ErrorAnswer, ErrorResponse};
use crate::json::{group_json, no_fields, Json, JsonObject, JsonTree};
use crate::text::{
    concat, decimal, number_digits, number_text, opt_string, parse_signed, push_char, same_text,
    text_or, texts,
};
use crate::text_map::TextMap;
use crate::types::{ExpiresAfter, FileObject, FileRow, NewFileMetadata};

verus! {

broadcast use group_json;

/// A stored file, as a request can carry it.
pub struct ResolvedFile {
    /// The bytes of the file, with its media type, as a `data:` URL.
    pub data_url: String,
    /// The name under which the file was uploaded.
    pub filename: String,
}

/// The files that are known by their ids: those that can be had, and those that cannot.
pub struct FileTable {
    found: TextMap<Option<ResolvedFile>>,
}

/// What a stored file is.
pub struct FileContent {
    pub data_url: Seq<char>,
    pub filename: Seq<char>,
}

/// Why a file cannot be put into a request.
pub enum FileError {
    /// The file with this id has not been looked up yet.
    Needed(String),
    /// The file is unknown, deleted or expired.
    Unavailable,
}

/// Why a file cannot be put into a request, by the texts involved.
pub enum FileGap {
    Needed(Seq<char>),
    Unavailable,
}

impl View for ResolvedFile {
    type V = FileContent;

    open spec fn view(&self) -> FileContent {
        FileContent { data_url: self.data_url@, filename: self.filename@ }
    }
}

impl View for FileError {
    type V = FileGap;

    open spec fn view(&self) -> FileGap {
        match self {
            FileError::Needed(id) => FileGap::Needed(id@),
            FileError::Unavailable => FileGap::Unavailable,
        }
    }
}

impl View for FileTable {
    type V = Map<Seq<char>, Option<FileContent>>;

    closed spec fn view(&self) -> Map<Seq<char>, Option<FileContent>> {
        self.found@.map_values(
            |entry: Option<ResolvedFile>|
                match entry {
                    Some(file) => Some(file@),
                    None => None,
                },
        )
    }
}

/// What is known of files.
pub type Files = Map<Seq<char>, Option<FileContent>>;

/// The file with an id, where it can be had.
pub open spec fn look_up(files: Files, id: Seq<char>) -> Result<FileContent, FileGap> {
    if !files.dom().contains(id) {
        Err(FileGap::Needed(id))
    } else {
        match files[id] {
            Some(file) => Ok(file),
            None => Err(FileGap::Unavailable),
        }
    }
}

impl FileTable {
    /// A table that knows of no file.
    pub fn new() -> (table: FileTable)
        ensures
            table@ == Map::<Seq<char>, Option<FileContent>>::empty(),
    {
        let table = FileTable { found: TextMap::new() };
        proof {
            assert(table@ =~= Map::empty());
        }
        table
    }

    /// Enters what was found under an id.
    pub fn enter(&mut self, id: &str, file: Option<ResolvedFile>)
        ensures
            final(self)@ == old(self)@.insert(
                id@,
                match file {
                    Some(file) => Some(file@),
                    None => None,
                },
            ),
    {
        self.found.insert(id, file);
        proof {
            assert(self@ =~= old(self)@.insert(
                id@,
                match file {
                    Some(file) => Some(file@),
                    None => None,
                },
            ));
        }
    }

    /// The file with an id, where it can be had.
    pub fn look_up(&self, id: &str) -> (file: Result<&ResolvedFile, FileError>)
        ensures
            (match file {
                Ok(file) => look_up(self@, id@) == Ok::<FileContent, FileGap>(file@),
                Err(error) => look_up(self@, id@) == Err::<FileContent, FileGap>(error@),
            }),
    {
        match self.found.get(id) {
            None => Err(FileError::Needed(id.to_owned())),
            Some(Some(file)) => Ok(file),
            Some(None) => Err(FileError::Unavailable),
        }
    }
}

/// Whether a file is past its time.
pub open spec fn expired(expires_at: Option<i64>, now: i64) -> bool {
    match expires_at {
        Some(time) => time <= now,
        None => false,
    }
}

/// Whether a file is past its time, by a given clock.
pub fn is_expired_at(expires_at: Option<i64>, now: i64) -> (answer: bool)
    ensures
        answer == expired(expires_at, now),
{
    match expires_at {
        Some(time) => time <= now,
        None => false,
    }
}

/// Whether a file is past its time.
pub fn is_expired(expires_at: Option<i64>) -> (answer: bool)
    ensures
        exists|instant: SystemTime| answer == expired(expires_at, #[trigger] unix_time(instant)),
        expires_at is None ==> !answer,
{
    is_expired_at(expires_at, now_unix())
}

/// Whether a file can be had: it is known, not deleted and not past its time.
pub open spec fn is_live(row: Option<FileRow>, now: i64) -> bool {
    match row {
        Some(row) => row.deleted_at is None && !expired(row.expires_at, now),
        None => false,
    }
}

/// The file, where it can be had.
pub fn live_row(row: Option<FileRow>, now: i64) -> (live: Result<FileRow, ErrorResponse>)
    ensures
        live is Ok == is_live(row, now),
        live matches Ok(found) ==> row == Some(found),
        live matches Err(error) ==> error@ == plain_error(404, "File not found"@),
{
    match row {
        Some(row) => if row.deleted_at.is_some() || is_expired_at(row.expires_at, now) {
            Err(json_error(404, "File not found"))
        } else {
            Ok(row)
        },
        None => Err(json_error(404, "File not found")),
    }
}

/// A file that was deleted, or is past its time, cannot be had at any later time either.
pub proof fn law_gone_files_stay_gone(row: FileRow, now: i64, later: i64)
    requires
        !is_live(Some(row), now),
        now <= later,
    ensures
        !is_live(Some(row), later),
{
}

/// The bytes of a file, with its media type, as a `data:` URL.
pub open spec fn data_url(media_type: Seq<char>, bytes: Seq<u8>) -> Seq<char> {
    "data:"@ + media_type + ";base64,"@ + base64_text(bytes)
}

/// What a stored file is, by its row in the table of files and its bytes.
pub open spec fn row_content(row: FileRow, bytes: Seq<u8>) -> FileContent {
    FileContent { data_url: data_url(row.media_type@, bytes), filename: row.filename@ }
}

/// A stored file with the bytes that were read of it.
pub fn resolve_file(row: FileRow, bytes: &[u8]) -> (file: ResolvedFile)
    requires
        bytes@.len() <= isize::MAX / 2,
    ensures
        file@ == row_content(row, bytes@),
{
    let start = concat("data:", row.media_type.as_str());
    let middle = concat(start.as_str(), ";base64,");
    let encoded = encode_base64(bytes);
    let data_url = concat(middle.as_str(), encoded.as_str());
    ResolvedFile { data_url, filename: row.filename }
}

/// The SHA-256 digest of bytes, in lower-case hexadecimal digits.
pub fn sha256_hex(bytes: &[u8]) -> (text: String)
    ensures
        text@ == sha256_text(bytes@),
        text@.len() == 64,
{
    hex_digest(bytes)
}

/// How long a file is to be kept: what the two fields of an upload ask for.
pub open spec fn kept_for(anchor: Option<Seq<char>>, seconds: Option<Seq<char>>) -> Result<
    Option<i64>,
    Seq<char>,
> {
    if anchor is None && seconds is None {
        Ok(None)
    } else if anchor != Some("created_at"@) {
        Err("expires_after[anchor] must be 'created_at'"@)
    } else {
        match decimal(text_or(seconds, ""@)) {
            Some(number) => if i64::MIN <= number <= i64::MAX {
                if 3600 <= number <= 2592000 {
                    Ok(Some(number as i64))
                } else {
                    Err("expires_after[seconds] must be between 3600 and 2592000"@)
                }
            } else {
                Err("expires_after[seconds] must be an integer"@)
            },
            None => Err("expires_after[seconds] must be an integer"@),
        }
    }
}

/// The outcome of reading how long a file is to be kept, by what it holds.
pub open spec fn kept_outcome(outcome: Result<Option<ExpiresAfter>, String>) -> Result<
    Option<i64>,
    Seq<char>,
> {
    match outcome {
        Ok(Some(after)) => Ok(Some(after.seconds)),
        Ok(None) => Ok(None),
        Err(message) => Err(message@),
    }
}

/// Reads how long a file is to be kept.
pub fn parse_expires_after(raw_anchor: Option<String>, raw_seconds: Option<String>) -> (outcome:
    Result<Option<ExpiresAfter>, String>)
    ensures
        kept_outcome(outcome) == kept_for(opt_string(raw_anchor), opt_string(raw_seconds)),
{
    if raw_anchor.is_none() && raw_seconds.is_none() {
        return Ok(None);
    }
    let right_anchor = match &raw_anchor {
        Some(anchor) => same_text(anchor.as_str(), "created_at"),
        None => false,
    };
    if !right_anchor {
        return Err("expires_after[anchor] must be 'created_at'".to_owned());
    }
    let parsed = match &raw_seconds {
        Some(seconds) => parse_signed(seconds.as_str()),
        None => parse_signed(""),
    };
    match parsed {
        Some(seconds) => if 3600 <= seconds && seconds <= 2592000 {
            Ok(Some(ExpiresAfter { seconds }))
        } else {
            Err("expires_after[seconds] must be between 3600 and 2592000".to_owned())
        },
        None => Err("expires_after[seconds] must be an integer".to_owned()),
    }
}

/// The form of an upload, as its fields come in.
pub struct UploadForm {
    pub purpose: Option<String>,
    pub file_name: Option<String>,
    pub media_type: Option<String>,
    pub file_bytes: Option<Vec<u8>>,
    pub expires_anchor: Option<String>,
    pub expires_seconds: Option<String>,
    pub field_names: Vec<String>,
    pub file_hint: Option<String>,
}

/// What the fields of an upload have said so far.
#[verifier::ext_equal]
pub struct Form {
    pub purpose: Option<Seq<char>>,
    pub file_name: Option<Seq<char>>,
    pub media_type: Option<Seq<char>>,
    pub bytes: Option<Seq<u8>>,
    pub anchor: Option<Seq<char>>,
    pub seconds: Option<Seq<char>>,
    pub names: Seq<Seq<char>>,
    pub hint: Option<Seq<char>>,
}

/// What optional bytes are.
pub open spec fn opt_bytes(bytes: Option<Vec<u8>>) -> Option<Seq<u8>> {
    match bytes {
        Some(bytes) => Some(bytes@),
        None => None,
    }
}

impl View for UploadForm {
    type V = Form;

    open spec fn view(&self) -> Form {
        Form {
            purpose: opt_string(self.purpose),
            file_name: opt_string(self.file_name),
            media_type: opt_string(self.media_type),
            bytes: opt_bytes(self.file_bytes),
            anchor: opt_string(self.expires_anchor),
            seconds: opt_string(self.expires_seconds),
            names: texts(self.field_names@),
            hint: opt_string(self.file_hint),
        }
    }
}

/// A form before any field has come.
pub open spec fn empty_form() -> Form {
    Form {
        purpose: None,
        file_name: None,
        media_type: None,
        bytes: None,
        anchor: None,
        seconds: None,
        names: Seq::empty(),
        hint: None,
    }
}

/// A form once a field of text has come. Of two fields with one name the later counts.
pub open spec fn with_text_field(form: Form, name: Seq<char>, text: Option<Seq<char>>) -> Form {
    let named = Form { names: form.names.push(name), ..form };
    match text {
        Some(text) => if name == "purpose"@ {
            Form { purpose: Some(text), ..named }
        } else if name == "expires_after[anchor]"@ {
            Form { anchor: Some(text), ..named }
        } else if name == "expires_after[seconds]"@ {
            Form { seconds: Some(text), ..named }
        } else {
            named
        },
        None => named,
    }
}

/// What the log says of a file: its size and its media type.
pub open spec fn blob_hint(size: nat, media_type: Option<Seq<char>>) -> Seq<char> {
    "blob:"@ + number_digits(size) + "b:"@ + text_or(media_type, "application/octet-stream"@)
}

/// A form once the field with the file has come, of which the bytes may be missing.
pub open spec fn with_file_field(
    form: Form,
    file_name: Option<Seq<char>>,
    media_type: Option<Seq<char>>,
    bytes: Option<Seq<u8>>,
) -> Form {
    let named = Form { names: form.names.push("file"@), file_name, media_type, ..form };
    match bytes {
        Some(bytes) => Form {
            bytes: Some(bytes),
            hint: Some(blob_hint(bytes.len(), media_type)),
            ..named
        },
        None => named,
    }
}

impl UploadForm {
    /// A form before any field has come.
    pub fn new() -> (form: UploadForm)
        ensures
            form@ == empty_form(),
    {
        let form = UploadForm {
            purpose: None,
            file_name: None,
            media_type: None,
            file_bytes: None,
            expires_anchor: None,
            expires_seconds: None,
            field_names: Vec::new(),
            file_hint: None,
        };
        proof {
            assert(form@ =~= empty_form());
        }
        form
    }

    /// Takes in a field that is not the file, with its text where it could be read.
    pub fn take_field(&mut self, name: &str, text: Option<String>)
        ensures
            final(self)@ == with_text_field(old(self)@, name@, opt_string(text)),
    {
        let ghost before = self@;
        self.field_names.push(name.to_owned());
        proof {
            assert(texts(self.field_names@) =~= before.names.push(name@));
        }
        if let Some(text) = text {
            if same_text(name, "purpose") {
                self.purpose = Some(text);
            } else if same_text(name, "expires_after[anchor]") {
                self.expires_anchor = Some(text);
            } else if same_text(name, "expires_after[seconds]") {
                self.expires_seconds = Some(text);
            }
        }
    }

    /// Takes in the field with the file, with its bytes where they could be read.
    pub fn take_file(
        &mut self,
        file_name: Option<String>,
        media_type: Option<String>,
        bytes: Option<Vec<u8>>,
    )
        ensures
            final(self)@ == with_file_field(
                old(self)@,
                opt_string(file_name),
                opt_string(media_type),
                opt_bytes(bytes),
            ),
    {
        let ghost before = self@;
        self.field_names.push("file".to_owned());
        proof {
            assert(texts(self.field_names@) =~= before.names.push("file"@));
        }
        if let Some(bytes) = bytes {
            let size = number_text(bytes.len() as u64);
            let start = concat("blob:", size.as_str());
            let middle = concat(start.as_str(), "b:");
            let hint = match &media_type {
                Some(media_type) => concat(middle.as_str(), media_type.as_str()),
                None => concat(middle.as_str(), "application/octet-stream"),
            };
            self.file_hint = Some(hint);
            self.file_bytes = Some(bytes);
        }
        self.file_name = file_name;
        self.media_type = media_type;
    }
}

/// An upload that can be stored.
pub struct Upload {
    pub filename: String,
    pub purpose: String,
    pub media_type: String,
    pub bytes: Vec<u8>,
    pub expires_after: Option<i64>,
}

/// What an upload is.
#[verifier::ext_equal]
pub struct UploadContent {
    pub filename: Seq<char>,
    pub purpose: Seq<char>,
    pub media_type: Seq<char>,
    pub bytes: Seq<u8>,
    pub expires_after: Option<i64>,
}

impl View for Upload {
    type V = UploadContent;

    open spec fn view(&self) -> UploadContent {
        UploadContent {
            filename: self.filename@,
            purpose: self.purpose@,
            media_type: self.media_type@,
            bytes: self.bytes@,
            expires_after: self.expires_after,
        }
    }
}

/// The upload that a form asks for, or what is wrong with it.
pub open spec fn form_upload(form: Form) -> Result<UploadContent, ErrorAnswer> {
    if form.bytes is None {
        Err(plain_error(400, "Missing required multipart field: file"@))
    } else if form.purpose is None {
        Err(plain_error(400, "Missing required multipart field: purpose"@))
    } else {
        match kept_for(form.anchor, form.seconds) {
            Ok(expires_after) => Ok(
                UploadContent {
                    filename: text_or(form.file_name, "upload.bin"@),
                    purpose: form.purpose->0,
                    media_type: text_or(form.media_type, "application/octet-stream"@),
                    bytes: form.bytes->0,
                    expires_after,
                },
            ),
            Err(message) => Err(plain_error(400, message)),
        }
    }
}

fn string_or(text: Option<String>, default: &str) -> (out: String)
    ensures
        out@ == text_or(opt_string(text), default@),
{
    match text {
        Some(text) => text,
        None => default.to_owned(),
    }
}

/// Reads the upload that a form asks for.
pub fn read_upload(form: UploadForm) -> (upload: Result<Upload, ErrorResponse>)
    ensures
        (match form_upload(form@) {
            Ok(content) => upload is Ok && upload->Ok_0@ == content,
            Err(answer) => upload is Err && upload->Err_0@ == answer,
        }),
        upload matches Ok(upload) ==> match upload.expires_after {
            Some(seconds) => 3600 <= seconds <= 2592000,
            None => true,
        },
{
    let bytes = match form.file_bytes {
        Some(bytes) => bytes,
        None => {
            return Err(json_error(400, "Missing required multipart field: file"));
        },
    };
    let purpose = match form.purpose {
        Some(purpose) => purpose,
        None => {
            return Err(json_error(400, "Missing required multipart field: purpose"));
        },
    };
    let expires_after = match parse_expires_after(form.expires_anchor, form.expires_seconds) {
        Ok(Some(after)) => Some(after.seconds),
        Ok(None) => None,
        Err(message) => {
            return Err(json_error(400, message.as_str()));
        },
    };
    Ok(
        Upload {
            filename: string_or(form.file_name, "upload.bin"),
            purpose,
            media_type: string_or(form.media_type, "application/octet-stream"),
            bytes,
            expires_after,
        },
    )
}

/// The name under which the bytes of a file are stored.
pub fn storage_name(file_id: &str) -> (name: String)
    ensures
        name@ == file_id@ + ".bin"@,
{
    concat(file_id, ".bin")
}

/// When a file that is made at a time expires.
pub open spec fn expiry(created_at: i64, expires_after: Option<i64>) -> Option<i64> {
    match expires_after {
        Some(seconds) => Some((created_at + seconds) as i64),
        None => None,
    }
}

/// Whether what is entered into the table of files is what an upload says.
pub open spec fn describes(metadata: NewFileMetadata, upload: UploadContent) -> bool {
    &&& metadata.filename@ == upload.filename
    &&& metadata.purpose@ == upload.purpose
    &&& metadata.media_type@ == upload.media_type
    &&& metadata.byte_size == upload.bytes.len() as i64
    &&& metadata.sha256@ == sha256_text(upload.bytes)
    &&& metadata.expires_at == expiry(metadata.created_at, upload.expires_after)
}

/// What is entered into the table of files for an upload.
pub fn new_file_metadata(upload: &Upload, file_id: &str, storage_path: &str, created_at: i64) -> (
    metadata: NewFileMetadata)
    requires
        upload.expires_after matches Some(seconds) ==> i64::MIN <= created_at + seconds
            <= i64::MAX,
    ensures
        metadata.file_id@ == file_id@,
        metadata.storage_path@ == storage_path@,
        metadata.created_at == created_at,
        describes(metadata, upload@),
{
    NewFileMetadata {
        file_id: file_id.to_owned(),
        filename: upload.filename.clone(),
        purpose: upload.purpose.clone(),
        media_type: upload.media_type.clone(),
        byte_size: upload.bytes.len() as i64,
        sha256: sha256_hex(upload.bytes.as_slice()),
        storage_path: storage_path.to_owned(),
        created_at,
        expires_at: match upload.expires_after {
            Some(seconds) => Some(created_at + seconds),
            None => None,
        },
    }
}

/// A file as the API shows it once it is stored.
pub fn uploaded_file(metadata: &NewFileMetadata) -> (file: FileObject)
    ensures
        file.id@ == metadata.file_id@,
        file.object@ == "file"@,
        file.bytes == metadata.byte_size,
        file.created_at == metadata.created_at,
        file.filename@ == metadata.filename@,
        file.purpose@ == metadata.purpose@,
        file.status@ == "uploaded"@,
        file.expires_at == metadata.expires_at,
{
    FileObject {
        id: metadata.file_id.clone(),
        object: "file",
        bytes: metadata.byte_size,
        created_at: metadata.created_at,
        filename: metadata.filename.clone(),
        purpose: metadata.purpose.clone(),
        status: "uploaded".to_owned(),
        expires_at: metadata.expires_at,
    }
}

/// A file that is stored with a time to live can be had until then, and not from then on.
pub proof fn law_upload_lives_until_it_expires(
    row: FileRow,
    created_at: i64,
    expires_after: Option<i64>,
    now: i64,
)
    requires
        row.deleted_at is None,
        row.expires_at == expiry(created_at, expires_after),
        expires_after matches Some(seconds) ==> i64::MIN <= created_at + seconds <= i64::MAX,
    ensures
        is_live(Some(row), now) == (match expires_after {
            Some(seconds) => now < created_at + seconds,
            None => true,
        }),
{
}

/// What a client is told of a file that was deleted.
pub fn deleted_file(file_id: &str) -> (json: Json)
    ensures
        json@ == JsonTree::Object(
            no_fields().insert("id"@, JsonTree::Text(file_id@)).insert(
                "object"@,
                JsonTree::Text("file"@),
            ).insert("deleted"@, JsonTree::Bool(true)),
        ),
{
    Json::Object(
        JsonObject::new().with("id", Json::text(file_id)).with("object", Json::text("file")).with(
            "deleted",
            Json::Bool(true),
        ),
    )
}

/// Whether a character can stand between the quotes around the name of a file.
pub open spec fn unquoted() -> spec_fn(char) -> bool {
    |c: char| c != '"'
}

/// What names a file to be saved, without any quotes in the name.
pub open spec fn saved_as(filename: Seq<char>) -> Seq<char> {
    "attachment; filename=\""@ + filename.filter(unquoted()) + "\""@
}

/// The header that names a file to be saved, without any quotes in the name.
pub fn content_disposition(filename: &str) -> (value: String)
    ensures
        value@ == saved_as(filename@),
{
    let mut name = String::new();
    proof {
        reveal(Seq::filter);
        assert(filename@.take(0).filter(unquoted()) =~= name@);
    }
    for c in it: filename.chars()
        invariant
            it.seq() == filename@,
            name@ == filename@.take(it.index()).filter(unquoted()),
    {
        proof {
            reveal(Seq::filter);
            assert(filename@.take(it.index() + 1).drop_last() =~= filename@.take(it.index()));
        }
        if c != '"' {
            push_char(&mut name, c);
        }
    }
    proof {
        assert(filename@.take(filename@.len() as int) =~= filename@);
    }
    let start = concat("attachment; filename=\"", name.as_str());
    concat(start.as_str(), "\"")
}

/// What goes before the content of a file, and where its bytes are stored.
pub struct ContentHead {
    pub media_type: String,
    pub length: i64,
    pub disposition: String,
    pub storage_path: String,
}

/// What goes before the content of a file, by the texts involved.
#[verifier::ext_equal]
pub struct ContentAnswer {
    pub media_type: Seq<char>,
    pub length: int,
    pub disposition: Seq<char>,
    pub storage_path: Seq<char>,
}

impl View for ContentHead {
    type V = ContentAnswer;

    open spec fn view(&self) -> ContentAnswer {
        ContentAnswer {
            media_type: self.media_type@,
            length: self.length as int,
            disposition: self.disposition@,
            storage_path: self.storage_path@,
        }
    }
}

/// The answer to a call for the content of a file.
pub open spec fn content_answer(row: Option<FileRow>, now: i64) -> Result<
    ContentAnswer,
    ErrorAnswer,
> {
    if is_live(row, now) {
        Ok(
            ContentAnswer {
                media_type: row->0.media_type@,
                length: row->0.byte_size as int,
                disposition: saved_as(row->0.filename@),
                storage_path: row->0.storage_path@,
            },
        )
    } else {
        Err(plain_error(404, "File not found"@))
    }
}

/// Answers a call for the content of a file, of which the table of files knows this much.
pub fn content_head(row: Option<FileRow>, now: i64) -> (head: Result<ContentHead, ErrorResponse>)
    ensures
        (match content_answer(row, now) {
            Ok(answer) => head is Ok && head->Ok_0@ == answer,
            Err(answer) => head is Err && head->Err_0@ == answer,
        }),
{
    match live_row(row, now) {
        Ok(row) => Ok(
            ContentHead {
                disposition: content_disposition(row.filename.as_str()),
                media_type: row.media_type,
                length: row.byte_size,
                storage_path: row.storage_path,
            },
        ),
        Err(error) => Err(error),
    }
}

/// Whether a row of the table of files holds what was entered into it. It may have been marked
/// as deleted since.
pub open spec fn holds_entry(row: FileRow, metadata: NewFileMetadata) -> bool {
    &&& row.filename@ == metadata.filename@
    &&& row.media_type@ == metadata.media_type@
    &&& row.byte_size == metadata.byte_size
    &&& row.storage_path@ == metadata.storage_path@
    &&& row.expires_at == metadata.expires_at
}

/// A file that was uploaded is served with the media type, the size and the name that it came
/// with, from where its bytes were put, until it is deleted or expires. From then on it is not
/// found, and neither is a file that was never uploaded.
pub proof fn law_upload_is_served_until_it_is_gone(
    upload: UploadContent,
    metadata: NewFileMetadata,
    row: FileRow,
    now: i64,
)
    requires
        describes(metadata, upload),
        holds_entry(row, metadata),
        upload.bytes.len() <= i64::MAX,
        upload.expires_after matches Some(seconds) ==> i64::MIN <= metadata.created_at + seconds
            <= i64::MAX,
    ensures
        content_answer(Some(row), now) == (if row.deleted_at is None && (
        upload.expires_after matches Some(seconds) ==> now < metadata.created_at + seconds) {
            Ok::<ContentAnswer, ErrorAnswer>(
                ContentAnswer {
                    media_type: upload.media_type,
                    length: upload.bytes.len() as int,
                    disposition: saved_as(upload.filename),
                    storage_path: metadata.storage_path@,
                },
            )
        } else {
            Err::<ContentAnswer, ErrorAnswer>(plain_error(404, "File not found"@))
        }),
        content_answer(None, now) == Err::<ContentAnswer, ErrorAnswer>(
            plain_error(404, "File not found"@),
        ),
{
}

/// A file that was uploaded goes into a request with the bytes, the media type and the name that
/// it came with.
pub proof fn law_upload_goes_into_requests(
    upload: UploadContent,
    metadata: NewFileMetadata,
    row: FileRow,
)
    requires
        describes(metadata, upload),
        holds_entry(row, metadata),
    ensures
        row_content(row, upload.bytes) == (FileContent {
            data_url: data_url(upload.media_type, upload.bytes),
            filename: upload.filename,
        }),
{
}

} // verus!
