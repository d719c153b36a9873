use vstd::prelude::*;

use crate::base64_bridge::base64_text;
use crate::digest::sha256_text;
use crate::errors::{plain_error, ErrorAnswer};
use crate::files::{
    blob_hint, data_url, describes, expired, expiry, form_upload, is_live, kept_for, look_up,
    saved_as, unquoted, with_file_field, with_text_field, FileContent, FileGap, Files, Form,
    UploadContent,
};
use crate::seqs::lemma_filter_same;
use crate::text::{contains_text, decimal, number_digits, stands_at};
use crate::types::{FileRow, NewFileMetadata};

verus! {

/// What tells the names of the fields of an upload apart.
proof fn lemma_form_words()
    ensures
        "purpose"@.len() == 7,
        "expires_after[anchor]"@.len() == 21,
        "expires_after[seconds]"@.len() == 22,
        "file"@.len() == 4,
{
    reveal_strlit("purpose");
    reveal_strlit("expires_after[anchor]");
    reveal_strlit("expires_after[seconds]");
    reveal_strlit("file");
}

/// A file can be had that is known, was not deleted, and does not expire or expires later.
pub proof fn law_live_files_can_be_had(row: FileRow, now: i64)
    ensures
        is_live(Some(row), now) <==> row.deleted_at is None && (row.expires_at is None || now
            < row.expires_at->0),
        !is_live(None, now),
        expired(row.expires_at, now) <==> row.expires_at is Some && row.expires_at->0 <= now,
{
}

/// A file is found that was entered and can be had. One that was entered and cannot be had is not
/// asked for again, and one that was not entered is asked for by its id.
pub proof fn law_files_are_looked_up(files: Files, id: Seq<char>)
    ensures
        !files.dom().contains(id) ==> look_up(files, id) == Err::<FileContent, FileGap>(
            FileGap::Needed(id),
        ),
        files.dom().contains(id) && files[id] is Some ==> look_up(files, id) == Ok::<
            FileContent,
            FileGap,
        >(files[id]->0),
        files.dom().contains(id) && files[id] is None ==> look_up(files, id) == Err::<
            FileContent,
            FileGap,
        >(FileGap::Unavailable),
{
}

/// The data of a file names its media type and holds its bytes.
pub proof fn law_data_holds_the_bytes(media_type: Seq<char>, bytes: Seq<u8>)
    ensures
        stands_at(data_url(media_type, bytes), "data:"@, 0),
        stands_at(data_url(media_type, bytes), media_type, 5),
        stands_at(data_url(media_type, bytes), ";base64,"@, 5 + media_type.len() as int),
        stands_at(data_url(media_type, bytes), base64_text(bytes), 13 + media_type.len() as int),
        data_url(media_type, bytes).len() == 13 + media_type.len() + base64_text(bytes).len(),
{
    reveal_strlit("data:");
    reveal_strlit(";base64,");
    let url = data_url(media_type, bytes);
    let n = media_type.len() as int;
    assert(url.subrange(0, 5) =~= "data:"@);
    assert(url.subrange(5, 5 + n) =~= media_type);
    assert(url.subrange(5 + n, 13 + n) =~= ";base64,"@);
    assert(url.subrange(13 + n, 13 + n + base64_text(bytes).len()) =~= base64_text(bytes));
}

/// The time to keep a file is the number of seconds that is asked for, between an hour and thirty
/// days, behind the time when it was made. Without a time a file is kept.
pub proof fn law_time_to_keep_is_read(anchor: Option<Seq<char>>, seconds: Option<Seq<char>>)
    ensures
        ({
            let kept = kept_for(anchor, seconds);
            let number = match seconds {
                Some(seconds) => decimal(seconds),
                None => None,
            };
            if anchor is None && seconds is None {
                kept == Ok::<Option<i64>, Seq<char>>(None)
            } else if anchor != Some("created_at"@) {
                kept == Err::<Option<i64>, Seq<char>>(
                    "expires_after[anchor] must be 'created_at'"@,
                )
            } else if number is Some && 3600 <= number->0 <= 2592000 {
                kept == Ok::<Option<i64>, Seq<char>>(Some(number->0 as i64))
            } else if number is Some && i64::MIN <= number->0 <= i64::MAX {
                kept == Err::<Option<i64>, Seq<char>>(
                    "expires_after[seconds] must be between 3600 and 2592000"@,
                )
            } else {
                kept == Err::<Option<i64>, Seq<char>>(
                    "expires_after[seconds] must be an integer"@,
                )
            }
        }),
{
    reveal_strlit("");
    assert(decimal(""@) is None);
}

/// A file expires so many seconds behind the time when it was made, where it does.
pub proof fn law_file_expires_behind_its_time(created_at: i64, seconds: i64)
    requires
        i64::MIN <= created_at + seconds <= i64::MAX,
    ensures
        expiry(created_at, Some(seconds)) is Some,
        expiry(created_at, Some(seconds))->0 == created_at + seconds,
        expiry(created_at, None) is None,
{
}

/// Each field of a form says what it is named for, leaves the others as they are, and is noted by
/// its name.
pub proof fn law_form_fields_are_taken(form: Form, name: Seq<char>, text: Seq<char>)
    ensures
        ({
            let after = with_text_field(form, name, Some(text));
            &&& after.purpose == (if name == "purpose"@ {
                Some(text)
            } else {
                form.purpose
            })
            &&& after.anchor == (if name == "expires_after[anchor]"@ {
                Some(text)
            } else {
                form.anchor
            })
            &&& after.seconds == (if name == "expires_after[seconds]"@ {
                Some(text)
            } else {
                form.seconds
            })
            &&& after.file_name == form.file_name
            &&& after.media_type == form.media_type
            &&& after.bytes == form.bytes
            &&& after.hint == form.hint
            &&& after.names == form.names.push(name)
        }),
        with_text_field(form, name, None) == (Form { names: form.names.push(name), ..form }),
{
    lemma_form_words();
}

/// The file of a form is taken with its name, its media type and its bytes.
pub proof fn law_form_file_is_taken(
    form: Form,
    file_name: Option<Seq<char>>,
    media_type: Option<Seq<char>>,
    bytes: Option<Seq<u8>>,
)
    ensures
        ({
            let after = with_file_field(form, file_name, media_type, bytes);
            &&& after.file_name == file_name
            &&& after.media_type == media_type
            &&& after.bytes == (if bytes is Some {
                bytes
            } else {
                form.bytes
            })
            &&& after.purpose == form.purpose
            &&& after.anchor == form.anchor
            &&& after.seconds == form.seconds
            &&& after.names == form.names.push("file"@)
            &&& bytes is Some ==> after.hint is Some && contains_text(
                after.hint->0,
                number_digits(bytes->0.len()),
            )
            &&& bytes is None ==> after.hint == form.hint
        }),
{
    reveal_strlit("blob:");
    if let Some(bytes) = bytes {
        let hint = blob_hint(bytes.len(), media_type);
        let digits = number_digits(bytes.len());
        assert(hint.subrange(5, 5int + digits.len()) =~= digits);
        assert(stands_at(hint, digits, 5));
    }
}

/// A form with a file, a purpose and a time to keep that can be read is an upload of that file.
/// One that lacks a file or a purpose is refused.
pub proof fn law_form_is_its_upload(form: Form)
    ensures
        ({
            let upload = form_upload(form);
            let kept = kept_for(form.anchor, form.seconds);
            if form.bytes is None {
                upload == Err::<UploadContent, ErrorAnswer>(
                    plain_error(400, "Missing required multipart field: file"@),
                )
            } else if form.purpose is None {
                upload == Err::<UploadContent, ErrorAnswer>(
                    plain_error(400, "Missing required multipart field: purpose"@),
                )
            } else if kept is Err {
                upload == Err::<UploadContent, ErrorAnswer>(plain_error(400, kept->Err_0))
            } else {
                &&& upload is Ok
                &&& upload->Ok_0.bytes == form.bytes->0
                &&& upload->Ok_0.purpose == form.purpose->0
                &&& upload->Ok_0.expires_after == kept->Ok_0
                &&& form.file_name is Some ==> upload->Ok_0.filename == form.file_name->0
                &&& form.file_name is None ==> upload->Ok_0.filename == "upload.bin"@
                &&& form.media_type is Some ==> upload->Ok_0.media_type == form.media_type->0
                &&& form.media_type is None ==> upload->Ok_0.media_type
                    == "application/octet-stream"@
            }
        }),
{
}

/// What is entered for an upload says all that the upload says, and has the digest of its bytes.
pub proof fn law_entry_says_what_the_upload_says(metadata: NewFileMetadata, upload: UploadContent)
    requires
        describes(metadata, upload),
    ensures
        metadata.filename@ == upload.filename,
        metadata.purpose@ == upload.purpose,
        metadata.media_type@ == upload.media_type,
        upload.bytes.len() <= i64::MAX ==> metadata.byte_size == upload.bytes.len(),
        metadata.sha256@ == sha256_text(upload.bytes),
        upload.expires_after is None ==> metadata.expires_at is None,
{
}

/// A name without quotes is saved as it is.
pub proof fn law_name_is_saved(filename: Seq<char>)
    requires
        forall|i: int| 0 <= i < filename.len() ==> (#[trigger] filename[i]) != '"',
    ensures
        saved_as(filename) == "attachment; filename=\""@ + filename + "\""@,
{
    assert forall|i: int| 0 <= i < filename.len() implies unquoted()(#[trigger] filename[i]) by {}
    lemma_filter_same(filename, unquoted());
}

/// Quotes alone are left out of the name that a file is saved under.
pub proof fn law_quotes_are_left_out(filename: Seq<char>, c: char)
    ensures
        filename.push(c).filter(unquoted()) == (if c == '"' {
            filename.filter(unquoted())
        } else {
            filename.filter(unquoted()).push(c)
        }),
{
    reveal(Seq::filter);
    assert(filename.push(c).drop_last() =~= filename);
}

} // verus!
