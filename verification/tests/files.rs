use codex_proxy::files::{
    content_disposition, content_head, deleted_file, is_expired, is_expired_at, live_row,
    new_file_metadata, parse_expires_after, read_upload, resolve_file, sha256_hex, storage_name,
    uploaded_file, FileError, FileTable, ResolvedFile, UploadForm,
};
use codex_proxy::json::to_value;
use codex_proxy::types::FileRow;

fn row(expires_at: Option<i64>, deleted_at: Option<i64>) -> FileRow {
    FileRow {
        filename: "hello.txt".to_string(),
        media_type: "text/plain".to_string(),
        byte_size: 11,
        storage_path: "/files/x.bin".to_string(),
        expires_at,
        deleted_at,
    }
}

fn text(value: &str) -> Option<String> {
    Some(value.to_string())
}

#[test]
fn files_live_until_they_expire_or_are_deleted() {
    assert!(live_row(Some(row(None, None)), 5).is_ok());
    assert!(live_row(Some(row(Some(6), None)), 5).is_ok());
    assert!(live_row(Some(row(Some(5), None)), 5).is_err());
    assert!(live_row(Some(row(None, Some(1))), 5).is_err());
    let error = live_row(None, 5).err().expect("no file");
    assert_eq!(error.status, 404);
    assert_eq!(error.envelope.error.message, "File not found");
    assert!(!is_expired_at(None, i64::MAX));
    assert!(is_expired_at(Some(7), 7));
    assert!(!is_expired(None));
    assert!(is_expired(Some(1)));
    assert!(!is_expired(Some(i64::MAX)));
}

#[test]
fn time_to_live_is_read_from_two_fields() {
    assert!(parse_expires_after(None, None).ok().expect("nothing").is_none());
    let kept = |seconds: &str| parse_expires_after(text("created_at"), text(seconds));
    assert_eq!(kept("3600").ok().expect("ok").expect("some").seconds, 3600);
    assert_eq!(kept("+2592000").ok().expect("ok").expect("some").seconds, 2592000);
    for wrong in ["3599", "2592001", "-1", "9223372036854775807"] {
        assert_eq!(
            kept(wrong).err().as_deref(),
            Some("expires_after[seconds] must be between 3600 and 2592000")
        );
    }
    for wrong in ["", "x", "3600s", "9223372036854775808", " 3600"] {
        assert_eq!(
            kept(wrong).err().as_deref(),
            Some("expires_after[seconds] must be an integer")
        );
    }
    assert_eq!(
        parse_expires_after(text("now"), text("3600")).err().as_deref(),
        Some("expires_after[anchor] must be 'created_at'")
    );
    assert_eq!(
        parse_expires_after(None, text("3600")).err().as_deref(),
        Some("expires_after[anchor] must be 'created_at'")
    );
    assert_eq!(
        parse_expires_after(text("created_at"), None).err().as_deref(),
        Some("expires_after[seconds] must be an integer")
    );
}

#[test]
fn digest_is_in_lower_case() {
    assert_eq!(
        sha256_hex(b"hello world"),
        "b94d27b9934d3e08a52e52d7da7dabfac484efe37a5380ee9088f7ace2efcde9"
    );
}

#[test]
fn stored_file_becomes_a_data_url() {
    let file = resolve_file(row(None, None), b"hello world");
    assert_eq!(file.data_url, "data:text/plain;base64,aGVsbG8gd29ybGQ=");
    assert_eq!(file.filename, "hello.txt");
}

#[test]
fn table_tells_what_is_known() {
    let mut table = FileTable::new();
    assert!(matches!(table.look_up("a"), Err(FileError::Needed(id)) if id == "a"));
    table.enter("a", None);
    assert!(matches!(table.look_up("a"), Err(FileError::Unavailable)));
    table.enter(
        "a",
        Some(ResolvedFile { data_url: "u".to_string(), filename: "f".to_string() }),
    );
    assert_eq!(table.look_up("a").ok().expect("a file").data_url, "u");
}

#[test]
fn upload_is_read_from_its_form() {
    let mut form = UploadForm::new();
    form.take_field("purpose", text("assistants"));
    form.take_field("other", text("ignored"));
    form.take_file(text("hello.txt"), text("text/plain"), Some(b"hello world".to_vec()));
    form.take_field("expires_after[anchor]", text("created_at"));
    form.take_field("expires_after[seconds]", text("3600"));
    assert_eq!(
        form.field_names,
        vec!["purpose", "other", "file", "expires_after[anchor]", "expires_after[seconds]"]
    );
    assert_eq!(form.file_hint.as_deref(), Some("blob:11b:text/plain"));
    let upload = read_upload(form).ok().expect("an upload");
    let metadata = new_file_metadata(&upload, "file-1", "/files/file-1.bin", 100);
    assert_eq!(metadata.expires_at, Some(3700));
    assert_eq!(metadata.byte_size, 11);
    assert_eq!(
        metadata.sha256,
        "b94d27b9934d3e08a52e52d7da7dabfac484efe37a5380ee9088f7ace2efcde9"
    );
    assert_eq!(metadata.storage_path, "/files/file-1.bin");
    let file = uploaded_file(&metadata);
    assert_eq!(
        (file.id.as_str(), file.object, file.bytes, file.created_at, file.status.as_str()),
        ("file-1", "file", 11, 100, "uploaded")
    );
    assert_eq!((file.filename.as_str(), file.purpose.as_str()), ("hello.txt", "assistants"));
    assert_eq!(file.expires_at, Some(3700));
    assert_eq!(storage_name("file-1"), "file-1.bin");
}

#[test]
fn upload_without_names_gets_default_ones() {
    let mut form = UploadForm::new();
    form.take_field("purpose", text("p"));
    form.take_file(None, None, Some(Vec::new()));
    assert_eq!(form.file_hint.as_deref(), Some("blob:0b:application/octet-stream"));
    let upload = read_upload(form).ok().expect("an upload");
    assert_eq!(upload.filename, "upload.bin");
    assert_eq!(upload.media_type, "application/octet-stream");
    let metadata = new_file_metadata(&upload, "file-2", "p", i64::MAX);
    assert_eq!(metadata.expires_at, None);
}

#[test]
fn upload_names_what_is_wrong() {
    let refused = |form: UploadForm| {
        let error = read_upload(form).err().expect("a refusal");
        (error.status, error.envelope.error.message)
    };
    let mut no_bytes = UploadForm::new();
    no_bytes.take_field("purpose", text("p"));
    no_bytes.take_file(text("f"), None, None);
    assert_eq!(
        refused(no_bytes),
        (400, "Missing required multipart field: file".to_string())
    );
    let mut no_purpose = UploadForm::new();
    no_purpose.take_file(None, None, Some(vec![1]));
    no_purpose.take_field("purpose", None);
    assert_eq!(
        refused(no_purpose),
        (400, "Missing required multipart field: purpose".to_string())
    );
    let mut bad_time = UploadForm::new();
    bad_time.take_file(None, None, Some(vec![1]));
    bad_time.take_field("purpose", text("p"));
    bad_time.take_field("expires_after[seconds]", text("3600"));
    assert_eq!(
        refused(bad_time),
        (400, "expires_after[anchor] must be 'created_at'".to_string())
    );
}

#[test]
fn headers_and_answers_for_files() {
    assert_eq!(
        content_disposition("a \"b\".txt"),
        "attachment; filename=\"a b.txt\""
    );
    assert_eq!(
        to_value(&deleted_file("file-1")).to_string(),
        r#"{"deleted":true,"id":"file-1","object":"file"}"#
    );
}

#[test]
fn upload_is_served_until_it_is_gone() {
    let mut form = UploadForm::new();
    form.take_field("purpose", text("assistants"));
    form.take_file(text("a \"b\".txt"), text("text/plain"), Some(b"hello world".to_vec()));
    form.take_field("expires_after[anchor]", text("created_at"));
    form.take_field("expires_after[seconds]", text("3600"));
    let upload = read_upload(form).ok().expect("an upload");
    let metadata = new_file_metadata(&upload, "file-1", "/files/file-1.bin", 100);
    let entered = |deleted_at: Option<i64>| {
        Some(FileRow {
            filename: metadata.filename.clone(),
            media_type: metadata.media_type.clone(),
            byte_size: metadata.byte_size,
            storage_path: metadata.storage_path.clone(),
            expires_at: metadata.expires_at,
            deleted_at,
        })
    };

    let head = content_head(entered(None), 3699).ok().expect("a file");
    assert_eq!(head.media_type, "text/plain");
    assert_eq!(head.length, 11);
    assert_eq!(head.disposition, "attachment; filename=\"a b.txt\"");
    assert_eq!(head.storage_path, "/files/file-1.bin");
    let file = resolve_file(entered(None).expect("a row"), &upload.bytes);
    assert_eq!(file.data_url, "data:text/plain;base64,aGVsbG8gd29ybGQ=");
    assert_eq!(file.filename, "a \"b\".txt");

    for (row, now) in [(entered(None), 3700), (entered(Some(200)), 300), (None, 100)] {
        let error = content_head(row, now).err().expect("no file");
        assert_eq!(error.status, 404);
        assert_eq!(error.envelope.error.message, "File not found");
    }
}
