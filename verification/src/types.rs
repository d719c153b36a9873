use vstd::prelude::*;

use crate::json::{group_json, no_fields, Fields, Json, JsonObject, JsonTree};
use crate::text::opt_string;

verus! {

broadcast use group_json;

/// An error as the API reports it: the body of a failed response.
pub struct ErrorEnvelope {
    pub error: ErrorBody,
}

/// What an error says of itself.
pub struct ErrorBody {
    pub message: String,
    pub error_type: Option<String>,
    pub code: Option<String>,
    pub param: Option<String>,
}

/// The fields with one more, where there is a text for it.
pub open spec fn with_text(fields: Fields, key: Seq<char>, text: Option<Seq<char>>) -> Fields {
    match text {
        Some(text) => fields.insert(key, JsonTree::Text(text)),
        None => fields,
    }
}

/// The fields of an error: its message, and what else is known of it.
pub open spec fn error_fields(body: ErrorBody) -> Fields {
    with_text(
        with_text(
            with_text(
                no_fields().insert("message"@, JsonTree::Text(body.message@)),
                "type"@,
                opt_string(body.error_type),
            ),
            "code"@,
            opt_string(body.code),
        ),
        "param"@,
        opt_string(body.param),
    )
}

fn add_text(object: JsonObject, key: &str, text: &Option<String>) -> (out: JsonObject)
    ensures
        out@ == with_text(object@, key@, opt_string(*text)),
{
    match text {
        Some(text) => object.with(key, Json::text(text.as_str())),
        None => object,
    }
}

impl ErrorEnvelope {
    /// The envelope as JSON.
    pub fn to_json(&self) -> (json: Json)
        ensures
            json@ == JsonTree::Object(
                no_fields().insert("error"@, JsonTree::Object(error_fields(self.error))),
            ),
    {
        let body = JsonObject::new().with("message", Json::text(self.error.message.as_str()));
        let body = add_text(body, "type", &self.error.error_type);
        let body = add_text(body, "code", &self.error.code);
        let body = add_text(body, "param", &self.error.param);
        Json::Object(JsonObject::new().with("error", Json::Object(body)))
    }
}

/// The list of the models on offer.
pub struct ModelsResponse {
    pub object: &'static str,
    pub data: Vec<ModelItem>,
}

/// A model on offer.
pub struct ModelItem {
    pub id: String,
    pub object: &'static str,
    pub created: i64,
    pub owned_by: &'static str,
}

/// The list of the stored files.
pub struct FilesListResponse {
    pub object: &'static str,
    pub data: Vec<FileObject>,
}

/// A stored file as the API shows it.
pub struct FileObject {
    pub id: String,
    pub object: &'static str,
    pub bytes: i64,
    pub created_at: i64,
    pub filename: String,
    pub purpose: String,
    pub status: String,
    pub expires_at: Option<i64>,
}

/// How long an uploaded file is kept.
pub struct ExpiresAfter {
    pub seconds: i64,
}

/// What the table of files knows of a file.
pub struct FileRow {
    pub filename: String,
    pub media_type: String,
    pub byte_size: i64,
    pub storage_path: String,
    pub expires_at: Option<i64>,
    pub deleted_at: Option<i64>,
}

/// What is entered into the table of files for a new file.
pub struct NewFileMetadata {
    pub file_id: String,
    pub filename: String,
    pub purpose: String,
    pub media_type: String,
    pub byte_size: i64,
    pub sha256: String,
    pub storage_path: String,
    pub created_at: i64,
    pub expires_at: Option<i64>,
}

} // verus!
