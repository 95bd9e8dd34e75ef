use vstd::prelude::*;
use crate::commons::ApiError;
use crate::text::push_char;

verus! {

/// An uploaded file: its name, MIME type and bytes.
pub struct FileUpload {
    pub filename: String,
    pub mime: String,
    pub bytes: Vec<u8>,
}

/// A stored file record.
pub struct File {
    pub id: String,
    pub key: String,
    pub created: Option<String>,
    pub updated: Option<String>,
    pub deleted: Option<String>,
}

/// The answer to an upload: the object key and the path it is served at.
pub struct UploadedFile {
    pub key: String,
    pub path: String,
}

/// The path under which stored files are served.
pub open spec fn file_base_path() -> Seq<char> {
    seq!['/', 'u', 't', 'i', 'l', 's', '/', 'f', 'i', 'l', 'e', '/']
}

/// The answer to an upload stored under `key`: the key and the path
/// `/utils/file/<key>`.
pub fn upload_file(key: &str) -> (r: UploadedFile)
    ensures
        r.key@ == key@,
        r.path@ == file_base_path() + key@,
{
    let base: &str = "/utils/file/";
    proof {
        reveal_strlit("/utils/file/");
        assert(base@ =~= file_base_path());
    }
    let mut path = String::from_str(base);
    path.append(key);
    UploadedFile { key: String::from_str(key), path }
}

/// The decision of a download: a missing object, or an object without a
/// body, is 404 (`ApiError::NotFound`).
pub fn get_file(object_found: bool, has_body: bool) -> (r: Result<(), ApiError>)
    ensures
        r is Ok <==> object_found && has_body,
        r matches Err(e) ==> e == ApiError::NotFound,
{
    if !object_found {
        return Err(ApiError::NotFound);
    }
    if !has_body {
        return Err(ApiError::NotFound);
    }
    Ok(())
}

/// The SQL `LIKE` pattern of a file search: `%<search>%`, keys that
/// contain the search text.
pub fn file_search_pattern(search: &str) -> (pattern: String)
    ensures
        pattern@ == seq!['%'] + search@ + seq!['%'],
{
    let mut pattern = String::new();
    push_char(&mut pattern, '%');
    pattern.append(search);
    push_char(&mut pattern, '%');
    assert(pattern@ =~= seq!['%'] + search@ + seq!['%']);
    pattern
}

} // verus!
