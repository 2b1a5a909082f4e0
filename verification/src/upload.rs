//! Reading the fields of a multipart upload form: the uploaded file and
//! the ingestion options that come with it.

use crate::helpers::UploadFormData;
use crate::text::{owned, str_eq};
use vstd::prelude::*;

verus! {

/// What a form field carries, by its name.
#[derive(Clone, Copy, Debug, PartialEq, Eq, Structural)]
pub enum FieldKind {
    /// `file`: the uploaded file.
    File,
    /// `autoExecute`: whether mutations run at once.
    AutoExecute,
    /// `pubKey`: the key the records are written under.
    PubKey,
    /// `progressId` or `progress_id`: the progress record to report to.
    ProgressId,
    /// Any other field, or one without a name: ignored.
    Other,
}

/// The kind of a field with the given name.
pub open spec fn kind_of_field(name: Option<Seq<char>>) -> FieldKind {
    match name {
        Some(n) => if n == "file"@ {
            FieldKind::File
        } else if n == "autoExecute"@ {
            FieldKind::AutoExecute
        } else if n == "pubKey"@ {
            FieldKind::PubKey
        } else if n == "progressId"@ || n == "progress_id"@ {
            FieldKind::ProgressId
        } else {
            FieldKind::Other
        },
        None => FieldKind::Other,
    }
}

/// The kind of a field with the given name.
pub fn field_kind(name: Option<&str>) -> (k: FieldKind)
    ensures
        k == kind_of_field(match name {
            Some(n) => Some(n@),
            None => None,
        }),
{
    match name {
        Some(n) => if str_eq(n, "file") {
            FieldKind::File
        } else if str_eq(n, "autoExecute") {
            FieldKind::AutoExecute
        } else if str_eq(n, "pubKey") {
            FieldKind::PubKey
        } else if str_eq(n, "progressId") || str_eq(n, "progress_id") {
            FieldKind::ProgressId
        } else {
            FieldKind::Other
        },
        None => FieldKind::Other,
    }
}

/// The form read so far.
pub struct UploadForm {
    pub file_path: Option<String>,
    pub original_filename: Option<String>,
    pub file_hash: Option<String>,
    pub already_exists: bool,
    pub auto_execute: bool,
    pub pub_key: String,
    pub progress_id: Option<String>,
}

/// The text of an optional string.
pub open spec fn opt_text(o: Option<String>) -> Option<Seq<char>> {
    match o {
        Some(s) => Some(s@),
        None => None,
    }
}

impl UploadForm {
    /// A form with no file yet: mutations run at once, under the key
    /// `default`, with no progress record.
    pub fn new() -> (f: UploadForm)
        ensures
            f.file_path is None,
            f.original_filename is None,
            f.file_hash is None,
            !f.already_exists,
            f.auto_execute,
            f.pub_key@ == "default"@,
            f.progress_id is None,
    {
        UploadForm {
            file_path: None,
            original_filename: None,
            file_hash: None,
            already_exists: false,
            auto_execute: true,
            pub_key: owned("default"),
            progress_id: None,
        }
    }

    /// The `file` field was saved at `path` under `filename` (its hash),
    /// `already_exists` telling a duplicate upload.
    pub fn saved_file(&mut self, path: String, filename: String, already_exists: bool, hash: String)
        ensures
            opt_text(final(self).file_path) == Some(path@),
            opt_text(final(self).original_filename) == Some(filename@),
            opt_text(final(self).file_hash) == Some(hash@),
            final(self).already_exists == already_exists,
            final(self).auto_execute == old(self).auto_execute,
            final(self).pub_key@ == old(self).pub_key@,
            opt_text(final(self).progress_id) == opt_text(old(self).progress_id),
    {
        self.file_path = Some(path);
        self.original_filename = Some(filename);
        self.already_exists = already_exists;
        self.file_hash = Some(hash);
    }

    /// The `autoExecute` field, read as text (`None` when it is not UTF-8):
    /// exactly `true` or `false`; anything else means `true`.
    pub fn auto_execute_field(&mut self, text: Option<String>)
        ensures
            final(self).auto_execute == match opt_text(text) {
                Some(t) => t != "false"@,
                None => true,
            },
            opt_text(final(self).file_path) == opt_text(old(self).file_path),
            opt_text(final(self).original_filename) == opt_text(old(self).original_filename),
            opt_text(final(self).file_hash) == opt_text(old(self).file_hash),
            final(self).already_exists == old(self).already_exists,
            final(self).pub_key@ == old(self).pub_key@,
            opt_text(final(self).progress_id) == opt_text(old(self).progress_id),
    {
        self.auto_execute = match &text {
            Some(t) => !str_eq(t.as_str(), "false"),
            None => true,
        };
    }

    /// The `pubKey` field, read as text; `default` when it is not UTF-8.
    pub fn pub_key_field(&mut self, text: Option<String>)
        ensures
            final(self).pub_key@ == match opt_text(text) {
                Some(t) => t,
                None => "default"@,
            },
            opt_text(final(self).file_path) == opt_text(old(self).file_path),
            opt_text(final(self).original_filename) == opt_text(old(self).original_filename),
            opt_text(final(self).file_hash) == opt_text(old(self).file_hash),
            final(self).already_exists == old(self).already_exists,
            final(self).auto_execute == old(self).auto_execute,
            opt_text(final(self).progress_id) == opt_text(old(self).progress_id),
    {
        self.pub_key = match text {
            Some(t) => t,
            None => owned("default"),
        };
    }

    /// The `progressId` field, read as text (`None` when it is not UTF-8).
    pub fn progress_id_field(&mut self, text: Option<String>)
        ensures
            opt_text(final(self).progress_id) == opt_text(text),
            opt_text(final(self).file_path) == opt_text(old(self).file_path),
            opt_text(final(self).original_filename) == opt_text(old(self).original_filename),
            opt_text(final(self).file_hash) == opt_text(old(self).file_hash),
            final(self).already_exists == old(self).already_exists,
            final(self).auto_execute == old(self).auto_execute,
            final(self).pub_key@ == old(self).pub_key@,
    {
        self.progress_id = text;
    }

    /// The form data once every field is read: refused without a file; the
    /// file name `unknown` and an empty hash when they were not given.
    pub fn finish(self) -> (r: Result<UploadFormData, String>)
        ensures
            self.file_path is None ==> (r matches Err(m) && m@ == "No file provided"@),
            self.file_path matches Some(p) ==> (r matches Ok(d) && {
                &&& d.file_path@ == p@
                &&& d.original_filename@ == match opt_text(self.original_filename) {
                    Some(f) => f,
                    None => "unknown"@,
                }
                &&& d.file_hash@ == match opt_text(self.file_hash) {
                    Some(h) => h,
                    None => seq![],
                }
                &&& d.auto_execute == self.auto_execute
                &&& d.pub_key@ == self.pub_key@
                &&& d.already_exists == self.already_exists
                &&& opt_text(d.progress_id) == opt_text(self.progress_id)
            }),
    {
        let file_path = match self.file_path {
            Some(p) => p,
            None => {
                return Err(owned("No file provided"));
            },
        };
        let original_filename = match self.original_filename {
            Some(f) => f,
            None => owned("unknown"),
        };
        let file_hash = match self.file_hash {
            Some(h) => h,
            None => String::new(),
        };
        Ok(
            UploadFormData {
                file_path,
                original_filename,
                auto_execute: self.auto_execute,
                pub_key: self.pub_key,
                already_exists: self.already_exists,
                progress_id: self.progress_id,
                file_hash,
            },
        )
    }
}

} // verus!
