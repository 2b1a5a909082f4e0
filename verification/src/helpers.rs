//! Plain records exchanged by the ingestion routes and workers, and the
//! folder check that guards a batch ingestion.

use crate::ai_schema::{get, member_index};
use crate::json::{items_view, json_view, lemma_items_view, lemma_members_view, Json, JsonV};
use crate::text::{chars_of, owned, parse_unsigned, parse_unsigned_spec, push_char, push_str, string_of, subvec};
use vstd::prelude::*;

verus! {

/// Response for batch folder ingestion.
#[derive(Clone, Debug)]
pub struct BatchFolderResponse {
    pub success: bool,
    pub batch_id: String,
    pub files_found: usize,
    pub file_progress_ids: Vec<FileProgressInfo>,
    pub message: String,
}

/// Progress info for a single file in a batch.
#[derive(Clone, Debug)]
pub struct FileProgressInfo {
    pub file_name: String,
    pub progress_id: String,
}

/// A single model entry returned by the Ollama `/api/tags` endpoint.
#[derive(Clone, Debug)]
pub struct OllamaModelInfo {
    pub name: String,
    pub size: u64,
}

/// Data extracted from a multipart upload form.
#[derive(Clone, Debug)]
pub struct UploadFormData {
    /// Where the upload was saved.
    pub file_path: String,
    /// The unique filename as saved to disk (full SHA256 hex hash).
    pub original_filename: String,
    pub auto_execute: bool,
    pub pub_key: String,
    /// Whether this file already existed (a duplicate upload).
    pub already_exists: bool,
    pub progress_id: Option<String>,
    /// Full SHA256 hex hash of the uploaded file content.
    pub file_hash: String,
}

/// Why folder validation failed.
#[derive(Clone, Debug)]
pub enum FolderValidationError {
    NotFound(String),
    NotADirectory(String),
}

/// The display text of a folder validation error.
pub open spec fn folder_error_text(e: FolderValidationError) -> Seq<char> {
    match e {
        FolderValidationError::NotFound(p) => "Folder not found: "@ + p@,
        FolderValidationError::NotADirectory(p) => "Path is not a directory: "@ + p@,
    }
}

impl FolderValidationError {
    /// The display text of this error.
    pub fn message(&self) -> (r: String)
        ensures
            r@ == folder_error_text(*self),
    {
        match self {
            FolderValidationError::NotFound(p) => {
                let mut s = owned("Folder not found: ");
                push_str(&mut s, p.as_str());
                s
            },
            FolderValidationError::NotADirectory(p) => {
                let mut s = owned("Path is not a directory: ");
                push_str(&mut s, p.as_str());
                s
            },
        }
    }
}

/// Validate that the folder at `path` exists and is a directory, given
/// what the file system said of it: a missing path is reported first.
pub fn validate_folder(path: &str, exists: bool, is_dir: bool) -> (r: Result<
    (),
    FolderValidationError,
>)
    ensures
        r is Ok <==> exists && is_dir,
        !exists ==> (r matches Err(FolderValidationError::NotFound(p)) && p@ == path@),
        exists && !is_dir ==> (r matches Err(FolderValidationError::NotADirectory(p)) && p@
            == path@),
{
    if !exists {
        return Err(FolderValidationError::NotFound(owned(path)));
    }
    if !is_dir {
        return Err(FolderValidationError::NotADirectory(owned(path)));
    }
    Ok(())
}

/// Request body of the Apple Notes import.
#[derive(Clone, Debug)]
pub struct AppleNotesRequest {
    pub folder: Option<String>,
}

/// Request body of the Apple Reminders import.
#[derive(Clone, Debug)]
pub struct AppleRemindersRequest {
    pub list: Option<String>,
}

/// Request body of the Apple Photos import.
#[derive(Clone, Debug)]
pub struct ApplePhotosRequest {
    pub album: Option<String>,
    pub limit: Option<usize>,
}

impl ApplePhotosRequest {
    /// The number of photos to export: the requested limit, else 50.
    pub fn effective_limit(&self) -> (n: usize)
        ensures
            n == match self.limit {
                Some(l) => l,
                None => 50,
            },
    {
        match self.limit {
            Some(l) => l,
            None => 50,
        }
    }
}

/// A model entry as plain values.
pub open spec fn model_view(m: OllamaModelInfo) -> (Seq<char>, u64) {
    (m.name@, m.size)
}

/// The size of a model entry: its `size` when that is a number written
/// as plain digits that fits in a `u64` (`Value::as_u64`), else 0.
pub open spec fn model_size(entry: JsonV) -> u64 {
    match get(entry, "size"@) {
        Some(JsonV::Number(t)) => match parse_unsigned_spec(t, 0xffff_ffff_ffff_ffff) {
            Some(n) => n as u64,
            None => 0,
        },
        _ => 0,
    }
}

/// The models of the entries that have a string `name`, in order.
pub open spec fn model_entries(items: Seq<JsonV>) -> Seq<(Seq<char>, u64)>
    decreases items.len(),
{
    if items.len() == 0 {
        seq![]
    } else {
        let p = model_entries(items.drop_last());
        match get(items.last(), "name"@) {
            Some(JsonV::Str(n)) => p.push((n, model_size(items.last()))),
            _ => p,
        }
    }
}

/// The models an Ollama `/api/tags` reply lists: those of its `models`
/// array; none when it has no such array.
pub open spec fn listed_models(body: JsonV) -> Seq<(Seq<char>, u64)> {
    match get(body, "models"@) {
        Some(JsonV::Array(items)) => model_entries(items),
        _ => seq![],
    }
}

fn model_of(entry: &Json) -> (r: Option<OllamaModelInfo>)
    ensures
        match get(entry@, "name"@) {
            Some(JsonV::Str(n)) => r matches Some(m) && model_view(m) == (n, model_size(entry@)),
            _ => r is None,
        },
{
    let ms = match entry {
        Json::Object(ms) => ms,
        _ => {
            return None;
        },
    };
    proof {
        lemma_members_view(ms@);
    }
    let name = match member_index(ms, "name") {
        Some(i) => match &ms[i].1 {
            Json::Str(n) => owned(n.as_str()),
            _ => {
                return None;
            },
        },
        None => {
            return None;
        },
    };
    let size = match member_index(ms, "size") {
        Some(i) => match &ms[i].1 {
            Json::Number(t) => match parse_unsigned(&chars_of(t.as_str()), 0xffff_ffff_ffff_ffffu64) {
                Some(n) => n,
                None => 0,
            },
            _ => 0,
        },
        None => 0,
    };
    Some(OllamaModelInfo { name, size })
}

/// The models listed in the reply of Ollama's `/api/tags`: each entry of
/// `models` with a string `name`, with its `size` (0 when missing or not a
/// whole number).
pub fn ollama_models_from(body: &Json) -> (r: Vec<OllamaModelInfo>)
    ensures
        r@.map_values(|m: OllamaModelInfo| model_view(m)) == listed_models(body@),
{
    let mut out: Vec<OllamaModelInfo> = Vec::new();
    let ms = match body {
        Json::Object(ms) => ms,
        _ => {
            proof {
                assert(out@.map_values(|m: OllamaModelInfo| model_view(m)) =~= listed_models(body@));
            }
            return out;
        },
    };
    proof {
        lemma_members_view(ms@);
    }
    let items = match member_index(ms, "models") {
        Some(i) => match &ms[i].1 {
            Json::Array(items) => items,
            _ => {
                proof {
                    assert(out@.map_values(|m: OllamaModelInfo| model_view(m)) =~= listed_models(body@));
                }
                return out;
            },
        },
        None => {
            proof {
                assert(out@.map_values(|m: OllamaModelInfo| model_view(m)) =~= listed_models(body@));
            }
            return out;
        },
    };
    let ghost iv = items_view(items@);
    proof {
        lemma_items_view(items@);
        assert(iv.take(0) =~= Seq::<JsonV>::empty());
        assert(out@.map_values(|m: OllamaModelInfo| model_view(m)) =~= Seq::<(Seq<char>, u64)>::empty());
    }
    let mut i: usize = 0;
    while i < items.len()
        invariant
            i <= items@.len(),
            iv == items_view(items@),
            iv.len() == items@.len(),
            forall|k: int| 0 <= k < items@.len() ==> #[trigger] iv[k] == json_view(items@[k]),
            out@.map_values(|m: OllamaModelInfo| model_view(m)) == model_entries(iv.take(i as int)),
        decreases items.len() - i,
    {
        proof {
            assert(iv.take(i + 1).drop_last() =~= iv.take(i as int));
            assert(iv.take(i + 1).last() == iv[i as int]);
        }
        match model_of(&items[i]) {
            Some(m) => {
                let ghost before = out@;
                out.push(m);
                proof {
                    assert(out@.map_values(|m: OllamaModelInfo| model_view(m)) =~= before.map_values(
                        |m: OllamaModelInfo| model_view(m),
                    ).push(model_view(m)));
                }
            },
            None => {},
        }
        i += 1;
    }
    proof {
        assert(iv.take(items@.len() as int) =~= iv);
    }
    out
}

// ---------------------------------------------------------------------------
// Folder paths
// ---------------------------------------------------------------------------

/// Whether `p` is an absolute Unix path (it starts at the root).
pub open spec fn is_absolute_path(p: Seq<char>) -> bool {
    p.len() > 0 && p[0] == '/'
}

/// `base` joined with `p` as Unix paths are: an absolute `p` replaces the
/// base; otherwise one separator goes between them, unless the base is
/// empty or already ends with one.
pub open spec fn path_join(base: Seq<char>, p: Seq<char>) -> Seq<char> {
    if is_absolute_path(p) {
        p
    } else if base.len() == 0 || base.last() == '/' {
        base + p
    } else {
        base + seq!['/'] + p
    }
}

/// `path` with a leading `~` (alone, or followed by `/`) put in terms of
/// the home directory, when there is one.
pub open spec fn tilde_expanded(path: Seq<char>, home: Option<Seq<char>>) -> Seq<char> {
    if path.len() == 1 && path[0] == '~' {
        match home {
            Some(h) => h,
            None => path,
        }
    } else if path.len() >= 2 && path[0] == '~' && path[1] == '/' {
        match home {
            Some(h) => path_join(h, path.subrange(2, path.len() as int)),
            None => path,
        }
    } else {
        path
    }
}

/// The folder a batch ingestion reads: `path` with `~` expanded, resolved
/// against the working directory unless it is already absolute.
pub open spec fn resolved_folder(path: Seq<char>, home: Option<Seq<char>>, cwd: Seq<char>) -> Seq<char> {
    let e = tilde_expanded(path, home);
    if is_absolute_path(e) {
        e
    } else {
        path_join(cwd, e)
    }
}

pub(crate) fn joined_path(base: &str, p: &str) -> (r: String)
    ensures
        r@ == path_join(base@, p@),
{
    let pc = chars_of(p);
    if pc.len() > 0 && pc[0] == '/' {
        return owned(p);
    }
    let bc = chars_of(base);
    let mut out = owned(base);
    if bc.len() > 0 && bc[bc.len() - 1] != '/' {
        push_char(&mut out, '/');
    }
    push_str(&mut out, p);
    out
}

/// Resolve a folder path: `~` expands to the home directory, absolute paths
/// pass through, relative paths are resolved against the working
/// directory `cwd`. `home` is the user's home directory, if it is known.
pub fn resolve_folder_path(path: &str, home: Option<&str>, cwd: &str) -> (r: String)
    ensures
        match home {
            Some(h) => r@ == resolved_folder(path@, Some(h@), cwd@),
            None => r@ == resolved_folder(path@, None, cwd@),
        },
        is_absolute_path(cwd@) ==> is_absolute_path(r@),
{
    let pc = chars_of(path);
    let expanded: String = if pc.len() == 1 && pc[0] == '~' {
        match home {
            Some(h) => owned(h),
            None => owned(path),
        }
    } else if pc.len() >= 2 && pc[0] == '~' && pc[1] == '/' {
        match home {
            Some(h) => {
                let rest = string_of(&subvec(&pc, 2, pc.len()));
                joined_path(h, rest.as_str())
            },
            None => owned(path),
        }
    } else {
        owned(path)
    };
    let ec = chars_of(expanded.as_str());
    if ec.len() > 0 && ec[0] == '/' {
        expanded
    } else {
        joined_path(cwd, expanded.as_str())
    }
}

} // verus!
