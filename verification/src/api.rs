//! Request validation and the answers of the sandbox HTTP API.

use vstd::prelude::*;

use crate::jobs::SandboxTier;
use crate::session::{resource_error_message, ResourceError};
use crate::paths::{component_kinds, join_path, joined_path, path_components, path_starts_with, starts_with_path, PathPart};
use crate::text::{occurs_at, opt_str_view, seq_contains, str_contains, str_to_chars, trim_seq, trim_str};

verus! {

broadcast use vstd::string::group_string_axioms;

/// The HTTP status class of a refusal.
#[derive(Clone, Copy, Debug, PartialEq, Eq, Structural)]
pub enum ApiErrorKind {
    /// 400
    BadRequest,
    /// 404
    NotFound,
    /// 500
    Internal,
}

/// A refused request: status and message.
#[derive(Clone, Debug, PartialEq, Eq)]
pub struct ApiError {
    pub kind: ApiErrorKind,
    pub message: String,
}

impl ApiError {
    pub fn bad_request(message: &str) -> (r: ApiError)
        ensures
            r.kind == ApiErrorKind::BadRequest,
            r.message@ == message@,
    {
        ApiError { kind: ApiErrorKind::BadRequest, message: message.to_owned() }
    }

    pub fn not_found(message: &str) -> (r: ApiError)
        ensures
            r.kind == ApiErrorKind::NotFound,
            r.message@ == message@,
    {
        ApiError { kind: ApiErrorKind::NotFound, message: message.to_owned() }
    }
}

/// An internal error with this message.
pub fn internal(message: String) -> (r: ApiError)
    ensures
        r.kind == ApiErrorKind::Internal,
        r.message@ == message@,
{
    ApiError { kind: ApiErrorKind::Internal, message }
}

/// A character allowed in a session name.
pub open spec fn session_name_char(c: char) -> bool {
    ('a' <= c && c <= 'z') || ('A' <= c && c <= 'Z') || ('0' <= c && c <= '9') || c == '-' || c
        == '_'
}

/// A session name: 1 to 64 ASCII letters, digits, `-` or `_`.
pub open spec fn session_name_ok(name: Seq<char>) -> bool {
    &&& 1 <= name.len() <= 64
    &&& forall|i: int| 0 <= i < name.len() ==> session_name_char(#[trigger] name[i])
}

/// Whether `name` may name a session.
pub fn valid_session_name(name: &str) -> (r: bool)
    ensures
        r == session_name_ok(name@),
{
    let chars = str_to_chars(name);
    if chars.len() < 1 || chars.len() > 64 {
        return false;
    }
    let mut i: usize = 0;
    while i < chars.len()
        invariant
            chars@ == name@,
            i <= chars@.len(),
            forall|k: int| 0 <= k < i ==> session_name_char(#[trigger] chars@[k]),
        decreases chars@.len() - i,
    {
        let c = chars[i];
        let ok = ('a' <= c && c <= 'z') || ('A' <= c && c <= 'Z') || ('0' <= c && c <= '9') || c
            == '-' || c == '_';
        if !ok {
            return false;
        }
        i = i + 1;
    }
    true
}

/// `Err(bad_request("invalid session name"))` unless the name is valid.
pub fn check_session_name(name: &str) -> (r: Result<(), ApiError>)
    ensures
        r is Ok <==> session_name_ok(name@),
        r matches Err(e) ==> e.kind == ApiErrorKind::BadRequest && e.message@
            == "invalid session name"@,
{
    if valid_session_name(name) {
        Ok(())
    } else {
        Err(ApiError::bad_request("invalid session name"))
    }
}

/// Requested sandbox kind of a run (defaults to ephemeral).
#[derive(Clone, Copy, Debug, PartialEq, Eq, Structural)]
pub enum TierName {
    Ephemeral,
    Session,
}

impl Default for TierName {
    fn default() -> (r: Self)
        ensures
            r == TierName::Ephemeral,
    {
        TierName::Ephemeral
    }
}

/// The script path of a run request, trimmed; an empty one is refused.
pub fn check_submit_script(script: &str) -> (r: Result<String, ApiError>)
    ensures
        match r {
            Ok(s) => s@ == trim_seq(script@) && s@.len() > 0,
            Err(e) => trim_seq(script@).len() == 0 && e.kind == ApiErrorKind::BadRequest
                && e.message@ == "script must not be empty"@,
        },
{
    let trimmed = trim_str(script);
    if trimmed.unicode_len() == 0 {
        return Err(ApiError::bad_request("script must not be empty"));
    }
    Ok(trimmed)
}

/// The sandbox tier of a run request: a session run needs a non-blank,
/// valid session name.
pub fn check_submit_tier(tier: TierName, session_name: Option<&str>) -> (r: Result<
    SandboxTier,
    ApiError,
>)
    ensures
        tier == TierName::Ephemeral ==> r == Ok::<SandboxTier, ApiError>(SandboxTier::Ephemeral),
        tier == TierName::Session ==> match session_name {
            Some(n) if trim_seq(n@).len() > 0 => if session_name_ok(trim_seq(n@)) {
                r == Ok::<SandboxTier, ApiError>(SandboxTier::Session)
            } else {
                r matches Err(e) && e.kind == ApiErrorKind::BadRequest && e.message@
                    == "invalid session_name"@
            },
            _ => r matches Err(e) && e.kind == ApiErrorKind::BadRequest && e.message@
                == "session_name required"@,
        },
{
    match tier {
        TierName::Ephemeral => Ok(SandboxTier::Ephemeral),
        TierName::Session => {
            let name = match session_name {
                Some(n) => trim_str(n),
                None => {
                    return Err(ApiError::bad_request("session_name required"));
                },
            };
            if name.unicode_len() == 0 {
                return Err(ApiError::bad_request("session_name required"));
            }
            if !valid_session_name(name.as_str()) {
                return Err(ApiError::bad_request("invalid session_name"));
            }
            Ok(SandboxTier::Session)
        },
    }
}

/// The script path of an in-session run, trimmed; an empty one is refused.
pub fn check_session_script(script: &str) -> (r: Result<String, ApiError>)
    ensures
        match r {
            Ok(s) => s@ == trim_seq(script@) && s@.len() > 0,
            Err(e) => trim_seq(script@).len() == 0 && e.kind == ApiErrorKind::BadRequest
                && e.message@ == "script required"@,
        },
{
    let trimmed = trim_str(script);
    if trimmed.unicode_len() == 0 {
        return Err(ApiError::bad_request("script required"));
    }
    Ok(trimmed)
}

/// Whether an error of opening a session is the caller's fault.
pub open spec fn open_error_is_bad_request(message: Seq<char>) -> bool {
    seq_contains(message, "invalid network"@) || seq_contains(message, "incompatible"@)
        || seq_contains(message, "cpus must"@) || seq_contains(message, "memory_mib must"@)
        || seq_contains(message, "disk_size_gb must"@)
}

/// Map an error of opening a session to its answer: invalid network or
/// resource settings are bad requests, everything else is internal.
pub fn classify_open_error(message: String) -> (r: ApiError)
    ensures
        r.message@ == message@,
        r.kind == if open_error_is_bad_request(message@) {
            ApiErrorKind::BadRequest
        } else {
            ApiErrorKind::Internal
        },
{
    let m = message.as_str();
    let bad = str_contains(m, "invalid network") || str_contains(m, "incompatible")
        || str_contains(m, "cpus must") || str_contains(m, "memory_mib must") || str_contains(
        m,
        "disk_size_gb must",
    );
    if bad {
        ApiError { kind: ApiErrorKind::BadRequest, message }
    } else {
        ApiError { kind: ApiErrorKind::Internal, message }
    }
}

/// Opening a session with a zero resource limit is answered as a bad
/// request, with the validation message.
pub proof fn lemma_resource_errors_are_bad_requests(e: ResourceError)
    ensures
        open_error_is_bad_request(resource_error_message(e)),
{
    reveal_strlit("cpus must be >= 1");
    reveal_strlit("memory_mib must be >= 1");
    reveal_strlit("disk_size_gb must be >= 1");
    reveal_strlit("cpus must");
    reveal_strlit("memory_mib must");
    reveal_strlit("disk_size_gb must");
    let m = resource_error_message(e);
    match e {
        ResourceError::ZeroCpus => {
            assert(m.subrange(0, 9) =~= "cpus must"@);
            assert(occurs_at(m, "cpus must"@, 0));
        },
        ResourceError::ZeroMemory => {
            assert(m.subrange(0, 15) =~= "memory_mib must"@);
            assert(occurs_at(m, "memory_mib must"@, 0));
        },
        ResourceError::ZeroDisk => {
            assert(m.subrange(0, 17) =~= "disk_size_gb must"@);
            assert(occurs_at(m, "disk_size_gb must"@, 0));
        },
    }
}

/// A spawn request needs a non-blank command and a valid session name.
pub fn check_spawn_request(command: &str, name: &str) -> (r: Result<(), ApiError>)
    ensures
        trim_seq(command@).len() == 0 ==> (r matches Err(e) && e.kind == ApiErrorKind::BadRequest
            && e.message@ == "command required"@),
        trim_seq(command@).len() > 0 && !session_name_ok(name@) ==> (r matches Err(e) && e.kind
            == ApiErrorKind::BadRequest && e.message@ == "invalid session name"@),
        trim_seq(command@).len() > 0 && session_name_ok(name@) ==> r is Ok,
{
    let trimmed = trim_str(command);
    if trimmed.unicode_len() == 0 {
        return Err(ApiError::bad_request("command required"));
    }
    check_session_name(name)
}

/// `/api/sessions/{name}/executions/{exec_id}/attach`
pub fn attach_url(name: &str, exec_id: &str) -> (r: String)
    ensures
        r@ == "/api/sessions/"@ + name@ + "/executions/"@ + exec_id@ + "/attach"@,
{
    let mut out = String::from_str("/api/sessions/");
    out.append(name);
    out.append("/executions/");
    out.append(exec_id);
    out.append("/attach");
    out
}

/// An execution is attached only through the session it was spawned in.
pub fn check_attach_session(exec_session: &str, requested: &str) -> (r: Result<(), ApiError>)
    ensures
        r is Ok <==> exec_session@ == requested@,
        r matches Err(e) ==> e.kind == ApiErrorKind::NotFound && e.message@
            == "execution not found in session"@,
{
    let a = exec_session.to_owned();
    let b = requested.to_owned();
    if a == b {
        Ok(())
    } else {
        Err(ApiError::not_found("execution not found in session"))
    }
}

/// `/api/exports/{filename}`
pub fn download_url(filename: &str) -> (r: String)
    ensures
        r@ == "/api/exports/"@ + filename@,
{
    let mut out = String::from_str("/api/exports/");
    out.append(filename);
    out
}

/// An export file name holds no `/` and no `..`.
pub fn check_export_filename(filename: &str) -> (r: Result<(), ApiError>)
    ensures
        r is Ok <==> !seq_contains(filename@, "/"@) && !seq_contains(filename@, ".."@),
        r matches Err(e) ==> e.kind == ApiErrorKind::BadRequest && e.message@
            == "invalid filename"@,
{
    if str_contains(filename, "/") || str_contains(filename, "..") {
        Err(ApiError::bad_request("invalid filename"))
    } else {
        Ok(())
    }
}

/// A joined export path, given its component kinds and whether it lies
/// under the export directory: kept unless it has a `..` component or
/// leaves the directory.
pub open spec fn export_path_of_parts(path: Seq<char>, parts: Seq<PathPart>, inside: bool) -> Option<
    Seq<char>,
> {
    if parts.contains(PathPart::ParentDir) || !inside {
        None
    } else {
        Some(path)
    }
}

/// The export directory joined with the file name, unless the result has
/// a `..` component or leaves the export directory.
pub open spec fn safe_export_path_of(export_dir: Seq<char>, filename: Seq<char>) -> Option<
    Seq<char>,
> {
    let p = joined_path(export_dir, filename);
    export_path_of_parts(p, path_components(p), path_starts_with(p, export_dir))
}

/// Keep a joined export path, or refuse it as an invalid path.
pub fn export_path_decision(path: String, parts: &Vec<PathPart>, inside: bool) -> (r: Result<
    String,
    ApiError,
>)
    ensures
        match r {
            Ok(p) => export_path_of_parts(path@, parts@, inside) == Some(p@),
            Err(e) => export_path_of_parts(path@, parts@, inside) is None && e.kind
                == ApiErrorKind::BadRequest && e.message@ == "invalid path"@,
        },
{
    let mut i: usize = 0;
    while i < parts.len()
        invariant
            i <= parts@.len(),
            forall|k: int| 0 <= k < i ==> parts@[k] != PathPart::ParentDir,
        decreases parts@.len() - i,
    {
        if parts[i] == PathPart::ParentDir {
            proof {
                assert(parts@[i as int] == PathPart::ParentDir);
                assert(parts@.contains(PathPart::ParentDir));
            }
            return Err(ApiError::bad_request("invalid path"));
        }
        i = i + 1;
    }
    if !inside {
        return Err(ApiError::bad_request("invalid path"));
    }
    Ok(path)
}

/// The path of an export file inside the export directory.
pub fn safe_export_path(export_dir: &str, filename: &str) -> (r: Result<String, ApiError>)
    ensures
        match r {
            Ok(p) => safe_export_path_of(export_dir@, filename@) == Some(p@),
            Err(e) => safe_export_path_of(export_dir@, filename@) is None && e.kind
                == ApiErrorKind::BadRequest && e.message@ == "invalid path"@,
        },
{
    let path = join_path(export_dir, filename);
    let parts = component_kinds(path.as_str());
    let inside = starts_with_path(path.as_str(), export_dir);
    export_path_decision(path, &parts, inside)
}

/// `name` without a trailing `.boxlite`.
pub open spec fn strip_boxlite_suffix(name: Seq<char>) -> Seq<char> {
    let n = name.len() as int;
    if n >= 8 && name.subrange(n - 8, n) == ".boxlite"@ {
        name.subrange(0, n - 8)
    } else {
        name
    }
}

/// The session name an uploaded archive suggests: its file name (default
/// `import.boxlite`) without `.boxlite`, cut to 32 characters.
pub open spec fn import_name_of(file_name: Option<Seq<char>>) -> Seq<char> {
    let name = match file_name {
        Some(f) => f,
        None => "import.boxlite"@,
    };
    let stem = strip_boxlite_suffix(name);
    if stem.len() > 32 {
        stem.subrange(0, 32)
    } else {
        stem
    }
}

/// The session name an uploaded archive suggests.
pub fn import_name_from_file_name(file_name: Option<&str>) -> (r: String)
    ensures
        r@ == import_name_of(
            match file_name {
                Some(f) => Some(f@),
                None => None,
            },
        ),
{
    let name: &str = match file_name {
        Some(f) => f,
        None => "import.boxlite",
    };
    let chars = str_to_chars(name);
    let suffix = str_to_chars(".boxlite");
    let n = chars.len();
    let mut end = n;
    if n >= 8 {
        let mut same = true;
        let mut i: usize = 0;
        while i < 8
            invariant
                n == chars@.len(),
                n >= 8,
                suffix@ == ".boxlite"@,
                i <= 8,
                same == (forall|k: int| 0 <= k < i ==> chars@[n - 8 + k] == suffix@[k]),
            decreases 8 - i,
        {
            proof {
                reveal_strlit(".boxlite");
            }
            if chars[n - 8 + i] != suffix[i] {
                same = false;
            }
            i = i + 1;
        }
        proof {
            reveal_strlit(".boxlite");
            if same {
                assert(chars@.subrange(n - 8, n as int) =~= ".boxlite"@);
            } else {
                let k = choose|k: int| 0 <= k < 8 && chars@[n - 8 + k] != suffix@[k];
                assert(chars@.subrange(n - 8, n as int)[k] != ".boxlite"@[k]);
            }
        }
        if same {
            end = n - 8;
        }
    }
    let take = if end > 32 {
        32
    } else {
        end
    };
    proof {
        assert(chars@.subrange(0, n as int) =~= chars@);
    }
    name.substring_char(0, take).to_owned()
}

/// Fields of an import upload, as they arrive.
pub struct ImportForm {
    /// Whether an `archive` field arrived.
    pub archive_seen: bool,
    /// The session name chosen so far.
    pub session_name: Option<String>,
}

impl ImportForm {
    pub fn new() -> (r: Self)
        ensures
            !r.archive_seen,
            r.session_name is None,
    {
        ImportForm { archive_seen: false, session_name: None }
    }

    /// An `archive` field: the file name suggests a session name unless one
    /// was chosen already.
    pub fn accept_archive(&mut self, file_name: Option<&str>)
        ensures
            final(self).archive_seen,
            opt_str_view(final(self).session_name) == match opt_str_view(old(self).session_name) {
                Some(n) => Some(n),
                None => Some(
                    import_name_of(
                        match file_name {
                            Some(f) => Some(f@),
                            None => None,
                        },
                    ),
                ),
            },
    {
        self.archive_seen = true;
        if self.session_name.is_none() {
            self.session_name = Some(import_name_from_file_name(file_name));
        }
    }

    /// A `name` field: a non-blank value (trimmed) becomes the session name.
    pub fn accept_name(&mut self, text: &str)
        ensures
            final(self).archive_seen == old(self).archive_seen,
            opt_str_view(final(self).session_name) == if trim_seq(text@).len() > 0 {
                Some(trim_seq(text@))
            } else {
                opt_str_view(old(self).session_name)
            },
    {
        let trimmed = trim_str(text);
        if trimmed.unicode_len() > 0 {
            self.session_name = Some(trimmed);
        }
    }

    /// The upload is complete: an archive is required and a chosen name must
    /// be valid.
    pub fn finish(&self) -> (r: Result<Option<String>, ApiError>)
        ensures
            !self.archive_seen ==> (r matches Err(e) && e.kind == ApiErrorKind::BadRequest
                && e.message@ == "archive file required"@),
            self.archive_seen ==> match opt_str_view(self.session_name) {
                Some(n) => if session_name_ok(n) {
                    r matches Ok(Some(m)) && m@ == n
                } else {
                    r matches Err(e) && e.kind == ApiErrorKind::BadRequest && e.message@
                        == "invalid session name"@
                },
                None => r matches Ok(None),
            },
    {
        if !self.archive_seen {
            return Err(ApiError::bad_request("archive file required"));
        }
        match &self.session_name {
            Some(n) => {
                if !valid_session_name(n.as_str()) {
                    return Err(ApiError::bad_request("invalid session name"));
                }
                Ok(Some(n.clone()))
            },
            None => Ok(None),
        }
    }
}

/// The directory the web console is served from: the explicit one, else
/// `web` two levels above the build directory.
pub fn resolve_web_root(explicit: Option<String>, manifest_dir: &str) -> (r: String)
    ensures
        r@ == match explicit {
            Some(p) => p@,
            None => joined_path(manifest_dir@, "../../web"@),
        },
{
    match explicit {
        Some(p) => p,
        None => join_path(manifest_dir, "../../web"),
    }
}

/// An archive named `stem.boxlite` suggests exactly its stem when the stem
/// has at most 32 characters, else the stem's first 32: the suffix goes
/// before the name is cut. A missing file name suggests `import`.
pub proof fn lemma_import_name_is_stem(stem: Seq<char>)
    ensures
        stem.len() <= 32 ==> import_name_of(Some(stem + ".boxlite"@)) == stem,
        stem.len() > 32 ==> import_name_of(Some(stem + ".boxlite"@)) == stem.subrange(0, 32),
        import_name_of(None) == "import"@,
{
    reveal_strlit(".boxlite");
    reveal_strlit("import.boxlite");
    reveal_strlit("import");
    let name = stem + ".boxlite"@;
    let n = name.len() as int;
    assert(name.subrange(n - 8, n) =~= ".boxlite"@);
    assert(name.subrange(0, n - 8) =~= stem);
    let d = "import.boxlite"@;
    assert(d.subrange(d.len() - 8, d.len() as int) =~= ".boxlite"@);
    assert(d.subrange(0, d.len() - 8) =~= "import"@);
}

} // verus!
