//! What the service's pages and endpoints compute from the registry, the
//! resources and the request parameters.
use vstd::prelude::*;
use vstd::string::StringSliceAdditionalSpecFns;
use crate::diff::{Segment, comparison, diff, segment_views};
use crate::session::{Registry, Session, SessionError, decimal, decimal_string, recording_path, sorted_by_creation};

verus! {

/// What is known of a practice resource: its reference script, the name of
/// its audio file and the directory holding both.
pub struct Metadata {
    pub script: String,
    pub audio: String,
    pub enclosing_directory: String,
}

/// The overview page: every session, oldest first.
pub struct Index {
    pub sessions: Vec<Session>,
}

/// The practice page of one resource.
pub struct PracticeData {
    pub metadata: Metadata,
    pub resource_path: String,
    pub lang: String,
}

/// The comparison page of one resource against one session's transcript.
pub struct Comparison {
    pub resource: String,
    pub session: u64,
    pub lang: String,
}

/// A finished recording to hand out: the file and the `Content-Disposition`
/// value naming the download.
pub struct Download {
    pub path: String,
    pub disposition: String,
}

/// What percent-decoding `s` gives, or `None` where the decoded bytes are
/// not UTF-8.
pub uninterp spec fn url_decoded(s: Seq<char>) -> Option<Seq<char>>;

/// The characters of an optional string.
pub open spec fn text_of(o: Option<String>) -> Option<Seq<char>> {
    match o {
        Some(t) => Some(t@),
        None => None,
    }
}

/// No `%` escape in `s`.
pub open spec fn no_percent(s: Seq<char>) -> bool {
    forall|i: int| 0 <= i < s.len() ==> s[i] != '%'
}

/// The first media type registered for the extension of `path`, if any.
pub uninterp spec fn guessed_mime(path: Seq<char>) -> Option<Seq<char>>;

/// Relies on `urlencoding::decode`: decodes `%XX` escapes (leaving `+` as it
/// is) and fails where the bytes are not UTF-8; a text without `%` comes back
/// unchanged.
#[verifier::external_body]
fn url_decode(s: &str) -> (r: Option<String>)
    ensures
        url_decoded(s@) == text_of(r),
        no_percent(s@) ==> text_of(r) == Some(s@),
{
    match urlencoding::decode(s) {
        Ok(t) => Some(t.into_owned()),
        Err(_) => None,
    }
}

/// Relies on `mime_guess::from_path(..).first_raw()`: the first media type
/// of its table for the extension of `path`.
#[verifier::external_body]
fn guess_mime(path: &str) -> (r: Option<String>)
    ensures
        guessed_mime(path@) == text_of(r),
{
    mime_guess::from_path(path).first_raw().map(String::from)
}

/// The resource path of a request, percent-decoded; `InvalidInput` where it
/// does not decode to UTF-8.
pub fn decode_resource_path(raw: &str) -> (r: Result<String, SessionError>)
    ensures
        url_decoded(raw@) is None ==> r == Err::<String, SessionError>(SessionError::InvalidInput),
        url_decoded(raw@) matches Some(t) ==> (r matches Ok(d) && d@ == t),
        (forall|i: int| 0 <= i < raw@.len() ==> raw@[i] != '%') ==> (r matches Ok(d) && d@ == raw@),
{
    match url_decode(raw) {
        Some(t) => Ok(t),
        None => Err(SessionError::InvalidInput),
    }
}

/// The path of a resource's audio file.
pub open spec fn resource_file(m: Metadata) -> Seq<char> {
    m.enclosing_directory@ + "/"@ + m.audio@
}

/// The audio file of a resource: its directory, a slash, its file name.
pub fn get_resource_filename(metadata: &Metadata) -> (r: String)
    ensures
        r@ == resource_file(*metadata),
{
    let mut p = metadata.enclosing_directory.clone();
    p.append("/");
    p.append(metadata.audio.as_str());
    p
}

/// The media type under which a file is served; `InvalidInput` for a file
/// whose extension has no known type.
pub fn media_type(filename: &str) -> (r: Result<String, SessionError>)
    ensures
        guessed_mime(filename@) is None ==> r == Err::<String, SessionError>(SessionError::InvalidInput),
        guessed_mime(filename@) matches Some(m) ==> (r matches Ok(t) && t@ == m),
{
    match guess_mime(filename) {
        Some(m) => Ok(m),
        None => Err(SessionError::InvalidInput),
    }
}

/// The overview page: a snapshot of every session, oldest first.
pub fn index(registry: &Registry) -> (r: Index)
    requires
        registry.wf(),
    ensures
        r.sessions@ == registry@,
        sorted_by_creation(r.sessions@),
{
    Index { sessions: registry.list_all() }
}

/// The practice page of a resource whose metadata was loaded.
pub fn practice(metadata: Metadata, resource_path: String, lang: String) -> (r: PracticeData)
    ensures
        r.metadata == metadata,
        r.resource_path == resource_path,
        r.lang == lang,
{
    PracticeData { metadata, resource_path, lang }
}

/// The comparison page of `resource` against session `id`: available once
/// the session has a transcript, with the errors of `Registry::transcript`
/// before that.
pub fn compare(registry: &Registry, resource: String, id: u64, lang: String) -> (r: Result<Comparison, SessionError>)
    ensures
        match registry.transcript_state(id) {
            Ok(_) => r matches Ok(c) && c.resource == resource && c.session == id && c.lang == lang,
            Err(e) => r == Err::<Comparison, SessionError>(e),
        },
{
    match registry.transcript(id) {
        Ok(_) => Ok(Comparison { resource, session: id, lang }),
        Err(e) => Err(e),
    }
}

/// The runs comparing a resource's script with session `id`'s transcript;
/// the errors of `Registry::transcript` where there is none yet.
pub fn changes(registry: &Registry, script: &str, id: u64) -> (r: Result<Vec<Segment>, SessionError>)
    ensures
        match registry.transcript_state(id) {
            Ok(t) => r matches Ok(segs) && segment_views(segs@) == comparison(script.spec_bytes(), vstd::utf8::encode_utf8(t)),
            Err(e) => r matches Err(x) && x == e,
        },
{
    match registry.transcript(id) {
        Ok(t) => Ok(diff(script, t.as_str())),
        Err(e) => Err(e),
    }
}

/// The `Content-Disposition` value that names the download of session `id`.
pub open spec fn disposition(id: u64) -> Seq<char> {
    "attachment; filename=\""@ + decimal(id as nat) + ".wav\""@
}

/// The finished recording of session `id`, with the errors of
/// `Registry::recording_file`.
pub fn download_audio(registry: &Registry, id: u64) -> (r: Result<Download, SessionError>)
    requires
        registry.wf(),
    ensures
        match registry.recording_state(id) {
            Ok(p) => r matches Ok(d) && d.path@ == p && d.disposition@ == disposition(id),
            Err(e) => r matches Err(x) && x == e,
        },
{
    match registry.recording_file(id) {
        Ok(path) => {
            let mut h = String::from_str("attachment; filename=\"");
            let d = decimal_string(id);
            h.append(d.as_str());
            h.append(".wav\"");
            Ok(Download { path, disposition: h })
        }
        Err(e) => Err(e),
    }
}

} // verus!
