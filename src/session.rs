//! Sessions, their lifecycle, and the registry that owns them.
use vstd::prelude::*;

verus! {

/// Where a session stands in its lifecycle.
#[derive(Clone, Copy, Debug, PartialEq, Eq, Structural)]
pub enum Status {
    Connecting,
    Recording,
    ClosingRequested,
    Closed,
    Errored,
}

/// Failures reported by registry queries and updates.
#[derive(Clone, Copy, Debug, PartialEq, Eq, Structural)]
pub enum SessionError {
    /// No session has this id (or no resource has this name).
    NotFound,
    /// The entity exists but the data asked for has not been produced yet.
    NotReady,
    /// The request itself is malformed or contradicts the entity's state.
    InvalidInput,
    /// The session ended in failure, so the data will never exist.
    Failed,
}

impl Status {
    /// Position in the lifecycle; a session only ever moves to a higher rank.
    pub open spec fn rank(self) -> nat {
        match self {
            Status::Connecting => 0,
            Status::Recording => 1,
            Status::ClosingRequested => 2,
            Status::Closed => 3,
            Status::Errored => 3,
        }
    }

    pub open spec fn is_terminal(self) -> bool {
        self is Closed || self is Errored
    }
}

/// A status may stay as it is or move strictly forward in the lifecycle.
pub open spec fn valid_step(a: Status, b: Status) -> bool {
    a == b || a.rank() < b.rank()
}

/// Every session of `a` is still in `b`, under the same id, and has moved
/// along the lifecycle.
pub open spec fn evolves(a: Seq<Session>, b: Seq<Session>) -> bool {
    &&& a.len() <= b.len()
    &&& forall|i: int| 0 <= i < a.len() ==> {
        &&& (#[trigger] b[i]).id == a[i].id
        &&& valid_step(a[i].status, b[i].status)
    }
}

/// What a closure request does to a status.
pub open spec fn after_closure_request(s: Status) -> Status {
    match s {
        Status::Connecting | Status::Recording => Status::ClosingRequested,
        _ => s,
    }
}


/// One recording attempt and everything known about it.
pub struct Session {
    pub id: u64,
    /// Creation time as given by the caller's clock, kept non-decreasing
    /// across the registry.
    pub created_at: u64,
    pub language: String,
    pub sample_rate: u32,
    pub resource: Option<String>,
    pub status: Status,
    /// Where the audio of this session is written.
    pub recording: String,
    pub transcript: Option<String>,
    /// Frames appended so far.
    pub frames: u64,
    /// Audio bytes appended so far.
    pub bytes: u64,
}

fn clone_opt(s: &Option<String>) -> (r: Option<String>)
    ensures
        r == *s,
{
    match s {
        Some(t) => Some(t.clone()),
        None => None,
    }
}

impl Session {
    /// A copy of the session as it stands now.
    pub fn snapshot(&self) -> (r: Session)
        ensures
            r == *self,
    {
        Session {
            id: self.id,
            created_at: self.created_at,
            language: self.language.clone(),
            sample_rate: self.sample_rate,
            resource: clone_opt(&self.resource),
            status: self.status,
            recording: self.recording.clone(),
            transcript: clone_opt(&self.transcript),
            frames: self.frames,
            bytes: self.bytes,
        }
    }
}


/// The character of a decimal digit.
pub open spec fn digit_char(d: nat) -> char {
    if d == 0 { '0' } else if d == 1 { '1' } else if d == 2 { '2' } else if d == 3 { '3' }
    else if d == 4 { '4' } else if d == 5 { '5' } else if d == 6 { '6' } else if d == 7 { '7' }
    else if d == 8 { '8' } else { '9' }
}

/// The decimal notation of `n`, without leading zeros.
pub open spec fn decimal(n: nat) -> Seq<char>
    decreases n,
{
    if n < 10 {
        seq![digit_char(n)]
    } else {
        decimal(n / 10) + seq![digit_char(n % 10)]
    }
}

/// Relies on the standard `Display` of `u64` through `to_string`, which
/// writes the number in decimal.
#[verifier::external_body]
pub(crate) fn decimal_string(n: u64) -> (r: String)
    ensures
        r@ == decimal(n as nat),
{
    n.to_string()
}

/// The file that the audio of session `id` goes to, inside `dir`.
pub open spec fn recording_path(dir: Seq<char>, id: u64) -> Seq<char> {
    dir + "/"@ + decimal(id as nat) + ".wav"@
}

fn make_recording_path(dir: &String, id: u64) -> (r: String)
    ensures
        r@ == recording_path(dir@, id),
{
    let mut p = dir.clone();
    p.append("/");
    let d = decimal_string(id);
    p.append(d.as_str());
    p.append(".wav");
    p
}


/// The latest creation time among `s`, or 0 for no session.
pub open spec fn latest_created(s: Seq<Session>) -> u64 {
    if s.len() == 0 { 0 } else { s.last().created_at }
}

/// Sessions ordered by creation time, oldest first.
pub open spec fn sorted_by_creation(s: Seq<Session>) -> bool {
    forall|i: int, j: int| 0 <= i <= j < s.len() ==> #[trigger] s[i].created_at <= #[trigger] s[j].created_at
}

/// What the registry keeps true of its sessions: each session's id is its
/// position, its audio goes to its own file under `dir`, sessions are held in
/// creation order, and a transcript only exists for a closed recording.
pub open spec fn sessions_wf(s: Seq<Session>, dir: Seq<char>) -> bool {
    &&& s.len() <= u64::MAX
    &&& sorted_by_creation(s)
    &&& forall|i: int| 0 <= i < s.len() ==> {
        &&& (#[trigger] s[i]).id == i
        &&& s[i].recording@ == recording_path(dir, i as u64)
        &&& s[i].transcript is Some ==> s[i].status is Closed
    }
}

/// A fresh session as `create` stores it.
pub open spec fn fresh_session(
    s: Session,
    id: u64,
    created_at: u64,
    language: Seq<char>,
    sample_rate: u32,
    resource: Option<String>,
    dir: Seq<char>,
) -> bool {
    &&& s.id == id
    &&& s.created_at == created_at
    &&& s.language@ == language
    &&& s.sample_rate == sample_rate
    &&& s.resource == resource
    &&& s.status == Status::Connecting
    &&& s.recording@ == recording_path(dir, id)
    &&& s.transcript is None
    &&& s.frames == 0
    &&& s.bytes == 0
}

/// `s` with its status replaced by `st`.
pub open spec fn with_status(s: Session, st: Status) -> Session {
    Session { status: st, ..s }
}

/// `s` with its status, frame count and byte count replaced.
pub open spec fn with_progress(s: Session, st: Status, frames: u64, bytes: u64) -> Session {
    Session { status: st, frames: frames, bytes: bytes, ..s }
}

/// `s` with its transcript set to `t`.
pub open spec fn with_transcript(s: Session, t: String) -> Session {
    Session { transcript: Some(t), ..s }
}

/// The registry of every session of the process, addressed by id.
pub struct Registry {
    pub(crate) sessions: Vec<Session>,
    pub(crate) dir: String,
}

impl View for Registry {
    type V = Seq<Session>;

    closed spec fn view(&self) -> Seq<Session> {
        self.sessions@
    }
}

impl Registry {
    /// The directory under which recordings are written.
    pub closed spec fn dir(&self) -> Seq<char> {
        self.dir@
    }

    /// The view is the vector of sessions.
    pub(crate) proof fn lemma_view(&self)
        ensures
            self@ == self.sessions@,
    {
    }

    pub open spec fn wf(&self) -> bool {
        sessions_wf(self@, self.dir())
    }

    pub open spec fn contains(&self, id: u64) -> bool {
        id < self@.len()
    }

    /// What asking for the transcript of session `id` gives.
    pub open spec fn transcript_state(&self, id: u64) -> Result<Seq<char>, SessionError> {
        if !self.contains(id) {
            Err(SessionError::NotFound)
        } else if self.session(id).status is Errored {
            Err(SessionError::Failed)
        } else {
            match self.session(id).transcript {
                Some(t) => Ok(t@),
                None => Err(SessionError::NotReady),
            }
        }
    }

    /// What asking for the recording of session `id` gives.
    pub open spec fn recording_state(&self, id: u64) -> Result<Seq<char>, SessionError> {
        if !self.contains(id) {
            Err(SessionError::NotFound)
        } else if self.session(id).status is Errored {
            Err(SessionError::Failed)
        } else if !(self.session(id).status is Closed) {
            Err(SessionError::NotReady)
        } else {
            Ok(self.session(id).recording@)
        }
    }

    /// The session with this id; only meaningful where `contains(id)`.
    pub open spec fn session(&self, id: u64) -> Session {
        self@[id as int]
    }

    /// An empty registry whose recordings go under `dir`.
    pub fn new(dir: String) -> (r: Registry)
        ensures
            r.wf(),
            r@.len() == 0,
            r.dir() == dir@,
    {
        Registry { sessions: Vec::new(), dir }
    }

    /// Number of sessions ever created.
    pub fn len(&self) -> (r: usize)
        ensures
            r == self@.len(),
    {
        self.sessions.len()
    }

    /// Stores a new session in state `Connecting` and returns its id. The
    /// creation time is `now`, or the latest creation time so far if the
    /// clock went back, so that creation order and time order agree.
    pub fn create(&mut self, language: String, sample_rate: u32, resource: Option<String>, now: u64) -> (id: u64)
        requires
            old(self).wf(),
            old(self)@.len() < u64::MAX,
        ensures
            final(self).wf(),
            final(self).dir() == old(self).dir(),
            id == old(self)@.len(),
            !old(self).contains(id),
            final(self)@.len() == old(self)@.len() + 1,
            final(self)@.drop_last() == old(self)@,
            evolves(old(self)@, final(self)@),
            fresh_session(
                final(self)@.last(),
                id,
                if now >= latest_created(old(self)@) { now } else { latest_created(old(self)@) },
                language@,
                sample_rate,
                resource,
                old(self).dir(),
            ),
    {
        let n = self.sessions.len();
        let latest = if n == 0 { 0 } else { self.sessions[n - 1].created_at };
        let created_at = if now >= latest { now } else { latest };
        let id = n as u64;
        let recording = make_recording_path(&self.dir, id);
        let s = Session {
            id,
            created_at,
            language,
            sample_rate,
            resource,
            status: Status::Connecting,
            recording,
            transcript: None,
            frames: 0,
            bytes: 0,
        };
        self.sessions.push(s);
        proof {
            assert(self@.drop_last() =~= old(self)@);
        }
        id
    }

    /// The session with this id, if there is one.
    pub fn find_by_id(&self, id: u64) -> (r: Option<&Session>)
        ensures
            r is Some <==> self.contains(id),
            r matches Some(s) ==> *s == self.session(id),
    {
        if id < self.sessions.len() as u64 {
            Some(&self.sessions[id as usize])
        } else {
            None
        }
    }

    /// Moves session `id` to status `st` and records its progress; the only
    /// way the ingest side changes a session.
    pub(crate) fn set_progress(&mut self, id: u64, st: Status, frames: u64, bytes: u64)
        requires
            old(self).wf(),
            old(self).contains(id),
            valid_step(old(self).session(id).status, st),
        ensures
            final(self).wf(),
            final(self).dir() == old(self).dir(),
            final(self)@ == old(self)@.update(id as int, with_progress(old(self).session(id), st, frames, bytes)),
            evolves(old(self)@, final(self)@),
    {
        let n = self.sessions.len();
        let i = id as usize;
        self.sessions[i].status = st;
        self.sessions[i].frames = frames;
        self.sessions[i].bytes = bytes;
        proof {
            assert(self@ =~= old(self)@.update(id as int, with_progress(old(self).session(id), st, frames, bytes)));
            assert forall|a: int, b: int| 0 <= a <= b < self@.len() implies
                #[trigger] self@[a].created_at <= #[trigger] self@[b].created_at by {
                assert(old(self)@[a].created_at <= old(self)@[b].created_at);
            }
        }
    }

    /// Asks session `id` to finish its recording: a session that is
    /// connecting or recording moves to `ClosingRequested`. A request for a
    /// session that is unknown, already closing, closed or failed changes
    /// nothing.
    pub fn mark_for_closure(&mut self, id: u64)
        requires
            old(self).wf(),
        ensures
            final(self).wf(),
            final(self).dir() == old(self).dir(),
            old(self).contains(id) ==> final(self)@ == old(self)@.update(
                id as int,
                with_status(old(self).session(id), after_closure_request(old(self).session(id).status)),
            ),
            !old(self).contains(id) ==> final(self)@ == old(self)@,
            old(self).contains(id) && old(self).session(id).status.is_terminal() ==> final(self)@ == old(self)@,
            evolves(old(self)@, final(self)@),
    {
        if id < self.sessions.len() as u64 {
            let i = id as usize;
            let st = self.sessions[i].status;
            if st == Status::Connecting || st == Status::Recording {
                self.sessions[i].status = Status::ClosingRequested;
                proof {
                    assert forall|a: int, b: int| 0 <= a <= b < self@.len() implies
                        #[trigger] self@[a].created_at <= #[trigger] self@[b].created_at by {
                        assert(old(self)@[a].created_at <= old(self)@[b].created_at);
                    }
                }
            }
            proof {
                assert(with_status(old(self).session(id), st) == old(self).session(id));
                assert(self@ =~= old(self)@.update(
                    id as int,
                    with_status(old(self).session(id), after_closure_request(st)),
                ));
            }
        }
    }

    /// The current status of session `id`.
    pub fn status(&self, id: u64) -> (r: Result<Status, SessionError>)
        ensures
            self.contains(id) ==> r == Ok::<Status, SessionError>(self.session(id).status),
            !self.contains(id) ==> r == Err::<Status, SessionError>(SessionError::NotFound),
    {
        if id < self.sessions.len() as u64 {
            Ok(self.sessions[id as usize].status)
        } else {
            Err(SessionError::NotFound)
        }
    }

    /// The transcript of session `id`: `NotFound` for an unknown id, `Failed`
    /// for a session that ended in error, `NotReady` while recognition has
    /// not delivered it.
    pub fn transcript(&self, id: u64) -> (r: Result<String, SessionError>)
        ensures
            match self.transcript_state(id) {
                Ok(t) => r matches Ok(x) && x@ == t,
                Err(e) => r == Err::<String, SessionError>(e),
            },
    {
        if id >= self.sessions.len() as u64 {
            return Err(SessionError::NotFound);
        }
        let s = &self.sessions[id as usize];
        if s.status == Status::Errored {
            return Err(SessionError::Failed);
        }
        match &s.transcript {
            Some(t) => Ok(t.clone()),
            None => Err(SessionError::NotReady),
        }
    }

    /// Stores the transcript that recognition produced for session `id`.
    /// Only a closed recording gets one (`NotReady` before, `Failed` for a
    /// failed session), and only once (`InvalidInput` for a second one).
    pub fn set_transcript(&mut self, id: u64, text: String) -> (r: Result<(), SessionError>)
        requires
            old(self).wf(),
        ensures
            final(self).wf(),
            final(self).dir() == old(self).dir(),
            !old(self).contains(id) ==> r == Err::<(), SessionError>(SessionError::NotFound),
            old(self).contains(id) ==> r == (
                if old(self).session(id).status is Errored {
                    Err::<(), SessionError>(SessionError::Failed)
                } else if !(old(self).session(id).status is Closed) {
                    Err::<(), SessionError>(SessionError::NotReady)
                } else if old(self).session(id).transcript is Some {
                    Err::<(), SessionError>(SessionError::InvalidInput)
                } else {
                    Ok::<(), SessionError>(())
                }
            ),
            r is Ok ==> final(self)@ == old(self)@.update(id as int, with_transcript(old(self).session(id), text)),
            r is Err ==> final(self)@ == old(self)@,
            evolves(old(self)@, final(self)@),
    {
        if id >= self.sessions.len() as u64 {
            return Err(SessionError::NotFound);
        }
        let i = id as usize;
        let st = self.sessions[i].status;
        if st == Status::Errored {
            return Err(SessionError::Failed);
        }
        if st != Status::Closed {
            return Err(SessionError::NotReady);
        }
        if self.sessions[i].transcript.is_some() {
            return Err(SessionError::InvalidInput);
        }
        self.sessions[i].transcript = Some(text);
        proof {
            assert(self@ =~= old(self)@.update(id as int, with_transcript(old(self).session(id), text)));
            assert forall|a: int, b: int| 0 <= a <= b < self@.len() implies
                #[trigger] self@[a].created_at <= #[trigger] self@[b].created_at by {
                assert(old(self)@[a].created_at <= old(self)@[b].created_at);
            }
        }
        Ok(())
    }

    /// The file holding the finished recording of session `id`: `NotFound`
    /// for an unknown id, `Failed` for a failed session, `NotReady` while the
    /// recording is not closed.
    pub fn recording_file(&self, id: u64) -> (r: Result<String, SessionError>)
        requires
            self.wf(),
        ensures
            match self.recording_state(id) {
                Ok(p) => r matches Ok(x) && x@ == p,
                Err(e) => r == Err::<String, SessionError>(e),
            },
            r matches Ok(p) ==> p@ == recording_path(self.dir(), id),
    {
        if id >= self.sessions.len() as u64 {
            return Err(SessionError::NotFound);
        }
        let s = &self.sessions[id as usize];
        if s.status == Status::Errored {
            Err(SessionError::Failed)
        } else if s.status != Status::Closed {
            Err(SessionError::NotReady)
        } else {
            Ok(s.recording.clone())
        }
    }

    /// A snapshot of every session, oldest first.
    pub fn list_all(&self) -> (r: Vec<Session>)
        requires
            self.wf(),
        ensures
            r@ == self@,
            sorted_by_creation(r@),
    {
        let mut out: Vec<Session> = Vec::new();
        let mut i: usize = 0;
        while i < self.sessions.len()
            invariant
                i <= self.sessions@.len(),
                out@ == self.sessions@.subrange(0, i as int),
            decreases self.sessions@.len() - i,
        {
            out.push(self.sessions[i].snapshot());
            i = i + 1;
            proof {
                assert(out@ =~= self.sessions@.subrange(0, i as int));
            }
        }
        proof {
            assert(out@ =~= self.sessions@);
        }
        out
    }
}


/// Ids are unique: every session's id is its position in the registry, so
/// no two sessions share one. Since `create` returns the id of a session that
/// was not there before and nothing removes a session or changes its id, the
/// ids returned by any sequence of `create` calls are distinct.
pub proof fn lemma_ids_distinct(r: &Registry)
    requires
        r.wf(),
    ensures
        forall|i: int| 0 <= i < r@.len() ==> (#[trigger] r@[i]).id == i,
        forall|i: int, j: int| 0 <= i < j < r@.len() ==> (#[trigger] r@[i]).id != (#[trigger] r@[j]).id,
{
    assert forall|i: int, j: int| 0 <= i < j < r@.len() implies (#[trigger] r@[i]).id != (#[trigger] r@[j]).id by {
        assert(r@[i].id == i);
        assert(r@[j].id == j);
    }
}

/// The lifecycle only moves forward: changes chain into changes, and a
/// session that is closed or failed stays so for good.
pub proof fn lemma_lifecycle_monotonic(a: Seq<Session>, b: Seq<Session>, c: Seq<Session>)
    requires
        evolves(a, b),
        evolves(b, c),
    ensures
        evolves(a, c),
        forall|i: int| 0 <= i < a.len() && a[i].status.is_terminal() ==> (#[trigger] c[i]).status == a[i].status,
{
    assert forall|i: int| 0 <= i < a.len() implies {
        &&& (#[trigger] c[i]).id == a[i].id
        &&& valid_step(a[i].status, c[i].status)
    } by {
        assert(b[i].id == a[i].id);
        assert(c[i].id == b[i].id);
    }
    assert forall|i: int| 0 <= i < a.len() && a[i].status.is_terminal() implies (#[trigger] c[i]).status == a[i].status by {
        assert(b[i].id == a[i].id);
        assert(c[i].id == b[i].id);
    }
}

/// Closure requests are idempotent, and leave a closed or failed session as
/// it is.
pub proof fn lemma_closure_idempotent(s: Status)
    ensures
        after_closure_request(after_closure_request(s)) == after_closure_request(s),
        s.is_terminal() ==> after_closure_request(s) == s,
        valid_step(s, after_closure_request(s)),
{
}

/// A well-formed registry lists its sessions in creation-time order.
pub proof fn lemma_listing_sorted(r: &Registry)
    requires
        r.wf(),
    ensures
        sorted_by_creation(r@),
{
}

} // verus!
