//! The registry of sessions: each holds one analysis under an id, and answers
//! commands from it without reading any file again.
use vstd::prelude::*;
use vstd::string::StringSliceAdditionalSpecFns;
use crate::session::{AnalysisSession, CommandError, CommandOutput, CommandProcessor};

verus! {

/// Relies on `uuid::Uuid::new_v4` and its `Display`, which writes the
/// hyphenated form: 36 characters. The value is random.
#[verifier::external_body]
fn fresh_session_id() -> (r: String)
    ensures
        r@.len() == 36,
{
    uuid::Uuid::new_v4().to_string()
}

/// Relies on `chrono::Utc::now` and `DateTime::timestamp`: the current time in
/// whole seconds since the Unix epoch, which `now` reads from the system clock
/// and never returns below zero (it panics on a clock set before 1970).
#[verifier::external_body]
fn now_timestamp() -> (r: i64)
    ensures
        r >= 0,
{
    chrono::Utc::now().timestamp()
}

/// What the registry knows of a session besides its results.
#[derive(Clone, Debug)]
pub struct SessionInfo {
    pub id: String,
    pub path: String,
    /// Seconds since the Unix epoch.
    pub created_at: i64,
    pub file_count: usize,
}

/// A session with its description.
pub struct SessionEntry {
    pub info: SessionInfo,
    pub session: AnalysisSession,
}

pub open spec fn entry_ids(v: Seq<SessionEntry>) -> Seq<Seq<char>> {
    v.map_values(|e: SessionEntry| e.info.id@)
}

/// The sessions of this process, by id.
pub struct SessionManager {
    pub sessions: Vec<SessionEntry>,
}

impl SessionManager {
    /// No two sessions share an id.
    pub open spec fn wf(&self) -> bool {
        entry_ids(self.sessions@).no_duplicates()
    }

    pub open spec fn ids(&self) -> Seq<Seq<char>> {
        entry_ids(self.sessions@)
    }

    pub fn new() -> (r: SessionManager)
        ensures
            r.wf(),
            r.sessions@.len() == 0,
    {
        let r = SessionManager { sessions: Vec::new() };
        assert(entry_ids(r.sessions@) =~= Seq::<Seq<char>>::empty());
        r
    }

    /// The position of the session with id `id`.
    fn find_index(&self, id: &str) -> (r: Option<usize>)
        ensures
            match r {
                Some(i) => i < self.sessions@.len() && self.ids()[i as int] == id@,
                None => !self.ids().contains(id@),
            },
    {
        let mut i: usize = 0;
        while i < self.sessions.len()
            invariant
                i <= self.sessions@.len(),
                forall|j: int| 0 <= j < i ==> self.ids()[j] != id@,
            decreases self.sessions@.len() - i,
        {
            if crate::text::bytes_eq(self.sessions[i].info.id.as_str().as_bytes(), id.as_bytes()) {
                proof {
                    vstd::utf8::encode_utf8_decode_utf8(self.ids()[i as int]);
                    vstd::utf8::encode_utf8_decode_utf8(id@);
                }
                return Some(i);
            }
            proof {
                if self.ids()[i as int] == id@ {
                    assert(self.sessions@[i as int].info.id@ == id@);
                }
            }
            i = i + 1;
        }
        None
    }

    /// Registers a session under a given id, created at `created_at`. Fails
    /// with `DuplicateSession`, changing nothing, when the id is taken.
    pub fn insert_session(
        &mut self,
        id: String,
        path: String,
        created_at: i64,
        session: AnalysisSession,
    ) -> (r: Result<(), CommandError>)
        requires
            old(self).wf(),
        ensures
            final(self).wf(),
            old(self).ids().contains(id@) <==> r is Err,
            r is Err ==> r == Err::<(), CommandError>(CommandError::DuplicateSession)
                && final(self).sessions@ == old(self).sessions@,
            r is Ok ==> {
                let s = final(self).sessions@;
                &&& s.len() == old(self).sessions@.len() + 1
                &&& s.drop_last() == old(self).sessions@
                &&& s.last().info.id@ == id@
                &&& s.last().info.path@ == path@
                &&& s.last().info.created_at == created_at
                &&& s.last().session == session
            },
    {
        if self.find_index(id.as_str()).is_some() {
            return Err(CommandError::DuplicateSession);
        }
        let file_count = session.analysis.files.len();
        let ghost before = self.sessions@;
        self.sessions.push(
            SessionEntry { info: SessionInfo { id, path, created_at, file_count }, session },
        );
        proof {
            assert(self.sessions@.drop_last() =~= before);
            assert(entry_ids(self.sessions@) =~= entry_ids(before).push(
                self.sessions@.last().info.id@,
            ));
        }
        Ok(())
    }

    /// Registers a session under a fresh random id, stamped with the current
    /// time, and returns the id. Whatever id comes back is used only if no
    /// session has it already; else this fails with `DuplicateSession`.
    pub fn create_session(&mut self, path: String, session: AnalysisSession) -> (r: Result<
        String,
        CommandError,
    >)
        requires
            old(self).wf(),
        ensures
            final(self).wf(),
            r is Err ==> r == Err::<String, CommandError>(CommandError::DuplicateSession)
                && final(self).sessions@ == old(self).sessions@,
            old(self).sessions@.len() == 0 ==> r is Ok,
            r matches Ok(id) ==> {
                let s = final(self).sessions@;
                &&& !old(self).ids().contains(id@)
                &&& s.len() == old(self).sessions@.len() + 1
                &&& s.drop_last() == old(self).sessions@
                &&& s.last().info.id@ == id@
                &&& s.last().info.path@ == path@
                &&& s.last().info.created_at >= 0
                &&& s.last().session == session
            },
    {
        let id = fresh_session_id();
        let created_at = now_timestamp();
        let returned = id.clone();
        match self.insert_session(id, path, created_at, session) {
            Ok(()) => Ok(returned),
            Err(e) => Err(e),
        }
    }

    /// The session with id `id`.
    pub fn get_session(&self, id: &str) -> (r: Option<&AnalysisSession>)
        ensures
            !self.ids().contains(id@) <==> r is None,
            r matches Some(s) ==> exists|i: int|
                0 <= i < self.sessions@.len() && self.ids()[i] == id@ && *s
                    == self.sessions@[i].session,
    {
        match self.find_index(id) {
            Some(i) => Some(&self.sessions[i].session),
            None => None,
        }
    }

    /// The descriptions of all sessions, in the order they were made.
    pub fn list_sessions(&self) -> (r: Vec<SessionInfo>)
        ensures
            r@.len() == self.sessions@.len(),
            forall|i: int|
                #![trigger r@[i]]
                0 <= i < r@.len() ==> {
                    let e = self.sessions@[i].info;
                    &&& r@[i].id@ == e.id@
                    &&& r@[i].path@ == e.path@
                    &&& r@[i].created_at == e.created_at
                    &&& r@[i].file_count == e.file_count
                },
    {
        let mut out: Vec<SessionInfo> = Vec::new();
        let mut i: usize = 0;
        while i < self.sessions.len()
            invariant
                i <= self.sessions@.len(),
                out@.len() == i,
                forall|j: int|
                    #![trigger out@[j]]
                    0 <= j < i ==> {
                        let e = self.sessions@[j].info;
                        &&& out@[j].id@ == e.id@
                        &&& out@[j].path@ == e.path@
                        &&& out@[j].created_at == e.created_at
                        &&& out@[j].file_count == e.file_count
                    },
            decreases self.sessions@.len() - i,
        {
            let info = &self.sessions[i].info;
            out.push(
                SessionInfo {
                    id: info.id.clone(),
                    path: info.path.clone(),
                    created_at: info.created_at,
                    file_count: info.file_count,
                },
            );
            i = i + 1;
        }
        out
    }

    /// Runs a command against a session. Fails with `SessionNotFound` when no
    /// session has the id, else as the command does.
    pub fn execute_session_command(&self, id: &str, command: &str, args: &Vec<String>) -> (r:
        Result<CommandOutput, CommandError>)
        ensures
            !self.ids().contains(id@) ==> r == Err::<CommandOutput, CommandError>(
                CommandError::SessionNotFound,
            ),
            self.ids().contains(id@) ==> exists|i: int|
                0 <= i < self.sessions@.len() && self.ids()[i] == id@ && crate::session::answers(
                    self.sessions@[i].session,
                    command.spec_bytes(),
                    args@,
                    r,
                ),
    {
        match self.get_session(id) {
            None => Err(CommandError::SessionNotFound),
            Some(session) => CommandProcessor::new().process_command(session, command, args),
        }
    }
}

} // verus!
