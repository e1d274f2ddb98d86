//! The login coordinator: the single-flight lifecycle of an in-process
//! login server. At most one login is pending process-wide; starting a new
//! one hands back the previous server's cancel handle so the caller can
//! shut it down first, and cancelling when nothing is pending is a no-op
//! that still succeeds.
//!
//! The coordinator decides; the surrounding server launches the login
//! server, invokes the cancel handles it is handed, and reads the
//! credential file, passing the outcome in as a plain value.

use vstd::prelude::*;

verus! {

broadcast use vstd::set::group_set_axioms;


/// A pending login: the URL the user must open, the local port its server
/// listens on, and the identity of its cancel handle.
pub struct PendingLogin {
    pub auth_url: Vec<u8>,
    pub port: u16,
    pub handle: u64,
}

/// Mathematical form of a pending login.
#[verifier::ext_equal]
pub struct PendingLoginS {
    pub auth_url: Seq<u8>,
    pub port: u16,
    pub handle: u64,
}

impl View for PendingLogin {
    type V = PendingLoginS;

    open spec fn view(&self) -> PendingLoginS {
        PendingLoginS { auth_url: self.auth_url@, port: self.port, handle: self.handle }
    }
}

/// What the credential file held when the server looked: no file, a
/// parseable one (with or without an API key), or an unreadable one.
#[derive(Clone, Copy, PartialEq, Eq, Structural, Debug)]
pub enum CredFileState {
    Absent,
    Parsed { has_api_key: bool },
    Unreadable,
}

/// How the login endpoint answers a status poll.
#[derive(Debug, PartialEq, Eq)]
pub enum LoginStatus {
    Pending { auth_url: Vec<u8>, port: u16 },
    NotAuthenticated,
    ApiKey,
    ChatGpt,
    ReadError,
}

/// The process-wide login coordinator. Its ghost history records every
/// handle ever started and every handle handed back for cancellation, so
/// single-flight is a stated invariant, not a convention.
pub struct LoginCoordinator {
    pending: Option<PendingLogin>,
    started: Ghost<Set<u64>>,
    cancelled: Ghost<Set<u64>>,
}

impl LoginCoordinator {
    /// The pending login, if one is in flight.
    pub closed spec fn pending(self) -> Option<PendingLoginS> {
        match self.pending {
            Some(p) => Some(p@),
            None => None,
        }
    }

    /// Handles of every login ever started.
    pub closed spec fn started(self) -> Set<u64> {
        self.started@
    }

    /// Handles handed back for cancellation.
    pub closed spec fn cancelled(self) -> Set<u64> {
        self.cancelled@
    }

    /// The logins started and not yet handed back for cancellation.
    pub open spec fn live(self) -> Set<u64> {
        self.started().difference(self.cancelled())
    }

    /// The live logins are exactly the pending one — none, or one.
    pub closed spec fn wf(self) -> bool {
        &&& self.cancelled@.subset_of(self.started@)
        &&& match self.pending {
            Some(p) => self.started@.difference(self.cancelled@) =~= Set::empty().insert(
                p.handle,
            ),
            None => self.started@.difference(self.cancelled@) =~= Set::empty(),
        }
    }

    /// A coordinator with no login pending.
    pub fn new() -> (r: LoginCoordinator)
        ensures
            r.wf(),
            r.pending() is None,
            r.started() == Set::<u64>::empty(),
    {
        LoginCoordinator { pending: None, started: Ghost(Set::empty()), cancelled: Ghost(
            Set::empty(),
        ) }
    }

    /// Starts a new login: the fresh one becomes the pending login, and
    /// the handle of the previously pending one, if any, is handed back
    /// for the caller to cancel — cancel-then-restart, atomically.
    pub fn start(&mut self, fresh: PendingLogin) -> (to_cancel: Option<u64>)
        requires
            old(self).wf(),
            !old(self).started().contains(fresh.handle),
        ensures
            final(self).wf(),
            final(self).pending() == Some(fresh@),
            final(self).started() == old(self).started().insert(fresh.handle),
            match to_cancel {
                Some(h) => {
                    &&& old(self).pending() matches Some(p) && p.handle == h
                    &&& final(self).cancelled() == old(self).cancelled().insert(h)
                },
                None => {
                    &&& old(self).pending() is None
                    &&& final(self).cancelled() == old(self).cancelled()
                },
            },
    {
        let ghost fh = fresh.handle;
        let prior = self.pending.take();
        proof {
            assert(prior == old(self).pending);
        }
        let to_cancel = match prior {
            Some(p) => {
                proof {
                    assert(old(self).started@.difference(old(self).cancelled@)
                        =~= Set::empty().insert(p.handle));
                    assert(Set::empty().insert(p.handle).contains(p.handle));
                    assert(old(self).started@.difference(old(self).cancelled@).contains(p.handle));
                    assert(old(self).started@.contains(p.handle));
                    self.cancelled@ = self.cancelled@.insert(p.handle);
                }
                Some(p.handle)
            },
            None => {
                proof {
                    assert(old(self).started@.difference(old(self).cancelled@) =~= Set::empty());
                }
                None
            },
        };
        proof {
            self.started@ = self.started@.insert(fh);
            assert(!old(self).cancelled@.contains(fh));
        }
        self.pending = Some(fresh);
        proof {
            assert(self.cancelled@.subset_of(self.started@));
            assert(self.started@.difference(self.cancelled@).contains(fh));
            assert forall|x: u64|
                self.started@.difference(self.cancelled@).contains(x) implies x == fh by {
                if x != fh {
                    assert(old(self).started@.contains(x));
                    assert(old(self).started@.difference(old(self).cancelled@).contains(x)
                        || old(self).cancelled@.contains(x));
                }
            }
            assert(self.started@.difference(self.cancelled@) =~= Set::empty().insert(fh));
        }
        to_cancel
    }

    /// Cancels the pending login, if any: its handle is handed back for
    /// the caller to invoke, and the slot is cleared. When nothing is
    /// pending this is a no-op that still succeeds.
    pub fn cancel(&mut self) -> (to_cancel: Option<u64>)
        requires
            old(self).wf(),
        ensures
            final(self).wf(),
            final(self).pending() is None,
            final(self).started() == old(self).started(),
            match to_cancel {
                Some(h) => {
                    &&& old(self).pending() matches Some(p) && p.handle == h
                    &&& final(self).cancelled() == old(self).cancelled().insert(h)
                },
                None => {
                    &&& old(self).pending() is None
                    &&& *final(self) == *old(self)
                },
            },
    {
        let prior = self.pending.take();
        proof {
            assert(prior == old(self).pending);
        }
        match prior {
            Some(p) => {
                proof {
                    assert(old(self).started@.difference(old(self).cancelled@)
                        =~= Set::empty().insert(p.handle));
                    assert(Set::empty().insert(p.handle).contains(p.handle));
                    assert(old(self).started@.difference(old(self).cancelled@).contains(p.handle));
                    assert(old(self).started@.contains(p.handle));
                    self.cancelled@ = self.cancelled@.insert(p.handle);
                    assert(self.cancelled@.subset_of(self.started@));
                    assert forall|x: u64| !self.started@.difference(self.cancelled@).contains(
                        x,
                    ) by {
                        if self.started@.difference(self.cancelled@).contains(x) {
                            assert(old(self).started@.difference(old(self).cancelled@).contains(
                                x,
                            ));
                            assert(x == p.handle);
                        }
                    }
                    assert(self.started@.difference(self.cancelled@) =~= Set::empty());
                }
                Some(p.handle)
            },
            None => None,
        }
    }

    /// Answers a status poll: a pending login reports its URL and port;
    /// otherwise the credential file decides — absent means not
    /// authenticated, a parseable file names the mode by whether it holds
    /// an API key, an unreadable one is an error.
    pub fn status(&self, cred: CredFileState) -> (r: LoginStatus)
        ensures
            match self.pending() {
                Some(p) => r matches LoginStatus::Pending { auth_url, port } && auth_url@
                    == p.auth_url && port == p.port,
                None => match cred {
                    CredFileState::Absent => r is NotAuthenticated,
                    CredFileState::Parsed { has_api_key } => if has_api_key {
                        r is ApiKey
                    } else {
                        r is ChatGpt
                    },
                    CredFileState::Unreadable => r is ReadError,
                },
            },
    {
        match &self.pending {
            Some(p) => LoginStatus::Pending {
                auth_url: vstd::slice::slice_to_vec(p.auth_url.as_slice()),
                port: p.port,
            },
            None => match cred {
                CredFileState::Absent => LoginStatus::NotAuthenticated,
                CredFileState::Parsed { has_api_key } => if has_api_key {
                    LoginStatus::ApiKey
                } else {
                    LoginStatus::ChatGpt
                },
                CredFileState::Unreadable => LoginStatus::ReadError,
            },
        }
    }
}

/// Single-flight: in every reachable coordinator state, at most one login
/// is live — any two live handles are the same handle.
pub proof fn lemma_single_flight(c: LoginCoordinator, h1: u64, h2: u64)
    requires
        c.wf(),
        c.live().contains(h1),
        c.live().contains(h2),
    ensures
        h1 == h2,
        c.pending() matches Some(p) && p.handle == h1,
{
}

} // verus!
