//! The directory coordinator: the single owner of the set of directories
//! known to exist, serving one request at a time.
//!
//! The coordinator does no filesystem work itself. For each request it
//! either answers at once or asks its driver to look at the path, and then
//! possibly to create it; the driver hands back what it found, and the
//! coordinator answers. Because one request is served to the end before the
//! next is taken, a directory is never created twice at the same time.
use vstd::prelude::*;

verus! {

/// What the driver found at a requested path.
#[derive(Clone, Copy, Debug, PartialEq, Eq, Structural)]
pub enum Found {
    Directory,
    NotDirectory,
    Missing,
}

/// The answer to one directory request.
#[derive(Debug)]
pub enum Reply {
    /// The directory exists; files may be copied into it.
    Ready(String),
    /// Something other than a directory stands at the path.
    NotADirectory(String),
    /// Creating the directory failed, with the cause the driver reported.
    CreateFailed(String, String),
}

pub enum ReplyView {
    Ready(Seq<char>),
    NotADirectory(Seq<char>),
    CreateFailed(Seq<char>, Seq<char>),
}

impl View for Reply {
    type V = ReplyView;

    open spec fn view(&self) -> ReplyView {
        match self {
            Reply::Ready(d) => ReplyView::Ready(d@),
            Reply::NotADirectory(d) => ReplyView::NotADirectory(d@),
            Reply::CreateFailed(d, c) => ReplyView::CreateFailed(d@, c@),
        }
    }
}

/// What the driver must do next for the request in hand.
#[derive(Debug)]
pub enum Action {
    /// Send this reply to the requester; the request is done.
    Reply(Reply),
    /// Look at what stands at the path and report it with `probed`.
    Probe(String),
    /// Create the directory, parents included, and report with `created`.
    Create(String),
}

pub enum ActionView {
    Reply(ReplyView),
    Probe(Seq<char>),
    Create(Seq<char>),
}

impl View for Action {
    type V = ActionView;

    open spec fn view(&self) -> ActionView {
        match self {
            Action::Reply(r) => ActionView::Reply(r@),
            Action::Probe(d) => ActionView::Probe(d@),
            Action::Create(d) => ActionView::Create(d@),
        }
    }
}

/// Where the coordinator stands.
#[derive(Debug)]
pub enum Phase {
    /// Waiting for the next request.
    Idle,
    /// Waiting to hear what stands at this path.
    Probing(String),
    /// Waiting to hear whether creating this directory worked.
    Creating(String),
    /// Shut down; takes no more requests.
    Terminated,
}

pub enum PhaseView {
    Idle,
    Probing(Seq<char>),
    Creating(Seq<char>),
    Terminated,
}

impl View for Phase {
    type V = PhaseView;

    open spec fn view(&self) -> PhaseView {
        match self {
            Phase::Idle => PhaseView::Idle,
            Phase::Probing(d) => PhaseView::Probing(d@),
            Phase::Creating(d) => PhaseView::Creating(d@),
            Phase::Terminated => PhaseView::Terminated,
        }
    }
}

/// The abstract state of a coordinator: the confirmed directories, the
/// phase, and how many requests it has taken and answered.
pub struct CoordState {
    pub confirmed: Set<Seq<char>>,
    pub phase: PhaseView,
    pub received: nat,
    pub answered: nat,
}

pub open spec fn initial_state() -> CoordState {
    CoordState { confirmed: Set::empty(), phase: PhaseView::Idle, received: 0, answered: 0 }
}

/// Every request taken is answered, except the one in hand while probing
/// or creating.
pub open spec fn coherent(s: CoordState) -> bool {
    match s.phase {
        PhaseView::Probing(_) | PhaseView::Creating(_) => s.received == s.answered + 1,
        _ => s.received == s.answered,
    }
}

/// A new request for `d`, taken while idle.
pub open spec fn on_request(s: CoordState, d: Seq<char>) -> (CoordState, ActionView) {
    if s.confirmed.contains(d) {
        (
            CoordState { received: s.received + 1, answered: s.answered + 1, ..s },
            ActionView::Reply(ReplyView::Ready(d)),
        )
    } else {
        (
            CoordState { phase: PhaseView::Probing(d), received: s.received + 1, ..s },
            ActionView::Probe(d),
        )
    }
}

/// The driver reports what stands at the path being probed.
pub open spec fn on_probe(s: CoordState, found: Found) -> (CoordState, ActionView)
    recommends
        s.phase is Probing,
{
    let d = s.phase->Probing_0;
    match found {
        Found::Directory => (
            CoordState {
                confirmed: s.confirmed.insert(d),
                phase: PhaseView::Idle,
                answered: s.answered + 1,
                ..s
            },
            ActionView::Reply(ReplyView::Ready(d)),
        ),
        Found::NotDirectory => (
            CoordState { phase: PhaseView::Idle, answered: s.answered + 1, ..s },
            ActionView::Reply(ReplyView::NotADirectory(d)),
        ),
        Found::Missing => (CoordState { phase: PhaseView::Creating(d), ..s }, ActionView::Create(d)),
    }
}

/// The driver reports how creating the directory in hand went.
pub open spec fn on_created(s: CoordState, outcome: Result<(), Seq<char>>) -> (CoordState, ReplyView)
    recommends
        s.phase is Creating,
{
    let d = s.phase->Creating_0;
    match outcome {
        Ok(_) => (
            CoordState {
                confirmed: s.confirmed.insert(d),
                phase: PhaseView::Idle,
                answered: s.answered + 1,
                ..s
            },
            ReplyView::Ready(d),
        ),
        Err(cause) => (
            CoordState { phase: PhaseView::Idle, answered: s.answered + 1, ..s },
            ReplyView::CreateFailed(d, cause),
        ),
    }
}

/// A shutdown request: accepted only between requests.
pub open spec fn on_shutdown(s: CoordState) -> (CoordState, bool) {
    if s.phase is Idle {
        (CoordState { phase: PhaseView::Terminated, ..s }, true)
    } else {
        (s, false)
    }
}

pub open spec fn view_of_paths(v: Seq<String>) -> Seq<Seq<char>> {
    v.map_values(|s: String| s@)
}

/// The coordinator. It alone holds the confirmed directories.
pub struct Coordinator {
    confirmed: Vec<String>,
    phase: Phase,
    received: Ghost<nat>,
    answered: Ghost<nat>,
}

impl View for Coordinator {
    type V = CoordState;

    closed spec fn view(&self) -> CoordState {
        CoordState {
            confirmed: view_of_paths(self.confirmed@).to_set(),
            phase: self.phase@,
            received: self.received@,
            answered: self.answered@,
        }
    }
}

impl Coordinator {
    /// Each confirmed directory is held once, and the counters agree with
    /// the phase.
    pub closed spec fn wf(&self) -> bool {
        &&& view_of_paths(self.confirmed@).no_duplicates()
        &&& coherent(self@)
    }

    pub fn new() -> (r: Self)
        ensures
            r.wf(),
            r@ == initial_state(),
    {
        let r = Coordinator {
            confirmed: Vec::new(),
            phase: Phase::Idle,
            received: Ghost(0),
            answered: Ghost(0),
        };
        assert(view_of_paths(r.confirmed@).to_set() =~= Set::empty());
        r
    }

    /// The phase the coordinator is in.
    pub fn phase(&self) -> (r: &Phase)
        ensures
            r@ == self@.phase,
    {
        &self.phase
    }

    fn is_confirmed(&self, d: &String) -> (r: bool)
        ensures
            r == self@.confirmed.contains(d@),
    {
        let mut i: usize = 0;
        while i < self.confirmed.len()
            invariant
                i <= self.confirmed@.len(),
                forall|j: int| 0 <= j < i ==> self.confirmed@[j]@ != d@,
            decreases self.confirmed@.len() - i,
        {
            if self.confirmed[i] == *d {
                assert(view_of_paths(self.confirmed@)[i as int] == d@);
                return true;
            }
            i = i + 1;
        }
        assert(!view_of_paths(self.confirmed@).contains(d@));
        false
    }

    fn confirm(&mut self, d: String)
        requires
            old(self).wf(),
            !old(self)@.confirmed.contains(d@),
        ensures
            view_of_paths(final(self).confirmed@).no_duplicates(),
            final(self)@ == (CoordState { confirmed: old(self)@.confirmed.insert(d@), ..old(self)@ }),
    {
        let ghost before = view_of_paths(self.confirmed@);
        self.confirmed.push(d);
        proof {
            let after = view_of_paths(self.confirmed@);
            assert(after =~= before.push(d@));
            assert forall|x: Seq<char>|
                after.to_set().contains(x) == before.to_set().insert(d@).contains(x) by {
                if after.contains(x) {
                    let j = choose|j: int| 0 <= j < after.len() && after[j] == x;
                    if j < before.len() {
                        assert(before[j] == x);
                    }
                }
                if before.contains(x) {
                    let j = choose|j: int| 0 <= j < before.len() && before[j] == x;
                    assert(after[j] == x);
                }
                if x == d@ {
                    assert(after[before.len() as int] == x);
                }
            }
            assert(after.to_set() =~= before.to_set().insert(d@));
        }
    }

    /// Takes a request for directory `dir`.
    pub fn request(&mut self, dir: String) -> (a: Action)
        requires
            old(self).wf(),
            old(self)@.phase is Idle,
        ensures
            final(self).wf(),
            (final(self)@, a@) == on_request(old(self)@, dir@),
    {
        self.received = Ghost(self.received@ + 1);
        if self.is_confirmed(&dir) {
            self.answered = Ghost(self.answered@ + 1);
            Action::Reply(Reply::Ready(dir))
        } else {
            self.phase = Phase::Probing(dir.clone());
            Action::Probe(dir)
        }
    }

    /// Hears what stands at the path being probed.
    pub fn probed(&mut self, found: Found) -> (a: Action)
        requires
            old(self).wf(),
            old(self)@.phase is Probing,
        ensures
            final(self).wf(),
            (final(self)@, a@) == on_probe(old(self)@, found),
    {
        let d = match &self.phase {
            Phase::Probing(d) => d.clone(),
            _ => String::new(),
        };
        match found {
            Found::Directory => {
                let known = self.is_confirmed(&d);
                if !known {
                    self.confirm(d.clone());
                }
                assert(self@.confirmed =~= old(self)@.confirmed.insert(d@));
                self.phase = Phase::Idle;
                self.answered = Ghost(self.answered@ + 1);
                Action::Reply(Reply::Ready(d))
            },
            Found::NotDirectory => {
                self.phase = Phase::Idle;
                self.answered = Ghost(self.answered@ + 1);
                Action::Reply(Reply::NotADirectory(d))
            },
            Found::Missing => {
                self.phase = Phase::Creating(d.clone());
                Action::Create(d)
            },
        }
    }

    /// Hears how creating the directory in hand went.
    pub fn created(&mut self, outcome: Result<(), String>) -> (r: Reply)
        requires
            old(self).wf(),
            old(self)@.phase is Creating,
        ensures
            final(self).wf(),
            (final(self)@, r@) == on_created(
                old(self)@,
                match outcome {
                    Ok(u) => Ok(u),
                    Err(c) => Err(c@),
                },
            ),
    {
        let d = match &self.phase {
            Phase::Creating(d) => d.clone(),
            _ => String::new(),
        };
        match outcome {
            Ok(_) => {
                let known = self.is_confirmed(&d);
                if !known {
                    self.confirm(d.clone());
                }
                assert(self@.confirmed =~= old(self)@.confirmed.insert(d@));
                self.phase = Phase::Idle;
                self.answered = Ghost(self.answered@ + 1);
                Reply::Ready(d)
            },
            Err(cause) => {
                self.phase = Phase::Idle;
                self.answered = Ghost(self.answered@ + 1);
                Reply::CreateFailed(d, cause)
            },
        }
    }

    /// A terminated coordinator has answered every request it took.
    pub proof fn lemma_terminated_answered_all(&self)
        requires
            self.wf(),
            self@.phase is Terminated,
        ensures
            self@.answered == self@.received,
    {
    }

    /// Asks the coordinator to stop. Accepted, and the coordinator
    /// terminated, only between requests.
    pub fn shutdown(&mut self) -> (r: bool)
        requires
            old(self).wf(),
        ensures
            final(self).wf(),
            (final(self)@, r) == on_shutdown(old(self)@),
    {
        match self.phase {
            Phase::Idle => {
                self.phase = Phase::Terminated;
                true
            },
            _ => false,
        }
    }
}

} // verus!
