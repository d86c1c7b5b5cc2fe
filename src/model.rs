//! A model of a run: the coordinator serving a sequence of requests against
//! a disk, and the laws that the coordinator's transitions guarantee.
//!
//! The requests arrive in whatever order the scheduler delivers them; the
//! sequence `ds` is that order. The disk is modelled by what stands at each
//! requested path and by the paths whose creation the system refuses.
use vstd::prelude::*;
use crate::coordinator::{
    on_created, on_probe, on_request, on_shutdown, initial_state, ActionView, CoordState, Found,
    PhaseView, ReplyView,
};

verus! {

/// What stands at a path on the disk.
pub enum Kind {
    Directory,
    File,
}

/// The disk as far as a run can observe it.
pub struct Disk {
    pub entries: Map<Seq<char>, Kind>,
    /// Paths whose creation fails, with the cause reported.
    pub refused: Map<Seq<char>, Seq<char>>,
}

/// What a driver finds when it looks at `d`.
pub open spec fn probe(disk: Disk, d: Seq<char>) -> Found {
    if !disk.entries.contains_key(d) {
        Found::Missing
    } else if disk.entries[d] is Directory {
        Found::Directory
    } else {
        Found::NotDirectory
    }
}

/// Creating directory `d`: the disk afterwards and the outcome.
pub open spec fn create(disk: Disk, d: Seq<char>) -> (Disk, Result<(), Seq<char>>) {
    if disk.refused.contains_key(d) {
        (disk, Err(disk.refused[d]))
    } else {
        (Disk { entries: disk.entries.insert(d, Kind::Directory), ..disk }, Ok(()))
    }
}

/// One request served to the end.
pub struct Served {
    pub state: CoordState,
    pub disk: Disk,
    pub reply: ReplyView,
    /// Whether the creation primitive was invoked.
    pub created: bool,
}

/// The coordinator serving a request for `d`, its driver doing what each
/// action asks on `disk`.
pub open spec fn serve(s: CoordState, d: Seq<char>, disk: Disk) -> Served {
    let (s1, a1) = on_request(s, d);
    match a1 {
        ActionView::Reply(r) => Served { state: s1, disk, reply: r, created: false },
        _ => {
            let (s2, a2) = on_probe(s1, probe(disk, d));
            match a2 {
                ActionView::Reply(r) => Served { state: s2, disk, reply: r, created: false },
                _ => {
                    let (disk3, outcome) = create(disk, d);
                    let (s3, r) = on_created(s2, outcome);
                    Served { state: s3, disk: disk3, reply: r, created: true }
                },
            }
        },
    }
}

/// A sequence of requests served one after the other.
pub struct Run {
    pub state: CoordState,
    pub disk: Disk,
    /// The reply to each request, in order.
    pub replies: Seq<ReplyView>,
    /// The directory of each invocation of the creation primitive, in order.
    pub created: Seq<Seq<char>>,
}

pub open spec fn serve_all(s: CoordState, ds: Seq<Seq<char>>, disk: Disk) -> Run
    decreases ds.len(),
{
    if ds.len() == 0 {
        Run { state: s, disk, replies: seq![], created: seq![] }
    } else {
        let f = serve(s, ds[0], disk);
        let rest = serve_all(f.state, ds.drop_first(), f.disk);
        Run {
            state: rest.state,
            disk: rest.disk,
            replies: seq![f.reply] + rest.replies,
            created: if f.created {
                seq![ds[0]] + rest.created
            } else {
                rest.created
            },
        }
    }
}

/// No request of `ds` names a directory whose creation fails.
pub open spec fn creatable(ds: Seq<Seq<char>>, disk: Disk) -> bool {
    forall|i: int| 0 <= i < ds.len() ==> !disk.refused.contains_key(#[trigger] ds[i])
}

/// Every confirmed directory is a directory on the disk.
pub open spec fn agrees(s: CoordState, disk: Disk) -> bool {
    forall|x: Seq<char>|
        s.confirmed.contains(x) ==> disk.entries.contains_key(x) && disk.entries[x] is Directory
}

/// The reply a request for `d` gets when nothing fails to be created.
pub open spec fn expected_reply(disk: Disk, d: Seq<char>) -> ReplyView {
    if disk.entries.contains_key(d) && disk.entries[d] is File {
        ReplyView::NotADirectory(d)
    } else {
        ReplyView::Ready(d)
    }
}

/// Serving requests from an idle state answers each of them and leaves the
/// coordinator idle.
pub proof fn lemma_run_answers_each(s: CoordState, ds: Seq<Seq<char>>, disk: Disk)
    requires
        s.phase is Idle,
    ensures
        serve_all(s, ds, disk).state.phase is Idle,
        serve_all(s, ds, disk).state.received == s.received + ds.len(),
        serve_all(s, ds, disk).state.answered == s.answered + ds.len(),
        serve_all(s, ds, disk).replies.len() == ds.len(),
    decreases ds.len(),
{
    if ds.len() > 0 {
        let f = serve(s, ds[0], disk);
        lemma_run_answers_each(f.state, ds.drop_first(), f.disk);
    }
}

proof fn lemma_creations_fresh(s: CoordState, ds: Seq<Seq<char>>, disk: Disk)
    requires
        s.phase is Idle,
        creatable(ds, disk),
    ensures
        s.confirmed.subset_of(serve_all(s, ds, disk).state.confirmed),
        forall|x: Seq<char>|
            serve_all(s, ds, disk).created.contains(x) ==> !s.confirmed.contains(x)
                && serve_all(s, ds, disk).state.confirmed.contains(x),
        serve_all(s, ds, disk).created.no_duplicates(),
    decreases ds.len(),
{
    if ds.len() > 0 {
        let f = serve(s, ds[0], disk);
        let rest_ds = ds.drop_first();
        assert(!disk.refused.contains_key(ds[0]));
        assert(f.disk.refused == disk.refused);
        assert forall|i: int| 0 <= i < rest_ds.len() implies !f.disk.refused.contains_key(
            #[trigger] rest_ds[i],
        ) by {
            assert(rest_ds[i] == ds[i + 1]);
        }
        lemma_creations_fresh(f.state, rest_ds, f.disk);
        let rest = serve_all(f.state, rest_ds, f.disk);
        let r = serve_all(s, ds, disk);
        assert(s.confirmed.subset_of(f.state.confirmed));
        assert(f.created ==> !s.confirmed.contains(ds[0]) && f.state.confirmed.contains(ds[0]));
        if f.created {
            assert(r.created == seq![ds[0]] + rest.created);
            assert forall|x: Seq<char>| r.created.contains(x) implies !s.confirmed.contains(x)
                && r.state.confirmed.contains(x) by {
                let j = choose|j: int| 0 <= j < r.created.len() && r.created[j] == x;
                if j > 0 {
                    assert(rest.created[j - 1] == x);
                }
            }
            assert forall|a: int, b: int|
                0 <= a < r.created.len() && 0 <= b < r.created.len() && a != b implies r.created[a]
                != r.created[b] by {
                if a > 0 {
                    assert(r.created[a] == rest.created[a - 1]);
                    assert(rest.created.contains(r.created[a]));
                }
                if b > 0 {
                    assert(r.created[b] == rest.created[b - 1]);
                    assert(rest.created.contains(r.created[b]));
                }
            }
        }
    }
}

/// At most one creation per directory: when no creation fails, a run
/// invokes the creation primitive at most once for each distinct
/// directory, however often and in whatever order it is requested.
pub proof fn lemma_one_creation_per_directory(ds: Seq<Seq<char>>, disk: Disk)
    requires
        creatable(ds, disk),
    ensures
        serve_all(initial_state(), ds, disk).created.no_duplicates(),
{
    lemma_creations_fresh(initial_state(), ds, disk);
}

/// `after` keeps every entry of `before`, adds only directories, and
/// refuses the same creations.
pub open spec fn extends(before: Disk, after: Disk) -> bool {
    &&& after.refused == before.refused
    &&& forall|k: Seq<char>|
        #![trigger after.entries.contains_key(k)]
        before.entries.contains_key(k) ==> after.entries.contains_key(k) && after.entries[k]
            == before.entries[k]
    &&& forall|k: Seq<char>|
        #![trigger after.entries.contains_key(k)]
        after.entries.contains_key(k) && !before.entries.contains_key(k)
            ==> after.entries[k] is Directory
}

proof fn lemma_serve_step(s: CoordState, d: Seq<char>, disk: Disk)
    requires
        s.phase is Idle,
        agrees(s, disk),
        !disk.refused.contains_key(d),
    ensures
        ({
            let f = serve(s, d, disk);
            &&& f.state.phase is Idle
            &&& agrees(f.state, f.disk)
            &&& extends(disk, f.disk)
            &&& f.reply == expected_reply(disk, d)
            &&& f.disk.entries.contains_key(d)
            &&& f.created ==> !disk.entries.contains_key(d)
            &&& !f.created ==> f.disk == disk
            &&& forall|k: Seq<char>|
                f.disk.entries.contains_key(k) && !disk.entries.contains_key(k) ==> k == d
        }),
{
}

proof fn lemma_run_outcome(s: CoordState, ds: Seq<Seq<char>>, disk: Disk)
    requires
        s.phase is Idle,
        creatable(ds, disk),
        agrees(s, disk),
    ensures
        ({
            let r = serve_all(s, ds, disk);
            &&& agrees(r.state, r.disk)
            &&& extends(disk, r.disk)
            &&& r.replies.len() == ds.len()
            &&& forall|i: int|
                0 <= i < ds.len() ==> r.replies[i] == expected_reply(disk, #[trigger] ds[i])
            &&& forall|i: int| 0 <= i < ds.len() ==> r.disk.entries.contains_key(#[trigger] ds[i])
            &&& forall|k: Seq<char>|
                r.disk.entries.contains_key(k) && !disk.entries.contains_key(k)
                    ==> r.created.contains(k)
            &&& (forall|i: int| 0 <= i < ds.len() ==> disk.entries.contains_key(#[trigger] ds[i]))
                ==> r.created.len() == 0 && r.disk == disk
        }),
    decreases ds.len(),
{
    lemma_run_answers_each(s, ds, disk);
    if ds.len() > 0 {
        let f = serve(s, ds[0], disk);
        let rest_ds = ds.drop_first();
        assert(!disk.refused.contains_key(ds[0]));
        lemma_serve_step(s, ds[0], disk);
        assert forall|i: int| 0 <= i < rest_ds.len() implies !f.disk.refused.contains_key(
            #[trigger] rest_ds[i],
        ) by {
            assert(rest_ds[i] == ds[i + 1]);
        }
        lemma_run_outcome(f.state, rest_ds, f.disk);
        let rest = serve_all(f.state, rest_ds, f.disk);
        let r = serve_all(s, ds, disk);
        assert forall|i: int| 0 <= i < ds.len() implies r.replies[i] == expected_reply(
            disk,
            #[trigger] ds[i],
        ) by {
            if i > 0 {
                assert(rest_ds[i - 1] == ds[i]);
                assert(r.replies[i] == rest.replies[i - 1]);
            }
        }
        assert forall|i: int| 0 <= i < ds.len() implies r.disk.entries.contains_key(
            #[trigger] ds[i],
        ) by {
            if i > 0 {
                assert(rest_ds[i - 1] == ds[i]);
            }
        }
        assert forall|k: Seq<char>|
            r.disk.entries.contains_key(k) && !disk.entries.contains_key(
                k,
            ) implies r.created.contains(k) by {
            if f.disk.entries.contains_key(k) {
                assert(r.created[0] == k);
            } else {
                assert(rest.disk == r.disk);
                assert(rest.created.contains(k));
                let j = choose|j: int| 0 <= j < rest.created.len() && rest.created[j] == k;
                if f.created {
                    assert(r.created[j + 1] == k);
                } else {
                    assert(r.created[j] == k);
                }
            }
        }
        if forall|i: int| 0 <= i < ds.len() ==> disk.entries.contains_key(#[trigger] ds[i]) {
            assert(disk.entries.contains_key(ds[0]));
            assert forall|i: int| 0 <= i < rest_ds.len() implies f.disk.entries.contains_key(
                #[trigger] rest_ds[i],
            ) by {
                assert(rest_ds[i] == ds[i + 1]);
            }
        }
    }
}

/// Idempotence: when no creation fails, a second run of the same requests
/// against the disk that the first run left creates nothing, leaves the disk
/// as it is, and gives every request the same reply as the first run did.
pub proof fn lemma_second_run_creates_nothing(ds: Seq<Seq<char>>, disk: Disk)
    requires
        creatable(ds, disk),
    ensures
        ({
            let first = serve_all(initial_state(), ds, disk);
            let second = serve_all(initial_state(), ds, first.disk);
            &&& second.created.len() == 0
            &&& second.disk == first.disk
            &&& second.replies == first.replies
        }),
{
    let first = serve_all(initial_state(), ds, disk);
    lemma_run_outcome(initial_state(), ds, disk);
    assert forall|i: int| 0 <= i < ds.len() implies !first.disk.refused.contains_key(
        #[trigger] ds[i],
    ) by {}
    lemma_run_outcome(initial_state(), ds, first.disk);
    let second = serve_all(initial_state(), ds, first.disk);
    assert forall|i: int| 0 <= i < ds.len() implies second.replies[i] == first.replies[i] by {
        assert(second.replies[i] == expected_reply(first.disk, ds[i]));
        assert(first.replies[i] == expected_reply(disk, ds[i]));
        assert(first.disk.entries.contains_key(ds[i]));
    }
    assert(second.replies =~= first.replies);
}

/// Requests for a directory that does not exist yet, from any number of
/// workers and interleaved with other requests: every one of them is told
/// that the directory is ready, and the creation primitive is invoked for
/// it exactly once.
pub proof fn lemma_shared_directory_created_once(
    s: CoordState,
    ds: Seq<Seq<char>>,
    disk: Disk,
    d: Seq<char>,
)
    requires
        s.phase is Idle,
        agrees(s, disk),
        creatable(ds, disk),
        ds.contains(d),
        !disk.entries.contains_key(d),
    ensures
        ({
            let r = serve_all(s, ds, disk);
            &&& forall|i: int|
                0 <= i < ds.len() && ds[i] == d ==> r.replies[i] == ReplyView::Ready(d)
            &&& r.created.contains(d)
            &&& r.created.no_duplicates()
        }),
{
    lemma_run_outcome(s, ds, disk);
    lemma_creations_fresh(s, ds, disk);
    let r = serve_all(s, ds, disk);
    let j = choose|j: int| 0 <= j < ds.len() && ds[j] == d;
    assert(r.disk.entries.contains_key(ds[j]));
    assert forall|i: int| 0 <= i < ds.len() && ds[i] == d implies r.replies[i] == ReplyView::Ready(
        d,
    ) by {
        assert(r.replies[i] == expected_reply(disk, ds[i]));
    }
}

/// Shutdown ordering: after any run of requests the coordinator accepts
/// shutdown, and it reaches its terminated phase having answered every
/// request it took. While a request is in hand, shutdown is refused and
/// nothing changes.
pub proof fn lemma_shutdown_after_every_reply(ds: Seq<Seq<char>>, disk: Disk)
    ensures
        ({
            let r = serve_all(initial_state(), ds, disk);
            let t = on_shutdown(r.state);
            &&& t.1
            &&& t.0.phase is Terminated
            &&& t.0.received == ds.len()
            &&& t.0.answered == ds.len()
            &&& r.replies.len() == ds.len()
        }),
        forall|s: CoordState|
            (s.phase is Probing || s.phase is Creating) ==> !(#[trigger] on_shutdown(s)).1
                && on_shutdown(s).0 == s,
{
    lemma_run_answers_each(initial_state(), ds, disk);
}

} // verus!
