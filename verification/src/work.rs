//! The work queue's protocol: what is put on the queue, and what a worker does
//! with what it takes from it.

use vstd::prelude::*;
use vstd::relations::injective_on;
use vstd::set_lib::*;
use vstd::utf8::*;
use crate::text::{eq_ignore_case, lower};

verus! {

/// One unit of work on the queue.
#[derive(Debug, Clone, PartialEq, Eq)]
pub enum Work<P> {
    /// Tells the worker that takes it to stop.
    Terminate,
    /// The archive at this path is to be scanned.
    ProcessFile(P),
}

/// What one attempt to take work from the queue gave.
#[derive(Debug, Clone, PartialEq, Eq)]
pub enum Steal<P> {
    /// The queue held nothing at that moment.
    Empty,
    /// Another worker got in the way; nothing was taken.
    Aborted,
    /// One unit of work, now owned by the caller.
    Data(Work<P>),
}

/// What a worker does next.
#[derive(Debug, Clone, PartialEq, Eq)]
pub enum WorkerAction<P> {
    /// Try the queue again.
    Retry,
    /// Leave the loop.
    Exit,
    /// Scan the archive at this path, then try the queue again.
    Process(P),
}

/// The action that answers an attempt to take work. An empty queue never ends
/// a worker: only a `Terminate` marker does.
pub open spec fn action_for<P>(steal: Steal<P>) -> WorkerAction<P> {
    match steal {
        Steal::Empty => WorkerAction::Retry,
        Steal::Aborted => WorkerAction::Retry,
        Steal::Data(Work::Terminate) => WorkerAction::Exit,
        Steal::Data(Work::ProcessFile(path)) => WorkerAction::Process(path),
    }
}

/// Decides what a worker does with the outcome of one attempt to take work.
pub fn worker_step<P>(steal: Steal<P>) -> (action: WorkerAction<P>)
    ensures
        action == action_for(steal),
{
    match steal {
        Steal::Empty => WorkerAction::Retry,
        Steal::Aborted => WorkerAction::Retry,
        Steal::Data(Work::Terminate) => WorkerAction::Exit,
        Steal::Data(Work::ProcessFile(path)) => WorkerAction::Process(path),
    }
}

/// A worker leaves its loop on a `Terminate` marker and on nothing else:
/// not on an empty queue, and not on a steal that was aborted.
pub proof fn only_a_marker_ends_a_worker<P>(steal: Steal<P>)
    ensures
        action_for(steal) is Exit <==> steal == Steal::Data(Work::<P>::Terminate),
{
}

/// The bytes of the extension that marks a file as an archive: `.zip`.
pub open spec fn archive_suffix() -> Seq<u8> {
    seq![0x2eu8, 0x7au8, 0x69u8, 0x70u8]
}

/// Whether a file name ends in the archive extension, without regard to the
/// case of ASCII letters.
pub open spec fn is_archive_name(name: Seq<char>) -> bool {
    let bytes = encode_utf8(name);
    bytes.len() >= 4 && eq_ignore_case(bytes.skip(bytes.len() - 4), archive_suffix())
}

/// Tests whether a file name ends in the archive extension.
pub fn has_archive_extension(name: &str) -> (r: bool)
    ensures
        r == is_archive_name(name@),
{
    let bytes = name.as_bytes();
    let n = bytes.len();
    if n < 4 {
        return false;
    }
    let ghost tail = bytes@.skip(n - 4);
    assert(tail[0] == bytes@[n - 4] && tail[1] == bytes@[n - 3] && tail[2] == bytes@[n - 2]
        && tail[3] == bytes@[n - 1]);
    lower(bytes[n - 4]) == 0x2e && lower(bytes[n - 3]) == 0x7a && lower(bytes[n - 2]) == 0x69
        && lower(bytes[n - 1]) == 0x70
}

/// A file that the traversal found: where it is, and what it is called.
#[derive(Debug, Clone, PartialEq, Eq)]
pub struct Candidate<P> {
    pub path: P,
    pub file_name: String,
}

/// The work that a found file gives: to scan it, where its name marks it as
/// an archive; none otherwise.
pub open spec fn job_of<P>(candidate: Candidate<P>) -> Option<Work<P>> {
    if is_archive_name(candidate.file_name@) {
        Some(Work::ProcessFile(candidate.path))
    } else {
        None
    }
}

/// The work for the found files, in the order in which they were found.
pub open spec fn jobs<P>(candidates: Seq<Candidate<P>>) -> Seq<Work<P>> {
    candidates.filter_map(|candidate: Candidate<P>| job_of(candidate))
}

/// One `Terminate` marker for each worker.
pub open spec fn markers<P>(workers: nat) -> Seq<Work<P>> {
    Seq::new(workers, |i: int| Work::Terminate)
}

/// All that the producer puts on the queue, in order: the work for the found
/// files, then one `Terminate` marker for each worker.
pub open spec fn plan<P>(candidates: Seq<Candidate<P>>, workers: nat) -> Seq<Work<P>> {
    jobs(candidates) + markers(workers)
}

/// Decides whether a found file becomes work.
pub fn job_for<P>(candidate: Candidate<P>) -> (work: Option<Work<P>>)
    ensures
        work == job_of(candidate),
{
    if has_archive_extension(candidate.file_name.as_str()) {
        Some(Work::ProcessFile(candidate.path))
    } else {
        None
    }
}

/// The markers that end the run: exactly one for each worker. The producer
/// puts them on the queue once the traversal is over.
pub fn termination_markers<P>(worker_count: usize) -> (queue: Vec<Work<P>>)
    ensures
        queue@ == markers::<P>(worker_count as nat),
{
    let mut queue: Vec<Work<P>> = Vec::new();
    let mut i: usize = 0;
    while i < worker_count
        invariant
            0 <= i <= worker_count,
            queue@ == markers::<P>(i as nat),
        decreases worker_count - i,
    {
        queue.push(Work::Terminate);
        i += 1;
    }
    queue
}

/// All that goes on the queue for these found files and this many workers.
pub fn plan_work<P>(candidates: Vec<Candidate<P>>, worker_count: usize) -> (queue: Vec<Work<P>>)
    ensures
        queue@ == plan(candidates@, worker_count as nat),
{
    let ghost pick = |candidate: Candidate<P>| job_of(candidate);
    let mut queue: Vec<Work<P>> = Vec::new();
    for candidate in it: candidates.into_iter()
        invariant
            it.seq() == candidates@,
            pick == |candidate: Candidate<P>| job_of(candidate),
            queue@ == jobs(candidates@.take(it.index() as int)),
    {
        proof {
            candidates@.lemma_filter_map_take_succ(pick, it.index() as int);
        }
        match job_for(candidate) {
            Some(work) => {
                queue.push(work);
            },
            None => {},
        }
    }
    assert(candidates@.take(candidates@.len() as int) =~= candidates@);
    let mut end = termination_markers(worker_count);
    queue.append(&mut end);
    queue
}

/// The files submitted for scanning are exactly the found files whose name
/// ends in the archive extension.
pub proof fn submitted_are_the_archives<P>(candidates: Seq<Candidate<P>>, workers: nat, path: P)
    ensures
        plan(candidates, workers).contains(Work::ProcessFile(path)) <==> exists|i: int|
            0 <= i < candidates.len() && (#[trigger] candidates[i]).path == path
                && is_archive_name(candidates[i].file_name@),
{
    let pick = |candidate: Candidate<P>| job_of(candidate);
    let wanted = Work::ProcessFile(path);
    let queue = plan(candidates, workers);
    if queue.contains(wanted) {
        let k = choose|k: int| 0 <= k < queue.len() && queue[k] == wanted;
        assert(k < jobs(candidates).len());
        assert(jobs(candidates).contains(wanted));
        candidates.lemma_filter_map_contains(pick, wanted);
        let t = choose|t: Candidate<P>| #[trigger] candidates.contains(t) && pick(t) == Some(wanted);
        let i = choose|i: int| 0 <= i < candidates.len() && candidates[i] == t;
        assert(candidates[i].path == path && is_archive_name(candidates[i].file_name@));
    }
    if exists|i: int|
        0 <= i < candidates.len() && (#[trigger] candidates[i]).path == path && is_archive_name(
            candidates[i].file_name@,
        ) {
        let i = choose|i: int|
            0 <= i < candidates.len() && (#[trigger] candidates[i]).path == path
                && is_archive_name(candidates[i].file_name@);
        job_is_planned(candidates, i);
        let k = choose|k: int| 0 <= k < jobs(candidates).len() && jobs(candidates)[k] == wanted;
        assert(queue[k] == wanted);
    }
}

/// The work of a found file is among the work for all found files.
proof fn job_is_planned<P>(candidates: Seq<Candidate<P>>, i: int)
    requires
        0 <= i < candidates.len(),
        job_of(candidates[i]) is Some,
    ensures
        jobs(candidates).contains(job_of(candidates[i])->0),
    decreases candidates.len(),
{
    let pick = |candidate: Candidate<P>| job_of(candidate);
    let front = candidates.drop_last();
    if i == candidates.len() - 1 {
        let all = jobs(candidates);
        assert(all == jobs(front) + seq![job_of(candidates[i])->0]);
        assert(all[all.len() - 1] == job_of(candidates[i])->0);
    } else {
        job_is_planned(front, i);
        let w = job_of(candidates[i])->0;
        let k = choose|k: int| 0 <= k < jobs(front).len() && jobs(front)[k] == w;
        match pick(candidates.last()) {
            Some(last) => {
                assert(jobs(candidates) == jobs(front) + seq![last]);
                assert(jobs(candidates)[k] == w);
            },
            None => {},
        }
    }
}

/// The queue holds exactly as many `Terminate` markers as there are
/// workers, and they are the last items on it.
pub proof fn one_marker_for_each_worker<P>(candidates: Seq<Candidate<P>>, workers: nat)
    ensures
        plan(candidates, workers).len() == jobs(candidates).len() + workers,
        forall|i: int|
            0 <= i < plan(candidates, workers).len() ==> ((#[trigger] plan(candidates, workers)[i])
                is Terminate <==> jobs(candidates).len() <= i),
{
    let pick = |candidate: Candidate<P>| job_of(candidate);
    let queue = plan(candidates, workers);
    assert forall|i: int| 0 <= i < jobs(candidates).len() implies !(#[trigger] queue[i]
        is Terminate) by {
        let w = jobs(candidates)[i];
        assert(jobs(candidates).contains(w));
        candidates.lemma_filter_map_contains(pick, w);
    }
}

/// A whole run, seen from the queue: `taker[i]` is the worker that took the
/// `i`-th item of `queue`. Every item is taken once, by one of the workers;
/// a worker takes the items it takes in queue order, and takes nothing
/// after an item that made it exit.
pub open spec fn run_obeys_protocol<P>(queue: Seq<Work<P>>, taker: Seq<int>, workers: nat) -> bool {
    &&& taker.len() == queue.len()
    &&& forall|i: int| 0 <= i < taker.len() ==> 0 <= #[trigger] taker[i] < workers
    &&& forall|i: int, j: int|
        0 <= i < j < queue.len() && #[trigger] taker[i] == #[trigger] taker[j] ==> !(action_for(
            Steal::Data(queue[i]),
        ) is Exit)
}

/// Worker `w` took item `i`, and the item is a `Terminate` marker.
pub open spec fn takes_marker<P>(queue: Seq<Work<P>>, taker: Seq<int>, w: int, i: int) -> bool {
    0 <= i < queue.len() && taker[i] == w && queue[i] is Terminate
}

/// In a whole run every worker takes exactly one `Terminate` marker: none
/// takes two, and none is left without one.
pub proof fn each_worker_takes_one_marker<P>(
    candidates: Seq<Candidate<P>>,
    workers: nat,
    taker: Seq<int>,
    w: int,
)
    requires
        run_obeys_protocol(plan(candidates, workers), taker, workers),
        0 <= w < workers,
    ensures
        exists|i: int|
            {
                &&& #[trigger] takes_marker(plan(candidates, workers), taker, w, i)
                &&& forall|j: int|
                    takes_marker(plan(candidates, workers), taker, w, j) ==> j == i
            },
{
    let queue = plan(candidates, workers);
    let m = jobs(candidates).len() as int;
    one_marker_for_each_worker(candidates, workers);
    let who = |i: int| taker[m + i];
    let slots = set_int_range(0, workers as int);
    lemma_int_range(0, workers as int);
    assert(injective_on(who, slots)) by {
        assert forall|a: int, b: int|
            slots.contains(a) && slots.contains(b) && #[trigger] who(a) == #[trigger] who(
                b,
            ) implies a == b by {
            if a < b {
                assert(queue[m + a] is Terminate);
                assert(taker[m + a] == taker[m + b]);
            } else if b < a {
                assert(queue[m + b] is Terminate);
                assert(taker[m + b] == taker[m + a]);
            }
        }
    }
    let served = slots.map(who);
    lemma_map_size(slots, served, who);
    assert(served.subset_of(slots)) by {
        assert forall|v: int| served.contains(v) implies slots.contains(v) by {
            let a = choose|a: int| slots.contains(a) && v == who(a);
            assert(0 <= taker[m + a] < workers);
        }
    }
    lemma_subset_equality(served, slots);
    assert(slots.contains(w));
    assert(served.contains(w));
    let a = choose|a: int| slots.contains(a) && w == who(a);
    let i = m + a;
    assert(takes_marker(queue, taker, w, i));
    assert forall|j: int| takes_marker(queue, taker, w, j) implies j == i by {
        if j < i {
            assert(queue[j] is Terminate);
            assert(taker[j] == taker[i]);
        } else if i < j {
            assert(queue[i] is Terminate);
            assert(taker[i] == taker[j]);
        }
    }
}

} // verus!
