//! Decisions of the project scheduler and the analyzer runner: worker count,
//! batches, progress reports, publication spacing, timeouts and cancellation.
use vstd::prelude::*;
use vstd::string::*;
use crate::text::same_text;

verus! {

/// The size of the worker pool: the configured count, at least one.
pub fn worker_count(max_workers: u32) -> (r: usize)
    ensures
        r == if max_workers == 0 { 1 } else { max_workers },
{
    if max_workers == 0 {
        1
    } else {
        max_workers as usize
    }
}

/// The half-open ranges of positions that form the batches of `total` files with
/// batches of `batch_size` (zero meaning one batch): consecutive, in order, each
/// `batch_size` long but the last, which may be shorter.
pub fn batch_bounds(total: usize, batch_size: usize) -> (r: Vec<(usize, usize)>)
    ensures
        total == 0 ==> r@.len() == 0,
        total > 0 ==> r@.len() > 0 && r@[0].0 == 0 && r@.last().1 == total,
        forall|k: int| 0 <= k < r@.len() - 1 ==> #[trigger] r@[k].1 == r@[k + 1].0,
        forall|k: int| 0 <= k < r@.len() ==> #[trigger] r@[k].0 < r@[k].1,
        batch_size == 0 ==> r@.len() <= 1,
        batch_size > 0 ==> forall|k: int| 0 <= k < r@.len() - 1 ==> #[trigger] r@[k].1 - r@[k].0 == batch_size,
        batch_size > 0 ==> forall|k: int| 0 <= k < r@.len() ==> #[trigger] r@[k].1 - r@[k].0 <= batch_size,
{
    let size = if batch_size == 0 { total } else { batch_size };
    let mut out: Vec<(usize, usize)> = Vec::new();
    let mut start: usize = 0;
    while start < total
        invariant
            start <= total,
            size > 0 || total == 0,
            batch_size > 0 ==> size == batch_size,
            batch_size == 0 ==> size == total,
            out@.len() == 0 ==> start == 0,
            out@.len() > 0 ==> out@[0].0 == 0 && out@.last().1 == start,
            forall|k: int| 0 <= k < out@.len() - 1 ==> #[trigger] out@[k].1 == out@[k + 1].0,
            forall|k: int| 0 <= k < out@.len() ==> #[trigger] out@[k].0 < out@[k].1,
            forall|k: int| 0 <= k < out@.len() ==> #[trigger] out@[k].1 - out@[k].0 <= size,
            forall|k: int| 0 <= k < out@.len() ==> #[trigger] out@[k].1 <= start,
            forall|k: int| 0 <= k < out@.len() && out@[k].1 - out@[k].0 < size ==> #[trigger] out@[k].1 == total,
            batch_size == 0 ==> out@.len() <= 1,
            batch_size == 0 && out@.len() == 1 ==> start == total,
        decreases total - start,
    {
        let end = if total - start > size { start + size } else { total };
        let ghost before = out@;
        out.push((start, end));
        assert(forall|k: int| 0 <= k < before.len() ==> #[trigger] out@[k] == before[k]);
        start = end;
    }
    assert forall|k: int| 0 <= k < out@.len() - 1 && batch_size > 0 implies #[trigger] out@[k].1 - out@[k].0
        == batch_size by {
        assert(out@[k].1 == out@[k + 1].0);
        assert(out@[k + 1].0 < out@[k + 1].1);
        assert(out@[k + 1].1 <= start);
    }
    out
}

/// The progress report after `done` of `total` files: on the last file and on
/// every tenth, the whole percentage done, rounded down.
pub fn progress_report(done: usize, total: usize) -> (r: Option<u32>)
    requires
        0 < total,
        done <= total,
    ensures
        r == if done == total || done % 10 == 0 {
            Some(((done * 100) / total as int) as u32)
        } else {
            None
        },
{
    if done == total || done % 10 == 0 {
        let p = (done as u128 * 100) / (total as u128);
        assert(p <= 100) by (nonlinear_arith)
            requires
                p == (done * 100) / total as int,
                done <= total,
                total > 0,
        ;
        Some(p as u32)
    } else {
        None
    }
}

/// How long to wait before the next publication: what is left of `throttle_ms`
/// since the last one (`elapsed_ms` ago), or nothing without a throttle.
pub fn throttle_delay(elapsed_ms: u64, throttle_ms: u64) -> (r: u64)
    ensures
        r == if throttle_ms == 0 || elapsed_ms >= throttle_ms { 0 } else { throttle_ms - elapsed_ms },
{
    if throttle_ms == 0 || elapsed_ms >= throttle_ms {
        0
    } else {
        throttle_ms - elapsed_ms
    }
}

/// What to do with a running analyzer at a poll.
#[derive(Clone, Copy, Debug, PartialEq, Eq, Structural)]
pub enum PollAction {
    /// It has exited: read what it wrote.
    Collect,
    /// Its time is up: kill it and report the timeout.
    Kill,
    /// Wait and poll again.
    Wait,
}

/// The decision at each poll of a running analyzer, `elapsed_ms` after its start,
/// with a timeout of `timeout_ms` (zero meaning none).
pub fn poll_action(exited: bool, elapsed_ms: u64, timeout_ms: u64) -> (r: PollAction)
    ensures
        exited ==> r == PollAction::Collect,
        !exited && timeout_ms > 0 && elapsed_ms >= timeout_ms ==> r == PollAction::Kill,
        !exited && (timeout_ms == 0 || elapsed_ms < timeout_ms) ==> r == PollAction::Wait,
{
    if exited {
        PollAction::Collect
    } else if timeout_ms > 0 && elapsed_ms >= timeout_ms {
        PollAction::Kill
    } else {
        PollAction::Wait
    }
}

/// The position of the latest run registered under `id`, or -1.
pub open spec fn latest_run(s: Seq<(Seq<char>, bool)>, id: Seq<char>) -> int
    decreases s.len(),
{
    if s.len() == 0 {
        -1
    } else if s.last().0 == id {
        s.len() - 1
    } else {
        latest_run(s.drop_last(), id)
    }
}

/// The runs after a cancel request: with `*` every run is cancelled, otherwise the
/// latest run registered under the requested id, if any; nothing is ever un-cancelled.
pub open spec fn after_cancel(s: Seq<(Seq<char>, bool)>, requested: Seq<char>) -> Seq<(Seq<char>, bool)> {
    Seq::new(s.len(), |i: int| (s[i].0, s[i].1 || requested == "*"@ || i == latest_run(s, requested)))
}

proof fn lemma_latest_run(s: Seq<(Seq<char>, bool)>, id: Seq<char>)
    ensures
        -1 <= latest_run(s, id) < s.len(),
        latest_run(s, id) >= 0 ==> s[latest_run(s, id)].0 == id,
        forall|k: int| latest_run(s, id) < k < s.len() ==> #[trigger] s[k].0 != id,
    decreases s.len(),
{
    if s.len() > 0 && s.last().0 != id {
        lemma_latest_run(s.drop_last(), id);
        assert(forall|k: int| 0 <= k < s.len() - 1 ==> #[trigger] s[k] == s.drop_last()[k]);
    }
}

proof fn lemma_latest_run_unique(s: Seq<(Seq<char>, bool)>, id: Seq<char>, i: int)
    requires
        0 <= i < s.len(),
        s[i].0 == id,
        forall|k: int| i < k < s.len() ==> #[trigger] s[k].0 != id,
    ensures
        latest_run(s, id) == i,
    decreases s.len(),
{
    if i < s.len() - 1 {
        lemma_latest_run_unique(s.drop_last(), id, i);
    }
}

/// The runs started so far, each with its cancellation flag. Entries are never
/// removed, so a run's token stays valid.
pub struct RunRegistry {
    runs: Vec<(String, bool)>,
}

impl View for RunRegistry {
    type V = Seq<(Seq<char>, bool)>;

    closed spec fn view(&self) -> Seq<(Seq<char>, bool)> {
        self.runs@.map_values(|r: (String, bool)| (r.0@, r.1))
    }
}

impl RunRegistry {
    /// No runs.
    pub fn new() -> (r: RunRegistry)
        ensures
            r@ == Seq::<(Seq<char>, bool)>::empty(),
    {
        let r = RunRegistry { runs: Vec::new() };
        assert(r@ =~= Seq::<(Seq<char>, bool)>::empty());
        r
    }

    /// Starts a run under `run_id`, not cancelled; returns its token.
    pub fn register(&mut self, run_id: &str) -> (token: usize)
        ensures
            final(self)@ == old(self)@.push((run_id@, false)),
            token == old(self)@.len(),
    {
        let token = self.runs.len();
        let ghost before = self@;
        self.runs.push((String::from_str(run_id), false));
        assert(self@ =~= before.push((run_id@, false)));
        token
    }

    /// How many runs have been started; every token below it is valid.
    pub fn run_count(&self) -> (r: usize)
        ensures
            r == self@.len(),
    {
        self.runs.len()
    }

    /// Whether the run with this token has been cancelled.
    pub fn is_cancelled(&self, token: usize) -> (r: bool)
        requires
            token < self@.len(),
        ensures
            r == self@[token as int].1,
    {
        self.runs[token].1
    }

    /// Cancels every run (`*`) or the latest run registered under `requested`.
    pub fn cancel(&mut self, requested: &str)
        ensures
            final(self)@ == after_cancel(old(self)@, requested@),
    {
        let ghost before = self@;
        proof {
            lemma_latest_run(before, requested@);
        }
        let all = same_text(requested, "*");
        let n = self.runs.len();
        let mut latest: usize = n;
        let mut j: usize = n;
        while j > 0
            invariant
                n == self.runs@.len() == before.len(),
                self@ == before,
                j <= n,
                latest == n || (j <= latest < n && before[latest as int].0 == requested@),
                forall|k: int| j <= k < n && (latest == n || k > latest) ==> #[trigger] before[k].0 != requested@,
            decreases j,
        {
            j -= 1;
            assert(before[j as int].0 == self.runs@[j as int].0@);
            if latest == n && same_text(self.runs[j].0.as_str(), requested) {
                latest = j;
            }
        }
        proof {
            if latest < n {
                lemma_latest_run_unique(before, requested@, latest as int);
            } else {
                if latest_run(before, requested@) >= 0 {
                    assert(before[latest_run(before, requested@)].0 == requested@);
                }
            }
        }
        let mut i: usize = 0;
        while i < n
            invariant
                n == self.runs@.len() == before.len(),
                i <= n,
                latest <= n,
                latest == n ==> latest_run(before, requested@) < 0,
                latest < n ==> latest_run(before, requested@) == latest,
                all == (requested@ == "*"@),
                forall|k: int| 0 <= k < i ==> #[trigger] self@[k] == after_cancel(before, requested@)[k],
                forall|k: int| i <= k < n ==> #[trigger] self@[k] == before[k],
            decreases n - i,
        {
            let ghost prev = self.runs@;
            let ghost prev_view = self@;
            assert(self@[i as int] == before[i as int]);
            assert(self.runs@[i as int].0@ == before[i as int].0);
            if all || i == latest {
                let name = self.runs[i].0.clone();
                self.runs.set(i, (name, true));
                assert(self.runs@[i as int].0@ == before[i as int].0);
                assert(forall|k: int| 0 <= k < n && k != i ==> #[trigger] self.runs@[k] == prev[k]);
                assert(self@[i as int] == after_cancel(before, requested@)[i as int]);
            } else {
                assert(i as int != latest_run(before, requested@));
            }
            assert(self@[i as int] == after_cancel(before, requested@)[i as int]);
            assert forall|k: int| 0 <= k < n && k != i implies #[trigger] self@[k] == prev_view[k] by {
                assert(self.runs@[k] == prev[k]);
            }
            i += 1;
        }
        assert(self@ =~= after_cancel(before, requested@));
    }
}

/// Cancellation is final: a cancel request leaves every cancelled run cancelled and
/// cancels the run it names (every run for `*`), starting a run leaves the flags of
/// the others as they were, so a worker that checks its run's flag after the
/// request returns finds it set and does no work.
pub proof fn lemma_cancellation_is_final(s: Seq<(Seq<char>, bool)>, requested: Seq<char>, started: Seq<char>, i: int)
    requires
        0 <= i < s.len(),
    ensures
        s[i].1 ==> after_cancel(s, requested)[i].1,
        (requested == "*"@ || i == latest_run(s, requested)) ==> after_cancel(s, requested)[i].1,
        s.push((started, false))[i] == s[i],
        after_cancel(s, requested).len() == s.len(),
{
}

} // verus!
