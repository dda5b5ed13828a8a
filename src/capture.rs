//! Decisions of the loop that copies the child's output into the log file.
use vstd::prelude::*;
use crate::text::joined;

verus! {

/// A request the capture loop picks up between two lines.
#[derive(Clone, Copy, Debug, PartialEq, Eq, Structural)]
pub enum KillType {
    /// The child has crashed: drain what it left on stderr first.
    Crash,
    /// Shut the capture loop down.
    Kill,
}

/// What the capture loop does after reading a line from stdout.
#[derive(Clone, Copy, Debug, PartialEq, Eq, Structural)]
pub enum CaptureStep {
    /// Handle the line.
    Capture,
    /// Log every stderr line available until an empty read, then handle the line.
    DrainStderr,
    /// Stop; the line is dropped.
    Stop,
}

pub open spec fn step_for(signal: Option<KillType>) -> CaptureStep {
    match signal {
        None => CaptureStep::Capture,
        Some(KillType::Crash) => CaptureStep::DrainStderr,
        Some(KillType::Kill) => CaptureStep::Stop,
    }
}

pub fn next_step(signal: Option<KillType>) -> (step: CaptureStep)
    ensures
        step == step_for(signal),
{
    match signal {
        None => CaptureStep::Capture,
        Some(KillType::Crash) => CaptureStep::DrainStderr,
        Some(KillType::Kill) => CaptureStep::Stop,
    }
}

/// The streams the capture loop reads next: streams handed over since the
/// last line supersede the current ones, which are dropped unread.
pub fn newer_streams<T>(current: T, arrived: Option<T>) -> (r: T)
    ensures
        r == match arrived {
            Some(n) => n,
            None => current,
        },
{
    match arrived {
        Some(n) => n,
        None => current,
    }
}

/// The streams in use after the loop has polled for new ones once per
/// entry of `arrivals`, starting from `initial`.
pub open spec fn streams_in_use<T>(initial: T, arrivals: Seq<Option<T>>) -> T
    decreases arrivals.len(),
{
    if arrivals.len() == 0 {
        initial
    } else {
        match arrivals.last() {
            Some(n) => n,
            None => streams_in_use(initial, arrivals.drop_last()),
        }
    }
}

/// After a hand-over the loop reads only the new streams: once streams
/// arrive at poll `j`, every later poll up to the next arrival leaves the
/// loop on exactly those streams, so nothing left unread on the old ones
/// is read again.
pub proof fn lemma_handed_over_streams_are_read<T>(initial: T, arrivals: Seq<Option<T>>, j: int, k: int)
    requires
        0 <= j < k <= arrivals.len(),
        arrivals[j] is Some,
        forall|m: int| j < m < k ==> (#[trigger] arrivals[m]) is None,
    ensures
        streams_in_use(initial, arrivals.take(k)) == arrivals[j]->Some_0,
    decreases k - j,
{
    assert(arrivals.take(k).drop_last() =~= arrivals.take(k - 1));
    if k - 1 > j {
        lemma_handed_over_streams_are_read(initial, arrivals, j, k - 1);
    }
}

/// What becomes of one line of the child's stdout.
#[derive(Clone, Copy, Debug, PartialEq, Eq, Structural)]
pub enum LineFate {
    /// Printed and appended to the log file.
    Persist,
    /// The log has reached its cap: warn once and flush; the line is dropped.
    WarnLimit,
    /// Dropped from the file; it was still read so the child never blocks.
    Discard,
}

/// The byte budget of the current log file.
pub struct CaptureState {
    pub bytes_seen: usize,
    pub max_file_size: usize,
    pub displayed_warning: bool,
}

pub open spec fn added(a: usize, b: usize) -> usize {
    if a + b <= usize::MAX {
        (a + b) as usize
    } else {
        usize::MAX
    }
}

impl CaptureState {
    /// The state after a stdout line of `len` bytes, and what becomes of it.
    /// Every line counts against the budget; it is kept only while the
    /// running total stays under the cap.
    pub open spec fn after_line(self, len: usize) -> (CaptureState, LineFate) {
        let total = added(self.bytes_seen, len);
        if total < self.max_file_size {
            (CaptureState { bytes_seen: total, ..self }, LineFate::Persist)
        } else if !self.displayed_warning {
            (CaptureState { bytes_seen: total, displayed_warning: true, ..self }, LineFate::WarnLimit)
        } else {
            (CaptureState { bytes_seen: total, ..self }, LineFate::Discard)
        }
    }

    /// The budget of a fresh log file.
    pub fn new(max_file_size: usize) -> (s: CaptureState)
        ensures
            s == (CaptureState { bytes_seen: 0, max_file_size, displayed_warning: false }),
    {
        CaptureState { bytes_seen: 0, max_file_size, displayed_warning: false }
    }

    pub fn on_line(&mut self, len: usize) -> (fate: LineFate)
        ensures
            (*final(self), fate) == old(self).after_line(len),
            final(self).bytes_seen >= old(self).bytes_seen,
            old(self).displayed_warning ==> final(self).displayed_warning,
    {
        self.bytes_seen = self.bytes_seen.saturating_add(len);
        if self.bytes_seen < self.max_file_size {
            LineFate::Persist
        } else if !self.displayed_warning {
            self.displayed_warning = true;
            LineFate::WarnLimit
        } else {
            LineFate::Discard
        }
    }
}

/// The budget after stdout lines of the lengths `lens`, in order.
pub open spec fn after_lines(s: CaptureState, lens: Seq<usize>) -> CaptureState
    decreases lens.len(),
{
    if lens.len() == 0 {
        s
    } else {
        after_lines(s, lens.drop_last()).after_line(lens.last()).0
    }
}

/// What becomes of line `i` of `lens`.
pub open spec fn fate_at(s: CaptureState, lens: Seq<usize>, i: int) -> LineFate {
    after_lines(s, lens.take(i)).after_line(lens[i]).1
}

/// The bytes of the lines `lens` together.
pub open spec fn total_len(lens: Seq<usize>) -> nat
    decreases lens.len(),
{
    if lens.len() == 0 {
        0
    } else {
        total_len(lens.drop_last()) + lens.last() as nat
    }
}

proof fn lemma_total_monotone(lens: Seq<usize>, m: int, n: int)
    requires
        0 <= m <= n <= lens.len(),
    ensures
        total_len(lens.take(m)) <= total_len(lens.take(n)),
    decreases n - m,
{
    if m < n {
        assert(lens.take(n).drop_last() =~= lens.take(n - 1));
        lemma_total_monotone(lens, m, n - 1);
    }
}

proof fn lemma_budget_prefix(s: CaptureState, lens: Seq<usize>, n: int)
    requires
        s.bytes_seen == 0,
        !s.displayed_warning,
        0 <= n <= lens.len(),
    ensures
        after_lines(s, lens.take(n)).max_file_size == s.max_file_size,
        after_lines(s, lens.take(n)).bytes_seen as nat == if total_len(lens.take(n)) <= usize::MAX {
            total_len(lens.take(n))
        } else {
            usize::MAX as nat
        },
        after_lines(s, lens.take(n)).displayed_warning == (n > 0 && total_len(lens.take(n))
            >= s.max_file_size),
    decreases n,
{
    if n == 0 {
        assert(lens.take(0) =~= Seq::<usize>::empty());
    } else {
        assert(lens.take(n).drop_last() =~= lens.take(n - 1));
        lemma_budget_prefix(s, lens, n - 1);
        lemma_total_monotone(lens, n - 1, n);
    }
}

/// The size cap stops writing for good and warns exactly once: starting
/// from a fresh file, a line is kept exactly when the lines so far, itself
/// included, stay under the cap; the warning comes with the first line that
/// brings them to the cap or over it, and with no other.
pub proof fn lemma_cap_keeps_prefix_and_warns_once(s: CaptureState, lens: Seq<usize>)
    requires
        s.bytes_seen == 0,
        !s.displayed_warning,
    ensures
        forall|i: int|
            0 <= i < lens.len() ==> {
                &&& (fate_at(s, lens, i) == LineFate::Persist <==> total_len(lens.take(i + 1))
                    < s.max_file_size)
                &&& (fate_at(s, lens, i) == LineFate::WarnLimit <==> total_len(lens.take(i + 1))
                    >= s.max_file_size && (i == 0 || total_len(lens.take(i)) < s.max_file_size))
            },
        forall|i: int, j: int|
            0 <= i < lens.len() && 0 <= j < lens.len() && fate_at(s, lens, i) == LineFate::WarnLimit
                && fate_at(s, lens, j) == LineFate::WarnLimit ==> i == j,
{
    assert forall|i: int| 0 <= i < lens.len() implies {
        &&& (fate_at(s, lens, i) == LineFate::Persist <==> total_len(lens.take(i + 1))
            < s.max_file_size)
        &&& (fate_at(s, lens, i) == LineFate::WarnLimit <==> total_len(lens.take(i + 1))
            >= s.max_file_size && (i == 0 || total_len(lens.take(i)) < s.max_file_size))
    } by {
        lemma_budget_prefix(s, lens, i);
        assert(lens.take(i + 1).drop_last() =~= lens.take(i));
        assert(lens.take(i + 1).last() == lens[i]);
    }
    assert forall|i: int, j: int|
        0 <= i < lens.len() && 0 <= j < lens.len() && fate_at(s, lens, i) == LineFate::WarnLimit
            && fate_at(s, lens, j) == LineFate::WarnLimit implies i == j by {
        lemma_budget_prefix(s, lens, i);
        lemma_budget_prefix(s, lens, j);
        assert(lens.take(i + 1).drop_last() =~= lens.take(i));
        assert(lens.take(j + 1).drop_last() =~= lens.take(j));
        if i < j {
            lemma_total_monotone(lens, i + 1, j);
        } else if j < i {
            lemma_total_monotone(lens, j + 1, i);
        }
    }
}

/// A captured line as the log records it: the time stamp, a space, and the
/// line as it came, newline included.
pub fn timestamped(stamp: &str, line: &str) -> (r: String)
    ensures
        r@ == stamp@ + " "@ + line@,
{
    joined(joined(stamp, " ").as_str(), line)
}

/// The kinds of the supervisor's own messages.
#[derive(Clone, Copy, Debug, PartialEq, Eq, Structural)]
pub enum LogType {
    Warn,
    Info,
    Error,
}

impl LogType {
    pub open spec fn tag(self) -> Seq<char> {
        match self {
            LogType::Warn => "WARN"@,
            LogType::Info => "INFO"@,
            LogType::Error => "ERR"@,
        }
    }

    /// The prefix of a message of this kind written from the thread called
    /// `thread_name`: `[thread:<name>:<TAG>]:`.
    pub fn prefix(&self, thread_name: &str) -> (r: String)
        ensures
            r@ == "[thread:"@ + thread_name@ + ":"@ + self.tag() + "]:"@,
    {
        let tag = match self {
            LogType::Warn => "WARN",
            LogType::Info => "INFO",
            LogType::Error => "ERR",
        };
        let head = joined(joined("[thread:", thread_name).as_str(), ":");
        joined(joined(head.as_str(), tag).as_str(), "]:")
    }
}

} // verus!
