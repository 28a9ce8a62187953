//! Reading the selected text: the copy-and-read sequence run against the
//! clipboard, as a step function from state and event to next state and
//! action, and the check on the copied text.
//!
//! The sequence: release the shortcut's keys and wait 120 ms; then up to three
//! attempts, each writing a sentinel to the clipboard, waiting 35 ms (40 ms
//! more per attempt), simulating the copy keystroke, and reading the clipboard
//! up to twenty times 45 ms apart, waiting 120 ms after an attempt that read
//! nothing new. The first read that is not blank and not the sentinel is the
//! result; when none comes, the previous clipboard text is written back and
//! the result is empty.
use vstd::prelude::*;
use crate::text::is_blank;

verus! {

broadcast use vstd::string::group_string_axioms;

/// Attempts of the copy keystroke.
pub const COPY_ATTEMPTS: u64 = 3;

/// Clipboard reads after each copy keystroke.
pub const READS_PER_ATTEMPT: u64 = 20;

/// Where the copy sequence stands.
#[derive(Clone, Copy, Debug, PartialEq, Eq, Structural)]
pub enum CopyPhase {
    Begin,
    ReleasingKeys,
    Settling,
    WritingSentinel,
    WaitingBeforeCopy,
    Copying,
    WaitingBeforeRead,
    Reading,
    WaitingAfterAttempt,
    Restoring,
    Done,
}

/// The state of the copy sequence.
pub struct CopyState {
    attempt: u64,
    reads: u64,
    phase: CopyPhase,
    sentinel: String,
    previous: String,
    result: String,
}

/// The abstract view of the copy sequence's state.
pub struct CopyModel {
    /// The attempt under way, from 0.
    pub attempt: u64,
    /// The reads already made in this attempt.
    pub reads: u64,
    pub phase: CopyPhase,
    /// The text written to the clipboard before each copy keystroke.
    pub sentinel: Seq<char>,
    /// The clipboard text before the sequence, written back when it fails.
    pub previous: Seq<char>,
    /// The text the sequence finished with.
    pub result: Seq<char>,
}

impl View for CopyState {
    type V = CopyModel;

    closed spec fn view(&self) -> CopyModel {
        CopyModel {
            attempt: self.attempt,
            reads: self.reads,
            phase: self.phase,
            sentinel: self.sentinel@,
            previous: self.previous@,
            result: self.result@,
        }
    }
}

/// What happened since the last action.
#[derive(Debug)]
pub enum CopyEvent {
    /// The sequence starts.
    Started,
    /// The last action is done.
    Waited,
    /// The clipboard was read and held this text.
    Read(String),
}

/// The character view of an event.
pub enum CopyEventModel {
    Started,
    Waited,
    Read(Seq<char>),
}

impl View for CopyEvent {
    type V = CopyEventModel;

    open spec fn view(&self) -> CopyEventModel {
        match self {
            CopyEvent::Started => CopyEventModel::Started,
            CopyEvent::Waited => CopyEventModel::Waited,
            CopyEvent::Read(t) => CopyEventModel::Read(t@),
        }
    }
}

/// What the program is to do next.
#[derive(Debug, PartialEq, Eq)]
pub enum CopyAction {
    /// Release the keys of the selection shortcut.
    ReleaseKeys,
    /// Wait this many milliseconds.
    Sleep(u64),
    /// Write the sentinel to the clipboard.
    WriteSentinel,
    /// Simulate the copy keystroke.
    SimulateCopy,
    /// Read the clipboard.
    ReadClipboard,
    /// Write this text back to the clipboard.
    Restore(String),
    /// The sequence is over with this text.
    Finish(String),
}

/// The character view of an action.
pub enum CopyActionModel {
    ReleaseKeys,
    Sleep(u64),
    WriteSentinel,
    SimulateCopy,
    ReadClipboard,
    Restore(Seq<char>),
    Finish(Seq<char>),
}

impl View for CopyAction {
    type V = CopyActionModel;

    open spec fn view(&self) -> CopyActionModel {
        match self {
            CopyAction::ReleaseKeys => CopyActionModel::ReleaseKeys,
            CopyAction::Sleep(ms) => CopyActionModel::Sleep(*ms),
            CopyAction::WriteSentinel => CopyActionModel::WriteSentinel,
            CopyAction::SimulateCopy => CopyActionModel::SimulateCopy,
            CopyAction::ReadClipboard => CopyActionModel::ReadClipboard,
            CopyAction::Restore(t) => CopyActionModel::Restore(t@),
            CopyAction::Finish(t) => CopyActionModel::Finish(t@),
        }
    }
}

/// Whether clipboard text is newly copied: not blank, and not the sentinel.
pub open spec fn is_fresh(text: Seq<char>, sentinel: Seq<char>) -> bool {
    !is_blank(text) && text != sentinel
}

/// The bounds every state keeps.
pub open spec fn copy_wf(m: CopyModel) -> bool {
    m.attempt < COPY_ATTEMPTS && m.reads < READS_PER_ATTEMPT
}

/// The state before the sequence starts.
pub open spec fn spec_copy_start(sentinel: Seq<char>, previous: Seq<char>) -> CopyModel {
    CopyModel {
        attempt: 0,
        reads: 0,
        phase: CopyPhase::Begin,
        sentinel,
        previous,
        result: Seq::<char>::empty(),
    }
}

/// One step of the copy sequence. In the reading phase, an event other than
/// a read counts as a read of empty text; elsewhere any event means the last
/// action is done. Once done, the sequence keeps finishing with its result.
pub open spec fn spec_copy_step(s: CopyModel, e: CopyEventModel) -> (CopyModel, CopyActionModel) {
    match s.phase {
        CopyPhase::Begin => (
            CopyModel { phase: CopyPhase::ReleasingKeys, ..s },
            CopyActionModel::ReleaseKeys,
        ),
        CopyPhase::ReleasingKeys => (
            CopyModel { phase: CopyPhase::Settling, ..s },
            CopyActionModel::Sleep(120),
        ),
        CopyPhase::Settling => (
            CopyModel { phase: CopyPhase::WritingSentinel, attempt: 0, reads: 0, ..s },
            CopyActionModel::WriteSentinel,
        ),
        CopyPhase::WritingSentinel => (
            CopyModel { phase: CopyPhase::WaitingBeforeCopy, ..s },
            CopyActionModel::Sleep((35 + 40 * s.attempt) as u64),
        ),
        CopyPhase::WaitingBeforeCopy => (
            CopyModel { phase: CopyPhase::Copying, ..s },
            CopyActionModel::SimulateCopy,
        ),
        CopyPhase::Copying => (
            CopyModel { phase: CopyPhase::WaitingBeforeRead, reads: 0, ..s },
            CopyActionModel::Sleep(45),
        ),
        CopyPhase::WaitingBeforeRead => (
            CopyModel { phase: CopyPhase::Reading, ..s },
            CopyActionModel::ReadClipboard,
        ),
        CopyPhase::Reading => {
            let text = match e {
                CopyEventModel::Read(t) => t,
                _ => Seq::<char>::empty(),
            };
            if is_fresh(text, s.sentinel) {
                (
                    CopyModel { phase: CopyPhase::Done, result: text, ..s },
                    CopyActionModel::Finish(text),
                )
            } else if s.reads + 1 < READS_PER_ATTEMPT {
                (
                    CopyModel {
                        phase: CopyPhase::WaitingBeforeRead,
                        reads: (s.reads + 1) as u64,
                        ..s
                    },
                    CopyActionModel::Sleep(45),
                )
            } else {
                (
                    CopyModel { phase: CopyPhase::WaitingAfterAttempt, ..s },
                    CopyActionModel::Sleep(120),
                )
            }
        },
        CopyPhase::WaitingAfterAttempt => if s.attempt + 1 < COPY_ATTEMPTS {
            (
                CopyModel {
                    phase: CopyPhase::WritingSentinel,
                    attempt: (s.attempt + 1) as u64,
                    reads: 0,
                    ..s
                },
                CopyActionModel::WriteSentinel,
            )
        } else {
            (
                CopyModel { phase: CopyPhase::Restoring, ..s },
                CopyActionModel::Restore(s.previous),
            )
        },
        CopyPhase::Restoring => (
            CopyModel { phase: CopyPhase::Done, result: Seq::<char>::empty(), ..s },
            CopyActionModel::Finish(Seq::<char>::empty()),
        ),
        CopyPhase::Done => (s, CopyActionModel::Finish(s.result)),
    }
}

impl CopyState {
    #[verifier::type_invariant]
    spec fn bounded(self) -> bool {
        copy_wf(self@)
    }

    /// The state before the sequence starts, with the sentinel to write and
    /// the clipboard text to write back on failure.
    pub fn new(sentinel: String, previous: String) -> (r: CopyState)
        ensures
            r@ == spec_copy_start(sentinel@, previous@),
    {
        CopyState {
            attempt: 0,
            reads: 0,
            phase: CopyPhase::Begin,
            sentinel,
            previous,
            result: String::new(),
        }
    }

    fn with_phase(&self, phase: CopyPhase, attempt: u64, reads: u64, result: String) -> (r: CopyState)
        requires
            attempt < COPY_ATTEMPTS,
            reads < READS_PER_ATTEMPT,
        ensures
            r@ == (CopyModel { phase, attempt, reads, result: result@, ..self@ }),
    {
        CopyState {
            attempt,
            reads,
            phase,
            sentinel: self.sentinel.clone(),
            previous: self.previous.clone(),
            result,
        }
    }
}

/// One step of the copy sequence (see `spec_copy_step`).
pub fn copy_step(state: &CopyState, event: CopyEvent) -> (r: (CopyState, CopyAction))
    ensures
        (r.0@, r.1@) == spec_copy_step(state@, event@),
{
    proof {
        use_type_invariant(state);
    }
    let a = state.attempt;
    let n = state.reads;
    match state.phase {
        CopyPhase::Begin => (
            state.with_phase(CopyPhase::ReleasingKeys, a, n, state.result.clone()),
            CopyAction::ReleaseKeys,
        ),
        CopyPhase::ReleasingKeys => (
            state.with_phase(CopyPhase::Settling, a, n, state.result.clone()),
            CopyAction::Sleep(120),
        ),
        CopyPhase::Settling => (
            state.with_phase(CopyPhase::WritingSentinel, 0, 0, state.result.clone()),
            CopyAction::WriteSentinel,
        ),
        CopyPhase::WritingSentinel => (
            state.with_phase(CopyPhase::WaitingBeforeCopy, a, n, state.result.clone()),
            CopyAction::Sleep(crate::shortcut::copy_attempt_delay_ms(a)),
        ),
        CopyPhase::WaitingBeforeCopy => (
            state.with_phase(CopyPhase::Copying, a, n, state.result.clone()),
            CopyAction::SimulateCopy,
        ),
        CopyPhase::Copying => (
            state.with_phase(CopyPhase::WaitingBeforeRead, a, 0, state.result.clone()),
            CopyAction::Sleep(45),
        ),
        CopyPhase::WaitingBeforeRead => (
            state.with_phase(CopyPhase::Reading, a, n, state.result.clone()),
            CopyAction::ReadClipboard,
        ),
        CopyPhase::Reading => {
            let text = match event {
                CopyEvent::Read(t) => t,
                _ => String::new(),
            };
            if crate::shortcut::is_fresh_clipboard_text(text.as_str(), state.sentinel.as_str()) {
                let finished = text.clone();
                (state.with_phase(CopyPhase::Done, a, n, text), CopyAction::Finish(finished))
            } else if n + 1 < READS_PER_ATTEMPT {
                (
                    state.with_phase(CopyPhase::WaitingBeforeRead, a, n + 1, state.result.clone()),
                    CopyAction::Sleep(45),
                )
            } else {
                (
                    state.with_phase(CopyPhase::WaitingAfterAttempt, a, n, state.result.clone()),
                    CopyAction::Sleep(120),
                )
            }
        },
        CopyPhase::WaitingAfterAttempt => {
            if a + 1 < COPY_ATTEMPTS {
                (
                    state.with_phase(CopyPhase::WritingSentinel, a + 1, 0, state.result.clone()),
                    CopyAction::WriteSentinel,
                )
            } else {
                (
                    state.with_phase(CopyPhase::Restoring, a, n, state.result.clone()),
                    CopyAction::Restore(state.previous.clone()),
                )
            }
        },
        CopyPhase::Restoring => (
            state.with_phase(CopyPhase::Done, a, n, String::new()),
            CopyAction::Finish(String::new()),
        ),
        CopyPhase::Done => (
            state.with_phase(CopyPhase::Done, a, n, state.result.clone()),
            CopyAction::Finish(state.result.clone()),
        ),
    }
}


/// What running the sequence from `s`, answering `e` first, yields when the
/// clipboard reads give `rs` in order and every other action completes: the
/// text it finishes with and the text it writes back, if any; `None` as the
/// text when `fuel` steps or the reads run out first.
pub open spec fn copy_outcome(
    s: CopyModel,
    e: CopyEventModel,
    rs: Seq<Seq<char>>,
    fuel: nat,
) -> (Option<Seq<char>>, Option<Seq<char>>)
    decreases fuel,
{
    if fuel == 0 {
        (None, None)
    } else {
        let (s2, a) = spec_copy_step(s, e);
        match a {
            CopyActionModel::Finish(t) => (Some(t), None),
            CopyActionModel::Restore(p) => (
                copy_outcome(s2, CopyEventModel::Waited, rs, (fuel - 1) as nat).0,
                Some(p),
            ),
            CopyActionModel::ReadClipboard => if rs.len() == 0 {
                (None, None)
            } else {
                copy_outcome(s2, CopyEventModel::Read(rs[0]), rs.drop_first(), (fuel - 1) as nat)
            },
            _ => copy_outcome(s2, CopyEventModel::Waited, rs, (fuel - 1) as nat),
        }
    }
}

/// The first fresh read among reads `k` to 59.
pub open spec fn first_fresh_from(rs: Seq<Seq<char>>, sentinel: Seq<char>, k: int) -> Option<Seq<char>>
    decreases 60 - k,
{
    if k >= 60 || k >= rs.len() || k < 0 {
        None
    } else if is_fresh(rs[k], sentinel) {
        Some(rs[k])
    } else {
        first_fresh_from(rs, sentinel, k + 1)
    }
}

/// The outcome owed from read `k` on: the first fresh read, or the previous
/// text written back and an empty result.
pub open spec fn expected_copy_outcome(
    rs: Seq<Seq<char>>,
    sentinel: Seq<char>,
    previous: Seq<char>,
    k: int,
) -> (Option<Seq<char>>, Option<Seq<char>>) {
    match first_fresh_from(rs, sentinel, k) {
        Some(t) => (Some(t), None),
        None => (Some(Seq::<char>::empty()), Some(previous)),
    }
}

proof fn lemma_copy_from_read(s: CopyModel, rs: Seq<Seq<char>>, k: int, fuel: nat)
    requires
        s.phase == CopyPhase::WaitingBeforeRead,
        copy_wf(s),
        k == 20 * s.attempt + s.reads,
        rs.len() >= 60,
        fuel >= 8 * (60 - k) + 4,
    ensures
        copy_outcome(s, CopyEventModel::Waited, rs.subrange(k, rs.len() as int), fuel)
            == expected_copy_outcome(rs, s.sentinel, s.previous, k),
    decreases 60 - k,
{
    let rest = rs.subrange(k, rs.len() as int);
    let next = rs.subrange(k + 1, rs.len() as int);
    assert(rest.drop_first() == next);
    assert(rest[0] == rs[k]);
    let s1 = CopyModel { phase: CopyPhase::Reading, ..s };
    let f1 = (fuel - 1) as nat;
    assert(copy_outcome(s, CopyEventModel::Waited, rest, fuel) == copy_outcome(
        s1,
        CopyEventModel::Read(rs[k]),
        next,
        f1,
    ));
    let f2 = (f1 - 1) as nat;
    if is_fresh(rs[k], s.sentinel) {
    } else if s.reads + 1 < READS_PER_ATTEMPT {
        let s2 = CopyModel { phase: CopyPhase::WaitingBeforeRead, reads: (s.reads + 1) as u64, ..s };
        assert(copy_outcome(s1, CopyEventModel::Read(rs[k]), next, f1) == copy_outcome(
            s2,
            CopyEventModel::Waited,
            next,
            f2,
        ));
        lemma_copy_from_read(s2, rs, k + 1, f2);
    } else {
        let s2 = CopyModel { phase: CopyPhase::WaitingAfterAttempt, ..s };
        assert(copy_outcome(s1, CopyEventModel::Read(rs[k]), next, f1) == copy_outcome(
            s2,
            CopyEventModel::Waited,
            next,
            f2,
        ));
        let f3 = (f2 - 1) as nat;
        if s.attempt + 1 < COPY_ATTEMPTS {
            let s3 = CopyModel {
                phase: CopyPhase::WritingSentinel,
                attempt: (s.attempt + 1) as u64,
                reads: 0,
                ..s
            };
            let s4 = CopyModel { phase: CopyPhase::WaitingBeforeCopy, ..s3 };
            let s5 = CopyModel { phase: CopyPhase::Copying, ..s3 };
            let s6 = CopyModel { phase: CopyPhase::WaitingBeforeRead, ..s3 };
            let f4 = (f3 - 1) as nat;
            let f5 = (f4 - 1) as nat;
            let f6 = (f5 - 1) as nat;
            assert(copy_outcome(s2, CopyEventModel::Waited, next, f2) == copy_outcome(
                s3,
                CopyEventModel::Waited,
                next,
                f3,
            ));
            assert(copy_outcome(s3, CopyEventModel::Waited, next, f3) == copy_outcome(
                s4,
                CopyEventModel::Waited,
                next,
                f4,
            ));
            assert(copy_outcome(s4, CopyEventModel::Waited, next, f4) == copy_outcome(
                s5,
                CopyEventModel::Waited,
                next,
                f5,
            ));
            assert(copy_outcome(s5, CopyEventModel::Waited, next, f5) == copy_outcome(
                s6,
                CopyEventModel::Waited,
                next,
                f6,
            ));
            lemma_copy_from_read(s6, rs, k + 1, f6);
        } else {
            let s3 = CopyModel { phase: CopyPhase::Restoring, ..s };
            assert(copy_outcome(s3, CopyEventModel::Waited, next, f3).0 == Some(
                Seq::<char>::empty(),
            ));
            assert(k + 1 == 60);
            assert(first_fresh_from(rs, s.sentinel, k + 1) is None);
        }
    }
}

/// The copy sequence, started with `Started` and given the clipboard reads
/// `rs` in order, finishes with the first read among the first sixty (three
/// attempts of twenty reads) that is neither blank nor the sentinel, writing
/// nothing back; when there is none, it writes the previous clipboard text
/// back and finishes with empty text.
pub proof fn lemma_copy_sequence(sentinel: Seq<char>, previous: Seq<char>, rs: Seq<Seq<char>>)
    requires
        rs.len() >= 60,
    ensures
        copy_outcome(spec_copy_start(sentinel, previous), CopyEventModel::Started, rs, 500)
            == expected_copy_outcome(rs, sentinel, previous, 0),
{
    let s0 = spec_copy_start(sentinel, previous);
    let s1 = CopyModel { phase: CopyPhase::ReleasingKeys, ..s0 };
    let s2 = CopyModel { phase: CopyPhase::Settling, ..s0 };
    let s3 = CopyModel { phase: CopyPhase::WritingSentinel, ..s0 };
    let s4 = CopyModel { phase: CopyPhase::WaitingBeforeCopy, ..s0 };
    let s5 = CopyModel { phase: CopyPhase::Copying, ..s0 };
    let s6 = CopyModel { phase: CopyPhase::WaitingBeforeRead, ..s0 };
    assert(copy_outcome(s0, CopyEventModel::Started, rs, 500) == copy_outcome(
        s1,
        CopyEventModel::Waited,
        rs,
        499,
    ));
    assert(copy_outcome(s1, CopyEventModel::Waited, rs, 499) == copy_outcome(
        s2,
        CopyEventModel::Waited,
        rs,
        498,
    ));
    assert(copy_outcome(s2, CopyEventModel::Waited, rs, 498) == copy_outcome(
        s3,
        CopyEventModel::Waited,
        rs,
        497,
    ));
    assert(copy_outcome(s3, CopyEventModel::Waited, rs, 497) == copy_outcome(
        s4,
        CopyEventModel::Waited,
        rs,
        496,
    ));
    assert(copy_outcome(s4, CopyEventModel::Waited, rs, 496) == copy_outcome(
        s5,
        CopyEventModel::Waited,
        rs,
        495,
    ));
    assert(copy_outcome(s5, CopyEventModel::Waited, rs, 495) == copy_outcome(
        s6,
        CopyEventModel::Waited,
        rs,
        494,
    ));
    assert(rs.subrange(0, rs.len() as int) == rs);
    lemma_copy_from_read(s6, rs, 0, 494);
}


/// Why a selection shortcut press gives no text to translate.
#[derive(Clone, Copy, Debug, PartialEq, Eq, Structural)]
pub enum SelectionError {
    /// The press came too soon after the last accepted one.
    Debounced,
    /// Nothing but whitespace was copied.
    EmptySelection,
}

impl SelectionError {
    /// The message of the error.
    pub fn message(&self) -> (r: String)
        ensures
            r@ == (match *self {
                SelectionError::Debounced => "debounced"@,
                SelectionError::EmptySelection => "selected text is empty"@,
            }),
    {
        match self {
            SelectionError::Debounced => "debounced".to_string(),
            SelectionError::EmptySelection => "selected text is empty".to_string(),
        }
    }
}

/// The text to translate, from the copied text: trimmed, and refused when
/// nothing is left.
pub fn selection_source(copied: &str) -> (r: Result<String, SelectionError>)
    ensures
        (r is Err) <==> crate::text::trim(copied@).len() == 0,
        r matches Err(e) ==> e == SelectionError::EmptySelection,
        r matches Ok(t) ==> t@ == crate::text::trim(copied@),
{
    let t = crate::text::trim_str(copied);
    if t.as_str().is_empty() {
        Err(SelectionError::EmptySelection)
    } else {
        Ok(t)
    }
}

} // verus!
