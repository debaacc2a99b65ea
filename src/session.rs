//! The typing session: its state machine, key handling and render view.
use vstd::prelude::*;
use crate::diff::{WordRole, WordView, is_word_view, classify_word};
use crate::wpm::{wpm_milli, words_per_minute_milli};
use crate::language::{Language, VocabularyLoadError, generate_string, lines_of_text, non_empty};

verus! {

/// The lifecycle of a session.
#[derive(Clone, Copy, Debug, PartialEq, Eq, Structural)]
pub enum Phase {
    NotStarted,
    InProgress,
    Completed,
    Cancelled,
}

/// A key press, as classified by the input source.
#[derive(Clone, Copy, Debug, PartialEq, Eq, Structural)]
pub enum KeyEvent {
    /// An ordinary character, appended to the word being typed.
    AppendChar(char),
    /// Removes the last character of the word being typed.
    Backspace,
    /// Submits the word being typed (the space key).
    Boundary,
    /// Leaves the session.
    Cancel,
}

/// The mathematical state of a session.
pub struct SessionState {
    pub target: Seq<Seq<char>>,
    pub typed: Seq<Seq<char>>,
    pub current: Seq<char>,
    pub phase: Phase,
    pub start: Option<u64>,
    pub end: Option<u64>,
}

/// A new session on the given target words; with no target word it is
/// already complete.
pub open spec fn initial(target: Seq<Seq<char>>) -> SessionState {
    SessionState {
        target,
        typed: Seq::empty(),
        current: Seq::empty(),
        phase: if target.len() == 0 { Phase::Completed } else { Phase::NotStarted },
        start: None,
        end: None,
    }
}

/// What every reachable state satisfies.
pub open spec fn inv(s: SessionState) -> bool {
    &&& s.typed.len() <= s.target.len()
    &&& s.phase == Phase::Completed ==> s.typed.len() == s.target.len() && s.current.len() == 0
    &&& s.phase != Phase::Completed ==> s.typed.len() < s.target.len()
    &&& s.phase == Phase::NotStarted ==> s.start is None && s.typed.len() == 0 && s.current.len() == 0
    &&& s.phase == Phase::InProgress ==> s.start is Some
    &&& s.end is Some ==> s.phase == Phase::Completed && s.start is Some
}

/// The start time after a key that starts the session at `now`.
pub open spec fn started(s: SessionState, now: u64) -> Option<u64> {
    if s.phase == Phase::NotStarted {
        Some(now)
    } else {
        s.start
    }
}

/// The state after one key press at time `now`.
pub open spec fn step(s: SessionState, event: KeyEvent, now: u64) -> SessionState {
    if s.phase == Phase::Completed || s.phase == Phase::Cancelled {
        s
    } else {
        match event {
            KeyEvent::Cancel => SessionState { phase: Phase::Cancelled, ..s },
            KeyEvent::Backspace => if s.current.len() > 0 {
                SessionState { current: s.current.drop_last(), ..s }
            } else {
                s
            },
            KeyEvent::AppendChar(c) => SessionState {
                current: s.current.push(c),
                phase: Phase::InProgress,
                start: started(s, now),
                ..s
            },
            KeyEvent::Boundary => {
                let typed = s.typed.push(s.current);
                if typed.len() == s.target.len() {
                    SessionState {
                        typed,
                        current: Seq::empty(),
                        phase: Phase::Completed,
                        start: started(s, now),
                        end: Some(now),
                        ..s
                    }
                } else {
                    SessionState {
                        typed,
                        current: Seq::empty(),
                        phase: Phase::InProgress,
                        start: started(s, now),
                        ..s
                    }
                }
            },
        }
    }
}

/// The state after a sequence of key presses, each with its time.
pub open spec fn after_keys(s: SessionState, events: Seq<(KeyEvent, u64)>) -> SessionState
    decreases events.len(),
{
    if events.len() == 0 {
        s
    } else {
        after_keys(step(s, events[0].0, events[0].1), events.drop_first())
    }
}

/// The role of word `i` in state `s`.
pub open spec fn role_of(s: SessionState, i: int) -> WordRole {
    if i < s.typed.len() {
        WordRole::Sealed
    } else if i == s.typed.len() {
        WordRole::Active
    } else {
        WordRole::Pending
    }
}

/// The text typed for word `i` in state `s`.
pub open spec fn observed_of(s: SessionState, i: int) -> Seq<char> {
    if i < s.typed.len() {
        s.typed[i]
    } else if i == s.typed.len() {
        s.current
    } else {
        Seq::empty()
    }
}

/// The number of characters in a list of words.
pub open spec fn total_len(words: Seq<Seq<char>>) -> nat
    decreases words.len(),
{
    if words.len() == 0 {
        0
    } else {
        total_len(words.drop_last()) + words.last().len()
    }
}

/// The words per minute of a session, in thousandths: defined once it is
/// complete and was started.
pub open spec fn session_wpm(s: SessionState) -> Option<u128> {
    if s.phase == Phase::Completed && s.start is Some && s.end is Some && s.start->0 <= s.end->0 {
        wpm_milli(total_len(s.typed) as int, s.end->0 - s.start->0)
    } else {
        None
    }
}

/// The characters of a string, in order.
pub fn chars_of(s: &str) -> (r: Vec<char>)
    ensures
        r@ == s@,
{
    let mut r: Vec<char> = Vec::new();
    for c in it: s.chars()
        invariant
            r@ == it.seq().take(it.index() as int),
    {
        r.push(c);
    }
    r
}

/// A typing session: the target words, the submitted words, the word being
/// typed, the phase and the start and end times.
pub struct Session {
    target: Vec<Vec<char>>,
    typed: Vec<Vec<char>>,
    current: Vec<char>,
    phase: Phase,
    start: Option<u64>,
    end: Option<u64>,
}

/// The texts of a list of words.
pub open spec fn texts(words: Seq<Vec<char>>) -> Seq<Seq<char>> {
    words.map_values(|w: Vec<char>| w@)
}

impl View for Session {
    type V = SessionState;

    closed spec fn view(&self) -> SessionState {
        SessionState {
            target: texts(self.target@),
            typed: texts(self.typed@),
            current: self.current@,
            phase: self.phase,
            start: self.start,
            end: self.end,
        }
    }
}

impl Session {
    /// The session is in a reachable state.
    pub open spec fn wf(&self) -> bool {
        inv(self@)
    }

    /// A new session on the given target words.
    pub fn new(target: Vec<Vec<char>>) -> (r: Session)
        ensures
            r@ == initial(texts(target@)),
            r.wf(),
    {
        let phase = if target.len() == 0 { Phase::Completed } else { Phase::NotStarted };
        let r = Session { target, typed: Vec::new(), current: Vec::new(), phase, start: None, end: None };
        assert(r@.typed =~= Seq::<Seq<char>>::empty());
        r
    }

    /// A new session on the given target words.
    pub fn from_words(words: &[&str]) -> (r: Session)
        ensures
            r@ == initial(words@.map_values(|w: &str| w@)),
            r.wf(),
    {
        let mut target: Vec<Vec<char>> = Vec::with_capacity(words.len());
        let mut k: usize = 0;
        while k < words.len()
            invariant
                k <= words@.len(),
                target@.len() == k,
                forall|j: int| 0 <= j < k ==> #[trigger] target@[j]@ == words@[j]@,
            decreases words@.len() - k,
        {
            target.push(chars_of(words[k]));
            k = k + 1;
        }
        assert(texts(target@) =~= words@.map_values(|w: &str| w@));
        Session::new(target)
    }

    /// The target words.
    pub fn target_words(&self) -> (r: &Vec<Vec<char>>)
        ensures
            texts(r@) == self@.target,
    {
        &self.target
    }

    /// The submitted words, in order.
    pub fn typed_words(&self) -> (r: &Vec<Vec<char>>)
        ensures
            texts(r@) == self@.typed,
    {
        &self.typed
    }

    /// The word in progress.
    pub fn current_word(&self) -> (r: &Vec<char>)
        ensures
            r@ == self@.current,
    {
        &self.current
    }

    /// The phase of the session.
    pub fn phase(&self) -> (r: Phase)
        ensures
            r == self@.phase,
    {
        self.phase
    }

    /// When the first key was pressed, if one was.
    pub fn start_instant(&self) -> (r: Option<u64>)
        ensures
            r == self@.start,
    {
        self.start
    }

    /// When the last word was submitted, if the session is complete.
    pub fn end_instant(&self) -> (r: Option<u64>)
        ensures
            r == self@.end,
    {
        self.end
    }

    /// A new session on `length` words drawn from the vocabulary of
    /// `language`; fails when its word list holds no word.
    pub fn generate(language: Language, length: usize) -> (r: Result<Session, VocabularyLoadError>)
        ensures
            r is Ok <==> non_empty(lines_of_text(language.word_list()@)).len() > 0,
            r is Ok ==> r->Ok_0.wf() && r->Ok_0@ == initial(r->Ok_0@.target)
                && r->Ok_0@.target.len() == length && forall|k: int|
                0 <= k < length ==> non_empty(lines_of_text(language.word_list()@)).contains(
                    #[trigger] r->Ok_0@.target[k],
                ),
    {
        match generate_string(language, length) {
            Err(e) => Err(e),
            Ok(words) => {
                let r = Session::from_words(words.as_slice());
                proof {
                    assert forall|k: int| 0 <= k < length implies non_empty(
                        lines_of_text(language.word_list()@),
                    ).contains(#[trigger] r@.target[k]) by {
                        assert(r@.target[k] == words@[k]@);
                    }
                }
                Ok(r)
            },
        }
    }

    /// Applies one key press made at time `now`.
    pub fn apply_key(&mut self, event: KeyEvent, now: u64)
        requires
            old(self).wf(),
        ensures
            final(self)@ == step(old(self)@, event, now),
            final(self).wf(),
    {
        proof {
            lemma_step_inv(self@, event, now);
        }
        if self.phase == Phase::Completed || self.phase == Phase::Cancelled {
            return;
        }
        match event {
            KeyEvent::Cancel => {
                self.phase = Phase::Cancelled;
            },
            KeyEvent::Backspace => {
                if self.current.len() > 0 {
                    self.current.pop();
                }
            },
            KeyEvent::AppendChar(c) => {
                if self.phase == Phase::NotStarted {
                    self.start = Some(now);
                }
                self.phase = Phase::InProgress;
                self.current.push(c);
            },
            KeyEvent::Boundary => {
                if self.phase == Phase::NotStarted {
                    self.start = Some(now);
                }
                let mut word: Vec<char> = Vec::new();
                std::mem::swap(&mut word, &mut self.current);
                let ghost before = self.typed@;
                self.typed.push(word);
                assert(texts(self.typed@) =~= texts(before).push(word@));
                if self.typed.len() == self.target.len() {
                    self.phase = Phase::Completed;
                    self.end = Some(now);
                } else {
                    self.phase = Phase::InProgress;
                }
            },
        }
    }
}

impl Session {
    /// For each target word, its role and its classification as runs.
    pub fn render_view(&self) -> (r: Vec<WordView>)
        requires
            self.wf(),
        ensures
            r@.len() == self@.target.len(),
            forall|i: int|
                0 <= i < r@.len() ==> is_word_view(
                    self@.target[i],
                    observed_of(self@, i),
                    role_of(self@, i),
                    #[trigger] r@[i],
                ),
    {
        let n = self.target.len();
        let empty: Vec<char> = Vec::new();
        let mut r: Vec<WordView> = Vec::with_capacity(n);
        let mut i: usize = 0;
        while i < n
            invariant
                n == self@.target.len(),
                self.wf(),
                empty@.len() == 0,
                i <= n,
                r@.len() == i,
                forall|j: int|
                    0 <= j < i ==> is_word_view(
                        self@.target[j],
                        observed_of(self@, j),
                        role_of(self@, j),
                        #[trigger] r@[j],
                    ),
            decreases n - i,
        {
            let role = if i < self.typed.len() {
                WordRole::Sealed
            } else if i == self.typed.len() {
                WordRole::Active
            } else {
                WordRole::Pending
            };
            let observed = if i < self.typed.len() {
                self.typed[i].as_slice()
            } else if i == self.typed.len() {
                self.current.as_slice()
            } else {
                empty.as_slice()
            };
            assert(observed@ == observed_of(self@, i as int));
            r.push(classify_word(self.target[i].as_slice(), observed, role));
            i = i + 1;
        }
        r
    }

    /// The number of characters in the submitted words.
    pub fn total_chars(&self) -> (r: u128)
        ensures
            r == total_len(self@.typed),
    {
        let mut sum: u128 = 0;
        let mut i: usize = 0;
        while i < self.typed.len()
            invariant
                i <= self.typed@.len(),
                sum == total_len(texts(self.typed@).take(i as int)),
                sum <= i * (usize::MAX as int),
            decreases self.typed@.len() - i,
        {
            let len = self.typed[i].len();
            proof {
                lemma_sum_bound(sum as int, len as int, i as int);
                assert(texts(self.typed@).take(i + 1).drop_last() =~= texts(self.typed@).take(i as int));
            }
            sum = sum + len as u128;
            i = i + 1;
        }
        assert(texts(self.typed@).take(i as int) =~= texts(self.typed@));
        sum
    }

    /// Words per minute in thousandths, once the session is complete.
    pub fn wpm_milli(&self) -> (r: Option<u128>)
        requires
            self.wf(),
        ensures
            r == session_wpm(self@),
    {
        if self.phase != Phase::Completed {
            return None;
        }
        match (self.start, self.end) {
            (Some(start), Some(end)) => {
                if start <= end {
                    words_per_minute_milli(self.total_chars(), end - start)
                } else {
                    None
                }
            },
            _ => None,
        }
    }
}

proof fn lemma_sum_bound(sum: int, len: int, i: int) by (nonlinear_arith)
    requires
        0 <= sum <= i * (usize::MAX as int),
        0 <= len <= usize::MAX,
        0 <= i < usize::MAX,
    ensures
        sum + len <= (i + 1) * (usize::MAX as int),
        sum + len <= u128::MAX,
{
}

/// One key press keeps a reachable state reachable.
pub proof fn lemma_step_inv(s: SessionState, event: KeyEvent, now: u64)
    requires
        inv(s),
    ensures
        inv(step(s, event, now)),
{
}

/// Key presses from a reachable state lead to a reachable state.
pub proof fn lemma_after_keys_inv(s: SessionState, events: Seq<(KeyEvent, u64)>)
    requires
        inv(s),
    ensures
        inv(after_keys(s, events)),
    decreases events.len(),
{
    if events.len() > 0 {
        lemma_step_inv(s, events[0].0, events[0].1);
        lemma_after_keys_inv(step(s, events[0].0, events[0].1), events.drop_first());
    }
}

/// In every state reached from a new session by any key presses, at most
/// all target words are submitted, and a complete session has no word in
/// progress.
pub proof fn lemma_reachable_lengths(target: Seq<Seq<char>>, events: Seq<(KeyEvent, u64)>)
    ensures
        after_keys(initial(target), events).typed.len() <= target.len(),
        after_keys(initial(target), events).phase == Phase::Completed ==> after_keys(
            initial(target),
            events,
        ).current.len() == 0,
{
    lemma_after_keys_inv(initial(target), events);
    lemma_after_keys_target(initial(target), events);
}

/// Key presses never change the target words.
pub proof fn lemma_after_keys_target(s: SessionState, events: Seq<(KeyEvent, u64)>)
    ensures
        after_keys(s, events).target == s.target,
    decreases events.len(),
{
    if events.len() > 0 {
        lemma_after_keys_target(step(s, events[0].0, events[0].1), events.drop_first());
    }
}

/// A key press completes the session exactly when it is the boundary key
/// that submits the last target word.
pub proof fn lemma_completion_trigger(s: SessionState, event: KeyEvent, now: u64)
    requires
        inv(s),
    ensures
        (s.phase != Phase::Completed && step(s, event, now).phase == Phase::Completed) <==> (
        event == KeyEvent::Boundary && (s.phase == Phase::NotStarted || s.phase
            == Phase::InProgress) && s.typed.len() + 1 == s.target.len()),
{
}

/// Backspace presses on an empty word in progress change nothing.
pub proof fn lemma_backspace_floor(s: SessionState, events: Seq<(KeyEvent, u64)>)
    requires
        s.current.len() == 0,
        forall|k: int| 0 <= k < events.len() ==> #[trigger] events[k].0 == KeyEvent::Backspace,
    ensures
        after_keys(s, events) == s,
    decreases events.len(),
{
    if events.len() > 0 {
        assert(events[0].0 == KeyEvent::Backspace);
        assert(step(s, events[0].0, events[0].1) == s);
        let rest = events.drop_first();
        assert forall|k: int| 0 <= k < rest.len() implies #[trigger] rest[k].0 == KeyEvent::Backspace by {
            assert(rest[k] == events[k + 1]);
        }
        lemma_backspace_floor(s, rest);
    }
}

} // verus!
