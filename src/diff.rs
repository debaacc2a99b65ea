//! Character-level classification of a typed word against its target word.
use vstd::prelude::*;

verus! {

/// How one character position of a word is judged.
#[derive(Clone, Copy, Debug, PartialEq, Eq, Structural)]
pub enum CharClass {
    /// Typed, and equal to the target character.
    Correct,
    /// Typed, and different from the target character.
    Incorrect,
    /// A position that counts as an error outside the shared prefix.
    Extra,
    /// A target character that is not typed yet.
    Missing,
}

/// Where a word stands relative to the cursor.
#[derive(Clone, Copy, Debug, PartialEq, Eq, Structural)]
pub enum WordRole {
    /// Already submitted with the boundary key.
    Sealed,
    /// Currently being typed.
    Active,
    /// Not reached yet.
    Pending,
}

/// The number of classified positions of a word.
pub open spec fn classified_len(target: Seq<char>, observed: Seq<char>, role: WordRole) -> nat {
    if role == WordRole::Pending || observed.len() <= target.len() {
        target.len()
    } else {
        observed.len()
    }
}

/// The classification of position `i` of a word.
pub open spec fn class_at(target: Seq<char>, observed: Seq<char>, role: WordRole, i: int) -> CharClass {
    if role == WordRole::Pending {
        CharClass::Missing
    } else if i < target.len() && i < observed.len() {
        if target[i] == observed[i] {
            CharClass::Correct
        } else {
            CharClass::Incorrect
        }
    } else if i < observed.len() || role == WordRole::Sealed {
        CharClass::Extra
    } else {
        CharClass::Missing
    }
}

/// The whole classification of a word, one entry per position.
pub open spec fn classification(target: Seq<char>, observed: Seq<char>, role: WordRole) -> Seq<CharClass> {
    Seq::new(classified_len(target, observed, role), |i: int| class_at(target, observed, role, i))
}

/// The character shown at position `i`: the target's where it has one,
/// else the typed one.
pub open spec fn shown_char(target: Seq<char>, observed: Seq<char>, i: int) -> char {
    if i < target.len() {
        target[i]
    } else {
        observed[i]
    }
}

/// Classifies every position of a word.
pub fn classify(target: &[char], observed: &[char], role: WordRole) -> (r: Vec<CharClass>)
    ensures
        r@ == classification(target@, observed@, role),
{
    let n: usize = if role == WordRole::Pending || observed.len() <= target.len() {
        target.len()
    } else {
        observed.len()
    };
    let mut r: Vec<CharClass> = Vec::with_capacity(n);
    let mut i: usize = 0;
    while i < n
        invariant
            n == classified_len(target@, observed@, role),
            i <= n,
            r@.len() == i,
            forall|k: int| 0 <= k < i ==> r@[k] == class_at(target@, observed@, role, k),
        decreases n - i,
    {
        let c = if role == WordRole::Pending {
            CharClass::Missing
        } else if i < target.len() && i < observed.len() {
            if target[i] == observed[i] {
                CharClass::Correct
            } else {
                CharClass::Incorrect
            }
        } else if i < observed.len() || role == WordRole::Sealed {
            CharClass::Extra
        } else {
            CharClass::Missing
        };
        r.push(c);
        i = i + 1;
    }
    assert(r@ =~= classification(target@, observed@, role));
    r
}

/// A maximal stretch of positions `[start, end)` that share one classification.
#[derive(Clone, Copy, Debug, PartialEq, Eq, Structural)]
pub struct Run {
    pub class: CharClass,
    pub start: usize,
    pub end: usize,
}

/// `runs` splits `classes` into contiguous, non-empty, maximal same-class runs.
pub open spec fn runs_of(classes: Seq<CharClass>, runs: Seq<Run>) -> bool {
    &&& (runs.len() == 0 <==> classes.len() == 0)
    &&& runs.len() > 0 ==> runs[0].start == 0 && runs.last().end == classes.len()
    &&& forall|k: int| #![trigger runs[k]] 0 <= k < runs.len() ==> runs[k].start < runs[k].end <= classes.len()
    &&& forall|k: int|
        #![trigger runs[k].end]
        0 <= k < runs.len() - 1 ==> runs[k].end == runs[k + 1].start
            && runs[k].class != runs[k + 1].class
    &&& forall|k: int, p: int|
        #![trigger runs[k], classes[p]]
        0 <= k < runs.len() && runs[k].start <= p < runs[k].end ==> classes[p] == runs[k].class
}

/// Merges neighbouring positions of equal classification into runs.
pub fn merge_runs(classes: &[CharClass]) -> (r: Vec<Run>)
    ensures
        runs_of(classes@, r@),
{
    let n = classes.len();
    let mut runs: Vec<Run> = Vec::new();
    if n == 0 {
        return runs;
    }
    let mut start: usize = 0;
    let mut cur = classes[0];
    let mut i: usize = 1;
    while i < n
        invariant
            n == classes@.len(),
            0 <= start < i <= n,
            cur == classes@[start as int],
            forall|p: int| start <= p < i ==> classes@[p] == cur,
            runs@.len() == 0 ==> start == 0,
            runs@.len() > 0 ==> runs@[0].start == 0 && runs@.last().end == start
                && runs@.last().class != cur,
            forall|k: int| #![trigger runs@[k]] 0 <= k < runs@.len() ==> runs@[k].start < runs@[k].end <= start,
            forall|k: int|
                #![trigger runs@[k].end]
                0 <= k < runs@.len() - 1 ==> runs@[k].end == runs@[k + 1].start
                    && runs@[k].class != runs@[k + 1].class,
            forall|k: int, p: int|
                #![trigger runs@[k], classes@[p]]
                0 <= k < runs@.len() && runs@[k].start <= p < runs@[k].end ==> classes@[p]
                    == runs@[k].class,
        decreases n - i,
    {
        if classes[i] != cur {
            let ghost before = runs@;
            runs.push(Run { class: cur, start, end: i });
            assert forall|k: int| #![trigger runs@[k].end] 0 <= k < runs@.len() - 1 implies runs@[k].end
                == runs@[k + 1].start && runs@[k].class != runs@[k + 1].class by {
                if k < before.len() - 1 {
                    assert(runs@[k] == before[k] && runs@[k + 1] == before[k + 1]);
                } else {
                    assert(runs@[k] == before.last());
                    assert(runs@[k + 1] == Run { class: cur, start, end: i });
                }
            }
            start = i;
            cur = classes[i];
        }
        i = i + 1;
    }
    let ghost before = runs@;
    runs.push(Run { class: cur, start, end: n });
    assert forall|k: int| #![trigger runs@[k].end] 0 <= k < runs@.len() - 1 implies runs@[k].end
        == runs@[k + 1].start && runs@[k].class != runs@[k + 1].class by {
        if k < before.len() - 1 {
            assert(runs@[k] == before[k] && runs@[k + 1] == before[k + 1]);
        } else {
            assert(runs@[k] == before.last());
            assert(runs@[k + 1] == Run { class: cur, start, end: n });
        }
    }
    runs
}

/// The classification of a word as runs, ready for display.
pub fn classify_runs(target: &[char], observed: &[char], role: WordRole) -> (r: Vec<Run>)
    ensures
        runs_of(classification(target@, observed@, role), r@),
{
    let classes = classify(target, observed, role);
    merge_runs(classes.as_slice())
}

/// The characters that a run covers: the target's where the target has a
/// character at that position, else the typed ones.
pub fn run_text(target: &[char], observed: &[char], run: Run) -> (r: Vec<char>)
    requires
        run.start <= run.end,
        run.end <= target@.len() || run.end <= observed@.len(),
    ensures
        r@ == range_text(target@, observed@, run.start as int, run.end as int),
{
    let mut r: Vec<char> = Vec::new();
    let mut p: usize = run.start;
    while p < run.end
        invariant
            run.start <= p <= run.end,
            run.end <= target@.len() || run.end <= observed@.len(),
            r@.len() == p - run.start,
            forall|k: int| 0 <= k < r@.len() ==> r@[k] == shown_char(target@, observed@, run.start + k),
        decreases run.end - p,
    {
        if p < target.len() {
            r.push(target[p]);
        } else {
            r.push(observed[p]);
        }
        p = p + 1;
    }
    assert(r@ =~= range_text(target@, observed@, run.start as int, run.end as int));
    r
}

/// The text of position range `[start, end)` of a word.
pub open spec fn range_text(target: Seq<char>, observed: Seq<char>, start: int, end: int) -> Seq<char> {
    Seq::new((end - start) as nat, |k: int| shown_char(target, observed, start + k))
}

/// One word, classified: its role, its runs, and the text of each run.
pub struct WordView {
    pub role: WordRole,
    pub runs: Vec<Run>,
    pub texts: Vec<Vec<char>>,
}

/// `v` is word `target`, typed as `observed`, classified in `role`.
pub open spec fn is_word_view(target: Seq<char>, observed: Seq<char>, role: WordRole, v: WordView) -> bool {
    &&& v.role == role
    &&& runs_of(classification(target, observed, role), v.runs@)
    &&& v.texts@.len() == v.runs@.len()
    &&& forall|k: int|
        0 <= k < v.runs@.len() ==> (#[trigger] v.texts@[k])@ == range_text(
            target,
            observed,
            v.runs@[k].start as int,
            v.runs@[k].end as int,
        )
}

/// Classifies a word into runs, each with the characters it covers.
pub fn classify_word(target: &[char], observed: &[char], role: WordRole) -> (r: WordView)
    ensures
        is_word_view(target@, observed@, role, r),
{
    let runs = classify_runs(target, observed, role);
    let ghost n = classification(target@, observed@, role).len();
    assert(n <= target@.len() || n <= observed@.len());
    let mut texts: Vec<Vec<char>> = Vec::with_capacity(runs.len());
    let mut k: usize = 0;
    while k < runs.len()
        invariant
            runs_of(classification(target@, observed@, role), runs@),
            n == classification(target@, observed@, role).len(),
            n <= target@.len() || n <= observed@.len(),
            k <= runs@.len(),
            texts@.len() == k,
            forall|j: int|
                0 <= j < k ==> (#[trigger] texts@[j])@ == range_text(
                    target@,
                    observed@,
                    runs@[j].start as int,
                    runs@[j].end as int,
                ),
        decreases runs@.len() - k,
    {
        assert(runs@[k as int].start < runs@[k as int].end <= n);
        texts.push(run_text(target, observed, runs[k]));
        k = k + 1;
    }
    WordView { role, runs, texts }
}

/// A submitted or active word has one classified position for each position
/// of the longer of target and typed text, with no gap; a pending word has
/// one `Missing` position per target character.
pub proof fn lemma_classification_total(target: Seq<char>, observed: Seq<char>, role: WordRole)
    ensures
        role != WordRole::Pending ==> classification(target, observed, role).len() == if target.len()
            >= observed.len() {
            target.len()
        } else {
            observed.len()
        },
        role == WordRole::Pending ==> classification(target, observed, role).len() == target.len(),
        role == WordRole::Pending ==> forall|i: int|
            0 <= i < target.len() ==> #[trigger] classification(target, observed, role)[i]
                == CharClass::Missing,
{
}

} // verus!
