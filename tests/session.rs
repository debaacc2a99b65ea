use typetest::diff::{CharClass, Run, WordRole};
use typetest::session::{KeyEvent, Phase, Session};
use typetest::wpm::words_per_minute_milli;

fn session(words: &[&str]) -> Session {
    Session::from_words(words)
}

fn type_word(s: &mut Session, w: &str, now: u64) {
    for c in w.chars() {
        s.apply_key(KeyEvent::AppendChar(c), now);
    }
    s.apply_key(KeyEvent::Boundary, now);
}

fn strings(v: &[Vec<char>]) -> Vec<String> {
    v.iter().map(|w| w.iter().collect()).collect()
}

#[test]
fn new_session_is_not_started() {
    let s = session(&["the", "cat"]);
    assert_eq!(s.phase(), Phase::NotStarted);
    assert_eq!(s.start_instant(), None);
    assert_eq!(strings(s.target_words()), vec!["the", "cat"]);
    assert!(s.typed_words().is_empty());
}

#[test]
fn empty_target_is_complete_at_once() {
    let s = session(&[]);
    assert_eq!(s.phase(), Phase::Completed);
    assert_eq!(s.wpm_milli(), None);
}

#[test]
fn first_character_starts_the_clock() {
    let mut s = session(&["the", "cat"]);
    s.apply_key(KeyEvent::AppendChar('t'), 500);
    s.apply_key(KeyEvent::AppendChar('h'), 900);
    assert_eq!(s.phase(), Phase::InProgress);
    assert_eq!(s.start_instant(), Some(500));
    assert_eq!(s.current_word(), &vec!['t', 'h']);
}

#[test]
fn sealing_last_word_completes() {
    let mut s = session(&["the", "cat"]);
    type_word(&mut s, "the", 1000);
    assert_eq!(s.phase(), Phase::InProgress);
    for c in "cat".chars() {
        s.apply_key(KeyEvent::AppendChar(c), 2000);
    }
    assert_eq!(s.phase(), Phase::InProgress);
    s.apply_key(KeyEvent::Boundary, 3000);
    assert_eq!(s.phase(), Phase::Completed);
    assert_eq!(s.end_instant(), Some(3000));
    assert_eq!(strings(s.typed_words()), vec!["the", "cat"]);
    assert!(s.current_word().is_empty());
}

#[test]
fn boundary_on_empty_word_seals_it() {
    let mut s = session(&["a", "b"]);
    s.apply_key(KeyEvent::Boundary, 10);
    s.apply_key(KeyEvent::Boundary, 20);
    assert_eq!(s.phase(), Phase::Completed);
    assert_eq!(strings(s.typed_words()), vec!["", ""]);
    assert_eq!(s.start_instant(), Some(10));
}

#[test]
fn keys_after_completion_do_nothing() {
    let mut s = session(&["a"]);
    type_word(&mut s, "a", 5);
    s.apply_key(KeyEvent::AppendChar('z'), 6);
    s.apply_key(KeyEvent::Boundary, 7);
    s.apply_key(KeyEvent::Cancel, 8);
    assert_eq!(s.phase(), Phase::Completed);
    assert_eq!(s.typed_words().len(), 1);
    assert!(s.current_word().is_empty());
}

#[test]
fn backspace_on_empty_word_changes_nothing() {
    let mut s = session(&["the", "cat"]);
    type_word(&mut s, "the", 100);
    for _ in 0..5 {
        s.apply_key(KeyEvent::Backspace, 200);
    }
    assert_eq!(strings(s.typed_words()), vec!["the"]);
    assert!(s.current_word().is_empty());
    assert_eq!(s.phase(), Phase::InProgress);
}

#[test]
fn backspace_removes_last_character() {
    let mut s = session(&["the"]);
    s.apply_key(KeyEvent::AppendChar('t'), 1);
    s.apply_key(KeyEvent::AppendChar('x'), 2);
    s.apply_key(KeyEvent::Backspace, 3);
    assert_eq!(s.current_word(), &vec!['t']);
}

#[test]
fn cancel_leaves_the_session() {
    let mut s = session(&["the", "cat"]);
    s.apply_key(KeyEvent::AppendChar('t'), 1);
    s.apply_key(KeyEvent::Cancel, 2);
    assert_eq!(s.phase(), Phase::Cancelled);
    s.apply_key(KeyEvent::AppendChar('h'), 3);
    assert_eq!(s.current_word(), &vec!['t']);
    let mut fresh = session(&["x"]);
    fresh.apply_key(KeyEvent::Cancel, 1);
    assert_eq!(fresh.phase(), Phase::Cancelled);
}

#[test]
fn typed_words_never_exceed_target() {
    let mut s = session(&["a", "b", "c"]);
    for t in 0..10u64 {
        s.apply_key(KeyEvent::AppendChar('q'), t);
        s.apply_key(KeyEvent::Boundary, t);
        assert!(s.typed_words().len() <= 3);
    }
    assert_eq!(s.typed_words().len(), 3);
    assert_eq!(s.phase(), Phase::Completed);
}

#[test]
fn render_view_roles_and_runs() {
    let mut s = session(&["the", "cat", "sat"]);
    type_word(&mut s, "tha", 0);
    s.apply_key(KeyEvent::AppendChar('c'), 1);
    let v = s.render_view();
    assert_eq!(v.len(), 3);
    assert_eq!(v[0].role, WordRole::Sealed);
    assert_eq!(
        v[0].runs,
        vec![
            Run { class: CharClass::Correct, start: 0, end: 2 },
            Run { class: CharClass::Incorrect, start: 2, end: 3 },
        ]
    );
    assert_eq!(v[1].role, WordRole::Active);
    assert_eq!(
        v[1].runs,
        vec![
            Run { class: CharClass::Correct, start: 0, end: 1 },
            Run { class: CharClass::Missing, start: 1, end: 3 },
        ]
    );
    assert_eq!(v[2].role, WordRole::Pending);
    assert_eq!(v[2].runs, vec![Run { class: CharClass::Missing, start: 0, end: 3 }]);
    let t: String = v[1].texts[1].iter().collect();
    assert_eq!(t, "at");
}

#[test]
fn wpm_of_two_words_in_twelve_seconds() {
    assert_eq!(words_per_minute_milli(6, 12_000), Some(6_000));
    let mut s = session(&["the", "cat"]);
    type_word(&mut s, "the", 1_000);
    type_word(&mut s, "cat", 13_000);
    assert_eq!(s.total_chars(), 6);
    assert_eq!(s.wpm_milli(), Some(6_000));
    let wpm = s.wpm_milli().unwrap() as f64 / 1000.0;
    assert!((wpm - 6.0).abs() < 1e-9);
}

#[test]
fn wpm_needs_elapsed_time() {
    assert_eq!(words_per_minute_milli(6, 0), None);
    assert_eq!(words_per_minute_milli(5, 60_000), Some(1_000));
    assert_eq!(words_per_minute_milli(7, 60_000), Some(1_400));
    assert_eq!(words_per_minute_milli(u128::MAX, 1), None);
    let mut s = session(&["a", "b"]);
    type_word(&mut s, "a", 1);
    assert_eq!(s.wpm_milli(), None);
}
