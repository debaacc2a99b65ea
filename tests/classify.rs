use typetest::diff::{classify, classify_word, merge_runs, run_text, CharClass, Run, WordRole};

fn chars(s: &str) -> Vec<char> {
    s.chars().collect()
}

fn text(v: &[char]) -> String {
    v.iter().collect()
}

#[test]
fn sealed_short_word_tail_is_extra() {
    let r = classify(&chars("cat"), &chars("ca"), WordRole::Sealed);
    assert_eq!(r, vec![CharClass::Correct, CharClass::Correct, CharClass::Extra]);
}

#[test]
fn sealed_long_word_tail_is_extra() {
    let r = classify(&chars("cat"), &chars("cats"), WordRole::Sealed);
    assert_eq!(
        r,
        vec![CharClass::Correct, CharClass::Correct, CharClass::Correct, CharClass::Extra]
    );
}

#[test]
fn active_short_word_tail_is_missing() {
    let r = classify(&chars("cat"), &chars("ca"), WordRole::Active);
    assert_eq!(r, vec![CharClass::Correct, CharClass::Correct, CharClass::Missing]);
}

#[test]
fn active_long_word_tail_is_extra() {
    let r = classify(&chars("cat"), &chars("cbtss"), WordRole::Active);
    assert_eq!(
        r,
        vec![
            CharClass::Correct,
            CharClass::Incorrect,
            CharClass::Correct,
            CharClass::Extra,
            CharClass::Extra
        ]
    );
}

#[test]
fn pending_word_is_all_missing() {
    let r = classify(&chars("house"), &chars("xy"), WordRole::Pending);
    assert_eq!(r, vec![CharClass::Missing; 5]);
}

#[test]
fn empty_observed_classifies_whole_target() {
    assert_eq!(classify(&chars("dog"), &[], WordRole::Sealed), vec![CharClass::Extra; 3]);
    assert_eq!(classify(&chars("dog"), &[], WordRole::Active), vec![CharClass::Missing; 3]);
}

#[test]
fn classification_length_is_longer_of_the_two() {
    for observed in ["", "a", "ab", "abc", "abcd", "abcdefgh"] {
        let o = chars(observed);
        let n = std::cmp::max(3, o.len());
        assert_eq!(classify(&chars("abc"), &o, WordRole::Sealed).len(), n);
        assert_eq!(classify(&chars("abc"), &o, WordRole::Active).len(), n);
        assert_eq!(classify(&chars("abc"), &o, WordRole::Pending).len(), 3);
    }
}

#[test]
fn multibyte_characters_compare_whole() {
    let r = classify(&chars("café"), &chars("cafe"), WordRole::Active);
    assert_eq!(
        r,
        vec![CharClass::Correct, CharClass::Correct, CharClass::Correct, CharClass::Incorrect]
    );
    let v = classify_word(&chars("naïve"), &chars("naïv€x"), WordRole::Sealed);
    let texts: Vec<String> = v.texts.iter().map(|t| text(t)).collect();
    assert_eq!(texts, vec!["naïv".to_string(), "e".to_string(), "x".to_string()]);
    assert_eq!(
        v.runs,
        vec![
            Run { class: CharClass::Correct, start: 0, end: 4 },
            Run { class: CharClass::Incorrect, start: 4, end: 5 },
            Run { class: CharClass::Extra, start: 5, end: 6 },
        ]
    );
}

#[test]
fn runs_merge_equal_neighbours() {
    let classes = vec![
        CharClass::Correct,
        CharClass::Correct,
        CharClass::Incorrect,
        CharClass::Correct,
        CharClass::Missing,
        CharClass::Missing,
    ];
    assert_eq!(
        merge_runs(&classes),
        vec![
            Run { class: CharClass::Correct, start: 0, end: 2 },
            Run { class: CharClass::Incorrect, start: 2, end: 3 },
            Run { class: CharClass::Correct, start: 3, end: 4 },
            Run { class: CharClass::Missing, start: 4, end: 6 },
        ]
    );
    assert_eq!(merge_runs(&[]), vec![]);
}

#[test]
fn sealed_word_view_shows_target_tail() {
    let v = classify_word(&chars("cat"), &chars("ca"), WordRole::Sealed);
    assert_eq!(v.role, WordRole::Sealed);
    assert_eq!(
        v.runs,
        vec![
            Run { class: CharClass::Correct, start: 0, end: 2 },
            Run { class: CharClass::Extra, start: 2, end: 3 },
        ]
    );
    assert_eq!(text(&v.texts[1]), "t");
}

#[test]
fn run_text_takes_typed_characters_past_target() {
    let r = run_text(&chars("cat"), &chars("cats!"), Run { class: CharClass::Extra, start: 3, end: 5 });
    assert_eq!(text(&r), "s!");
}
