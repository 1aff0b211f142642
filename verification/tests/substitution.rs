use nerf::text::{fill_template, join_words, replace_all};

#[test]
fn joins_words_with_single_spaces() {
    let words = vec![
        String::from("fix"),
        String::from("this"),
        String::from("sentence"),
    ];
    assert_eq!(join_words(&words), "fix this sentence");
}

#[test]
fn joins_single_word_unchanged() {
    let words = vec![String::from("hello")];
    assert_eq!(join_words(&words), "hello");
}

#[test]
fn joins_no_words_to_empty() {
    let words: Vec<String> = vec![];
    assert_eq!(join_words(&words), "");
}

#[test]
fn fills_template_with_joined_input() {
    let filled = fill_template("Rewrite: {input}", "fix this sentence");
    assert_eq!(filled, "Rewrite: fix this sentence");
}

#[test]
fn fills_every_occurrence() {
    let filled = fill_template("{input}, I say: {input}!", "go");
    assert_eq!(filled, "go, I say: go!");
}

#[test]
fn keeps_template_without_placeholder_unchanged() {
    let filled = fill_template("no token here", "anything");
    assert_eq!(filled, "no token here");
}

#[test]
fn keeps_characters_around_occurrences() {
    let filled = fill_template("a{input}b{input}c", "-");
    assert_eq!(filled, "a-b-c");
}

#[test]
fn does_not_rescan_substituted_text() {
    let filled = fill_template("{inp{input}ut}", "X");
    assert_eq!(filled, "{inpXut}");
}

#[test]
fn replaces_with_multibyte_characters() {
    let filled = fill_template("sag: {input}", "gr\u{00fc}\u{00df} dich");
    assert_eq!(filled, "sag: gr\u{00fc}\u{00df} dich");
}

#[test]
fn replace_all_matches_std_replace() {
    let cases = [
        ("aaa", "aa", "b"),
        ("banana", "na", "NA"),
        ("{x}{x}", "{x}", "y"),
        ("edge", "edge", ""),
        ("", "pat", "sub"),
    ];
    for (text, pattern, subst) in cases {
        assert_eq!(replace_all(text, pattern, subst), text.replace(pattern, subst));
    }
}
