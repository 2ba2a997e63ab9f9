use reformojuste::ai::languagetool::{
    after_failed_attempt, apply_corrections, lt_result, LtMatch, LtReplacement, RetryStep,
    MAX_RETRIES,
};

fn lt_match(offset: usize, length: usize, replacements: &[&str]) -> LtMatch {
    LtMatch {
        offset,
        length,
        replacements: replacements
            .iter()
            .map(|v| LtReplacement { value: v.to_string() })
            .collect(),
    }
}

#[test]
fn text_without_matches_comes_back_unchanged() {
    assert_eq!(apply_corrections("Tout va bien.", &[]), "Tout va bien.");
}

#[test]
fn matches_without_replacement_are_ignored() {
    let ms = vec![lt_match(0, 4, &[]), lt_match(5, 2, &[])];
    assert_eq!(apply_corrections("Tout va bien.", &ms), "Tout va bien.");
}

#[test]
fn single_match_is_replaced_by_its_first_suggestion() {
    let ms = vec![lt_match(3, 4, &["suis", "sui"])];
    assert_eq!(apply_corrections("je suit là", &ms), "je suis là");
}

#[test]
fn offsets_count_characters_not_bytes() {
    // "Ça va trés bien" : "trés" starts at the 7th code point, after a two-byte "Ç".
    let ms = vec![lt_match(6, 4, &["très"])];
    assert_eq!(apply_corrections("Ça va trés bien", &ms), "Ça va très bien");
}

#[test]
fn several_matches_use_the_offsets_of_the_text() {
    let text = "il sont alé a Paris";
    let ms = vec![
        lt_match(3, 4, &["sont"]),
        lt_match(8, 3, &["allés"]),
        lt_match(12, 1, &["à"]),
        lt_match(0, 2, &["ils"]),
    ];
    assert_eq!(apply_corrections(text, &ms), "ils sont allés à Paris");
}

#[test]
fn span_past_the_end_is_cut_at_the_end() {
    let ms = vec![lt_match(2, 100, &["Z"])];
    assert_eq!(apply_corrections("abcdef", &ms), "abZ");
}

#[test]
fn empty_span_inserts_the_suggestion() {
    let ms = vec![lt_match(5, 0, &[","])];
    assert_eq!(apply_corrections("Salut toi", &ms), "Salut, toi");
}

#[test]
fn match_at_the_very_end_appends() {
    let ms = vec![lt_match(3, 0, &["!"])];
    assert_eq!(apply_corrections("oui", &ms), "oui!");
}

#[test]
fn equal_offsets_apply_in_given_order() {
    // Stable order: the first listed is spliced first, the second then
    // replaces the character the first one put there.
    let ms = vec![lt_match(0, 1, &["X"]), lt_match(0, 1, &["Y"])];
    assert_eq!(apply_corrections("ab", &ms), "Yb");
}

#[test]
fn languagetool_result_has_no_rewordings() {
    let r = lt_result("Bonjour".to_string());
    assert_eq!(r.correction, "Bonjour");
    assert!(r.simple.is_empty() && r.professional.is_empty() && r.formal.is_empty());
    assert!(r.short.is_empty() && r.creative.is_empty());
}

#[test]
fn only_refused_connections_are_retried() {
    assert_eq!(after_failed_attempt(0, false), RetryStep::Fail);
    assert_eq!(after_failed_attempt(0, true), RetryStep::PauseThenRetry);
    assert_eq!(after_failed_attempt(MAX_RETRIES - 2, true), RetryStep::PauseThenRetry);
    assert_eq!(after_failed_attempt(MAX_RETRIES - 1, true), RetryStep::PauseThenGiveUp);
}

#[test]
fn languagetool_is_tried_fourteen_times_at_most() {
    let mut attempts = 0;
    let mut attempt = 0;
    loop {
        attempts += 1;
        match after_failed_attempt(attempt, true) {
            RetryStep::PauseThenRetry => attempt += 1,
            RetryStep::PauseThenGiveUp => break,
            RetryStep::Fail => panic!("a refused connection is retried"),
        }
    }
    assert_eq!(attempts, 14);
}

#[test]
fn listing_order_of_disjoint_matches_does_not_matter() {
    let text = "Le chat mange la souri";
    let first = vec![lt_match(3, 4, &["chien"]), lt_match(17, 5, &["souris"])];
    let second = vec![lt_match(17, 5, &["souris"]), lt_match(3, 4, &["chien"])];
    assert_eq!(apply_corrections(text, &first), "Le chien mange la souris");
    assert_eq!(apply_corrections(text, &second), "Le chien mange la souris");
}
