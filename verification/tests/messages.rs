use word_search::text::{push_decimal, too_small_message};
use word_search::{Error, WordSearch, WordSearchConfig};

#[test]
fn message_of_a_grid_too_small() {
    let words = [
        String::from("magnificent"),
        String::from("shishkebab"),
        String::from("thrilling"),
    ];
    let error = Error::DimensionsTooSmall(5, 5, &words);
    assert_eq!(
        error.message(),
        "Grid dimensions 5 rows x 5 columns is too small for word list [\"magnificent\", \"shishkebab\", \"thrilling\"]"
    );
}

#[test]
fn message_of_a_failed_construction() {
    let words = [String::from("search")];
    let made = WordSearch::new(&WordSearchConfig {
        num_rows: 12,
        num_columns: 4,
        words: &words,
        use_only_given_letters_in_grid: false,
        allow_backward_words: true,
    });
    assert_eq!(
        made.unwrap_err().message(),
        "Grid dimensions 12 rows x 4 columns is too small for word list [\"search\"]"
    );
}

#[test]
fn message_quotes_the_words_as_debug_does() {
    let words = [String::from("a\"b"), String::from("tab\there")];
    let error = Error::DimensionsTooSmall(1, 2, &words);
    assert_eq!(
        error.message(),
        format!(
            "Grid dimensions 1 rows x 2 columns is too small for word list {:?}",
            words
        )
    );
    assert!(error.message().ends_with("[\"a\\\"b\", \"tab\\there\"]"));
}

#[test]
fn message_of_no_given_letters() {
    assert_eq!(
        Error::NoGivenLettersToUseInGrid.message(),
        "Word search was configured to only use the letters from the given word list to fill the grid, but no words were provided"
    );
}

#[test]
fn message_of_the_attempt_limit() {
    assert_eq!(
        Error::AttemptLimitReached.message(),
        "No place was found for every word within the allowed number of attempts"
    );
}

#[test]
fn too_small_message_puts_the_parts_together() {
    assert_eq!(
        too_small_message(0, 1234567890, "<the words>"),
        "Grid dimensions 0 rows x 1234567890 columns is too small for word list <the words>"
    );
}

#[test]
fn push_decimal_writes_numbers_as_std_does() {
    for n in [0, 1, 9, 10, 11, 99, 100, 101, 4096, 65535, usize::MAX] {
        let mut out = vec!['n', '='];
        push_decimal(&mut out, n);
        let text: String = out.iter().collect();
        assert_eq!(text, format!("n={}", n));
    }
}

#[test]
fn push_decimal_of_given_numbers() {
    let mut out = Vec::new();
    push_decimal(&mut out, 0);
    assert_eq!(out, vec!['0']);
    let mut out = Vec::new();
    push_decimal(&mut out, 507);
    assert_eq!(out, vec!['5', '0', '7']);
}
