use word_search::sample::pick_letter;
use word_search::letters::{alphabet, has_letter, letters_of, longest, word_lengths};
use word_search::text::chars_of;

#[test]
fn alphabet_is_a_to_z() {
    let letters = alphabet();
    assert_eq!(letters.len(), 26);
    assert_eq!(letters, ('a'..='z').collect::<Vec<char>>());
}

#[test]
fn chars_of_gives_the_characters_in_order() {
    assert_eq!(chars_of("lazy"), vec!['l', 'a', 'z', 'y']);
    assert_eq!(chars_of(""), Vec::<char>::new());
    assert_eq!(chars_of("naïve"), vec!['n', 'a', 'ï', 'v', 'e']);
}

#[test]
fn word_lengths_count_characters() {
    let words = [
        String::from("lazy"),
        String::from(""),
        String::from("naïve"),
        String::from("search"),
    ];
    assert_eq!(word_lengths(&words), vec![4, 0, 5, 6]);
    assert_eq!(word_lengths(&[]), Vec::<usize>::new());
}

#[test]
fn longest_is_the_largest_length() {
    assert_eq!(longest(&[4, 5, 6]), Some(6));
    assert_eq!(longest(&[11, 10, 9]), Some(11));
    assert_eq!(longest(&[3, 7, 7, 2]), Some(7));
    assert_eq!(longest(&[0]), Some(0));
    assert_eq!(longest(&[]), None);
}

#[test]
fn letters_of_lists_each_character_once() {
    let words = [String::from("lazy"), String::from("panic")];
    let mut letters = letters_of(&words);
    letters.sort();
    assert_eq!(letters, vec!['a', 'c', 'i', 'l', 'n', 'p', 'y', 'z']);
}

#[test]
fn letters_of_repeated_words_has_no_repeats() {
    let words = [
        String::from("abba"),
        String::from("abba"),
        String::from("baab"),
    ];
    let mut letters = letters_of(&words);
    letters.sort();
    assert_eq!(letters, vec!['a', 'b']);
}

#[test]
fn letters_of_nothing_is_empty() {
    assert!(letters_of(&[]).is_empty());
    assert!(letters_of(&[String::new(), String::new()]).is_empty());
}

#[test]
fn has_letter_finds_what_is_there() {
    let letters = vec!['x', 'y', 'z'];
    assert!(has_letter(&letters, 'x'));
    assert!(has_letter(&letters, 'z'));
    assert!(!has_letter(&letters, 'a'));
    assert!(!has_letter(&Vec::new(), 'a'));
}

#[test]
fn pick_letter_of_one_letter_is_that_letter() {
    for _ in 0..50 {
        assert_eq!(pick_letter(&['q']), 'q');
    }
}

#[test]
fn pick_letter_picks_among_the_letters() {
    let letters = ['a', 'b', 'c'];
    let mut seen = [false; 3];
    for _ in 0..600 {
        let picked = pick_letter(&letters);
        let at = letters.iter().position(|l| *l == picked).unwrap();
        seen[at] = true;
    }
    assert!(seen.iter().all(|s| *s));
}
