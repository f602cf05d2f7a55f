use word_search::{WordSearch, WordSearchConfig};

#[test]
fn render_of_a_grid_of_one_letter() {
    let words = [String::from("aaa")];
    let puzzle = WordSearch::new(&WordSearchConfig {
        num_rows: 4,
        num_columns: 4,
        words: &words,
        use_only_given_letters_in_grid: true,
        allow_backward_words: true,
    })
    .unwrap();
    assert_eq!(
        puzzle.render(),
        "a a a a | aaa \na a a a |  \na a a a |  \na a a a |  \n"
    );
}

#[test]
fn render_puts_the_words_beside_the_first_rows() {
    let words = [String::from("zz"), String::from("z"), String::from("zzz")];
    let puzzle = WordSearch::new(&WordSearchConfig {
        num_rows: 5,
        num_columns: 6,
        words: &words,
        use_only_given_letters_in_grid: true,
        allow_backward_words: false,
    })
    .unwrap();
    assert_eq!(
        puzzle.render(),
        "z z z z z z | zz \nz z z z z z | z \nz z z z z z | zzz \nz z z z z z |  \nz z z z z z |  \n"
    );
}

#[test]
fn render_shows_only_as_many_words_as_rows() {
    let words = [
        String::from("q"),
        String::from("qq"),
        String::from("q"),
        String::from("qq"),
    ];
    let puzzle = WordSearch::new(&WordSearchConfig {
        num_rows: 3,
        num_columns: 9,
        words: &words,
        use_only_given_letters_in_grid: true,
        allow_backward_words: true,
    })
    .unwrap();
    assert_eq!(
        puzzle.render(),
        "q q q q q q q q q | q \nq q q q q q q q q | qq \nq q q q q q q q q | q \n"
    );
}

#[test]
fn render_follows_the_grid_row_by_row() {
    let words = [String::from("lazy"), String::from("panic")];
    let puzzle = WordSearch::new(&WordSearchConfig {
        num_rows: 7,
        num_columns: 8,
        words: &words,
        use_only_given_letters_in_grid: false,
        allow_backward_words: true,
    })
    .unwrap();
    let mut expected = String::new();
    for row in 0..7 {
        for column in 0..8 {
            expected.push(puzzle.get(row, column).unwrap());
            expected.push(' ');
        }
        expected.push_str("| ");
        if row < 2 {
            expected.push_str(&words[row]);
        }
        expected.push_str(" \n");
    }
    assert_eq!(puzzle.render(), expected);
}
