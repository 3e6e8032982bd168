use icecube::text::wrap;
use icecube::text::wrap_words;

#[test]
fn wrap_quick() {
    let test = "the quick brown fox jumps over the lazy dog";
    let width = 12;
    // the quick   |
    // brown fox   |
    // jumps over  |
    // the lazy dog|
    assert_eq!(
        wrap(test, width),
        vec![
            (0, 0), // the
            (4, 0), // quick
            (0, 1), // brown
            (6, 1), // fox
            (0, 2), // jumps
            (6, 2), // over
            (0, 3), // the
            (4, 3), // lazy
            (9, 3)  // dog
        ]
    )
}

#[test]
fn long_first_word() {
    let test = "abcdefghijkl abc";
    let width = 12;
    // abcdefghijkl|
    // abc         |
    assert_eq!(wrap(test, width), vec![(0, 0), (0, 1)])
}

#[test]
fn long_word() {
    let test = "the quick brown fox abcdefghijkl the lazy dog";
    let width = 12;
    // the quick   |
    // brown fox   |
    // abcdefghijkl|
    // the lazy dog|
    assert_eq!(
        wrap(test, width),
        vec![
            (0, 0), // the
            (4, 0), // quick
            (0, 1), // brown
            (6, 1), // fox
            (0, 2), // abcdefghijkl
            (0, 3), // the
            (4, 3), // lazy
            (9, 3)  // dog
        ]
    );
}

#[test]
fn one_letter_start() {
    let test = "a quick brown fox abcdefghijkl the lazy dog";
    let width = 12;
    // a quick     |
    // brown fox   |
    // abcdefghijkl|
    // the lazy dog|
    assert_eq!(
        wrap(test, width),
        vec![
            (0, 0), // a
            (2, 0), // quick
            (0, 1), // brown
            (6, 1), // fox
            (0, 2), // abcdefghijkl
            (0, 3), // the
            (4, 3), // lazy
            (9, 3)  // dog
        ]
    );
}

#[test]
fn wrap_words_counts_spaces() {
    // word lengths 3 and 4 at width 8 with a 1-pixel space: 3 + 4 + 1 >= 8
    // wraps the second word; at width 9 it fits one pixel short of the edge
    assert_eq!(wrap_words(&vec![3, 4], 1, 8), vec![(0, 0), (0, 1)]);
    assert_eq!(wrap_words(&vec![3, 4], 1, 9), vec![(0, 0), (4, 0)]);
}

#[test]
fn wrap_words_empty() {
    assert_eq!(wrap_words(&Vec::new(), 1, 10), Vec::new());
}

#[test]
fn wrap_first_word_never_split() {
    // a first word wider than the whole line stays at column 0
    assert_eq!(wrap_words(&vec![50, 2], 1, 10), vec![(0, 0), (0, 1)]);
}

#[test]
fn rewrap_reproduces_rows() {
    // re-wrapping the words of each produced row keeps their columns: the
    // executable face of the idempotence law
    let lens: Vec<usize> = vec![3, 5, 5, 3, 5, 4, 3, 4, 3];
    let width = 13; // the strict-fit variant of wrapping "the quick ..." at 12
    let pairs = wrap_words(&lens, 1, width);
    let rows = pairs.iter().map(|p| p.1).max().unwrap();
    for r in 0..=rows {
        let row_lens: Vec<usize> = lens
            .iter()
            .zip(pairs.iter())
            .filter(|(_, p)| p.1 == r)
            .map(|(l, _)| *l)
            .collect();
        let row_cols: Vec<usize> = pairs.iter().filter(|p| p.1 == r).map(|p| p.0).collect();
        let again = wrap_words(&row_lens, 1, width);
        assert_eq!(again.len(), row_cols.len());
        for (j, p) in again.iter().enumerate() {
            assert_eq!(*p, (row_cols[j], 0));
        }
    }
}

#[test]
fn wrap_exact_fit_starts_new_row() {
    let lens: Vec<usize> = vec![2, 2, 2];
    // 2 + gap + 2 reaches the width exactly, which already wraps
    assert_eq!(wrap_words(&lens, 1, 5), vec![(0, 0), (0, 1), (0, 2)]);
    // one pixel more and two words share each row
    assert_eq!(wrap_words(&lens, 1, 6), vec![(0, 0), (3, 0), (0, 1)]);
}
