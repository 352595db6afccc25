use tui_input::text::{from_chars, to_chars};
use tui_input::word::{classify, find_next_word_start, find_prev_word_start};

#[test]
fn chars_round_trip() {
    let chars = to_chars("¡a☆Ｈ");
    assert_eq!(chars, vec!['¡', 'a', '☆', 'Ｈ']);
    assert_eq!(from_chars(&chars), "¡a☆Ｈ");
    assert_eq!(to_chars(""), Vec::<char>::new());
    assert_eq!(from_chars(&Vec::new()), "");
}

#[test]
fn from_chars_appends_in_order() {
    assert_eq!(from_chars(&vec!['a', 'b', 'c']), "abc");
}

#[test]
fn classify_tells_words_from_separators() {
    let mask = classify(&['a', ' ', '1', ',', 'é', '東', '_', '-', '٣']);
    assert_eq!(
        mask,
        vec![true, false, true, false, true, true, false, false, true]
    );
    assert_eq!(classify(&[]), Vec::<bool>::new());
}

#[test]
fn prev_word_start_on_masks() {
    let t = true;
    let f = false;
    let mask = [t, t, f, f, t, t, t, f];
    assert_eq!(find_prev_word_start(&mask, 8), 4);
    assert_eq!(find_prev_word_start(&mask, 7), 4);
    assert_eq!(find_prev_word_start(&mask, 5), 4);
    assert_eq!(find_prev_word_start(&mask, 4), 0);
    assert_eq!(find_prev_word_start(&mask, 3), 0);
    assert_eq!(find_prev_word_start(&mask, 1), 0);
    assert_eq!(find_prev_word_start(&mask, 0), 0);
    assert_eq!(find_prev_word_start(&[f, f, f], 3), 0);
    assert_eq!(find_prev_word_start(&[f, t], 2), 1);
    assert_eq!(find_prev_word_start(&[], 0), 0);
}

#[test]
fn next_word_start_on_masks() {
    let t = true;
    let f = false;
    let mask = [t, t, f, f, t, t, t, f];
    assert_eq!(find_next_word_start(&mask, 0), 4);
    assert_eq!(find_next_word_start(&mask, 1), 4);
    assert_eq!(find_next_word_start(&mask, 2), 4);
    assert_eq!(find_next_word_start(&mask, 3), 4);
    assert_eq!(find_next_word_start(&mask, 4), 8);
    assert_eq!(find_next_word_start(&mask, 7), 8);
    assert_eq!(find_next_word_start(&mask, 8), 8);
    assert_eq!(find_next_word_start(&[t, t], 0), 2);
    assert_eq!(find_next_word_start(&[t, f, t], 0), 2);
    assert_eq!(find_next_word_start(&[], 0), 0);
}
