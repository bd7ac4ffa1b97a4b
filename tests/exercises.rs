use book_notes::fibonacci::fib_n;
use book_notes::guessing::{read_guess, Game, Guess, Verdict};
use book_notes::lines::last_char_of_first_line_propagation_operator;
use book_notes::pig_latin::{pig_latin_of, string_to_pig_latin};
use book_notes::stats::Data;
use book_notes::{eat_at_restaurant, hosting, unrecoverable};

#[test]
fn pig_latin_sentence() {
    assert_eq!(
        string_to_pig_latin(&String::from("happy birth day my dude!")),
        "appy-hay irth-bay ay-day y-may ude!-day"
    );
    assert_eq!(
        string_to_pig_latin(&String::from("  apple  first ")),
        "apple-hay irst-fay"
    );
}

#[test]
fn pig_latin_rejects_non_ascii() {
    let s = String::from("happy birth day my dude! 😋");
    assert_eq!(
        string_to_pig_latin(&s),
        "invalid string: not ascii\ninput string: happy birth day my dude! 😋"
    );
}

#[test]
fn fibonacci_lengths_and_values() {
    assert_eq!(fib_n(0), vec![0]);
    assert_eq!(fib_n(1), vec![0, 1]);
    assert_eq!(fib_n(2), vec![0, 1]);
    assert_eq!(fib_n(-4), vec![0, 1]);
    assert_eq!(fib_n(7), vec![0, 1, 1, 2, 3, 5, 8]);
    let big = fib_n(47);
    assert_eq!(big.len(), 47);
    assert_eq!(big[46], 1836311903);
}

#[test]
fn last_char_of_first_line() {
    let f = last_char_of_first_line_propagation_operator;
    assert_eq!(f("some string slice\nwith\nmutliple\nlines"), Some('e'));
    assert_eq!(f("abc"), Some('c'));
    assert_eq!(f("ab\r\ncd"), Some('b'));
    assert_eq!(f("ab\r"), Some('\r'));
    assert_eq!(f(""), None);
    assert_eq!(f("\nabc"), None);
    assert_eq!(f("\r\nabc"), None);
}

#[test]
fn median_and_mode() {
    let mut v = vec![0, 1, 3, 4, 5, 5, 5, 6, 9, 2, 4, 9];
    let d = Data::new(&mut v);
    assert_eq!(v, vec![0, 1, 2, 3, 4, 4, 5, 5, 5, 6, 9, 9]);
    assert_eq!(d.data, v);
    assert_eq!(d.median, 5);
    assert_eq!(d.mode, 5);
}

#[test]
fn mode_tie_takes_smallest() {
    let mut v = vec![3, 1, 3, 1, -7];
    let d = Data::new(&mut v);
    assert_eq!(d.data, vec![-7, 1, 1, 3, 3]);
    assert_eq!(d.median, 1);
    assert_eq!(d.mode, 1);
    let mut one = vec![42];
    let d = Data::new(&mut one);
    assert_eq!((d.median, d.mode), (42, 42));
}

#[test]
fn reading_guesses() {
    assert_eq!(read_guess(" 42\n"), Some(42));
    assert_eq!(read_guess("+7"), Some(7));
    assert_eq!(read_guess("007"), Some(7));
    assert_eq!(read_guess("4294967295"), Some(4294967295));
    assert_eq!(read_guess("4294967296"), None);
    assert_eq!(read_guess("-1"), None);
    assert_eq!(read_guess("+"), None);
    assert_eq!(read_guess("4 2"), None);
    assert_eq!(read_guess("abc"), None);
    assert_eq!(read_guess("\t\n"), None);
}

#[test]
fn judging_guesses() {
    let g = Game::with_secret(50);
    assert_eq!(g.guess("49\n"), Verdict::TooSmall);
    assert_eq!(g.guess("51"), Verdict::TooBig);
    assert_eq!(g.guess(" 50 "), Verdict::Win);
    assert_eq!(g.guess("fifty"), Verdict::NotANumber);
    assert_eq!(g.secret(), 50);
}

#[test]
fn random_secret_in_range() {
    for _ in 0..200 {
        let s = Game::new().secret();
        assert!((1..=100).contains(&s));
    }
}

#[test]
fn guess_keeps_its_value() {
    assert_eq!(Guess::new(1).value(), 1);
    assert_eq!(Guess::new(100).value(), 100);
}

#[test]
fn restaurant_calls_run() {
    eat_at_restaurant();
    hosting::add_to_waitlist();
    unrecoverable();
}

#[test]
fn pig_latin_of_blank_sentence_is_none() {
    assert_eq!(pig_latin_of(&String::from("  \t")), None);
    assert_eq!(
        pig_latin_of(&String::from("eat up")),
        Some("eat-hay up-hay".to_string())
    );
}
