use rust101::game::{compare, draw_secret, play, Feedback, Outcome, Phase, Session};
use rust101::input::parse_guess;

fn lines(v: &[&str]) -> Vec<String> {
    v.iter().map(|s| s.to_string()).collect()
}

#[test]
fn scripted_session_with_secret_42() {
    let out = play(42, &lines(&["10", "abc", "90", "42"]));
    assert_eq!(
        out,
        vec![Feedback::TooSmall, Feedback::Reprompt, Feedback::TooBig, Feedback::Win]
    );
    let texts: Vec<&str> = out.iter().map(|f| f.message()).collect();
    assert_eq!(texts, vec!["too small!", "", "too big!", "you win!"]);
}

#[test]
fn lines_after_the_win_are_not_read() {
    let out = play(42, &lines(&["42", "1", "abc"]));
    assert_eq!(out, vec![Feedback::Win]);
}

#[test]
fn session_without_the_secret_never_ends() {
    let out = play(7, &lines(&["1", "x", "100", "8"]));
    assert_eq!(
        out,
        vec![Feedback::TooSmall, Feedback::Reprompt, Feedback::TooBig, Feedback::TooBig]
    );
}

#[test]
fn exact_guess_wins_for_every_secret() {
    for n in 1u32..=100 {
        let mut s = Session::with_secret(n);
        assert_eq!(s.step(&n.to_string()), Feedback::Win);
        assert!(s.is_won());
        assert_eq!(s.phase(), Phase::Won);
        assert_eq!(s.secret(), n);
    }
}

#[test]
fn low_guess_is_too_small() {
    let mut s = Session::with_secret(50);
    assert_eq!(s.step("49"), Feedback::TooSmall);
    assert_eq!(s.step("0"), Feedback::TooSmall);
    assert_eq!(s.phase(), Phase::AwaitingInput);
    assert_eq!(s.secret(), 50);
}

#[test]
fn high_guess_is_too_big() {
    let mut s = Session::with_secret(50);
    assert_eq!(s.step("51"), Feedback::TooBig);
    assert_eq!(s.step("4294967295"), Feedback::TooBig);
    assert_eq!(s.phase(), Phase::AwaitingInput);
    assert_eq!(s.secret(), 50);
}

#[test]
fn unreadable_lines_change_nothing() {
    let mut s = Session::with_secret(1);
    for line in ["", "abc", "-1", "1.0", "4294967296", "+", " 1 2 "] {
        assert_eq!(s.step(line), Feedback::Reprompt);
        assert_eq!(s.phase(), Phase::AwaitingInput);
        assert_eq!(s.secret(), 1);
    }
    assert_eq!(s.step("1\n"), Feedback::Win);
}

#[test]
fn repeated_wrong_guesses_keep_the_secret() {
    let mut s = Session::with_secret(30);
    for line in ["10", "90", "10", "x", "90"] {
        assert_ne!(s.step(line), Feedback::Win);
        assert_eq!(s.secret(), 30);
    }
    assert_eq!(s.step("30"), Feedback::Win);
}

#[test]
fn guesses_are_trimmed_before_reading() {
    assert_eq!(parse_guess("  42\n"), Some(42));
    assert_eq!(parse_guess("\t7\r\n"), Some(7));
    assert_eq!(parse_guess("\u{3000}9\u{a0}"), Some(9));
}

#[test]
fn guess_parsing_edges() {
    assert_eq!(parse_guess("+7"), Some(7));
    assert_eq!(parse_guess("007"), Some(7));
    assert_eq!(parse_guess("4294967295"), Some(u32::MAX));
    assert_eq!(parse_guess("4294967296"), None);
    assert_eq!(parse_guess("-0"), None);
    assert_eq!(parse_guess(""), None);
    assert_eq!(parse_guess("   "), None);
    assert_eq!(parse_guess("1_000"), None);
}

#[test]
fn comparison_outcomes() {
    assert_eq!(compare(1, 2), Outcome::Less);
    assert_eq!(compare(3, 2), Outcome::Greater);
    assert_eq!(compare(2, 2), Outcome::Equal);
}

#[test]
fn drawn_secrets_stay_in_range() {
    for _ in 0..1000 {
        let n = draw_secret();
        assert!((1..=100).contains(&n));
    }
    let s = Session::new();
    assert!((1..=100).contains(&s.secret()));
    assert_eq!(s.phase(), Phase::AwaitingInput);
}
