//! The number-guessing session as a state machine: each line of input
//! moves the session on and yields one piece of feedback.
use vstd::prelude::*;
use rand::Rng;
use crate::input::{guess_of, parse_guess};

verus! {

/// Smallest secret a session draws.
pub const SECRET_LOW: u32 = 1;

/// Largest secret a session draws.
pub const SECRET_HIGH: u32 = 100;

/// Where a session stands.
#[derive(PartialEq, Eq, Structural, Clone, Copy, Debug)]
pub enum Phase {
    AwaitingInput,
    Won,
}

/// What a session answers to one line of input.
#[derive(PartialEq, Eq, Structural, Clone, Copy, Debug)]
pub enum Feedback {
    /// The line held no number: nothing is compared, the next line is asked for.
    Reprompt,
    TooSmall,
    TooBig,
    Win,
}

/// The text shown for each piece of feedback.
pub open spec fn message_of(f: Feedback) -> Seq<char> {
    match f {
        Feedback::Reprompt => ""@,
        Feedback::TooSmall => "too small!"@,
        Feedback::TooBig => "too big!"@,
        Feedback::Win => "you win!"@,
    }
}

impl Feedback {
    /// The line shown to the player; empty where nothing is shown.
    pub fn message(&self) -> (r: &'static str)
        ensures
            r@ == message_of(*self),
    {
        match self {
            Feedback::Reprompt => "",
            Feedback::TooSmall => "too small!",
            Feedback::TooBig => "too big!",
            Feedback::Win => "you win!",
        }
    }
}

/// The three-way comparison of a guess with the secret.
#[derive(PartialEq, Eq, Structural, Clone, Copy, Debug)]
pub enum Outcome {
    Less,
    Greater,
    Equal,
}

/// The mathematical state of a session.
pub struct GameState {
    pub secret: u32,
    pub phase: Phase,
}

/// The range a secret is drawn from.
pub open spec fn secret_in_range(n: u32) -> bool {
    SECRET_LOW <= n <= SECRET_HIGH
}

/// A session that has not been won yet.
pub open spec fn fresh(secret: u32) -> GameState {
    GameState { secret, phase: Phase::AwaitingInput }
}

/// How a guess compares with the secret.
pub open spec fn outcome_of(guess: u32, secret: u32) -> Outcome {
    if guess < secret {
        Outcome::Less
    } else if guess > secret {
        Outcome::Greater
    } else {
        Outcome::Equal
    }
}

/// One step of a session that awaits input: the state after `line` and
/// the feedback for it.
pub open spec fn next(s: GameState, line: Seq<char>) -> (GameState, Feedback) {
    match guess_of(line) {
        None => (s, Feedback::Reprompt),
        Some(g) => match outcome_of(g, s.secret) {
            Outcome::Less => (s, Feedback::TooSmall),
            Outcome::Greater => (s, Feedback::TooBig),
            Outcome::Equal => (GameState { phase: Phase::Won, ..s }, Feedback::Win),
        },
    }
}

/// A session fed the lines in order: the final state and one piece of
/// feedback for each line read. Once won, the session reads no more lines.
pub open spec fn run(s: GameState, lines: Seq<Seq<char>>) -> (GameState, Seq<Feedback>)
    decreases lines.len(),
{
    if lines.len() == 0 {
        (s, Seq::empty())
    } else {
        let (t, fs) = run(s, lines.drop_last());
        if t.phase == Phase::Won {
            (t, fs)
        } else {
            let (u, f) = next(t, lines.last());
            (u, fs.push(f))
        }
    }
}

/// A session that is won stays as it is and answers no further line.
pub proof fn lemma_won_is_terminal(s: GameState, lines: Seq<Seq<char>>)
    requires
        s.phase == Phase::Won,
    ensures
        run(s, lines) == (s, Seq::<Feedback>::empty()),
    decreases lines.len(),
{
    if lines.len() > 0 {
        lemma_won_is_terminal(s, lines.drop_last());
    }
}

/// Whatever the secret in range, a line that holds exactly the secret wins
/// the session, which then asks for nothing more.
pub proof fn lemma_exact_guess_wins(n: u32, line: Seq<char>, later: Seq<Seq<char>>)
    requires
        secret_in_range(n),
        guess_of(line) == Some(n),
    ensures
        next(fresh(n), line) == (GameState { secret: n, phase: Phase::Won }, Feedback::Win),
        run(GameState { secret: n, phase: Phase::Won }, later) == (
        GameState { secret: n, phase: Phase::Won }, Seq::<Feedback>::empty()),
{
    lemma_won_is_terminal(GameState { secret: n, phase: Phase::Won }, later);
}

/// A guess below the secret is answered "too small" and the session keeps
/// awaiting input, unchanged.
pub proof fn lemma_low_guess(s: GameState, line: Seq<char>)
    requires
        s.phase == Phase::AwaitingInput,
        guess_of(line) is Some,
        guess_of(line)->0 < s.secret,
    ensures
        next(s, line) == (s, Feedback::TooSmall),
{
}

/// A guess above the secret is answered "too big" and the session keeps
/// awaiting input, unchanged.
pub proof fn lemma_high_guess(s: GameState, line: Seq<char>)
    requires
        s.phase == Phase::AwaitingInput,
        guess_of(line) is Some,
        guess_of(line)->0 > s.secret,
    ensures
        next(s, line) == (s, Feedback::TooBig),
{
}

/// A line that holds no number changes nothing: the secret stays, the
/// session does not end, and the next line is asked for.
pub proof fn lemma_unreadable_line(s: GameState, line: Seq<char>)
    requires
        s.phase == Phase::AwaitingInput,
        guess_of(line) is None,
    ensures
        next(s, line) == (s, Feedback::Reprompt),
{
}

/// Over any input, the secret never changes; the session is won exactly
/// when some line holds the secret; each line read is answered "win"
/// exactly when it holds the secret; and the last answer of a won session
/// is its only "win".
pub proof fn lemma_session_converges(s: GameState, lines: Seq<Seq<char>>)
    requires
        s.phase == Phase::AwaitingInput,
    ensures
        run(s, lines).0.secret == s.secret,
        run(s, lines).1.len() <= lines.len(),
        run(s, lines).0.phase == Phase::Won <==> exists|k: int|
            0 <= k < lines.len() && guess_of(#[trigger] lines[k]) == Some(s.secret),
        run(s, lines).0.phase != Phase::Won ==> run(s, lines).1.len() == lines.len(),
        run(s, lines).0.phase == Phase::Won ==> run(s, lines).1.len() > 0
            && run(s, lines).1.last() == Feedback::Win,
        forall|k: int|
            0 <= k < run(s, lines).1.len() ==> (#[trigger] run(s, lines).1[k] == Feedback::Win
                <==> guess_of(lines[k]) == Some(s.secret)),
    decreases lines.len(),
{
    if lines.len() > 0 {
        let prefix = lines.drop_last();
        lemma_session_converges(s, prefix);
        let (t, fs) = run(s, prefix);
        if t.phase == Phase::Won {
            let k = choose|k: int| 0 <= k < prefix.len() && guess_of(#[trigger] prefix[k]) == Some(s.secret);
            assert(lines[k] == prefix[k]);
        } else {
            assert forall|k: int| 0 <= k < prefix.len() implies guess_of(#[trigger] lines[k]) != Some(s.secret) by {
                assert(lines[k] == prefix[k]);
            }
            let (u, f) = next(t, lines.last());
            assert(run(s, lines).1 == fs.push(f));
            assert forall|k: int| 0 <= k < fs.len() implies (#[trigger] fs.push(f)[k] == Feedback::Win
                <==> guess_of(lines[k]) == Some(s.secret)) by {
                assert(lines[k] == prefix[k]);
                assert(fs.push(f)[k] == fs[k]);
            }
            if u.phase == Phase::Won {
                assert(guess_of(lines[lines.len() - 1]) == Some(s.secret));
            }
        }
    }
}

/// Compares a guess with the secret.
pub fn compare(guess: u32, secret: u32) -> (r: Outcome)
    ensures
        r == outcome_of(guess, secret),
{
    if guess < secret {
        Outcome::Less
    } else if guess > secret {
        Outcome::Greater
    } else {
        Outcome::Equal
    }
}

/// Relies on `rand::Rng::gen_range` over `thread_rng()`: a value in
/// `[low, high)`; it panics only on an empty range.
#[verifier::external_body]
fn random_below(low: u32, high: u32) -> (r: u32)
    requires
        low < high,
    ensures
        low <= r < high,
{
    rand::thread_rng().gen_range(low..high)
}

/// A secret drawn at random from `[SECRET_LOW, SECRET_HIGH]`.
pub fn draw_secret() -> (r: u32)
    ensures
        secret_in_range(r),
{
    random_below(SECRET_LOW, SECRET_HIGH + 1)
}

/// One guessing session: a secret that never changes, and whether it has
/// been guessed.
pub struct Session {
    secret: u32,
    phase: Phase,
}

impl View for Session {
    type V = GameState;

    closed spec fn view(&self) -> GameState {
        GameState { secret: self.secret, phase: self.phase }
    }
}

impl Session {
    /// The session's invariant: its secret lies in the range it is drawn from.
    pub open spec fn wf(&self) -> bool {
        secret_in_range(self@.secret)
    }

    /// A session whose secret is drawn at random.
    pub fn new() -> (r: Session)
        ensures
            r.wf(),
            r@.phase == Phase::AwaitingInput,
    {
        Session::with_secret(draw_secret())
    }

    /// A session with a chosen secret.
    pub fn with_secret(secret: u32) -> (r: Session)
        requires
            secret_in_range(secret),
        ensures
            r.wf(),
            r@ == fresh(secret),
    {
        Session { secret, phase: Phase::AwaitingInput }
    }

    pub fn secret(&self) -> (r: u32)
        ensures
            r == self@.secret,
    {
        self.secret
    }

    pub fn phase(&self) -> (r: Phase)
        ensures
            r == self@.phase,
    {
        self.phase
    }

    pub fn is_won(&self) -> (r: bool)
        ensures
            r == (self@.phase == Phase::Won),
    {
        self.phase == Phase::Won
    }

    /// Reads one line of input: the line is parsed, an unreadable one is
    /// ignored, a number is compared with the secret.
    pub fn step(&mut self, line: &str) -> (r: Feedback)
        requires
            old(self).wf(),
            old(self)@.phase == Phase::AwaitingInput,
        ensures
            final(self).wf(),
            (final(self)@, r) == next(old(self)@, line@),
    {
        match parse_guess(line) {
            None => Feedback::Reprompt,
            Some(g) => match compare(g, self.secret) {
                Outcome::Less => Feedback::TooSmall,
                Outcome::Greater => Feedback::TooBig,
                Outcome::Equal => {
                    self.phase = Phase::Won;
                    Feedback::Win
                },
            },
        }
    }
}

/// The text of each line.
pub open spec fn lines_view(lines: Seq<String>) -> Seq<Seq<char>> {
    lines.map_values(|l: String| l@)
}

/// Plays a session with the given secret on scripted input: the feedback
/// for each line read, up to and including the winning one.
pub fn play(secret: u32, lines: &Vec<String>) -> (r: Vec<Feedback>)
    requires
        secret_in_range(secret),
    ensures
        r@ == run(fresh(secret), lines_view(lines@)).1,
{
    let mut session = Session::with_secret(secret);
    let mut out: Vec<Feedback> = Vec::new();
    let ghost ls = lines_view(lines@);
    let mut i: usize = 0;
    while i < lines.len()
        invariant
            i <= lines.len(),
            ls == lines_view(lines@),
            session.wf(),
            (session@, out@) == run(fresh(secret), ls.take(i as int)),
        decreases lines.len() - i,
    {
        assert(ls.take(i as int + 1).drop_last() =~= ls.take(i as int));
        if !session.is_won() {
            let f = session.step(lines[i].as_str());
            out.push(f);
        }
        i = i + 1;
    }
    assert(ls.take(lines.len() as int) =~= ls);
    out
}

} // verus!
