//! Rock, paper, scissors: reading the player's choice and judging a round.
use vstd::prelude::*;

verus! {

/// What `str::trim` leaves of a text: the text without the white space at
/// its two ends.
pub uninterp spec fn trimmed_text(text: Seq<char>) -> Seq<char>;

/// What `str::to_lowercase` makes of a text: its lowercase equivalent.
pub uninterp spec fn lowercase_text(text: Seq<char>) -> Seq<char>;

/// Trusted: `str::trim` depends on the text alone; its result is named
/// `trimmed_text`.
pub assume_specification[ str::trim ](text: &str) -> (trimmed: &str)
    ensures
        trimmed@ == trimmed_text(text@),
;

/// Trusted: `str::to_lowercase` depends on the text alone; its result is
/// named `lowercase_text`.
pub assume_specification[ str::to_lowercase ](text: &str) -> (lowered: String)
    ensures
        lowered@ == lowercase_text(text@),
;

/// Calls `rand::random_range` on the range from zero up to, and without,
/// `bound`.
///
/// Trusted: the number drawn lies in that range. An empty range, on which
/// the call panics, is left out.
#[verifier::external_body]
fn random_below(bound: usize) -> (drawn: usize)
    requires
        0 < bound,
    ensures
        drawn < bound,
{
    rand::random_range(0..bound)
}

/// One of the three hands.
#[derive(Clone, Copy, Debug, PartialEq, Eq, Structural)]
pub enum Choice {
    Rock,
    Paper,
    Scissors,
}

/// How a round ends for the player.
#[derive(Clone, Copy, Debug, PartialEq, Eq, Structural)]
pub enum Outcome {
    Draw,
    Win,
    Loss,
}

impl Choice {
    /// Rock blunts scissors, paper wraps rock, scissors cut paper.
    pub open spec fn beats(self, other: Choice) -> bool {
        ||| self == Choice::Rock && other == Choice::Scissors
        ||| self == Choice::Paper && other == Choice::Rock
        ||| self == Choice::Scissors && other == Choice::Paper
    }

    /// The hand at a position among the three: rock, paper, scissors.
    pub open spec fn at(index: int) -> Choice {
        if index == 0 {
            Choice::Rock
        } else if index == 1 {
            Choice::Paper
        } else {
            Choice::Scissors
        }
    }

    /// The name under which the hand is typed and shown.
    pub open spec fn name_text(self) -> Seq<char> {
        match self {
            Choice::Rock => "rock"@,
            Choice::Paper => "paper"@,
            Choice::Scissors => "scissors"@,
        }
    }

    /// The hand at position `index`.
    pub fn from_index(index: usize) -> (choice: Choice)
        requires
            index < 3,
        ensures
            choice == Choice::at(index as int),
    {
        if index == 0 {
            Choice::Rock
        } else if index == 1 {
            Choice::Paper
        } else {
            Choice::Scissors
        }
    }

    /// The name of the hand.
    pub fn name(self) -> (name: &'static str)
        ensures
            name@ == self.name_text(),
    {
        match self {
            Choice::Rock => "rock",
            Choice::Paper => "paper",
            Choice::Scissors => "scissors",
        }
    }

    /// The hand that goes by `name`, if any does.
    pub fn from_name(name: &str) -> (choice: Option<Choice>)
        ensures
            match choice {
                Some(hand) => hand.name_text() == name@,
                None => forall|hand: Choice| hand.name_text() != name@,
            },
    {
        if same_text(name, "rock") {
            Some(Choice::Rock)
        } else if same_text(name, "paper") {
            Some(Choice::Paper)
        } else if same_text(name, "scissors") {
            Some(Choice::Scissors)
        } else {
            None
        }
    }

    /// A hand drawn at random for the opponent.
    pub fn random() -> (choice: Choice) {
        Choice::from_index(random_below(3))
    }
}

/// Judges a round from the player's side.
pub fn outcome(player: Choice, opponent: Choice) -> (result: Outcome)
    ensures
        result == Outcome::Draw <==> player == opponent,
        result == Outcome::Win <==> player.beats(opponent),
        result == Outcome::Loss <==> opponent.beats(player),
{
    match (player, opponent) {
        (Choice::Rock, Choice::Rock) => Outcome::Draw,
        (Choice::Paper, Choice::Paper) => Outcome::Draw,
        (Choice::Scissors, Choice::Scissors) => Outcome::Draw,
        (Choice::Rock, Choice::Scissors) => Outcome::Win,
        (Choice::Paper, Choice::Rock) => Outcome::Win,
        (Choice::Scissors, Choice::Paper) => Outcome::Win,
        _ => Outcome::Loss,
    }
}

/// Whether two texts hold the same characters.
pub fn same_text(left: &str, right: &str) -> (same: bool)
    ensures
        same == (left@ == right@),
{
    let n: usize = left.unicode_len();
    if right.unicode_len() != n {
        return false;
    }
    let mut i: usize = 0;
    while i < n
        invariant
            n == left@.len(),
            n == right@.len(),
            i <= n,
            forall|k: int| 0 <= k < i ==> left@[k] == right@[k],
        decreases n - i,
    {
        if left.get_char(i) != right.get_char(i) {
            return false;
        }
        i = i + 1;
    }
    assert(left@ =~= right@);
    true
}

/// Whether `text` is one of `choices`.
pub open spec fn offered(choices: Seq<&str>, text: Seq<char>) -> bool {
    exists|i: int| 0 <= i < choices.len() && (#[trigger] choices[i])@ == text
}

/// A line as it is compared with the choices: without the white space at
/// its ends if it ends in a line feed, and in lowercase.
pub open spec fn tidied(line: Seq<char>) -> Seq<char> {
    if line.len() > 0 && line.last() == '\n' {
        lowercase_text(trimmed_text(line))
    } else {
        lowercase_text(line)
    }
}

/// The answer that a tidied line gives: the line itself where it is one of
/// the choices and not empty, none otherwise.
pub open spec fn answer_of(tidy: Seq<char>, choices: Seq<&str>) -> Option<Seq<char>> {
    if tidy.len() > 0 && offered(choices, tidy) {
        Some(tidy)
    } else {
        None
    }
}

/// Tidies a line that was read: strips the white space at its ends if it
/// ends in a line feed, and lowers its case.
pub fn tidy(line: &str) -> (tidy: String)
    ensures
        tidy@ == tidied(line@),
{
    let n: usize = line.unicode_len();
    if n > 0 && line.get_char(n - 1) == '\n' {
        line.trim().to_lowercase()
    } else {
        line.to_lowercase()
    }
}

/// Checks a tidied line against the choices.
pub fn accept(tidy: String, choices: &[&str]) -> (answer: Option<String>)
    ensures
        match answer {
            Some(text) => answer_of(tidy@, choices@) == Some(text@),
            None => answer_of(tidy@, choices@) is None,
        },
{
    if tidy.as_str().unicode_len() == 0 {
        return None;
    }
    let mut i: usize = 0;
    while i < choices.len()
        invariant
            i <= choices@.len(),
            tidy@.len() > 0,
            forall|k: int| 0 <= k < i ==> (#[trigger] choices@[k])@ != tidy@,
        decreases choices@.len() - i,
    {
        if same_text(choices[i], tidy.as_str()) {
            assert(offered(choices@, tidy@)) by {
                assert(choices@[i as int]@ == tidy@);
            }
            return Some(tidy);
        }
        i = i + 1;
    }
    None
}

/// Where the reading of the player's choice stands.
#[derive(Debug)]
pub enum Reading {
    /// A line is awaited; this many lines may still be read, at least one.
    Waiting { attempts_left: u32 },
    /// The player typed this choice.
    Chosen(String),
    /// Every attempt was spent on lines that are no choice.
    GaveUp,
}

impl Reading {
    /// The state before the first line: waiting while any attempt is
    /// allowed, given up at once otherwise.
    pub fn start(retry_times: i32) -> (state: Reading)
        ensures
            retry_times > 0 ==> state == (Reading::Waiting { attempts_left: retry_times as u32 }),
            retry_times <= 0 ==> state == Reading::GaveUp,
    {
        if retry_times > 0 {
            Reading::Waiting { attempts_left: retry_times as u32 }
        } else {
            Reading::GaveUp
        }
    }

    /// The state after `line` was read. While waiting, a line that tidies
    /// into one of the choices is chosen; any other line costs an attempt,
    /// and the last attempt spent gives up. A reading that has ended stays
    /// as it is.
    pub fn on_line(self, line: &str, choices: &[&str]) -> (next: Reading)
        ensures
            match self {
                Reading::Waiting { attempts_left } => match answer_of(tidied(line@), choices@) {
                    Some(text) => next matches Reading::Chosen(chosen) && chosen@ == text,
                    None => if attempts_left > 1 {
                        next == (Reading::Waiting { attempts_left: (attempts_left - 1) as u32 })
                    } else {
                        next == Reading::GaveUp
                    },
                },
                _ => next == self,
            },
    {
        match self {
            Reading::Waiting { attempts_left } => match accept(tidy(line), choices) {
                Some(chosen) => Reading::Chosen(chosen),
                None => if attempts_left > 1 {
                    Reading::Waiting { attempts_left: attempts_left - 1 }
                } else {
                    Reading::GaveUp
                },
            },
            other => other,
        }
    }
}

} // verus!
