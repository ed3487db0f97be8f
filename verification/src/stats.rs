//! A tally of how games ended.

use vstd::prelude::*;
use crate::player::Player;
use crate::rules::GameResult;

verus! {

/// The way a digit is written.
pub open spec fn digit_text(digit: int) -> Seq<char> {
    if digit == 0 {
        "0"@
    } else if digit == 1 {
        "1"@
    } else if digit == 2 {
        "2"@
    } else if digit == 3 {
        "3"@
    } else if digit == 4 {
        "4"@
    } else if digit == 5 {
        "5"@
    } else if digit == 6 {
        "6"@
    } else if digit == 7 {
        "7"@
    } else if digit == 8 {
        "8"@
    } else {
        "9"@
    }
}

/// The way a number is written in decimal: its digits without leading
/// zeros, after a minus sign if it is negative.
pub open spec fn decimal_text(n: int) -> Seq<char>
    decreases
            if n < 0 {
                1 - n
            } else {
                n
            },
{
    if n < 0 {
        "-"@ + decimal_text(-n)
    } else if n < 10 {
        digit_text(n)
    } else {
        decimal_text(n / 10) + digit_text(n % 10)
    }
}

/// Returns the way a digit is written.
fn digit(d: u64) -> (s: &'static str)
    requires
        d < 10,
    ensures
        s@ == digit_text(d as int),
{
    if d == 0 {
        "0"
    } else if d == 1 {
        "1"
    } else if d == 2 {
        "2"
    } else if d == 3 {
        "3"
    } else if d == 4 {
        "4"
    } else if d == 5 {
        "5"
    } else if d == 6 {
        "6"
    } else if d == 7 {
        "7"
    } else if d == 8 {
        "8"
    } else {
        "9"
    }
}

/// Returns the way a number that is not negative is written in decimal.
fn natural(n: u64) -> (s: String)
    ensures
        s@ == decimal_text(n as int),
    decreases n,
{
    if n < 10 {
        String::from_str(digit(n))
    } else {
        let mut s = natural(n / 10);
        s.append(digit(n % 10));
        s
    }
}

/// Returns the way a number is written in decimal.
pub fn decimal(n: i32) -> (s: String)
    ensures
        s@ == decimal_text(n as int),
{
    if n < 0 {
        let size: u64 = (-(n as i64)) as u64;
        let mut s = String::from_str("-");
        s.append(natural(size).as_str());
        s
    } else {
        natural(n as u64)
    }
}

/// How many games each player won, how many were drawn, and how many were
/// played in all.
#[derive(Debug, Clone, Copy, PartialEq, Eq)]
pub struct Stats {
    pub oh_wins: i32,
    pub ex_wins: i32,
    pub draws: i32,
    pub total: i32,
}

impl Stats {
    /// Whether the tally adds up: no count is negative, and the wins and
    /// draws together are all the games.
    pub open spec fn adds_up(self) -> bool {
        &&& self.oh_wins >= 0
        &&& self.ex_wins >= 0
        &&& self.draws >= 0
        &&& self.total == self.oh_wins + self.ex_wins + self.draws
    }

    /// The tally after one more game that ended with `result`.
    pub open spec fn with(self, result: GameResult) -> Stats {
        match result {
            GameResult::Win(Player::Ex) => Stats {
                ex_wins: (self.ex_wins + 1) as i32,
                total: (self.total + 1) as i32,
                ..self
            },
            GameResult::Win(Player::Oh) => Stats {
                oh_wins: (self.oh_wins + 1) as i32,
                total: (self.total + 1) as i32,
                ..self
            },
            GameResult::Draw => Stats {
                draws: (self.draws + 1) as i32,
                total: (self.total + 1) as i32,
                ..self
            },
        }
    }

    /// Returns the tally of no games.
    pub fn new() -> (stats: Stats)
        ensures
            stats == (Stats { oh_wins: 0, ex_wins: 0, draws: 0, total: 0 }),
            stats.adds_up(),
    {
        Stats { oh_wins: 0, ex_wins: 0, draws: 0, total: 0 }
    }

    /// Whether one more game can be counted: the tally adds up and the
    /// number of games is below the largest that fits.
    pub open spec fn has_room(self) -> bool {
        self.adds_up() && self.total < i32::MAX
    }

    /// Returns whether one more game can be counted.
    pub fn can_record(&self) -> (b: bool)
        ensures
            b == self.has_room(),
    {
        self.oh_wins >= 0 && self.ex_wins >= 0 && self.draws >= 0 && self.total as i64
            == self.oh_wins as i64 + self.ex_wins as i64 + self.draws as i64 && self.total
            < i32::MAX
    }

    /// Counts one more game that ended with `result`.
    pub fn record(&mut self, result: GameResult)
        requires
            old(self).has_room(),
        ensures
            *final(self) == old(self).with(result),
            final(self).adds_up(),
            final(self).total == old(self).total + 1,
    {
        match result {
            GameResult::Win(player) => match player {
                Player::Ex => {
                    self.ex_wins += 1;
                },
                Player::Oh => {
                    self.oh_wins += 1;
                },
            },
            GameResult::Draw => {
                self.draws += 1;
            },
        }
        self.total += 1;
    }

    /// The tally as it is reported: four lines, the games in all first.
    pub open spec fn report_text(self) -> Seq<char> {
        "Games: "@ + decimal_text(self.total as int) + "\nX wins: "@ + decimal_text(
            self.ex_wins as int,
        ) + "\nO wins: "@ + decimal_text(self.oh_wins as int) + "\nDraws: "@ + decimal_text(
            self.draws as int,
        )
    }

    /// Returns the tally as it is reported.
    pub fn report(&self) -> (s: String)
        ensures
            s@ == self.report_text(),
    {
        let mut s = String::from_str("Games: ");
        s.append(decimal(self.total).as_str());
        s.append("\nX wins: ");
        s.append(decimal(self.ex_wins).as_str());
        s.append("\nO wins: ");
        s.append(decimal(self.oh_wins).as_str());
        s.append("\nDraws: ");
        s.append(decimal(self.draws).as_str());
        s
    }
}

} // verus!
