//! The text of the heads-up display and of the game-over screen.

use vstd::prelude::*;
use vstd::string::*;

verus! {

/// The character of one decimal digit.
pub open spec fn digit(d: nat) -> char {
    if d == 0 {
        '0'
    } else if d == 1 {
        '1'
    } else if d == 2 {
        '2'
    } else if d == 3 {
        '3'
    } else if d == 4 {
        '4'
    } else if d == 5 {
        '5'
    } else if d == 6 {
        '6'
    } else if d == 7 {
        '7'
    } else if d == 8 {
        '8'
    } else {
        '9'
    }
}

/// A number in decimal, without leading zeros.
pub open spec fn decimal(n: nat) -> Seq<char>
    decreases n,
{
    if n < 10 {
        seq![digit(n)]
    } else {
        decimal(n / 10).push(digit(n % 10))
    }
}

/// The three lines of the heads-up display.
pub open spec fn hud_line(health: u32, score: u32, speed: u32) -> Seq<char> {
    "HP: "@ + decimal(health as nat) + "\nScore: "@ + decimal(score as nat) + "\nSpeed: "@
        + decimal(speed as nat)
}

/// The score line of the game-over screen.
pub open spec fn final_score_line(score: u32) -> Seq<char> {
    "Final Score: "@ + decimal(score as nat)
}

/// One decimal digit as text.
fn digit_text(d: u32) -> (s: &'static str)
    requires
        d < 10,
    ensures
        s@ == seq![digit(d as nat)],
{
    proof {
        reveal_strlit("0");
        reveal_strlit("1");
        reveal_strlit("2");
        reveal_strlit("3");
        reveal_strlit("4");
        reveal_strlit("5");
        reveal_strlit("6");
        reveal_strlit("7");
        reveal_strlit("8");
        reveal_strlit("9");
    }
    let s: &'static str = if d == 0 {
        "0"
    } else if d == 1 {
        "1"
    } else if d == 2 {
        "2"
    } else if d == 3 {
        "3"
    } else if d == 4 {
        "4"
    } else if d == 5 {
        "5"
    } else if d == 6 {
        "6"
    } else if d == 7 {
        "7"
    } else if d == 8 {
        "8"
    } else {
        "9"
    };
    assert(s@ =~= seq![digit(d as nat)]);
    s
}

/// Appends a number in decimal to `out`.
pub fn push_decimal(out: &mut String, n: u32)
    ensures
        final(out)@ == old(out)@ + decimal(n as nat),
    decreases n,
{
    if n >= 10 {
        push_decimal(out, n / 10);
    }
    let ghost front = out@;
    out.append(digit_text(n % 10));
    proof {
        if n >= 10 {
            let last = digit((n % 10) as nat);
            assert(front + seq![last] =~= old(out)@ + decimal((n / 10) as nat).push(last));
        }
    }
}

/// The text of the heads-up display: health, score and scroll speed, one to a
/// line.
pub fn hud_text(health: u32, score: u32, speed: u32) -> (text: String)
    ensures
        text@ == hud_line(health, score, speed),
{
    let mut text = String::from_str("HP: ");
    push_decimal(&mut text, health);
    text.append("\nScore: ");
    push_decimal(&mut text, score);
    text.append("\nSpeed: ");
    push_decimal(&mut text, speed);
    text
}

/// The score line of the game-over screen.
pub fn final_score_text(score: u32) -> (text: String)
    ensures
        text@ == final_score_line(score),
{
    let mut text = String::from_str("Final Score: ");
    push_decimal(&mut text, score);
    text
}

} // verus!
