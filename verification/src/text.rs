//! The texts of the messages that the game shows.

use vstd::prelude::*;
use vstd::string::*;

verus! {

/// The character for a digit.
pub open spec fn digit(d: int) -> char {
    if d == 0 {
        '0'
    } else if d == 1 {
        '1'
    } else if d == 2 {
        '2'
    } else if d == 3 {
        '3'
    } else if d == 4 {
        '4'
    } else if d == 5 {
        '5'
    } else if d == 6 {
        '6'
    } else if d == 7 {
        '7'
    } else if d == 8 {
        '8'
    } else {
        '9'
    }
}

/// `n` written in decimal, without leading zeros.
pub open spec fn decimal(n: u8) -> Seq<char> {
    if n >= 100 {
        seq![digit(n as int / 100), digit((n as int / 10) % 10), digit(n as int % 10)]
    } else if n >= 10 {
        seq![digit(n as int / 10), digit(n as int % 10)]
    } else {
        seq![digit(n as int)]
    }
}

/// The text that tells of an attack that got through.
pub open spec fn attack_message(attacker: Seq<char>, target: Seq<char>, damage: u8) -> Seq<char> {
    attacker + " attacks "@ + target + " for "@ + decimal(damage) + " damage."@
}

/// The text that tells of an attack that the target's defence turned.
pub open spec fn no_effect_message(attacker: Seq<char>, target: Seq<char>) -> Seq<char> {
    attacker + " attacks "@ + target + ", but it has no effect!"@
}

/// The text that tells of a unit's death.
pub open spec fn death_message(name: Seq<char>) -> Seq<char> {
    name + " is dead!"@
}

/// The text that tells the player of their own death.
pub open spec fn player_death_message() -> Seq<char> {
    "You died!"@
}

/// The text that greets the player.
pub open spec fn welcome_message() -> Seq<char> {
    "Welcome stranger! Prepare to perish in the Tombs of the Ancient Kings."@
}

fn digit_str(d: u8) -> (s: &'static str)
    requires
        d < 10,
    ensures
        s@ == seq![digit(d as int)],
{
    proof {
        reveal_strlit("0");
        reveal_strlit("1");
        reveal_strlit("2");
        reveal_strlit("3");
        reveal_strlit("4");
        reveal_strlit("5");
        reveal_strlit("6");
        reveal_strlit("7");
        reveal_strlit("8");
        reveal_strlit("9");
    }
    let s = match d {
        0 => "0",
        1 => "1",
        2 => "2",
        3 => "3",
        4 => "4",
        5 => "5",
        6 => "6",
        7 => "7",
        8 => "8",
        _ => "9",
    };
    assert(s@ =~= seq![digit(d as int)]);
    s
}

/// Writes `n` in decimal behind what `s` holds.
pub fn push_decimal(s: &mut String, n: u8)
    ensures
        final(s)@ == old(s)@ + decimal(n),
{
    if n >= 100 {
        s.append(digit_str(n / 100));
    }
    if n >= 10 {
        s.append(digit_str((n / 10) % 10));
    }
    s.append(digit_str(n % 10));
    assert(s@ =~= old(s)@ + decimal(n));
}

pub fn attack_text(attacker: &str, target: &str, damage: u8) -> (s: String)
    ensures
        s@ == attack_message(attacker@, target@, damage),
{
    let mut s = String::from_str(attacker);
    s.append(" attacks ");
    s.append(target);
    s.append(" for ");
    push_decimal(&mut s, damage);
    s.append(" damage.");
    s
}

pub fn no_effect_text(attacker: &str, target: &str) -> (s: String)
    ensures
        s@ == no_effect_message(attacker@, target@),
{
    let mut s = String::from_str(attacker);
    s.append(" attacks ");
    s.append(target);
    s.append(", but it has no effect!");
    s
}

pub fn death_text(name: &str) -> (s: String)
    ensures
        s@ == death_message(name@),
{
    let mut s = String::from_str(name);
    s.append(" is dead!");
    s
}

} // verus!
