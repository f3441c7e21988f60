//! The texts that the coordinator writes: numbers in decimal, the names of
//! computer players, and the plain-text notices.

use vstd::prelude::*;
use vstd::string::StringExecFns;

verus! {

/// The character of a decimal digit.
pub open spec fn digit_char(d: nat) -> char {
    if d == 0 {
        '0'
    } else if d == 1 {
        '1'
    } else if d == 2 {
        '2'
    } else if d == 3 {
        '3'
    } else if d == 4 {
        '4'
    } else if d == 5 {
        '5'
    } else if d == 6 {
        '6'
    } else if d == 7 {
        '7'
    } else if d == 8 {
        '8'
    } else {
        '9'
    }
}

/// A number written in decimal, without leading zeros.
pub open spec fn decimal(n: nat) -> Seq<char>
    decreases n,
{
    if n < 10 {
        seq![digit_char(n)]
    } else {
        decimal(n / 10).push(digit_char(n % 10))
    }
}

/// The one-character text of a decimal digit.
pub fn digit_text(d: usize) -> (text: &'static str)
    requires
        d < 10,
    ensures
        text@ == seq![digit_char(d as nat)],
{
    proof {
        reveal_strlit("0");
        reveal_strlit("1");
        reveal_strlit("2");
        reveal_strlit("3");
        reveal_strlit("4");
        reveal_strlit("5");
        reveal_strlit("6");
        reveal_strlit("7");
        reveal_strlit("8");
        reveal_strlit("9");
    }
    let text = if d == 0 {
        "0"
    } else if d == 1 {
        "1"
    } else if d == 2 {
        "2"
    } else if d == 3 {
        "3"
    } else if d == 4 {
        "4"
    } else if d == 5 {
        "5"
    } else if d == 6 {
        "6"
    } else if d == 7 {
        "7"
    } else if d == 8 {
        "8"
    } else {
        "9"
    };
    assert(text@ =~= seq![digit_char(d as nat)]);
    text
}

/// Appends a number in decimal to a text.
pub fn append_decimal(text: &mut String, n: usize)
    ensures
        final(text)@ == old(text)@ + decimal(n as nat),
    decreases n,
{
    if n >= 10 {
        append_decimal(text, n / 10);
    }
    text.append(digit_text(n % 10));
    proof {
        if n >= 10 {
            assert(old(text)@ + decimal(n as nat) =~= (old(text)@ + decimal((n / 10) as nat))
                + seq![digit_char((n % 10) as nat)]);
        } else {
            assert(decimal(n as nat) =~= seq![digit_char(n as nat)]);
        }
    }
}

/// The name of the `n`-th computer player of a session.
pub open spec fn bot_name_text(n: nat) -> Seq<char> {
    "Bot "@ + decimal(n)
}

/// The name of the `n`-th computer player of a session.
pub fn bot_name(n: usize) -> (name: String)
    ensures
        name@ == bot_name_text(n as nat),
{
    let mut name = String::from_str("Bot ");
    append_decimal(&mut name, n);
    name
}

/// The refusal sent to someone who asks for a seat in a full session.
pub open spec fn game_full_text(game_id: nat) -> Seq<char> {
    "Game already full: "@ + decimal(game_id)
}

/// The refusal sent to someone who asks for a seat in a full session.
pub fn game_full(game_id: usize) -> (text: String)
    ensures
        text@ == game_full_text(game_id as nat),
{
    let mut text = String::from_str("Game already full: ");
    append_decimal(&mut text, game_id);
    text
}

/// The answer to a clean-up that removed `count` sessions.
pub open spec fn removed_text(count: nat) -> Seq<char> {
    "Removed "@ + decimal(count) + " games"@
}

/// The answer to a clean-up that removed `count` sessions.
pub fn removed(count: usize) -> (text: String)
    ensures
        text@ == removed_text(count as nat),
{
    let mut text = String::from_str("Removed ");
    append_decimal(&mut text, count);
    text.append(" games");
    text
}

/// The notice of how many seconds are left until a session starts.
pub open spec fn till_start_text(secs: nat) -> Seq<char> {
    "{\"type\": \"TillStart\", \"secs\": \""@ + decimal(secs) + "\"}"@
}

/// The notice of how many seconds are left until a session starts.
pub fn till_start(secs: usize) -> (text: String)
    ensures
        text@ == till_start_text(secs as nat),
{
    let mut text = String::from_str("{\"type\": \"TillStart\", \"secs\": \"");
    append_decimal(&mut text, secs);
    text.append("\"}");
    text
}

} // verus!
