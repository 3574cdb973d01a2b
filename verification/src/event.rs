//! What an event tells its caller.
use vstd::prelude::*;
use vstd::string::StringExecFns;
use crate::selector::{Event, FLAG_READABLE, FLAG_WRITABLE};
use crate::types::Token;

verus! {

/// The token of the registration the event is about.
pub fn token(event: &Event) -> (token: Token)
    ensures
        token == Token(event.token),
{
    Token(event.token)
}

/// Whether the event reports readability.
pub fn is_readable(event: &Event) -> (readable: bool)
    ensures
        readable == event.readable(),
        readable <==> event.flags & FLAG_READABLE != 0,
{
    event.flags & FLAG_READABLE != 0
}

/// Whether the event reports writability.
pub fn is_writable(event: &Event) -> (writable: bool)
    ensures
        writable == event.writable(),
        writable <==> event.flags & FLAG_WRITABLE != 0,
{
    event.flags & FLAG_WRITABLE != 0
}

/// Never: an event reports no error state.
pub fn is_error(_event: &Event) -> (error: bool)
    ensures
        !error,
{
    false
}

/// Never: an event reports no closed read side.
pub fn is_read_closed(_event: &Event) -> (closed: bool)
    ensures
        !closed,
{
    false
}

/// Never: an event reports no closed write side.
pub fn is_write_closed(_event: &Event) -> (closed: bool)
    ensures
        !closed,
{
    false
}

/// Never: an event reports no priority data.
pub fn is_priority(_event: &Event) -> (priority: bool)
    ensures
        !priority,
{
    false
}

/// Never: an event reports no asynchronous I/O.
pub fn is_aio(_event: &Event) -> (aio: bool)
    ensures
        !aio,
{
    false
}

/// Never: an event reports no list I/O.
pub fn is_lio(_event: &Event) -> (lio: bool)
    ensures
        !lio,
{
    false
}

/// The character of a decimal digit.
pub open spec fn digit(value: nat) -> char {
    ('0' as nat + value) as char
}

/// A number in decimal, without leading zeros.
pub open spec fn decimal(value: nat) -> Seq<char>
    decreases value,
{
    if value < 10 {
        seq![digit(value)]
    } else {
        decimal(value / 10).push(digit(value % 10))
    }
}

/// A truth value in words.
pub open spec fn truth(value: bool) -> Seq<char> {
    if value {
        "true"@
    } else {
        "false"@
    }
}

fn digit_text(value: usize) -> (text: &'static str)
    requires
        value < 10,
    ensures
        text@ == seq![digit(value as nat)],
{
    proof {
        reveal_strlit("0");
        reveal_strlit("1");
        reveal_strlit("2");
        reveal_strlit("3");
        reveal_strlit("4");
        reveal_strlit("5");
        reveal_strlit("6");
        reveal_strlit("7");
        reveal_strlit("8");
        reveal_strlit("9");
    }
    match value {
        0 => "0",
        1 => "1",
        2 => "2",
        3 => "3",
        4 => "4",
        5 => "5",
        6 => "6",
        7 => "7",
        8 => "8",
        _ => "9",
    }
}

fn append_decimal(text: &mut String, value: usize)
    ensures
        final(text)@ == old(text)@ + decimal(value as nat),
    decreases value,
{
    if value >= 10 {
        append_decimal(text, value / 10);
    }
    text.append(digit_text(value % 10));
}

fn append_truth(text: &mut String, value: bool)
    ensures
        final(text)@ == old(text)@ + truth(value),
{
    if value {
        text.append("true");
    } else {
        text.append("false");
    }
}

/// The event in words, for debugging.
pub fn debug_details(event: &Event) -> (text: String)
    ensures
        text@ == "Event { token: "@ + decimal(event.token as nat) + ", readable: "@ + truth(
            event.readable(),
        ) + ", writable: "@ + truth(event.writable()) + " }"@,
{
    let mut text = "Event { token: ".to_owned();
    append_decimal(&mut text, event.token);
    text.append(", readable: ");
    append_truth(&mut text, is_readable(event));
    text.append(", writable: ");
    append_truth(&mut text, is_writable(event));
    text.append(" }");
    text
}

/// The number that a row of decimal digits stands for.
pub open spec fn number(text: Seq<char>) -> int
    decreases text.len(),
{
    if text.len() == 0 {
        0
    } else {
        number(text.drop_last()) * 10 + (text.last() as int - '0' as int)
    }
}

/// A number in decimal is made of digits, reads back as the number, and has no leading zero but
/// where it is one.
pub proof fn decimal_reads_back(value: nat)
    ensures
        number(decimal(value)) == value,
        decimal(value).len() > 0,
        decimal(value).len() > 1 ==> decimal(value)[0] != '0',
        decimal(value)[0] == '0' ==> value == 0,
        forall|i: int|
            0 <= i < decimal(value).len() ==> '0' as int <= #[trigger] decimal(value)[i] as int
                <= '9' as int,
    decreases value,
{
    if value < 10 {
        reveal_with_fuel(number, 2);
        assert(decimal(value).drop_last() =~= Seq::empty());
    } else {
        decimal_reads_back(value / 10);
        assert(decimal(value).drop_last() =~= decimal(value / 10));
    }
}

/// The words for the two truth values differ, and each is the word it says.
pub proof fn truth_is_told(value: bool)
    ensures
        truth(value) == "true"@ <==> value,
        truth(value) == "false"@ <==> !value,
{
    reveal_strlit("true");
    reveal_strlit("false");
    assert("true"@.len() != "false"@.len());
}

/// An event reports readability by the lowest bit of its flags and writability by the next,
/// whatever its token.
pub proof fn event_tells_its_flags(event: Event)
    ensures
        event.readable() <==> event.flags % 2 == 1,
        event.writable() <==> (event.flags / 2) % 2 == 1,
{
    let flags = event.flags;
    assert(flags & 1 != 0 <==> flags % 2 == 1) by (bit_vector);
    assert(flags & 2 != 0 <==> (flags / 2) % 2 == 1) by (bit_vector);
}

} // verus!
