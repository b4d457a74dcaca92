//! Quotes shown in the dashboard's footer, in a fixed rotation.
use vstd::prelude::*;

verus! {

/// Number of quotes in the rotation.
pub const QUOTE_COUNT: usize = 15;

/// The quotes, in rotation order.
pub open spec fn quotes() -> Seq<Seq<char>> {
    seq![
        "Fear is the mind-killer."@,
        "The spice must flow."@,
        "He who controls the spice controls the universe."@,
        "I must not fear. Fear is the mind-killer."@,
        "The mystery of life isn't a problem to solve, but a reality to experience."@,
        "Without change, something sleeps inside us and seldom awakens."@,
        "The sleeper must awaken."@,
        "Beginnings are such delicate times."@,
        "Deep in the human unconscious is a pervasive need for a logical universe."@,
        "Survival is the ability to swim in strange water."@,
        "God created Arrakis to train the faithful."@,
        "The mind commands the body and it obeys."@,
        "There is no escape — we pay for the violence of our ancestors."@,
        "A process cannot be understood by stopping it."@,
        "Arrakis teaches the attitude of the knife."@,
    ]
}

/// The quote at `index`, wrapping around the rotation.
pub fn get_quote(index: usize) -> (q: &'static str)
    ensures
        q@ == quotes()[(index % QUOTE_COUNT) as int],
{
    let i = index % QUOTE_COUNT;
    match i {
        0 => "Fear is the mind-killer.",
        1 => "The spice must flow.",
        2 => "He who controls the spice controls the universe.",
        3 => "I must not fear. Fear is the mind-killer.",
        4 => "The mystery of life isn't a problem to solve, but a reality to experience.",
        5 => "Without change, something sleeps inside us and seldom awakens.",
        6 => "The sleeper must awaken.",
        7 => "Beginnings are such delicate times.",
        8 => "Deep in the human unconscious is a pervasive need for a logical universe.",
        9 => "Survival is the ability to swim in strange water.",
        10 => "God created Arrakis to train the faithful.",
        11 => "The mind commands the body and it obeys.",
        12 => "There is no escape — we pay for the violence of our ancestors.",
        13 => "A process cannot be understood by stopping it.",
        _ => "Arrakis teaches the attitude of the knife.",
    }
}

/// How many quotes the rotation holds.
pub fn count() -> (n: usize)
    ensures
        n == quotes().len(),
        n == QUOTE_COUNT,
{
    QUOTE_COUNT
}

} // verus!
