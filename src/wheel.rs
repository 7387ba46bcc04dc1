//! The wheel: pocket colours, bet kinds, their payout multipliers and win rules.

use vstd::prelude::*;

verus! {

broadcast use vstd::string::group_string_axioms;

/// The eighteen red pockets of a European wheel.
pub open spec fn red(n: u8) -> bool {
    n == 1 || n == 3 || n == 5 || n == 7 || n == 9 || n == 12 || n == 14 || n == 16 || n == 18
        || n == 19 || n == 21 || n == 23 || n == 25 || n == 27 || n == 30 || n == 32 || n == 34
        || n == 36
}

/// Every non-zero pocket that is not red is black.
pub open spec fn black(n: u8) -> bool {
    n != 0 && !red(n)
}

/// The colour name of a pocket.
pub open spec fn color_of(n: u8) -> Seq<char> {
    if n == 0 {
        "green"@
    } else if red(n) {
        "red"@
    } else {
        "black"@
    }
}

/// How many pockets among `1..=k` satisfy `red`.
pub open spec fn red_count(k: nat) -> nat
    decreases k,
{
    if k == 0 {
        0
    } else {
        red_count((k - 1) as nat) + if red(k as u8) {
            1nat
        } else {
            0nat
        }
    }
}

/// How many pockets among `1..=k` satisfy `black`.
pub open spec fn black_count(k: nat) -> nat
    decreases k,
{
    if k == 0 {
        0
    } else {
        black_count((k - 1) as nat) + if black(k as u8) {
            1nat
        } else {
            0nat
        }
    }
}

/// Red and black split the pockets 1 to 36 evenly: eighteen each.
pub proof fn lemma_color_counts()
    ensures
        red_count(36) == 18,
        black_count(36) == 18,
{
    reveal_with_fuel(red_count, 37);
    reveal_with_fuel(black_count, 37);
}

#[derive(Debug, Clone, Copy, PartialEq, Eq, Structural)]
pub enum BetType {
    Straight,
    Red,
    Black,
    Even,
    Odd,
    Low,
    High,
    FirstDozen,
    SecondDozen,
    ThirdDozen,
    FirstColumn,
    SecondColumn,
    ThirdColumn,
}

/// The multiplier applied to a winning wager on top of returning it.
pub open spec fn multiplier(t: BetType) -> u64 {
    match t {
        BetType::Straight => 35,
        BetType::Red | BetType::Black | BetType::Even | BetType::Odd | BetType::Low
        | BetType::High => 1,
        BetType::FirstDozen | BetType::SecondDozen | BetType::ThirdDozen | BetType::FirstColumn
        | BetType::SecondColumn | BetType::ThirdColumn => 2,
    }
}

/// Whether a bet of kind `t` on the wagered numbers `picks` wins when the
/// ball lands on `n`. Only `Straight` looks at `picks`.
pub open spec fn wins(t: BetType, n: u8, picks: Seq<u8>) -> bool {
    match t {
        BetType::Straight => picks.contains(n),
        BetType::Red => red(n),
        BetType::Black => black(n),
        BetType::Even => n != 0 && n % 2 == 0,
        BetType::Odd => n != 0 && n % 2 == 1,
        BetType::Low => 1 <= n <= 18,
        BetType::High => 19 <= n <= 36,
        BetType::FirstDozen => 1 <= n <= 12,
        BetType::SecondDozen => 13 <= n <= 24,
        BetType::ThirdDozen => 25 <= n <= 36,
        BetType::FirstColumn => n != 0 && (n - 1) % 3 == 0,
        BetType::SecondColumn => n >= 2 && (n - 2) % 3 == 0,
        BetType::ThirdColumn => n != 0 && n % 3 == 0,
    }
}

impl BetType {
    pub fn payout_multiplier(&self) -> (r: u64)
        ensures
            r == multiplier(*self),
    {
        match self {
            BetType::Straight => 35,
            BetType::Red | BetType::Black => 1,
            BetType::Even | BetType::Odd => 1,
            BetType::Low | BetType::High => 1,
            BetType::FirstDozen | BetType::SecondDozen | BetType::ThirdDozen => 2,
            BetType::FirstColumn | BetType::SecondColumn | BetType::ThirdColumn => 2,
        }
    }

    pub fn is_winner(&self, number: u8, bet_numbers: &[u8]) -> (r: bool)
        ensures
            r == wins(*self, number, bet_numbers@),
    {
        match self {
            BetType::Straight => contains_number(bet_numbers, number),
            BetType::Red => is_red(number),
            BetType::Black => is_black(number),
            BetType::Even => number != 0 && number % 2 == 0,
            BetType::Odd => number != 0 && number % 2 == 1,
            BetType::Low => 1 <= number && number <= 18,
            BetType::High => 19 <= number && number <= 36,
            BetType::FirstDozen => 1 <= number && number <= 12,
            BetType::SecondDozen => 13 <= number && number <= 24,
            BetType::ThirdDozen => 25 <= number && number <= 36,
            BetType::FirstColumn => number != 0 && (number - 1) % 3 == 0,
            BetType::SecondColumn => number >= 2 && (number - 2) % 3 == 0,
            BetType::ThirdColumn => number != 0 && number % 3 == 0,
        }
    }
}

fn contains_number(numbers: &[u8], number: u8) -> (r: bool)
    ensures
        r == numbers@.contains(number),
{
    let mut i: usize = 0;
    while i < numbers.len()
        invariant
            0 <= i <= numbers@.len(),
            forall|j: int| 0 <= j < i ==> numbers@[j] != number,
        decreases numbers@.len() - i,
    {
        if numbers[i] == number {
            return true;
        }
        i = i + 1;
    }
    false
}

pub fn is_red(number: u8) -> (r: bool)
    ensures
        r == red(number),
{
    number == 1 || number == 3 || number == 5 || number == 7 || number == 9 || number == 12
        || number == 14 || number == 16 || number == 18 || number == 19 || number == 21
        || number == 23 || number == 25 || number == 27 || number == 30 || number == 32
        || number == 34 || number == 36
}

pub fn is_black(number: u8) -> (r: bool)
    ensures
        r == black(number),
{
    number != 0 && !is_red(number)
}

pub fn get_color(number: u8) -> (r: String)
    ensures
        r@ == color_of(number),
{
    if number == 0 {
        "green".to_string()
    } else if is_red(number) {
        "red".to_string()
    } else {
        "black".to_string()
    }
}

} // verus!
