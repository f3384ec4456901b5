//! Roman numerals for the integers up to 3000.

use vstd::prelude::*;
use vstd::string::*;

verus! {

/// The largest integer that has a numeral here.
pub const LARGEST: u32 = 3000;

/// `count` copies of one letter.
pub open spec fn repeated(letter: char, count: nat) -> Seq<char> {
    Seq::new(count, |i: int| letter)
}

/// The letters of one decimal digit, written with the letter for one unit
/// of its place, the letter for five and the letter for ten: up to three
/// units side by side, four as one before five, five to eight as five and
/// the units over it, nine as one before ten.
pub open spec fn digit_letters(one: char, five: char, ten: char, digit: nat) -> Seq<char> {
    if digit <= 3 {
        repeated(one, digit)
    } else if digit == 4 {
        seq![one, five]
    } else if digit <= 8 {
        seq![five] + repeated(one, (digit - 5) as nat)
    } else {
        seq![one, ten]
    }
}

/// The letters of a digit at a decimal place, counted from the units (0).
/// The thousands have no letter for five: they are `M`s side by side.
pub open spec fn place_letters(place: nat, digit: nat) -> Seq<char> {
    if place == 0 {
        digit_letters('I', 'V', 'X', digit)
    } else if place == 1 {
        digit_letters('X', 'L', 'C', digit)
    } else if place == 2 {
        digit_letters('C', 'D', 'M', digit)
    } else {
        repeated('M', digit)
    }
}

/// The numeral of `n`: the letters of its thousands, hundreds, tens and
/// units, in that order. Zero has the empty numeral.
pub open spec fn numeral(n: nat) -> Seq<char> {
    place_letters(3, n / 1000) + place_letters(2, n / 100 % 10) + place_letters(1, n / 10 % 10)
        + place_letters(0, n % 10)
}

/// What a letter is worth; a character that is no Roman letter is worth nothing.
pub open spec fn letter_worth(letter: char) -> int {
    if letter == 'I' {
        1
    } else if letter == 'V' {
        5
    } else if letter == 'X' {
        10
    } else if letter == 'L' {
        50
    } else if letter == 'C' {
        100
    } else if letter == 'D' {
        500
    } else if letter == 'M' {
        1000
    } else {
        0
    }
}

/// What a numeral is worth, read in the usual way: a letter that stands
/// before one worth more is taken off, every other letter is added.
pub open spec fn worth(text: Seq<char>) -> int
    decreases text.len(),
{
    if text.len() == 0 {
        0
    } else if text.len() >= 2 && letter_worth(text[0]) < letter_worth(text[1]) {
        worth(text.drop_first()) - letter_worth(text[0])
    } else {
        worth(text.drop_first()) + letter_worth(text[0])
    }
}

/// Every letter of `text` is worth at least `low` and at most `high`.
pub open spec fn letters_within(text: Seq<char>, low: int, high: int) -> bool {
    forall|i: int| 0 <= i < text.len() ==> low <= letter_worth(#[trigger] text[i]) <= high
}

/// Two numerals side by side are worth their sum, where the first does not
/// end in a letter worth less than the one that the second begins with.
pub proof fn lemma_worth_side_by_side(first: Seq<char>, second: Seq<char>)
    requires
        first.len() > 0 && second.len() > 0 ==> letter_worth(first.last()) >= letter_worth(second[0]),
    ensures
        worth(first + second) == worth(first) + worth(second),
    decreases first.len(),
{
    if first.len() > 0 && second.len() > 0 {
        assert((first + second).drop_first() =~= first.drop_first() + second);
        lemma_worth_side_by_side(first.drop_first(), second);
    }
}

/// A letter written `count` times is worth `count` times the letter.
pub proof fn lemma_repeated_worth(letter: char, count: nat)
    ensures
        worth(repeated(letter, count)) == count * letter_worth(letter),
    decreases count,
{
    let text = repeated(letter, count);
    if count > 0 {
        assert(text.drop_first() =~= repeated(letter, (count - 1) as nat));
        lemma_repeated_worth(letter, (count - 1) as nat);
        assert(count * letter_worth(letter) == (count - 1) * letter_worth(letter) + letter_worth(letter))
            by (nonlinear_arith);
    }
}

/// The letters of a digit are worth the digit times the unit of its place,
/// and each of them lies between that unit and ten times it.
pub proof fn lemma_digit_worth(one: char, five: char, ten: char, digit: nat)
    requires
        digit <= 9,
        letter_worth(one) > 0,
        letter_worth(five) == 5 * letter_worth(one),
        letter_worth(ten) == 10 * letter_worth(one),
    ensures
        worth(digit_letters(one, five, ten, digit)) == digit * letter_worth(one),
        letters_within(digit_letters(one, five, ten, digit), letter_worth(one), 10 * letter_worth(one)),
{
    let unit = letter_worth(one);
    if digit <= 3 {
        lemma_repeated_worth(one, digit);
    } else if digit == 4 || digit == 9 {
        reveal_with_fuel(worth, 3);
        assert(digit * unit == if digit == 4 {
            5 * unit - unit
        } else {
            10 * unit - unit
        }) by (nonlinear_arith)
            requires
                digit == 4 || digit == 9,
        ;
    } else {
        let units = repeated(one, (digit - 5) as nat);
        lemma_repeated_worth(one, (digit - 5) as nat);
        lemma_worth_side_by_side(seq![five], units);
        assert(worth(seq![five]) == 5 * unit) by {
            reveal_with_fuel(worth, 2);
        }
        assert(digit * unit == 5 * unit + (digit - 5) * unit) by (nonlinear_arith);
    }
}

/// What one unit of a decimal place is worth: 1, 10, 100 and 1000.
pub open spec fn place_unit(place: nat) -> int {
    if place == 0 {
        1
    } else if place == 1 {
        10
    } else if place == 2 {
        100
    } else {
        1000
    }
}

/// The letters of a digit at a place are worth the digit times the unit of
/// the place, and each of them lies between that unit and ten times it.
pub proof fn lemma_place_worth(place: nat, digit: nat)
    requires
        place <= 3,
        digit <= 9,
    ensures
        worth(place_letters(place, digit)) == digit * place_unit(place),
        letters_within(place_letters(place, digit), place_unit(place), 10 * place_unit(place)),
{
    if place == 0 {
        lemma_digit_worth('I', 'V', 'X', digit);
    } else if place == 1 {
        lemma_digit_worth('X', 'L', 'C', digit);
    } else if place == 2 {
        lemma_digit_worth('C', 'D', 'M', digit);
    } else {
        lemma_repeated_worth('M', digit);
    }
}

/// Letters of a higher place before letters of a lower place are worth
/// their sum.
pub proof fn lemma_worth_of_places(upper: Seq<char>, lower: Seq<char>, low: int, between: int, high: int)
    requires
        letters_within(upper, between, high),
        letters_within(lower, low, between),
        low <= between <= high,
    ensures
        worth(upper + lower) == worth(upper) + worth(lower),
        letters_within(upper + lower, low, high),
{
    lemma_worth_side_by_side(upper, lower);
}

/// An integer is the sum of its decimal digits, each times the unit of its place.
pub proof fn lemma_decimal_places(n: nat)
    ensures
        n == (n / 1000) * 1000 + (n / 100 % 10) * 100 + (n / 10 % 10) * 10 + n % 10,
{
    assert(n / 100 / 10 == n / 1000);
}

/// A numeral is worth the integer that it was written for.
pub proof fn lemma_numeral_worth(n: nat)
    requires
        n <= 3999,
    ensures
        worth(numeral(n)) == n,
{
    let thousands = place_letters(3, n / 1000);
    let hundreds = place_letters(2, n / 100 % 10);
    let tens = place_letters(1, n / 10 % 10);
    let units = place_letters(0, n % 10);
    lemma_place_worth(3, n / 1000);
    lemma_place_worth(2, n / 100 % 10);
    lemma_place_worth(1, n / 10 % 10);
    lemma_place_worth(0, n % 10);
    lemma_worth_of_places(thousands, hundreds, 100, 1000, 10000);
    lemma_worth_of_places(thousands + hundreds, tens, 10, 100, 10000);
    lemma_worth_of_places(thousands + hundreds + tens, units, 1, 10, 10000);
    lemma_decimal_places(n);
}

/// The letters of a digit at a decimal place, from the table of numerals.
fn letters(place: u32, digit: u32) -> (text: &'static str)
    requires
        place <= 3,
        digit <= 9,
        place == 3 ==> digit <= 3,
    ensures
        text@ =~= place_letters(place as nat, digit as nat),
{
    proof {
        reveal_strlit("");
        reveal_strlit("I");
        reveal_strlit("II");
        reveal_strlit("III");
        reveal_strlit("IV");
        reveal_strlit("V");
        reveal_strlit("VI");
        reveal_strlit("VII");
        reveal_strlit("VIII");
        reveal_strlit("IX");
        reveal_strlit("X");
        reveal_strlit("XX");
        reveal_strlit("XXX");
        reveal_strlit("XL");
        reveal_strlit("L");
        reveal_strlit("LX");
        reveal_strlit("LXX");
        reveal_strlit("LXXX");
        reveal_strlit("XC");
        reveal_strlit("C");
        reveal_strlit("CC");
        reveal_strlit("CCC");
        reveal_strlit("CD");
        reveal_strlit("D");
        reveal_strlit("DC");
        reveal_strlit("DCC");
        reveal_strlit("DCCC");
        reveal_strlit("CM");
        reveal_strlit("M");
        reveal_strlit("MM");
        reveal_strlit("MMM");
    }
    if place == 0 {
        match digit {
            1 => "I",
            2 => "II",
            3 => "III",
            4 => "IV",
            5 => "V",
            6 => "VI",
            7 => "VII",
            8 => "VIII",
            9 => "IX",
            _ => "",
        }
    } else if place == 1 {
        match digit {
            1 => "X",
            2 => "XX",
            3 => "XXX",
            4 => "XL",
            5 => "L",
            6 => "LX",
            7 => "LXX",
            8 => "LXXX",
            9 => "XC",
            _ => "",
        }
    } else if place == 2 {
        match digit {
            1 => "C",
            2 => "CC",
            3 => "CCC",
            4 => "CD",
            5 => "D",
            6 => "DC",
            7 => "DCC",
            8 => "DCCC",
            9 => "CM",
            _ => "",
        }
    } else {
        match digit {
            1 => "M",
            2 => "MM",
            3 => "MMM",
            _ => "",
        }
    }
}

/// The Roman numeral of `number`, or an error for an integer over 3000.
pub fn convert(number: u32) -> (converted: Result<String, &'static str>)
    ensures
        number <= LARGEST ==> (converted matches Ok(text) && text@ == numeral(number as nat)),
        number > LARGEST ==> (converted matches Err(reason) && reason@
            == "Roman numerals only went up to 3000"@),
{
    if number > LARGEST {
        Err("Roman numerals only went up to 3000")
    } else {
        let mut text = String::new();
        text.append(letters(3, number / 1000));
        text.append(letters(2, number / 100 % 10));
        text.append(letters(1, number / 10 % 10));
        text.append(letters(0, number % 10));
        Ok(text)
    }
}

} // verus!
