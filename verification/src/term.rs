use crate::text::chars_of;
use chrono::Datelike;
use vstd::prelude::*;

verus! {

/// Why the term directories could not be named.
#[derive(Debug, Clone, Copy, PartialEq, Eq, Structural)]
pub enum TermError {
    /// The term does not start with a decimal digit.
    InvalidTermNumber,
    /// The term has no second character.
    InvalidTermCharacter,
}

/// The character of the decimal digit `d`.
pub open spec fn digit_char(d: int) -> char {
    (48 + d) as u8 as char
}

/// The remainder of `n` by 100 with the sign of `n`.
pub open spec fn last_two(n: int) -> int {
    if n >= 0 {
        n % 100
    } else {
        -((-n) % 100)
    }
}

/// A number between -99 and 99 in at least two characters: padded with a
/// zero where it has one digit and no sign.
pub open spec fn two_digits(n: int) -> Seq<char> {
    if n >= 0 {
        seq![digit_char(n / 10), digit_char(n % 10)]
    } else if n > -10 {
        seq!['-', digit_char(-n)]
    } else {
        seq!['-', digit_char((-n) / 10), digit_char((-n) % 10)]
    }
}

/// The month in which the term of `month` starts, as one digit: 1, 5 or 9.
pub open spec fn term_month(month: int) -> char {
    if month <= 4 {
        '1'
    } else if month <= 8 {
        '5'
    } else {
        '9'
    }
}

/// The code of the term that the month `month` of `year` lies in: the
/// century as 0 (before 2000) or 1, the year in two digits, the month in
/// which the term starts.
pub open spec fn term_code_of(year: int, month: int) -> Seq<char> {
    seq![if year < 2000 { '0' } else { '1' }] + two_digits(last_two(year)) + seq![term_month(month)]
}

/// The character of the decimal digit `d`.
pub fn digit(d: u8) -> (r: char)
    requires
        d < 10,
    ensures
        r == digit_char(d as int),
{
    (48u8 + d) as char
}

/// The code of the term that the month `month` of `year` lies in.
pub fn term_code(year: i32, month: u32) -> (r: String)
    requires
        1 <= month <= 12,
    ensures
        r@ == term_code_of(year as int, month as int),
{
    let mut out = String::new();
    out.push(if year < 2000 { '0' } else { '1' });
    let wide: i64 = year as i64;
    let size: i64 = if wide >= 0 { wide % 100 } else { (-wide) % 100 };
    let tens: u8 = (size / 10) as u8;
    let units: u8 = (size % 10) as u8;
    if wide >= 0 || size == 0 {
        out.push(digit(tens));
        out.push(digit(units));
    } else if size < 10 {
        out.push('-');
        out.push(digit(units));
    } else {
        out.push('-');
        out.push(digit(tens));
        out.push(digit(units));
    }
    out.push(if month <= 4 { '1' } else if month <= 8 { '5' } else { '9' });
    out
}

/// The year and the month of `chrono::Local::now`, as `chrono::Datelike::year`
/// and `chrono::Datelike::month` give them. The month counts from 1 to 12;
/// nothing is said of the year, which follows the clock and the time zone of
/// the machine.
#[verifier::external_body]
fn local_year_and_month() -> (r: (i32, u32))
    ensures
        1 <= r.1 <= 12,
{
    let now = chrono::Local::now();
    (now.year(), now.month())
}

/// The code of the term that today lies in.
pub fn generate_term_code() -> (r: String)
    ensures
        exists|year: int, month: int| 1 <= month <= 12 && r@ == #[trigger] term_code_of(year, month),
{
    let (year, month) = local_year_and_month();
    term_code(year, month)
}

/// The value of a decimal digit.
pub open spec fn digit_value(c: char) -> Option<int> {
    if '0' <= c <= '9' {
        Some(c as u32 - 48)
    } else {
        None
    }
}

/// The names of the term directories for the number `number`, from the letter
/// with the code `low` up to `B`.
pub open spec fn term_row(number: int, low: int) -> Seq<Seq<char>> {
    Seq::new(
        if low <= 66 { (67 - low) as nat } else { 0 },
        |k: int| seq![digit_char(number), (low + k) as u8 as char],
    )
}

/// The names of the term directories for the numbers from `number` up to 4.
pub open spec fn term_rows(number: int, low: int) -> Seq<Seq<char>>
    decreases 5 - number,
{
    if number > 4 {
        Seq::empty()
    } else {
        term_row(number, low) + term_rows(number + 1, low)
    }
}

/// The names of the directories of the terms from `term` on: for each number
/// from that of `term` up to 4, each letter from that of `term` up to `B`. The
/// letter counts by its code modulo 256.
pub open spec fn term_directories_of(term: Seq<char>) -> Result<Seq<Seq<char>>, TermError> {
    if term.len() == 0 || digit_value(term[0]) is None {
        Err(TermError::InvalidTermNumber)
    } else if term.len() == 1 {
        Err(TermError::InvalidTermCharacter)
    } else {
        Ok(term_rows(digit_value(term[0]).unwrap(), (term[1] as u32 % 256) as int))
    }
}

/// The names of the directories of the terms from `current_term` on.
pub fn term_directories(current_term: &str) -> (r: Result<Vec<String>, TermError>)
    ensures
        match r {
            Ok(names) => term_directories_of(current_term@) == Ok::<Seq<Seq<char>>, TermError>(
                names.deep_view(),
            ),
            Err(e) => term_directories_of(current_term@) == Err::<Seq<Seq<char>>, TermError>(e),
        },
{
    let chars = chars_of(current_term);
    if chars.len() == 0 || !('0' <= chars[0] && chars[0] <= '9') {
        return Err(TermError::InvalidTermNumber);
    }
    if chars.len() == 1 {
        return Err(TermError::InvalidTermCharacter);
    }
    let first: u8 = (chars[0] as u32 - 48) as u8;
    let low: u32 = chars[1] as u32 % 256;
    let mut names: Vec<String> = Vec::new();
    let mut number: u8 = first;
    while number <= 4
        invariant
            first <= number,
            number <= 4 || number == first || number == 5,
            low < 256,
            names.deep_view() + term_rows(number as int, low as int) == term_rows(
                first as int,
                low as int,
            ),
        decreases 10 - number,
    {
        let ghost held = names.deep_view();
        let mut letter: u32 = low;
        while letter <= 66
            invariant
                number <= 4,
                low <= letter,
                letter <= 67 || letter == low,
                low < 256,
                names.deep_view() == held + term_row(number as int, low as int).take(
                    letter - low,
                ),
            decreases 300 - letter,
        {
            let mut name = String::new();
            name.push(digit(number));
            name.push(letter as u8 as char);
            let ghost before = names.deep_view();
            names.push(name);
            proof {
                assert(name@ =~= term_row(number as int, low as int)[letter - low]);
                assert(names.deep_view() =~= before.push(name@));
            }
            letter += 1;
        }
        proof {
            let row = term_row(number as int, low as int);
            assert(row.take(letter - low) =~= row);
            assert(held + (row + term_rows(number + 1, low as int)) =~= (held + row) + term_rows(
                number + 1,
                low as int,
            ));
        }
        number += 1;
    }
    Ok(names)
}

} // verus!
