//! The titles given to notes created without one: `NewNote` and four random digits.

use vstd::prelude::*;
use vstd::string::StringExecFns;

verus! {

/// The character of a decimal digit.
pub open spec fn digit_char(d: int) -> char {
    (d + 48) as char
}

/// A decimal digit character.
pub open spec fn is_ascii_digit(c: char) -> bool {
    48 <= c as u32 <= 57
}

/// The decimal text of a natural number, without leading zeros.
pub open spec fn spec_decimal(n: int) -> Seq<char>
    decreases n,
{
    if n < 10 {
        seq![digit_char(n)]
    } else {
        spec_decimal(n / 10).push(digit_char(n % 10))
    }
}

/// The title given to a note created without one.
pub open spec fn spec_note_name(digits: Seq<u8>) -> Seq<char> {
    "NewNote"@ + spec_decimal(digits[0] as int) + spec_decimal(digits[1] as int) + spec_decimal(
        digits[2] as int,
    ) + spec_decimal(digits[3] as int)
}

/// A generated note title: `NewNote` and four decimal digits.
pub open spec fn is_generated_note_name(s: Seq<char>) -> bool {
    &&& s.len() == 11
    &&& s.take(7) == "NewNote"@
    &&& forall|i: int| 7 <= i < 11 ==> is_ascii_digit(#[trigger] s[i])
}

/// A random digit from `rand::Rng::gen_range` over `0..=9` on `rand::thread_rng()`.
/// Claimed here, as rand documents it: the digit lies in the range.
#[verifier::external_body]
fn random_digit() -> (d: u8)
    ensures
        d <= 9,
{
    rand::Rng::gen_range(&mut rand::thread_rng(), 0..=9u8)
}

/// The text of one decimal digit.
fn digit_text(d: u8) -> (s: &'static str)
    requires
        d <= 9,
    ensures
        s@ == seq![digit_char(d as int)],
{
    match d {
        0 => {
            proof {
                reveal_strlit("0");
            }
            "0"
        },
        1 => {
            proof {
                reveal_strlit("1");
            }
            "1"
        },
        2 => {
            proof {
                reveal_strlit("2");
            }
            "2"
        },
        3 => {
            proof {
                reveal_strlit("3");
            }
            "3"
        },
        4 => {
            proof {
                reveal_strlit("4");
            }
            "4"
        },
        5 => {
            proof {
                reveal_strlit("5");
            }
            "5"
        },
        6 => {
            proof {
                reveal_strlit("6");
            }
            "6"
        },
        7 => {
            proof {
                reveal_strlit("7");
            }
            "7"
        },
        8 => {
            proof {
                reveal_strlit("8");
            }
            "8"
        },
        _ => {
            proof {
                reveal_strlit("9");
            }
            "9"
        },
    }
}

/// Appends the decimal text of a byte.
fn push_decimal(s: &mut String, n: u8)
    ensures
        final(s)@ == old(s)@ + spec_decimal(n as int),
{
    let ghost start = s@;
    if n >= 100 {
        s.append(digit_text(n / 100));
        s.append(digit_text((n / 10) % 10));
        s.append(digit_text(n % 10));
        proof {
            reveal_with_fuel(spec_decimal, 3);
            assert((n as int / 10) / 10 == n as int / 100);
            assert((n as int / 10) % 10 == (n / 10) % 10);
            assert(s@ =~= start + spec_decimal(n as int));
        }
    } else if n >= 10 {
        s.append(digit_text(n / 10));
        s.append(digit_text(n % 10));
        proof {
            reveal_with_fuel(spec_decimal, 2);
            assert(s@ =~= start + spec_decimal(n as int));
        }
    } else {
        s.append(digit_text(n));
    }
}

/// The title `NewNote` followed by the four numbers, written in decimal.
pub fn note_name_from_digits(digits: [u8; 4]) -> (r: String)
    ensures
        r@ == spec_note_name(digits@),
{
    let mut name = "NewNote".to_owned();
    push_decimal(&mut name, digits[0]);
    push_decimal(&mut name, digits[1]);
    push_decimal(&mut name, digits[2]);
    push_decimal(&mut name, digits[3]);
    name
}

/// A random title for a note: `NewNote` and four random decimal digits.
pub fn random_note_name() -> (r: String)
    ensures
        is_generated_note_name(r@),
{
    let digits: [u8; 4] = [random_digit(), random_digit(), random_digit(), random_digit()];
    let name = note_name_from_digits(digits);
    proof {
        reveal_strlit("NewNote");
        let d = digits@;
        assert(name@ =~= "NewNote"@ + seq![
            digit_char(d[0] as int),
            digit_char(d[1] as int),
            digit_char(d[2] as int),
            digit_char(d[3] as int),
        ]);
        assert(name@.take(7) =~= "NewNote"@);
    }
    name
}

} // verus!
