//! Classification of one line of user input for the interactive menu: the
//! line is trimmed of surrounding whitespace and then read as a quit signal,
//! a valid index, or one of the rejected forms, each with the exact reason.

use crate::fib::MAX_INDEX;
use vstd::prelude::*;

verus! {

/// Why a line could not be read as a number at all; the cases mirror the
/// ways an unsigned decimal parse can fail.
#[derive(Clone, Copy, Debug, PartialEq, Eq, Structural)]
pub enum ParseError {
    /// The trimmed line was empty.
    EmptyInput,
    /// A character that is not a decimal digit stood where digits belong.
    InvalidDigit,
    /// The digits spell a number too large for a `u128`.
    TooLarge,
}

/// Why a line was rejected.
#[derive(Clone, Copy, Debug, PartialEq, Eq, Structural)]
pub enum InputError {
    /// The line is a number, but outside the supported index range.
    OutOfRange,
    /// The line is neither a quit signal nor a number.
    Unparsable(ParseError),
}

/// What one line of input asks for.
#[derive(Clone, Copy, Debug, PartialEq, Eq, Structural)]
pub enum Selection {
    /// A valid index: evaluate the recurrence there.
    NumericChoice(u128),
    /// The quit signal: leave the menu loop.
    Quit,
    /// Anything else: report the reason and prompt again.
    Invalid(InputError),
}

/// The whitespace that trimming removes: the characters carrying Unicode's
/// white-space property, as surrounding-whitespace removal strips them.
pub open spec fn is_space(c: char) -> bool {
    let u: u32 = c as u32;
    u == 0x20 || u == 0x09 || u == 0x0A || u == 0x0B || u == 0x0C || u == 0x0D || u == 0x85
        || u == 0xA0 || u == 0x1680 || (0x2000 <= u && u <= 0x200A) || u == 0x2028 || u == 0x2029
        || u == 0x202F || u == 0x205F || u == 0x3000
}

/// A decimal digit.
pub open spec fn is_digit(c: char) -> bool {
    0x30 <= (c as u32) && (c as u32) <= 0x39
}

/// The value of one decimal digit.
pub open spec fn digit_val(c: char) -> nat {
    ((c as u32) - 0x30) as nat
}

/// The text with its leading whitespace removed.
pub open spec fn trim_front(s: Seq<char>) -> Seq<char>
    decreases s.len(),
{
    if s.len() > 0 && is_space(s[0]) {
        trim_front(s.subrange(1, s.len() as int))
    } else {
        s
    }
}

/// The text with its trailing whitespace removed.
pub open spec fn trim_back(s: Seq<char>) -> Seq<char>
    decreases s.len(),
{
    if s.len() > 0 && is_space(s[s.len() - 1]) {
        trim_back(s.subrange(0, s.len() - 1))
    } else {
        s
    }
}

/// The text with surrounding whitespace removed.
pub open spec fn trimmed(s: Seq<char>) -> Seq<char> {
    trim_back(trim_front(s))
}

/// The digits of a candidate number: an unsigned decimal may carry one
/// leading plus sign.
pub open spec fn digits_of(t: Seq<char>) -> Seq<char> {
    if t.len() > 0 && t[0] == '+' {
        t.subrange(1, t.len() as int)
    } else {
        t
    }
}

/// Whether the trimmed text spells an unsigned decimal number: at least one
/// digit after the optional sign, and nothing else.
pub open spec fn is_numeric(t: Seq<char>) -> bool {
    let d = digits_of(t);
    d.len() > 0 && (forall|i: int| 0 <= i < d.len() ==> is_digit(#[trigger] d[i]))
}

/// The number the digits spell, most significant first.
pub open spec fn digits_value(d: Seq<char>) -> nat
    decreases d.len(),
{
    if d.len() == 0 {
        0
    } else {
        digits_value(d.drop_last()) * 10 + digit_val(d.last())
    }
}

/// How one line of input is classified, after trimming: a number in range
/// is a choice; a number out of range, a number too large for a `u128`, an
/// empty line and any other text are each their own rejection; the exact
/// letter `q` quits.
pub open spec fn spec_classify(s: Seq<char>) -> Selection {
    let t = trimmed(s);
    if is_numeric(t) {
        let v = digits_value(digits_of(t));
        if v > u128::MAX {
            Selection::Invalid(InputError::Unparsable(ParseError::TooLarge))
        } else if v <= MAX_INDEX {
            Selection::NumericChoice(v as u128)
        } else {
            Selection::Invalid(InputError::OutOfRange)
        }
    } else if t.len() == 1 && t[0] == 'q' {
        Selection::Quit
    } else if t.len() == 0 {
        Selection::Invalid(InputError::Unparsable(ParseError::EmptyInput))
    } else {
        Selection::Invalid(InputError::Unparsable(ParseError::InvalidDigit))
    }
}

/// Whitespace test on one character.
fn is_space_char(c: char) -> (r: bool)
    ensures
        r == is_space(c),
{
    let u: u32 = c as u32;
    u == 0x20 || u == 0x09 || u == 0x0A || u == 0x0B || u == 0x0C || u == 0x0D || u == 0x85
        || u == 0xA0 || u == 0x1680 || (0x2000 <= u && u <= 0x200A) || u == 0x2028 || u == 0x2029
        || u == 0x202F || u == 0x205F || u == 0x3000
}

/// Digit test on one character.
fn is_digit_char(c: char) -> (r: bool)
    ensures
        r == is_digit(c),
{
    let u: u32 = c as u32;
    0x30 <= u && u <= 0x39
}

/// Classifies one line of input, as the menu loop reads it.
#[verifier::loop_isolation(false)]
pub fn classify(line: &str) -> (sel: Selection)
    ensures
        sel == spec_classify(line@),
{
    let n: usize = line.unicode_len();
    let ghost s = line@;
    proof {
        assert(s.subrange(0, n as int) =~= s);
    }

    // Strip the leading whitespace.
    let mut start: usize = 0;
    while start < n && is_space_char(line.get_char(start))
        invariant
            0 <= start <= n == s.len(),
            s == line@,
            trim_front(s) == trim_front(s.subrange(start as int, n as int)),
        decreases n - start,
    {
        proof {
            let sub = s.subrange(start as int, n as int);
            assert(sub.subrange(1, sub.len() as int) =~= s.subrange(start + 1, n as int));
        }
        start = start + 1;
    }
    proof {
        if start < n {
            assert(trim_front(s) == s.subrange(start as int, n as int));
        } else {
            assert(s.subrange(start as int, n as int) =~= Seq::<char>::empty());
            assert(trim_front(s) == s.subrange(start as int, n as int));
        }
    }

    // Strip the trailing whitespace.
    let mut end: usize = n;
    while end > start && is_space_char(line.get_char(end - 1))
        invariant
            0 <= start <= end <= n == s.len(),
            s == line@,
            trim_front(s) == s.subrange(start as int, n as int),
            trimmed(s) == trim_back(s.subrange(start as int, end as int)),
        decreases end,
    {
        proof {
            let sub = s.subrange(start as int, end as int);
            assert(sub.subrange(0, sub.len() - 1) =~= s.subrange(start as int, end - 1));
        }
        end = end - 1;
    }
    let ghost t = s.subrange(start as int, end as int);
    proof {
        if end > start {
            assert(trimmed(s) == t);
        } else {
            assert(t =~= Seq::<char>::empty());
            assert(trimmed(s) == t);
        }
    }

    // An empty trimmed line parses as nothing.
    if end == start {
        return Selection::Invalid(InputError::Unparsable(ParseError::EmptyInput));
    }

    // The quit signal is the single letter `q`; it is no number, so the
    // order of these tests does not matter.
    let c0 = line.get_char(start);
    if end - start == 1 && c0 == 'q' {
        proof {
            assert(digits_of(t) == t);
            assert(!is_digit(t[0]));
        }
        return Selection::Quit;
    }

    // One leading plus sign is part of a number.
    let mut ds: usize = start;
    if c0 == '+' {
        ds = start + 1;
        proof {
            assert(digits_of(t) =~= s.subrange(ds as int, end as int));
        }
    } else {
        proof {
            assert(digits_of(t) =~= s.subrange(ds as int, end as int));
        }
    }
    let ghost d = s.subrange(ds as int, end as int);

    // A sign with nothing after it is not a number.
    if ds == end {
        proof {
            assert(d.len() == 0);
            assert(!(t.len() == 1 && t[0] == 'q'));
        }
        return Selection::Invalid(InputError::Unparsable(ParseError::InvalidDigit));
    }

    // Read the digits, most significant first, watching for overflow.
    let mut i: usize = ds;
    let mut acc: u128 = 0;
    let mut over = false;
    while i < end
        invariant
            ds <= i <= end <= n == s.len(),
            s == line@,
            d == s.subrange(ds as int, end as int),
            forall|j: int| ds <= j < i ==> is_digit(#[trigger] s[j]),
            !over ==> acc == digits_value(s.subrange(ds as int, i as int)),
            over ==> digits_value(s.subrange(ds as int, i as int)) > u128::MAX,
        decreases end - i,
    {
        let c = line.get_char(i);
        if !is_digit_char(c) {
            proof {
                assert(d[i - ds] == s[i as int]);
                assert(!is_numeric(t));
                assert(!(t.len() == 1 && t[0] == 'q')) by {
                    if t.len() == 1 {
                        assert(t[0] == s[start as int]);
                    }
                }
            }
            return Selection::Invalid(InputError::Unparsable(ParseError::InvalidDigit));
        }
        let dv: u32 = (c as u32) - 0x30;
        proof {
            let pre = s.subrange(ds as int, i as int);
            let post = s.subrange(ds as int, i + 1);
            assert(post.drop_last() =~= pre);
            assert(post.last() == s[i as int]);
            assert(digits_value(post) == digits_value(pre) * 10 + digit_val(s[i as int]));
        }
        if over {
            proof {
                let pre = s.subrange(ds as int, i as int);
                assert(digits_value(pre) * 10 >= digits_value(pre)) by (nonlinear_arith)
                    requires
                        digits_value(pre) >= 0,
                ;
            }
        } else {
            match acc.checked_mul(10) {
                Some(m) => match m.checked_add(dv as u128) {
                    Some(v) => {
                        acc = v;
                    },
                    None => {
                        over = true;
                    },
                },
                None => {
                    over = true;
                    proof {
                        let pre = s.subrange(ds as int, i as int);
                        assert(digits_value(pre) * 10 + digit_val(s[i as int]) > u128::MAX);
                    }
                },
            }
        }
        i = i + 1;
    }

    proof {
        assert(d =~= s.subrange(ds as int, end as int));
        assert(forall|j: int| 0 <= j < d.len() ==> is_digit(#[trigger] d[j]));
        assert(is_numeric(t));
        assert(digits_value(digits_of(t)) == digits_value(s.subrange(ds as int, end as int)));
    }
    if over {
        return Selection::Invalid(InputError::Unparsable(ParseError::TooLarge));
    }
    if acc <= MAX_INDEX {
        Selection::NumericChoice(acc)
    } else {
        Selection::Invalid(InputError::OutOfRange)
    }
}

} // verus!
