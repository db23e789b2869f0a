//! Parsing of the two kinds of input line the menu takes: a menu choice and
//! a task id. A task id is a decimal integer with an optional sign, exactly
//! the strings whose signed value fits a 64-bit id; anything else is
//! rejected before the store is touched.

use vstd::prelude::*;

verus! {

/// One menu command, or the rejection of an unrecognised choice.
#[derive(Clone, Copy, PartialEq, Eq, Structural, Debug)]
pub enum MenuChoice {
    ListTasks,
    AddTask,
    CompleteTask,
    DeleteTask,
    ExitApp,
    InvalidChoice,
}

/// Which command a trimmed input line selects: the single digits 1 to 5,
/// in menu order; everything else is invalid.
pub open spec fn choice_of(s: Seq<char>) -> MenuChoice {
    if s.len() != 1 {
        MenuChoice::InvalidChoice
    } else if s[0] == '1' {
        MenuChoice::ListTasks
    } else if s[0] == '2' {
        MenuChoice::AddTask
    } else if s[0] == '3' {
        MenuChoice::CompleteTask
    } else if s[0] == '4' {
        MenuChoice::DeleteTask
    } else if s[0] == '5' {
        MenuChoice::ExitApp
    } else {
        MenuChoice::InvalidChoice
    }
}

/// Reads a trimmed input line as a menu choice.
pub fn parse_choice(s: &str) -> (c: MenuChoice)
    ensures
        c == choice_of(s@),
{
    let n = s.unicode_len();
    if n != 1 {
        return MenuChoice::InvalidChoice;
    }
    let c0 = s.get_char(0);
    if c0 == '1' {
        MenuChoice::ListTasks
    } else if c0 == '2' {
        MenuChoice::AddTask
    } else if c0 == '3' {
        MenuChoice::CompleteTask
    } else if c0 == '4' {
        MenuChoice::DeleteTask
    } else if c0 == '5' {
        MenuChoice::ExitApp
    } else {
        MenuChoice::InvalidChoice
    }
}

/// A decimal digit.
pub open spec fn is_dec_digit(c: char) -> bool {
    '0' as int <= c as int <= '9' as int
}

/// The value of one decimal digit.
pub open spec fn digit_val(c: char) -> int {
    c as int - '0' as int
}

/// Every character of the sequence is a decimal digit.
pub open spec fn all_dec_digits(s: Seq<char>) -> bool {
    forall|i: int| 0 <= i < s.len() ==> is_dec_digit(#[trigger] s[i])
}

/// The value of a sequence of decimal digits, most significant first.
pub open spec fn dec_value(s: Seq<char>) -> int
    decreases s.len(),
{
    if s.len() == 0 {
        0
    } else {
        10 * dec_value(s.drop_last()) + digit_val(s.last())
    }
}

/// Which id an input line denotes: an optional sign, then at least one
/// decimal digit and nothing else, with a signed value that fits a 64-bit
/// id. Every other line denotes none.
pub open spec fn parsed_id(s: Seq<char>) -> Option<int> {
    let signed = s.len() > 0 && (s[0] == '-' || s[0] == '+');
    let negative = s.len() > 0 && s[0] == '-';
    let digits = if signed {
        s.subrange(1, s.len() as int)
    } else {
        s
    };
    if digits.len() > 0 && all_dec_digits(digits) {
        let v = if negative {
            -dec_value(digits)
        } else {
            dec_value(digits)
        };
        if i64::MIN <= v <= i64::MAX {
            Some(v)
        } else {
            None
        }
    } else {
        None
    }
}

/// The value of a digit sequence is never negative.
proof fn lemma_dec_value_nonneg(s: Seq<char>)
    requires
        all_dec_digits(s),
    ensures
        dec_value(s) >= 0,
    decreases s.len(),
{
    if s.len() > 0 {
        lemma_dec_value_nonneg(s.drop_last());
    }
}

/// Extending a digit sequence never shrinks its value.
proof fn lemma_dec_value_prefix_le(s: Seq<char>, k: int)
    requires
        all_dec_digits(s),
        0 <= k <= s.len(),
    ensures
        dec_value(s.subrange(0, k)) <= dec_value(s),
    decreases s.len() - k,
{
    if k < s.len() {
        let shorter = s.drop_last();
        assert(s.subrange(0, k) =~= shorter.subrange(0, k));
        lemma_dec_value_prefix_le(shorter, k);
        lemma_dec_value_nonneg(shorter);
    } else {
        assert(s.subrange(0, k) =~= s);
    }
}

/// Reads a trimmed input line as a task id, or rejects it: `Some` exactly
/// on the lines that denote an id, with that id.
pub fn parse_id(s: &str) -> (r: Option<i64>)
    ensures
        match r {
            Some(v) => parsed_id(s@) == Some(v as int),
            None => parsed_id(s@) is None,
        },
{
    let n = s.unicode_len();
    let mut start: usize = 0;
    let mut negative = false;
    if n > 0 {
        let c0 = s.get_char(0);
        if c0 == '-' {
            negative = true;
            start = 1;
        } else if c0 == '+' {
            start = 1;
        }
    }
    if start >= n {
        return None;
    }
    let ghost digits = s@.subrange(start as int, n as int);
    proof {
        if start == 0 {
            assert(digits =~= s@);
        }
    }
    let limit: u64 = if negative {
        9223372036854775808
    } else {
        9223372036854775807
    };
    let mut acc: u64 = 0;
    let mut i: usize = start;
    while i < n
        invariant
            start <= i <= n,
            n == s@.len(),
            start == 1 <==> (s@.len() > 0 && (s@[0] == '-' || s@[0] == '+')),
            start <= 1,
            negative <==> (s@.len() > 0 && s@[0] == '-'),
            limit == (if negative {
                9223372036854775808u64
            } else {
                9223372036854775807u64
            }),
            digits == s@.subrange(start as int, n as int),
            start == 0 ==> digits == s@,
            all_dec_digits(s@.subrange(start as int, i as int)),
            acc == dec_value(s@.subrange(start as int, i as int)),
            acc <= limit,
        decreases n - i,
    {
        let c = s.get_char(i);
        let cv = c as u32;
        if cv < 48 || cv > 57 {
            proof {
                assert(digits[i - start] == s@[i as int]);
                assert(!is_dec_digit(digits[i - start]));
            }
            return None;
        }
        let d = (cv - 48) as u64;
        let ghost prefix = s@.subrange(start as int, i as int);
        let ghost extended = s@.subrange(start as int, i + 1int);
        proof {
            assert(extended.drop_last() =~= prefix);
            assert(extended.last() == s@[i as int]);
            assert(dec_value(extended) == 10 * acc + d);
        }
        if acc > (limit - d) / 10 {
            proof {
                assert(10 * acc + d > limit) by (nonlinear_arith)
                    requires
                        acc > (limit - d) / 10,
                        d <= limit,
                        acc >= 0,
                {
                }
                if all_dec_digits(digits) {
                    assert(extended =~= digits.subrange(0, i + 1 - start));
                    lemma_dec_value_prefix_le(digits, i + 1 - start);
                    assert(dec_value(digits) > limit);
                }
            }
            return None;
        }
        proof {
            assert(10 * acc + d <= limit) by (nonlinear_arith)
                requires
                    acc <= (limit - d) / 10,
                    d <= limit,
                    acc >= 0,
            {
            }
        }
        acc = acc * 10 + d;
        proof {
            assert(all_dec_digits(extended)) by {
                assert(forall|j: int| 0 <= j < prefix.len() ==> extended[j] == prefix[j]);
                assert(is_dec_digit(extended.last()));
            }
        }
        i = i + 1;
    }
    proof {
        assert(s@.subrange(start as int, i as int) =~= digits);
        lemma_dec_value_nonneg(digits);
    }
    if negative {
        if acc == 9223372036854775808u64 {
            Some(i64::MIN)
        } else {
            Some(-(acc as i64))
        }
    } else {
        Some(acc as i64)
    }
}

} // verus!

