//! Checking the score that a user gives an answer.
use vstd::prelude::*;
use vstd::string::StringExecFns;
use crate::text::push_char;

verus! {

/// The character of a decimal digit.
pub open spec fn digit(d: nat) -> char {
    (('0' as nat) + d) as char
}

/// The decimal writing of `n`, without leading zeros.
pub open spec fn decimal(n: nat) -> Seq<char>
    decreases n,
{
    if n < 10 {
        seq![digit(n)]
    } else {
        decimal(n / 10).push(digit(n % 10))
    }
}

/// The message that refuses a score out of range.
pub open spec fn invalid_score_message(score: u8) -> Seq<char> {
    "Invalid score: "@ + decimal(score as nat) + ". Must be 0, 1, or 2."@
}

fn digit_char(d: u8) -> (c: char)
    requires
        d < 10,
    ensures
        c == digit(d as nat),
{
    (0x30u8 + d) as char
}

/// The decimal writing of a byte.
pub fn decimal_string(n: u8) -> (s: String)
    ensures
        s@ == decimal(n as nat),
{
    let mut s = String::new();
    if n >= 100 {
        push_char(&mut s, digit_char(n / 100));
        push_char(&mut s, digit_char((n / 10) % 10));
        push_char(&mut s, digit_char(n % 10));
        proof {
            reveal_with_fuel(decimal, 3);
            assert((n as nat / 10) / 10 == n / 100);
            assert(n as nat / 10 >= 10);
            assert(s@ =~= decimal(n as nat));
        }
    } else if n >= 10 {
        push_char(&mut s, digit_char(n / 10));
        push_char(&mut s, digit_char(n % 10));
        proof {
            reveal_with_fuel(decimal, 2);
            assert(s@ =~= decimal(n as nat));
        }
    } else {
        push_char(&mut s, digit_char(n));
        assert(s@ =~= decimal(n as nat));
    }
    s
}

/// The check of `submit_card_answer`: a score is 0, 1 or 2; any other is
/// refused with a message that names it.
pub fn check_score(score: u8) -> (res: Result<u8, String>)
    ensures
        match res {
            Ok(s) => score <= 2 && s == score,
            Err(m) => score > 2 && m@ == invalid_score_message(score),
        },
{
    if score > 2 {
        let mut msg = String::from_str("Invalid score: ");
        let digits = decimal_string(score);
        msg.append(digits.as_str());
        msg.append(". Must be 0, 1, or 2.");
        Err(msg)
    } else {
        Ok(score)
    }
}


/// The number that a string of decimal digits stands for.
pub open spec fn digits_value(s: Seq<char>) -> int
    decreases s.len(),
{
    if s.len() == 0 {
        0
    } else {
        10 * digits_value(s.drop_last()) + (s.last() as int - '0' as int)
    }
}

/// The decimal writing of `n` is made of digits only, has no leading zero,
/// and reads back as `n`.
pub proof fn lemma_decimal_reads_back(n: nat)
    ensures
        digits_value(decimal(n)) == n,
        forall|i: int| 0 <= i < decimal(n).len() ==> '0' <= #[trigger] decimal(n)[i] <= '9',
        decimal(n).len() >= 1,
        n >= 10 ==> decimal(n)[0] != '0',
    decreases n,
{
    assert(digit(n % 10) as int == '0' as int + n % 10);
    if n < 10 {
        assert(decimal(n).drop_last() =~= Seq::<char>::empty());
        assert(n % 10 == n);
        assert(decimal(n).last() == digit(n));
        assert(digits_value(decimal(n)) == 10 * digits_value(decimal(n).drop_last()) + (
        decimal(n).last() as int - '0' as int));
    }
    if n >= 10 {
        lemma_decimal_reads_back(n / 10);
        let d = decimal(n);
        assert(d.drop_last() =~= decimal(n / 10));
        assert(d.last() == digit(n % 10));
        assert(digits_value(d) == 10 * digits_value(d.drop_last()) + (d.last() as int - '0' as int));
        assert(10 * (n / 10) + n % 10 == n);
        assert forall|i: int| 0 <= i < d.len() implies '0' <= #[trigger] d[i] <= '9' by {
            if i < d.len() - 1 {
                assert(d[i] == decimal(n / 10)[i]);
            }
        }
        assert(d[0] == decimal(n / 10)[0]);
        if n / 10 < 10 {
            assert(n / 10 >= 1);
        }
    }
}

} // verus!
