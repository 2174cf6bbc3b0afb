use vstd::prelude::*;
use vstd::string::*;

use crate::keys::is_tap_key;

verus! {

/// The decimal digit `d` as a character.
pub open spec fn digit_char(d: nat) -> char {
    seq!['0', '1', '2', '3', '4', '5', '6', '7', '8', '9'][d as int]
}

/// The decimal notation of `n`, without sign or leading zeros.
pub open spec fn spec_decimal(n: nat) -> Seq<char>
    decreases n,
{
    if n < 10 {
        seq![digit_char(n)]
    } else {
        spec_decimal(n / 10).push(digit_char(n % 10))
    }
}

fn digit_str(d: u64) -> (s: &'static str)
    requires
        d < 10,
    ensures
        s@ == seq![digit_char(d as nat)],
{
    proof {
        reveal_strlit("0");
        reveal_strlit("1");
        reveal_strlit("2");
        reveal_strlit("3");
        reveal_strlit("4");
        reveal_strlit("5");
        reveal_strlit("6");
        reveal_strlit("7");
        reveal_strlit("8");
        reveal_strlit("9");
    }
    if d == 0 {
        "0"
    } else if d == 1 {
        "1"
    } else if d == 2 {
        "2"
    } else if d == 3 {
        "3"
    } else if d == 4 {
        "4"
    } else if d == 5 {
        "5"
    } else if d == 6 {
        "6"
    } else if d == 7 {
        "7"
    } else if d == 8 {
        "8"
    } else {
        "9"
    }
}

/// Writes `n` in decimal, as `{}` formats an unsigned integer.
pub fn decimal(n: u64) -> (s: String)
    ensures
        s@ == spec_decimal(n as nat),
    decreases n,
{
    if n < 10 {
        String::from_str(digit_str(n))
    } else {
        let mut s = decimal(n / 10);
        s.append(digit_str(n % 10));
        s
    }
}

/// A key as `{:?}` shows it: between single quotes, Enter escaped as `\n`.
pub open spec fn spec_key_debug(ch: char) -> Seq<char> {
    if ch == '\n' {
        seq!['\'', '\\', 'n', '\'']
    } else {
        seq!['\'', ch, '\'']
    }
}

/// Shows a tappable key as `{:?}` does.
pub fn key_debug(ch: char) -> (s: &'static str)
    requires
        is_tap_key(ch),
    ensures
        s@ == spec_key_debug(ch),
{
    proof {
        reveal_strlit("'W'");
        reveal_strlit("'A'");
        reveal_strlit("'S'");
        reveal_strlit("'D'");
        reveal_strlit("'\\n'");
    }
    if ch == 'W' {
        "'W'"
    } else if ch == 'A' {
        "'A'"
    } else if ch == 'S' {
        "'S'"
    } else if ch == 'D' {
        "'D'"
    } else {
        "'\\n'"
    }
}

/// The number a string of decimal digits denotes.
pub open spec fn digits_value(s: Seq<char>) -> int
    decreases s.len(),
{
    if s.len() == 0 {
        0
    } else {
        digits_value(s.drop_last()) * 10 + (s.last() as int - '0' as int)
    }
}

proof fn lemma_digit_char(d: nat)
    requires
        d < 10,
    ensures
        digit_char(d) as int == '0' as int + d,
{
    let ds = seq!['0', '1', '2', '3', '4', '5', '6', '7', '8', '9'];
    assert(ds[d as int] == digit_char(d));
    if d == 0 {
    } else if d == 1 {
    } else if d == 2 {
    } else if d == 3 {
    } else if d == 4 {
    } else if d == 5 {
    } else if d == 6 {
    } else if d == 7 {
    } else if d == 8 {
    } else {
    }
}

/// Writing a number in decimal loses nothing: the digits read back as the
/// number, every character is a digit, and only zero starts with a zero.
pub proof fn lemma_decimal_reads_back(n: nat)
    ensures
        digits_value(spec_decimal(n)) == n,
        spec_decimal(n).len() > 0,
        forall|i: int|
            0 <= i < spec_decimal(n).len() ==> '0' <= #[trigger] spec_decimal(n)[i] <= '9',
        n >= 10 ==> spec_decimal(n)[0] != '0',
    decreases n,
{
    lemma_digit_char(n % 10);
    if n >= 10 {
        lemma_decimal_reads_back(n / 10);
        let s = spec_decimal(n);
        assert(s.drop_last() =~= spec_decimal(n / 10));
        assert(s.last() == digit_char(n % 10));
        assert(n == (n / 10) * 10 + n % 10);
        assert(digits_value(s) == digits_value(s.drop_last()) * 10 + (s.last() as int - '0' as int));
        assert forall|i: int| 0 <= i < s.len() implies '0' <= #[trigger] s[i] <= '9' by {
            if i < s.len() - 1 {
                assert(s[i] == spec_decimal(n / 10)[i]);
            }
        }
        if n / 10 >= 10 {
            assert(s[0] == spec_decimal(n / 10)[0]);
        } else {
            lemma_digit_char(n / 10);
            assert(s[0] == spec_decimal(n / 10)[0]);
        }
    } else {
        let s = spec_decimal(n);
        assert(s.drop_last() =~= Seq::<char>::empty());
        assert(digits_value(s.drop_last()) == 0);
        assert(s.last() == digit_char(n));
        assert(digits_value(s) == digits_value(s.drop_last()) * 10 + (s.last() as int - '0' as int));
    }
}

/// A key is shown between single quotes; Enter is shown as a backslash and
/// an n.
pub proof fn lemma_key_debug_forms()
    ensures
        spec_key_debug('W') == seq!['\'', 'W', '\''],
        spec_key_debug('A') == seq!['\'', 'A', '\''],
        spec_key_debug('S') == seq!['\'', 'S', '\''],
        spec_key_debug('D') == seq!['\'', 'D', '\''],
        spec_key_debug('\n') == seq!['\'', '\\', 'n', '\''],
{
}

} // verus!
