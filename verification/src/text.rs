//! Plain text helpers: the mailbox alias derived from an address, and the
//! decimal rendering of the cache-busting timestamp.

use vstd::prelude::*;
use vstd::string::*;
use vstd::arithmetic::div_mod::lemma_fundamental_div_mod;

verus! {

/// Index of the first `'@'` in `s`, or `s.len()` when there is none.
pub open spec fn first_at_or_len(s: Seq<char>) -> int
    decreases s.len(),
{
    if s.len() == 0 {
        0
    } else if s[0] == '@' {
        0
    } else {
        1 + first_at_or_len(s.drop_first())
    }
}

/// The mailbox alias of an address: everything before the first `'@'`, or
/// the whole string when there is no `'@'`.
pub open spec fn alias_of(s: Seq<char>) -> Seq<char> {
    s.take(first_at_or_len(s))
}

/// `first_at_or_len` marks the first `'@'`: nothing before it is an `'@'`,
/// and it points at an `'@'` unless it is the whole length.
pub proof fn lemma_first_at_or_len(s: Seq<char>)
    ensures
        0 <= first_at_or_len(s) <= s.len(),
        forall|j: int| 0 <= j < first_at_or_len(s) ==> s[j] != '@',
        first_at_or_len(s) < s.len() ==> s[first_at_or_len(s)] == '@',
    decreases s.len(),
{
    if s.len() == 0 {
    } else if s[0] == '@' {
    } else {
        lemma_first_at_or_len(s.drop_first());
        assert forall|j: int| 0 <= j < first_at_or_len(s) implies s[j] != '@' by {
            if j > 0 {
                assert(s.drop_first()[j - 1] == s[j]);
            }
        }
        if first_at_or_len(s) < s.len() {
            assert(s.drop_first()[first_at_or_len(s) - 1] == s[first_at_or_len(s)]);
        }
    }
}

proof fn lemma_first_at_position(s: Seq<char>, i: int)
    requires
        0 <= i <= s.len(),
        forall|j: int| 0 <= j < i ==> s[j] != '@',
        i < s.len() ==> s[i] == '@',
    ensures
        first_at_or_len(s) == i,
    decreases s.len(),
{
    if s.len() == 0 {
    } else if s[0] == '@' {
        if i > 0 {
            assert(s[0] != '@');
        }
    } else {
        assert(i >= 1);
        assert forall|j: int| 0 <= j < i - 1 implies s.drop_first()[j] != '@' by {
            assert(s.drop_first()[j] == s[j + 1]);
        }
        if i - 1 < s.len() - 1 {
            assert(s.drop_first()[i - 1] == s[i]);
        }
        lemma_first_at_position(s.drop_first(), i - 1);
    }
}

/// Everything of `email` before its first `'@'`; the whole string when it
/// holds no `'@'`.
pub fn extract_alias(email: &str) -> (r: String)
    ensures
        r@ == alias_of(email@),
{
    let len = email.unicode_len();
    let mut i: usize = 0;
    loop
        invariant
            i <= len,
            len == email@.len(),
            forall|j: int| 0 <= j < i ==> email@[j] != '@',
        ensures
            i <= len,
            forall|j: int| 0 <= j < i ==> email@[j] != '@',
            i < len ==> email@[i as int] == '@',
        decreases len - i,
    {
        if i == len {
            break;
        }
        if email.get_char(i) == '@' {
            break;
        }
        i = i + 1;
    }
    proof {
        lemma_first_at_position(email@, i as int);
        assert(email@.subrange(0, i as int) =~= alias_of(email@));
    }
    email.substring_char(0, i).to_owned()
}

/// The digit character of `d`, for `d < 10`.
pub open spec fn digit_char(d: nat) -> char {
    if d == 0 {
        '0'
    } else if d == 1 {
        '1'
    } else if d == 2 {
        '2'
    } else if d == 3 {
        '3'
    } else if d == 4 {
        '4'
    } else if d == 5 {
        '5'
    } else if d == 6 {
        '6'
    } else if d == 7 {
        '7'
    } else if d == 8 {
        '8'
    } else {
        '9'
    }
}

/// The value of a decimal digit character.
pub open spec fn digit_val(c: char) -> nat {
    if c == '0' {
        0
    } else if c == '1' {
        1
    } else if c == '2' {
        2
    } else if c == '3' {
        3
    } else if c == '4' {
        4
    } else if c == '5' {
        5
    } else if c == '6' {
        6
    } else if c == '7' {
        7
    } else if c == '8' {
        8
    } else {
        9
    }
}

/// The decimal numeral of `n`, most significant digit first, with no sign
/// and no leading zero (the numeral of zero is `"0"`).
pub open spec fn dec_seq(n: nat) -> Seq<char>
    decreases n,
{
    if n < 10 {
        seq![digit_char(n)]
    } else {
        dec_seq(n / 10) + seq![digit_char(n % 10)]
    }
}

spec fn dec_val(s: Seq<char>) -> nat
    decreases s.len(),
{
    if s.len() == 0 {
        0
    } else {
        dec_val(s.drop_last()) * 10 + digit_val(s.last())
    }
}

proof fn lemma_dec_val_of_dec_seq(n: nat)
    ensures
        dec_val(dec_seq(n)) == n,
    decreases n,
{
    if n < 10 {
        assert(dec_seq(n).drop_last() =~= Seq::<char>::empty());
        assert(dec_val(Seq::<char>::empty()) == 0);
        assert(dec_seq(n).last() == digit_char(n));
        assert(dec_val(dec_seq(n)) == digit_val(digit_char(n)));
        assert(digit_val(digit_char(n)) == n);
    } else {
        lemma_dec_val_of_dec_seq(n / 10);
        assert(dec_seq(n).drop_last() =~= dec_seq(n / 10));
        assert(dec_seq(n).last() == digit_char(n % 10));
        assert(dec_val(dec_seq(n)) == dec_val(dec_seq(n / 10)) * 10 + digit_val(digit_char(n % 10)));
        assert(digit_val(digit_char(n % 10)) == n % 10);
        lemma_fundamental_div_mod(n as int, 10);
    }
}

/// Distinct numbers have distinct decimal numerals, so two timestamps that
/// differ render as different query values.
pub proof fn lemma_dec_seq_injective(a: nat, b: nat)
    requires
        dec_seq(a) == dec_seq(b),
    ensures
        a == b,
{
    lemma_dec_val_of_dec_seq(a);
    lemma_dec_val_of_dec_seq(b);
}

fn digit_str(d: u64) -> (r: &'static str)
    requires
        d < 10,
    ensures
        r@.len() == 1,
        r@[0] == digit_char(d as nat),
{
    proof {
        reveal_strlit("0");
        reveal_strlit("1");
        reveal_strlit("2");
        reveal_strlit("3");
        reveal_strlit("4");
        reveal_strlit("5");
        reveal_strlit("6");
        reveal_strlit("7");
        reveal_strlit("8");
        reveal_strlit("9");
    }
    if d == 0 {
        "0"
    } else if d == 1 {
        "1"
    } else if d == 2 {
        "2"
    } else if d == 3 {
        "3"
    } else if d == 4 {
        "4"
    } else if d == 5 {
        "5"
    } else if d == 6 {
        "6"
    } else if d == 7 {
        "7"
    } else if d == 8 {
        "8"
    } else {
        "9"
    }
}

fn push_dec(n: u64, out: &mut String)
    ensures
        final(out)@ == old(out)@ + dec_seq(n as nat),
    decreases n,
{
    if n < 10 {
        let d = digit_str(n);
        out.append(d);
        proof {
            assert(out@ =~= old(out)@ + dec_seq(n as nat));
        }
    } else {
        push_dec(n / 10, out);
        let d = digit_str(n % 10);
        out.append(d);
        proof {
            assert(out@ =~= old(out)@ + dec_seq(n as nat));
        }
    }
}

/// The decimal numeral of `n` as a string.
pub fn u64_to_dec(n: u64) -> (r: String)
    ensures
        r@ == dec_seq(n as nat),
{
    let mut out = String::new();
    push_dec(n, &mut out);
    proof {
        assert(out@ =~= dec_seq(n as nat));
    }
    out
}

} // verus!
