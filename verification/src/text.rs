//! Decimal text encoding and parsing for the integer values that the task
//! store persists as text: task ids, day and month numbers, and years.

use vstd::prelude::*;
use vstd::string::StringExecFns;

verus! {

/// The decimal representation of `n`, without leading zeros.
pub open spec fn dec_rep(n: nat) -> Seq<char>
    decreases n,
{
    if n < 10 {
        seq![digit_char(n)]
    } else {
        dec_rep(n / 10).push(digit_char(n % 10))
    }
}

/// The character for a single decimal digit.
pub open spec fn digit_char(d: nat) -> char {
    if d == 0 {
        '0'
    } else if d == 1 {
        '1'
    } else if d == 2 {
        '2'
    } else if d == 3 {
        '3'
    } else if d == 4 {
        '4'
    } else if d == 5 {
        '5'
    } else if d == 6 {
        '6'
    } else if d == 7 {
        '7'
    } else if d == 8 {
        '8'
    } else {
        '9'
    }
}

/// A one-character string for a decimal digit.
fn digit_str(d: u64) -> (r: &'static str)
    requires
        d < 10,
    ensures
        r@ == seq![digit_char(d as nat)],
{
    proof {
        reveal_strlit("0");
        reveal_strlit("1");
        reveal_strlit("2");
        reveal_strlit("3");
        reveal_strlit("4");
        reveal_strlit("5");
        reveal_strlit("6");
        reveal_strlit("7");
        reveal_strlit("8");
        reveal_strlit("9");
    }
    if d == 0 {
        "0"
    } else if d == 1 {
        "1"
    } else if d == 2 {
        "2"
    } else if d == 3 {
        "3"
    } else if d == 4 {
        "4"
    } else if d == 5 {
        "5"
    } else if d == 6 {
        "6"
    } else if d == 7 {
        "7"
    } else if d == 8 {
        "8"
    } else {
        "9"
    }
}

/// Formats `n` as decimal text, matching `dec_rep`.
pub fn u64_to_string(n: u64) -> (s: String)
    ensures
        s@ == dec_rep(n as nat),
    decreases n,
{
    if n < 10 {
        String::from_str(digit_str(n))
    } else {
        let mut s = u64_to_string(n / 10);
        s.append(digit_str(n % 10));
        s
    }
}

/// Whether `c` is a decimal digit.
pub open spec fn is_digit(c: char) -> bool {
    48 <= c as int <= 57
}

/// The numeric value of a digit character.
pub open spec fn digit_val(c: char) -> nat {
    (c as int - 48) as nat
}

/// The value of a digit string, most significant digit first.
pub open spec fn digits_val(s: Seq<char>) -> nat
    decreases s.len(),
{
    if s.len() == 0 {
        0
    } else {
        digits_val(s.drop_last()) * 10 + digit_val(s.last())
    }
}

/// Whether every character of `s` is a decimal digit.
pub open spec fn all_digits(s: Seq<char>) -> bool {
    forall|i: int| 0 <= i < s.len() ==> is_digit(s[i])
}

pub open spec fn pow10(k: nat) -> nat
    decreases k,
{
    if k == 0 {
        1
    } else {
        10 * pow10((k - 1) as nat)
    }
}

pub proof fn lemma_digits_val_bound(s: Seq<char>)
    requires
        all_digits(s),
    ensures
        digits_val(s) < pow10(s.len()),
    decreases s.len(),
{
    if s.len() > 0 {
        assert(all_digits(s.drop_last()));
        lemma_digits_val_bound(s.drop_last());
        assert(digit_val(s.last()) <= 9);
    }
}

proof fn lemma_digit_char_val(d: nat)
    requires
        d < 10,
    ensures
        is_digit(digit_char(d)),
        digit_val(digit_char(d)) == d,
{
}

/// Every character of a decimal representation is a digit, and reading the
/// digits back gives the number.
pub proof fn lemma_dec_rep_val(n: nat)
    ensures
        all_digits(dec_rep(n)),
        digits_val(dec_rep(n)) == n,
        1 <= dec_rep(n).len(),
        n > 0 ==> digit_val(dec_rep(n)[0]) > 0,
    decreases n,
{
    if n < 10 {
        lemma_digit_char_val(n);
        assert(dec_rep(n) == seq![digit_char(n)]);
        assert(dec_rep(n).drop_last() =~= Seq::<char>::empty());
        assert(dec_rep(n).last() == digit_char(n));
        assert(digits_val(dec_rep(n)) == digits_val(Seq::<char>::empty()) * 10 + digit_val(
            digit_char(n),
        ));
        assert(digits_val(Seq::<char>::empty()) == 0);
    } else {
        lemma_dec_rep_val(n / 10);
        lemma_digit_char_val(n % 10);
        let s = dec_rep(n);
        assert(s.drop_last() =~= dec_rep(n / 10));
        assert(s.last() == digit_char(n % 10));
        assert(digits_val(s) == digits_val(s.drop_last()) * 10 + digit_val(s.last()));
        assert(n == (n / 10) * 10 + n % 10);
    }
}

/// The length of a decimal representation grows with the number.
pub proof fn lemma_dec_rep_len(n: nat, k: nat)
    requires
        n < pow10(k),
        k >= 1,
    ensures
        dec_rep(n).len() <= k,
    decreases n,
{
    if n >= 10 {
        assert(pow10(k) == 10 * pow10((k - 1) as nat));
        lemma_dec_rep_len(n / 10, (k - 1) as nat);
    }
}

/// Compares two string slices character by character.
pub fn str_eq(a: &str, b: &str) -> (r: bool)
    ensures
        r == (a@ == b@),
{
    let an = a.unicode_len();
    let bn = b.unicode_len();
    if an != bn {
        assert(a@ != b@);
        return false;
    }
    let mut i: usize = 0;
    while i < an
        invariant
            i <= an,
            an == a@.len(),
            an == b@.len(),
            forall|k: int| 0 <= k < i ==> a@[k] == b@[k],
        decreases an - i,
    {
        if a.get_char(i) != b.get_char(i) {
            assert(a@ != b@);
            return false;
        }
        i += 1;
    }
    assert(a@ =~= b@);
    true
}

/// Parses `s[from..to]` as decimal digits; yields the value, or nothing if a
/// non-digit occurs in the range.
pub fn parse_digits(s: &str, from: usize, to: usize) -> (r: Option<u32>)
    requires
        from <= to <= s@.len(),
        to - from <= 8,
    ensures
        match r {
            Some(v) => all_digits(s@.subrange(from as int, to as int)) && v == digits_val(
                s@.subrange(from as int, to as int),
            ),
            None => !all_digits(s@.subrange(from as int, to as int)),
        },
{
    let mut acc: u32 = 0;
    let mut i: usize = from;
    while i < to
        invariant
            from <= i <= to <= s@.len(),
            to - from <= 8,
            all_digits(s@.subrange(from as int, i as int)),
            acc == digits_val(s@.subrange(from as int, i as int)),
            acc < pow10((i - from) as nat),
        decreases to - i,
    {
        let c = s.get_char(i);
        let cv = c as u32;
        if cv < 48 || cv > 57 {
            assert(!is_digit(s@[i as int]));
            assert(s@.subrange(from as int, to as int)[i - from] == s@[i as int]);
            return None;
        }
        proof {
            let sub = s@.subrange(from as int, i as int);
            let c = s@[i as int];
            assert(s@.subrange(from as int, i + 1) =~= sub.push(c));
            assert(sub.push(c).drop_last() =~= sub);
            assert(sub.push(c).last() == c);
            assert(digits_val(sub.push(c)) == digits_val(sub) * 10 + digit_val(c));
            assert(pow10(((i + 1) - from) as nat) == 10 * pow10((i - from) as nat));
            assert(pow10(7) == 10000000) by {
                reveal_with_fuel(pow10, 9);
            }
            assert(pow10((i - from) as nat) <= pow10(7)) by {
                lemma_pow10_increases((i - from) as nat, 7);
            }
        }
        acc = acc * 10 + (cv - 48);
        i += 1;
    }
    Some(acc)
}

pub proof fn lemma_pow10_pos(k: nat)
    ensures
        pow10(k) >= 1,
    decreases k,
{
    if k > 0 {
        lemma_pow10_pos((k - 1) as nat);
    }
}

/// Splitting a digit string splits its value: the prefix is scaled by a
/// power of ten and the suffix added.
pub proof fn lemma_digits_val_append(p: Seq<char>, q: Seq<char>)
    ensures
        digits_val(p + q) == digits_val(p) * pow10(q.len()) + digits_val(q),
    decreases q.len(),
{
    if q.len() == 0 {
        assert(p + q =~= p);
        assert(pow10(0) == 1);
        assert(digits_val(q) == 0);
        assert(digits_val(p) * 1 == digits_val(p)) by (nonlinear_arith);
    } else {
        lemma_digits_val_append(p, q.drop_last());
        assert((p + q).drop_last() =~= p + q.drop_last());
        assert((p + q).last() == q.last());
        let l1 = (q.len() - 1) as nat;
        let x = digits_val(p);
        let y = pow10(l1);
        let z = digits_val(q.drop_last());
        let w = digit_val(q.last());
        assert(pow10(q.len()) == 10 * y);
        assert(digits_val(p + q) == digits_val(p + q.drop_last()) * 10 + w);
        assert(digits_val(p + q.drop_last()) == x * y + z);
        assert((x * y + z) * 10 == x * y * 10 + z * 10) by (nonlinear_arith);
        assert(x * y * 10 == x * (10 * y)) by (nonlinear_arith);
        assert(digits_val(q) == z * 10 + w);
        assert(digits_val(p + q) == x * y * 10 + z * 10 + w);
        assert(x * pow10(q.len()) == x * (10 * y));
        assert(digits_val(p + q) == x * pow10(q.len()) + digits_val(q));
    }
}

/// Whether `s` is a parseable decimal id text: digits only, and a value
/// that fits the id type.
pub open spec fn id_text_ok(s: Seq<char>) -> bool {
    &&& all_digits(s)
    &&& 1 <= s.len()
    &&& digits_val(s) <= u64::MAX
}

/// Parses decimal text to an id; leading zeros are accepted, anything that
/// is not all digits or does not fit is not.
pub fn parse_u64(s: &str) -> (r: Option<u64>)
    ensures
        match r {
            Some(v) => id_text_ok(s@) && v == digits_val(s@),
            None => !id_text_ok(s@),
        },
{
    let n = s.unicode_len();
    if n == 0 {
        return None;
    }
    let mut acc: u64 = 0;
    let mut i: usize = 0;
    while i < n
        invariant
            0 <= i <= n,
            n == s@.len(),
            all_digits(s@.subrange(0, i as int)),
            acc == digits_val(s@.subrange(0, i as int)),
        decreases n - i,
    {
        let c = s.get_char(i);
        let cv = c as u32;
        if cv < 48 || cv > 57 {
            assert(!is_digit(s@[i as int]));
            return None;
        }
        let d = (cv - 48) as u64;
        proof {
            let pre = s@.subrange(0, i as int);
            let pre1 = s@.subrange(0, i + 1);
            let ch = s@[i as int];
            assert(pre1 =~= pre.push(ch));
            assert(pre1.drop_last() =~= pre);
            assert(pre1.last() == ch);
            assert(digits_val(pre1) == digits_val(pre) * 10 + digit_val(ch));
        }
        if acc > (u64::MAX - d) / 10 {
            proof {
                let pre1 = s@.subrange(0, i + 1);
                let rest = s@.subrange(i + 1, n as int);
                assert(s@ =~= pre1 + rest);
                lemma_digits_val_append(pre1, rest);
                lemma_pow10_pos(rest.len());
                assert(digits_val(pre1) * pow10(rest.len()) >= digits_val(pre1) * 1)
                    by (nonlinear_arith)
                    requires
                        pow10(rest.len()) >= 1,
                        digits_val(pre1) >= 0,
                ;
                assert(digits_val(pre1) > u64::MAX);
            }
            return None;
        }
        acc = acc * 10 + d;
        i += 1;
    }
    proof {
        assert(s@.subrange(0, n as int) =~= s@);
    }
    Some(acc)
}

proof fn lemma_pow10_increases(j: nat, k: nat)
    requires
        j <= k,
    ensures
        pow10(j) <= pow10(k),
    decreases k,
{
    if j < k {
        lemma_pow10_increases(j, (k - 1) as nat);
    }
}

} // verus!
