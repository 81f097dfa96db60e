//! Text in decimal, suffix trimming, and the other string work that the service does.
use vstd::prelude::*;
use vstd::string::StrSliceExecFns;
use vstd::string::StringExecFns;

verus! {

/// The character that stands for the decimal digit `d`.
pub open spec fn digit(d: nat) -> char {
    if d == 0 {
        '0'
    } else if d == 1 {
        '1'
    } else if d == 2 {
        '2'
    } else if d == 3 {
        '3'
    } else if d == 4 {
        '4'
    } else if d == 5 {
        '5'
    } else if d == 6 {
        '6'
    } else if d == 7 {
        '7'
    } else if d == 8 {
        '8'
    } else {
        '9'
    }
}

/// `n` in decimal, without leading zeros.
pub open spec fn decimal(n: nat) -> Seq<char>
    decreases n,
{
    if n < 10 {
        seq![digit(n)]
    } else {
        decimal(n / 10).push(digit(n % 10))
    }
}

/// `i` in decimal, with a leading minus sign where it is negative.
pub open spec fn signed_decimal(i: int) -> Seq<char> {
    if i < 0 {
        seq!['-'] + decimal((-i) as nat)
    } else {
        decimal(i as nat)
    }
}

/// Whether `c` is one of the ten decimal digits.
pub open spec fn is_digit(c: char) -> bool {
    '0' <= c <= '9'
}

/// `s` without any copy of `suffix` that it ends in.
pub open spec fn trimmed_end(s: Seq<char>, suffix: Seq<char>) -> Seq<char>
    decreases s.len(),
{
    if 0 < suffix.len() <= s.len() && s.skip(s.len() - suffix.len()) == suffix {
        trimmed_end(s.take(s.len() - suffix.len()), suffix)
    } else {
        s
    }
}

/// Whether two texts hold the same characters.
pub fn same_text(a: &str, b: &str) -> (r: bool)
    ensures
        r == (a@ == b@),
{
    a.to_owned() == b.to_owned()
}

fn digit_text(d: u128) -> (r: &'static str)
    requires
        d < 10,
    ensures
        r@ == seq![digit(d as nat)],
{
    proof {
        reveal_strlit("0");
        reveal_strlit("1");
        reveal_strlit("2");
        reveal_strlit("3");
        reveal_strlit("4");
        reveal_strlit("5");
        reveal_strlit("6");
        reveal_strlit("7");
        reveal_strlit("8");
        reveal_strlit("9");
    }
    if d == 0 {
        "0"
    } else if d == 1 {
        "1"
    } else if d == 2 {
        "2"
    } else if d == 3 {
        "3"
    } else if d == 4 {
        "4"
    } else if d == 5 {
        "5"
    } else if d == 6 {
        "6"
    } else if d == 7 {
        "7"
    } else if d == 8 {
        "8"
    } else {
        "9"
    }
}

/// Writes `n` in decimal.
pub fn decimal_text(n: u128) -> (r: String)
    ensures
        r@ == decimal(n as nat),
    decreases n,
{
    if n < 10 {
        digit_text(n).to_owned()
    } else {
        let mut r = decimal_text(n / 10);
        r.append(digit_text(n % 10));
        assert(r@ =~= decimal(n as nat / 10).push(digit(n as nat % 10)));
        r
    }
}

/// Writes `i` in decimal.
pub fn signed_decimal_text(i: i64) -> (r: String)
    ensures
        r@ == signed_decimal(i as int),
{
    if i < 0 {
        let mut r = "-".to_owned();
        let size: i128 = -(i as i128);
        r.append(decimal_text(size as u128).as_str());
        proof {
            reveal_strlit("-");
            assert("-"@ =~= seq!['-']);
        }
        r
    } else {
        decimal_text(i as u128)
    }
}

/// Removes every copy of `suffix` that `s` ends in.
pub fn trim_end_matches(s: &str, suffix: &str) -> (r: String)
    ensures
        r@ == trimmed_end(s@, suffix@),
{
    let step: usize = suffix.unicode_len();
    let mut end: usize = s.unicode_len();
    assert(s@.take(end as int) =~= s@);
    while 0 < step && step <= end && same_text(s.substring_char(end - step, end), suffix)
        invariant
            step == suffix@.len(),
            end <= s@.len(),
            trimmed_end(s@, suffix@) == trimmed_end(s@.take(end as int), suffix@),
        decreases end,
    {
        proof {
            let cut = s@.take(end as int);
            assert(cut.skip(cut.len() - step) =~= s@.subrange(end - step, end as int));
            assert(cut.take(cut.len() - step) =~= s@.take(end - step));
        }
        end = end - step;
    }
    proof {
        let cut = s@.take(end as int);
        if 0 < step && step <= end {
            assert(cut.skip(cut.len() - step) =~= s@.subrange(end - step, end as int));
        }
        assert(s@.subrange(0, end as int) =~= cut);
    }
    s.substring_char(0, end).to_owned()
}

/// Every character of a decimal text is a digit, and there is at least one.
pub proof fn decimal_is_digits(n: nat)
    ensures
        decimal(n).len() > 0,
        forall|i: int| 0 <= i < decimal(n).len() ==> is_digit(#[trigger] decimal(n)[i]),
    decreases n,
{
    if n >= 10 {
        decimal_is_digits(n / 10);
    }
}

/// Two numbers with the same decimal text are equal.
pub proof fn decimal_is_injective(a: nat, b: nat)
    requires
        decimal(a) == decimal(b),
    ensures
        a == b,
    decreases a + b,
{
    decimal_is_digits(a / 10);
    decimal_is_digits(b / 10);
    let s = decimal(a);
    if a < 10 {
        if b >= 10 {
            assert(decimal(b).len() == decimal(b / 10).len() + 1);
        } else {
            assert(s[0] == digit(a) && s[0] == digit(b));
        }
    } else {
        if b < 10 {
            assert(decimal(a).len() == decimal(a / 10).len() + 1);
        } else {
            assert(s.drop_last() =~= decimal(a / 10));
            assert(s.drop_last() =~= decimal(b / 10));
            decimal_is_injective(a / 10, b / 10);
            assert(s.last() == digit(a % 10) && s.last() == digit(b % 10));
        }
    }
}

/// Two integers with the same decimal text are equal.
pub proof fn signed_decimal_is_injective(a: int, b: int)
    requires
        signed_decimal(a) == signed_decimal(b),
    ensures
        a == b,
{
    let s = signed_decimal(a);
    decimal_is_digits(if a < 0 { (-a) as nat } else { a as nat });
    decimal_is_digits(if b < 0 { (-b) as nat } else { b as nat });
    if a < 0 && b < 0 {
        assert(s.drop_first() =~= decimal((-a) as nat));
        assert(s.drop_first() =~= decimal((-b) as nat));
        decimal_is_injective((-a) as nat, (-b) as nat);
    } else if a >= 0 && b >= 0 {
        decimal_is_injective(a as nat, b as nat);
    } else {
        assert(s[0] == '-' || is_digit(s[0]));
    }
}

/// A text is split in one way only at the first occurrence of a character that the part before it
/// does not hold.
pub proof fn split_is_unique(a: Seq<char>, b: Seq<char>, mark: char, c: Seq<char>, d: Seq<char>)
    requires
        !a.contains(mark),
        !c.contains(mark),
        a.push(mark) + b == c.push(mark) + d,
    ensures
        a == c,
        b == d,
{
    let s = a.push(mark) + b;
    assert(s[a.len() as int] == mark);
    assert(s[c.len() as int] == mark);
    if a.len() < c.len() {
        assert(s[a.len() as int] == c[a.len() as int]);
        assert(c.contains(mark));
    }
    if c.len() < a.len() {
        assert(s[c.len() as int] == a[c.len() as int]);
        assert(a.contains(mark));
    }
    assert(a =~= s.take(a.len() as int));
    assert(c =~= s.take(c.len() as int));
    assert(b =~= s.skip(a.len() as int + 1));
    assert(d =~= s.skip(c.len() as int + 1));
}

} // verus!
