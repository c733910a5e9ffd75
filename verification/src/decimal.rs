use vstd::prelude::*;
use vstd::string::StrSliceExecFns;
use vstd::string::StringExecFns;

verus! {

/// The character of the decimal digit `d`.
pub open spec fn digit_char(d: nat) -> char {
    ((('0' as u32) + d) as u32) as char
}

/// The decimal digits of `n`, most significant first; `0` for zero.
pub open spec fn decimal(n: nat) -> Seq<char>
    decreases n,
{
    if n < 10 {
        seq![digit_char(n)]
    } else {
        decimal(n / 10).push(digit_char(n % 10))
    }
}

/// The decimal text of an integer, with `-` before a negative one, as
/// `Display` prints integers.
pub open spec fn signed_decimal(n: int) -> Seq<char> {
    if n < 0 {
        seq!['-'] + decimal((-n) as nat)
    } else {
        decimal(n as nat)
    }
}

spec fn digits_above(x: nat) -> Seq<char>
    decreases x,
{
    if x == 0 {
        Seq::empty()
    } else {
        digits_above(x / 10).push(digit_char(x % 10))
    }
}

proof fn lemma_digits_above(x: nat)
    requires
        x > 0,
    ensures
        digits_above(x) == decimal(x),
    decreases x,
{
    if x >= 10 {
        lemma_digits_above(x / 10);
    } else {
        assert(digits_above(x / 10) == Seq::<char>::empty());
        assert(digits_above(x) =~= seq![digit_char(x)]);
    }
}

/// Appends `c` to `s` with `String::push`.
#[verifier::external_body]
pub(crate) fn push_char(s: &mut String, c: char)
    ensures
        final(s)@ == old(s)@.push(c),
{
    s.push(c)
}

fn digit_char_exec(d: u64) -> (c: char)
    requires
        d < 10,
    ensures
        c == digit_char(d as nat),
{
    let b: u8 = (48 + d) as u8;
    b as char
}

/// The decimal text of `n`.
pub fn u64_to_decimal(n: u64) -> (r: String)
    ensures
        r@ == decimal(n as nat),
{
    let mut digits: Vec<char> = Vec::new();
    let mut x: u64 = n;
    while x > 0
        invariant
            digits_above(n as nat) == digits_above(x as nat) + digits@.reverse(),
        decreases x,
    {
        let d = x % 10;
        let c = digit_char_exec(d);
        proof {
            assert(digits_above(x as nat) == digits_above((x / 10) as nat).push(c));
            assert(digits@.push(c).reverse() =~= seq![c] + digits@.reverse());
            assert(digits_above((x / 10) as nat).push(c) + digits@.reverse() =~= digits_above((x / 10) as nat) + (seq![c] + digits@.reverse()));
        }
        digits.push(c);
        x = x / 10;
    }
    let mut r = String::new();
    if n == 0 {
        push_char(&mut r, '0');
        return r;
    }
    proof {
        lemma_digits_above(n as nat);
        assert(digits_above(0) == Seq::<char>::empty());
        assert(Seq::<char>::empty() + digits@.reverse() =~= digits@.reverse());
    }
    let mut i: usize = digits.len();
    while i > 0
        invariant
            i <= digits@.len(),
            digits@.reverse() == decimal(n as nat),
            r@ == digits@.reverse().subrange(0, (digits@.len() - i) as int),
        decreases i,
    {
        i = i - 1;
        proof {
            assert(digits@.reverse()[(digits@.len() - 1 - i) as int] == digits@[i as int]);
            assert(digits@.reverse().subrange(0, (digits@.len() - i) as int) =~= digits@.reverse().subrange(
                0,
                (digits@.len() - i - 1) as int,
            ).push(digits@[i as int]));
        }
        push_char(&mut r, digits[i]);
    }
    assert(digits@.reverse().subrange(0, digits@.len() as int) =~= digits@.reverse());
    r
}

/// The decimal text of `n`, with `-` before a negative number.
pub fn i64_to_decimal(n: i64) -> (r: String)
    ensures
        r@ == signed_decimal(n as int),
{
    if n < 0 {
        let magnitude: u64 = (0i128 - n as i128) as u64;
        let digits = u64_to_decimal(magnitude);
        proof {
            reveal_strlit("-");
        }
        String::from_str("-").concat(digits.as_str())
    } else {
        u64_to_decimal(n as u64)
    }
}

/// An ASCII decimal digit.
pub open spec fn is_decimal_digit(c: char) -> bool {
    '0' <= c && c <= '9'
}

/// Every character of `s` is an ASCII decimal digit.
pub open spec fn all_decimal_digits(s: Seq<char>) -> bool {
    forall|i: int| 0 <= i < s.len() ==> #[trigger] is_decimal_digit(s[i])
}

/// The number that a string of decimal digits spells.
pub open spec fn digits_value(s: Seq<char>) -> nat
    decreases s.len(),
{
    if s.len() == 0 {
        0
    } else {
        digits_value(s.drop_last()) * 10 + (s.last() as nat - '0' as nat) as nat
    }
}

/// What `str::parse::<i64>` gives: an optional `+` or `-`, then at least
/// one ASCII digit and nothing else, with a value that fits in `i64`.
pub open spec fn parsed_i64(s: Seq<char>) -> Option<i64> {
    let negative = s.len() > 0 && s[0] == '-';
    let body = if s.len() > 0 && (s[0] == '-' || s[0] == '+') {
        s.drop_first()
    } else {
        s
    };
    let magnitude = digits_value(body) as int;
    let v = if negative {
        -magnitude
    } else {
        magnitude
    };
    if body.len() > 0 && all_decimal_digits(body) && i64::MIN <= v <= i64::MAX {
        Some(v as i64)
    } else {
        None
    }
}

/// Parses a decimal `i64` as `str::parse::<i64>` does (see `parsed_i64`).
pub fn parse_i64(s: &str) -> (r: Option<i64>)
    ensures
        r == parsed_i64(s@),
{
    let n = s.unicode_len();
    let mut start: usize = 0;
    let mut negative = false;
    if n > 0 {
        let c = s.get_char(0);
        if c == '-' {
            negative = true;
            start = 1;
        } else if c == '+' {
            start = 1;
        }
    }
    let ghost body = if start == 1 {
        s@.drop_first()
    } else {
        s@
    };
    assert(body =~= s@.subrange(start as int, n as int));
    if start >= n {
        return None;
    }
    let cap: u128 = 0x8000_0000_0000_0001;
    let mut acc: u128 = 0;
    let mut i: usize = start;
    while i < n
        invariant
            n == s@.len(),
            cap == 0x8000_0000_0000_0001u128,
            negative == (s@.len() > 0 && s@[0] == '-'),
            start == (if s@.len() > 0 && (s@[0] == '-' || s@[0] == '+') {
                1usize
            } else {
                0usize
            }),
            start <= i <= n,
            body == s@.subrange(start as int, n as int),
            all_decimal_digits(s@.subrange(start as int, i as int)),
            acc <= cap,
            acc == (if digits_value(s@.subrange(start as int, i as int)) < cap {
                digits_value(s@.subrange(start as int, i as int))
            } else {
                cap as nat
            }),
        decreases n - i,
    {
        let c = s.get_char(i);
        let ghost prefix = s@.subrange(start as int, i as int);
        let ghost next = s@.subrange(start as int, i + 1);
        assert(next.drop_last() =~= prefix);
        if !('0' <= c && c <= '9') {
            assert(body[i - start] == c);
            assert(!is_decimal_digit(body[i - start]));
            return None;
        }
        let d = (c as u32 - '0' as u32) as u128;
        let grown: u128 = acc * 10 + d;
        acc = if grown < cap {
            grown
        } else {
            cap
        };
        assert forall|j: int| 0 <= j < next.len() implies #[trigger] is_decimal_digit(next[j]) by {
            if j < prefix.len() {
                assert(next[j] == prefix[j]);
            }
        }
        i = i + 1;
    }
    assert(s@.subrange(start as int, n as int) == body);
    if negative {
        if acc <= 0x8000_0000_0000_0000 {
            let m: i128 = acc as i128;
            Some((0 - m) as i64)
        } else {
            None
        }
    } else {
        if acc <= 0x7fff_ffff_ffff_ffff {
            Some(acc as i64)
        } else {
            None
        }
    }
}

/// The millisecond count of a cleanup limit given as a JSON value: the
/// number itself when it is an `i64` (`number`), else the parse of its
/// text when it is a string (`text`).
pub fn get_limit_millis(number: Option<i64>, text: Option<&str>) -> (r: Option<i64>)
    ensures
        r == match number {
            Some(v) => Some(v),
            None => match text {
                Some(t) => parsed_i64(t@),
                None => None,
            },
        },
{
    match number {
        Some(v) => Some(v),
        None => match text {
            Some(t) => parse_i64(t),
            None => None,
        },
    }
}

proof fn lemma_decimal_digits(m: nat)
    ensures
        decimal(m).len() > 0,
        all_decimal_digits(decimal(m)),
        digits_value(decimal(m)) == m,
    decreases m,
{
    if m >= 10 {
        lemma_decimal_digits(m / 10);
        let d = decimal(m);
        assert(d.drop_last() =~= decimal(m / 10));
        assert(d.last() == digit_char(m % 10));
        assert(digit_char(m % 10) as nat == '0' as nat + m % 10);
        assert(digits_value(d) == (m / 10) * 10 + m % 10);
        assert((m / 10) * 10 + m % 10 == m);
        assert forall|i: int| 0 <= i < d.len() implies #[trigger] is_decimal_digit(d[i]) by {
            if i < d.len() - 1 {
                assert(d[i] == decimal(m / 10)[i]);
            }
        }
    } else {
        assert(decimal(m).drop_last() =~= Seq::<char>::empty());
        assert(digit_char(m) as nat == '0' as nat + m);
        assert(decimal(m).last() == digit_char(m));
        assert(digits_value(decimal(m)) == digits_value(Seq::<char>::empty()) * 10 + m);
    }
}

/// Reading back the decimal text of any `i64` gives the same number.
pub proof fn lemma_i64_decimal_round_trip(n: i64)
    ensures
        parsed_i64(signed_decimal(n as int)) == Some(n),
{
    let s = signed_decimal(n as int);
    if n < 0 {
        let m = (-(n as int)) as nat;
        lemma_decimal_digits(m);
        assert(s.drop_first() =~= decimal(m));
        assert(s[0] == '-');
    } else {
        lemma_decimal_digits(n as nat);
        let d = decimal(n as nat);
        assert(is_decimal_digit(d[0]));
    }
}

} // verus!
