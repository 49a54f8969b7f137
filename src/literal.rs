use vstd::prelude::*;

verus! {

/// `c` is an ASCII decimal digit.
pub open spec fn is_digit(c: char) -> bool {
    '0' <= c && c <= '9'
}

/// The value of the ASCII digit `c`.
pub open spec fn digit_value(c: char) -> nat {
    if c == '1' { 1 }
    else if c == '2' { 2 }
    else if c == '3' { 3 }
    else if c == '4' { 4 }
    else if c == '5' { 5 }
    else if c == '6' { 6 }
    else if c == '7' { 7 }
    else if c == '8' { 8 }
    else if c == '9' { 9 }
    else { 0 }
}

/// The digit that stands for `d`.
pub open spec fn digit_char(d: nat) -> char {
    if d == 1 { '1' }
    else if d == 2 { '2' }
    else if d == 3 { '3' }
    else if d == 4 { '4' }
    else if d == 5 { '5' }
    else if d == 6 { '6' }
    else if d == 7 { '7' }
    else if d == 8 { '8' }
    else if d == 9 { '9' }
    else { '0' }
}

/// Every character of `s` is a digit, and there is at least one.
pub open spec fn is_digits(s: Seq<char>) -> bool {
    s.len() > 0 && forall|i: int| 0 <= i < s.len() ==> is_digit(#[trigger] s[i])
}

/// The number that the digits `s` write in base ten.
pub open spec fn digits_value(s: Seq<char>) -> nat
    decreases s.len(),
{
    if s.len() == 0 {
        0
    } else {
        digits_value(s.drop_last()) * 10 + digit_value(s.last())
    }
}

/// The decimal digits of `n`, without leading zeros.
pub open spec fn nat_text(n: nat) -> Seq<char>
    decreases n,
{
    if n < 10 {
        seq![digit_char(n)]
    } else {
        nat_text(n / 10).push(digit_char(n % 10))
    }
}

/// `n` in decimal, with a leading `-` when it is negative.
pub open spec fn int_text(n: int) -> Seq<char> {
    if n < 0 {
        seq!['-'] + nat_text((-n) as nat)
    } else {
        nat_text(n as nat)
    }
}

/// The value of a signed decimal literal: an optional `-`, then digits.
pub open spec fn signed_value(s: Seq<char>) -> Option<int> {
    if s.len() > 0 && s[0] == '-' {
        if is_digits(s.drop_first()) {
            Some(-digits_value(s.drop_first()))
        } else {
            None
        }
    } else if is_digits(s) {
        Some(digits_value(s) as int)
    } else {
        None
    }
}

/// The decimal digits of `n` read back as `n`.
pub proof fn lemma_nat_text(n: nat)
    ensures
        is_digits(nat_text(n)),
        digits_value(nat_text(n)) == n,
    decreases n,
{
    if n < 10 {
        assert(nat_text(n).drop_last() =~= Seq::<char>::empty());
        assert(digits_value(nat_text(n).drop_last()) == 0);
    }
    if n >= 10 {
        lemma_nat_text(n / 10);
        let t = nat_text(n);
        assert(t.drop_last() == nat_text(n / 10));
        assert(n % 10 < 10);
        assert(digit_value(digit_char(n % 10)) == n % 10);
        assert(n == (n / 10) * 10 + n % 10);
        assert(t.last() == digit_char(n % 10));
        assert(digits_value(t) == digits_value(t.drop_last()) * 10 + digit_value(t.last()));
        assert forall|i: int| 0 <= i < t.len() implies is_digit(#[trigger] t[i]) by {
            if i < t.len() - 1 {
                assert(t[i] == nat_text(n / 10)[i]);
            }
        }
    }
}

/// The decimal text of `n` reads back as `n`.
pub proof fn lemma_int_text(n: int)
    ensures
        signed_value(int_text(n)) == Some(n),
{
    if n < 0 {
        lemma_nat_text((-n) as nat);
        assert((seq!['-'] + nat_text((-n) as nat)).drop_first() =~= nat_text((-n) as nat));
    } else {
        lemma_nat_text(n as nat);
    }
}

proof fn lemma_digits_prefix(s: Seq<char>, i: int)
    requires
        0 <= i <= s.len(),
        forall|j: int| 0 <= j < s.len() ==> is_digit(#[trigger] s[j]),
    ensures
        digits_value(s.subrange(0, i)) <= digits_value(s),
    decreases s.len() - i,
{
    if i < s.len() {
        lemma_digits_prefix(s, i + 1);
        assert(s.subrange(0, i + 1).drop_last() =~= s.subrange(0, i));
    } else {
        assert(s.subrange(0, i) =~= s);
    }
}

/// Whether `c` is an ASCII decimal digit.
pub fn is_digit_char(c: char) -> (r: bool)
    ensures
        r == is_digit(c),
{
    '0' <= c && c <= '9'
}

fn digit_of(c: char) -> (r: u64)
    requires
        is_digit(c),
    ensures
        r == digit_value(c),
        r < 10,
{
    if c == '1' { 1 }
    else if c == '2' { 2 }
    else if c == '3' { 3 }
    else if c == '4' { 4 }
    else if c == '5' { 5 }
    else if c == '6' { 6 }
    else if c == '7' { 7 }
    else if c == '8' { 8 }
    else if c == '9' { 9 }
    else { 0 }
}

fn char_of_digit(d: u64) -> (r: char)
    requires
        d < 10,
    ensures
        r == digit_char(d as nat),
{
    if d == 1 { '1' }
    else if d == 2 { '2' }
    else if d == 3 { '3' }
    else if d == 4 { '4' }
    else if d == 5 { '5' }
    else if d == 6 { '6' }
    else if d == 7 { '7' }
    else if d == 8 { '8' }
    else if d == 9 { '9' }
    else { '0' }
}

/// The value of the digits `s[a..b]`, where it is at most `max`.
pub fn digits_at_most(s: &[char], a: usize, b: usize, max: u64) -> (r: Option<u64>)
    requires
        a <= b <= s@.len(),
    ensures
        r == (if is_digits(s@.subrange(a as int, b as int)) && digits_value(
            s@.subrange(a as int, b as int),
        ) <= max {
            Some(digits_value(s@.subrange(a as int, b as int)) as u64)
        } else {
            None
        }),
{
    let ghost d = s@.subrange(a as int, b as int);
    if a == b {
        return None;
    }
    let mut i: usize = a;
    let mut acc: u64 = 0;
    while i < b
        invariant
            a <= i <= b <= s@.len(),
            d == s@.subrange(a as int, b as int),
            forall|j: int| a <= j < i ==> is_digit(#[trigger] s@[j]),
            acc == digits_value(s@.subrange(a as int, i as int)),
            acc <= max,
        decreases b - i,
    {
        if !is_digit_char(s[i]) {
            assert(d[i - a] == s@[i as int]);
            return None;
        }
        let v = digit_of(s[i]);
        assert(s@.subrange(a as int, i + 1).drop_last() =~= s@.subrange(a as int, i as int));
        if v > max || acc > (max - v) / 10 {
            proof {
                if v <= max {
                    assert(acc * 10 + v > max) by (nonlinear_arith)
                        requires acc > (max - v) / 10, v <= max;
                }
                if forall|j: int| 0 <= j < d.len() ==> is_digit(#[trigger] d[j]) {
                    lemma_digits_prefix(d, i + 1 - a);
                    assert(d.subrange(0, i + 1 - a) =~= s@.subrange(a as int, i + 1));
                }
            }
            return None;
        }
        assert(acc * 10 + v <= max) by (nonlinear_arith)
            requires acc <= (max - v) / 10, v <= max;
        acc = acc * 10 + v;
        i = i + 1;
    }
    assert(s@.subrange(a as int, b as int) =~= d);
    Some(acc)
}

/// Appends the decimal digits of `n`.
pub fn push_nat(out: &mut Vec<char>, n: u64)
    ensures
        final(out)@ == old(out)@ + nat_text(n as nat),
    decreases n,
{
    if n < 10 {
        out.push(char_of_digit(n));
        assert(final(out)@ =~= old(out)@ + nat_text(n as nat));
    } else {
        push_nat(out, n / 10);
        out.push(char_of_digit(n % 10));
        assert(out@ =~= old(out)@ + nat_text(n as nat));
    }
}

/// `v` where it holds a number within `lo..=hi`.
pub open spec fn int_in(v: Option<int>, lo: int, hi: int) -> Option<int> {
    match v {
        Some(n) => if lo <= n <= hi {
            Some(n)
        } else {
            None
        },
        None => None,
    }
}

/// The 32-bit integer that `s[a..b]` writes in decimal, with an optional `-`.
pub fn parse_i32(s: &[char], a: usize, b: usize) -> (r: Option<i32>)
    requires
        a <= b <= s@.len(),
    ensures
        match r {
            Some(x) => int_in(signed_value(s@.subrange(a as int, b as int)), i32::MIN as int, i32::MAX as int) == Some(x as int),
            None => int_in(signed_value(s@.subrange(a as int, b as int)), i32::MIN as int, i32::MAX as int) is None,
        },
{
    let ghost x = s@.subrange(a as int, b as int);
    if a < b && s[a] == '-' {
        assert(x.drop_first() =~= s@.subrange(a + 1, b as int));
        match digits_at_most(s, a + 1, b, 2147483648) {
            Some(n) => Some((-(n as i64)) as i32),
            None => None,
        }
    } else {
        match digits_at_most(s, a, b, 2147483647) {
            Some(n) => Some(n as i32),
            None => None,
        }
    }
}

/// The 64-bit integer that `s[a..b]` writes in decimal, with an optional `-`.
pub fn parse_i64(s: &[char], a: usize, b: usize) -> (r: Option<i64>)
    requires
        a <= b <= s@.len(),
    ensures
        match r {
            Some(x) => int_in(signed_value(s@.subrange(a as int, b as int)), i64::MIN as int, i64::MAX as int) == Some(x as int),
            None => int_in(signed_value(s@.subrange(a as int, b as int)), i64::MIN as int, i64::MAX as int) is None,
        },
{
    let ghost x = s@.subrange(a as int, b as int);
    if a < b && s[a] == '-' {
        assert(x.drop_first() =~= s@.subrange(a + 1, b as int));
        match digits_at_most(s, a + 1, b, 9223372036854775808) {
            Some(n) => {
                if n == 9223372036854775808 {
                    Some(i64::MIN)
                } else {
                    Some(-(n as i64))
                }
            },
            None => None,
        }
    } else {
        match digits_at_most(s, a, b, 9223372036854775807) {
            Some(n) => Some(n as i64),
            None => None,
        }
    }
}

/// The part of a number text after an optional leading `-`.
pub open spec fn unsigned_part(s: Seq<char>) -> Seq<char> {
    if s.len() > 0 && s[0] == '-' {
        s.drop_first()
    } else {
        s
    }
}

/// A decimal number: an optional `-`, then digits with at most one `.` among
/// them, and at least one digit.
pub open spec fn is_decimal(s: Seq<char>) -> bool {
    let b = unsigned_part(s);
    &&& forall|i: int| 0 <= i < b.len() ==> is_digit(#[trigger] b[i]) || b[i] == '.'
    &&& exists|i: int| 0 <= i < b.len() && is_digit(#[trigger] b[i])
    &&& forall|i: int, j: int|
        0 <= i < b.len() && 0 <= j < b.len() && #[trigger] b[i] == '.' && #[trigger] b[j] == '.'
            ==> i == j
}

/// A decimal number, held as the text that writes it, so that no digit is lost.
#[derive(Debug, Clone)]
pub struct Decimal {
    text: String,
}

impl View for Decimal {
    type V = Seq<char>;

    closed spec fn view(&self) -> Seq<char> {
        self.text@
    }
}

/// `s[a..b]` is a decimal number.
pub fn is_decimal_range(s: &[char], a: usize, b: usize) -> (r: bool)
    requires
        a <= b <= s@.len(),
    ensures
        r == is_decimal(s@.subrange(a as int, b as int)),
{
    let ghost x = s@.subrange(a as int, b as int);
    let start = if a < b && s[a] == '-' { a + 1 } else { a };
    let ghost u = unsigned_part(x);
    assert(u =~= s@.subrange(start as int, b as int));
    let mut i = start;
    let mut dot: Option<usize> = None;
    let mut digit = false;
    while i < b
        invariant
            a <= start <= i <= b <= s@.len(),
            u == s@.subrange(start as int, b as int),
            x == s@.subrange(a as int, b as int),
            u == unsigned_part(x),
            forall|m: int| 0 <= m < i - start ==> is_digit(#[trigger] u[m]) || u[m] == '.',
            digit == exists|m: int| 0 <= m < i - start && is_digit(#[trigger] u[m]),
            match dot {
                Some(d) => start <= d < i && u[d - start] == '.' && forall|m: int|
                    0 <= m < i - start && #[trigger] u[m] == '.' ==> m == d - start,
                None => forall|m: int| 0 <= m < i - start ==> #[trigger] u[m] != '.',
            },
        decreases b - i,
    {
        let c = s[i];
        assert(u[i - start] == c);
        if is_digit_char(c) {
            digit = true;
        } else if c == '.' {
            match dot {
                Some(d) => {
                    assert(u[d - start] == '.' && u[i - start] == '.');
                    assert(!is_decimal(x));
                    return false;
                },
                None => {},
            }
            dot = Some(i);
        } else {
            assert(!(is_digit(u[i - start]) || u[i - start] == '.'));
            assert(!is_decimal(x));
            return false;
        }
        i = i + 1;
    }
    digit
}

impl Decimal {
    /// The decimal number that `s` writes, where `s` writes one.
    pub fn from_text(s: &str) -> (r: Option<Decimal>)
        ensures
            r is Some <==> is_decimal(s@),
            r is Some ==> r->0@ == s@,
    {
        let c = crate::text::chars_of(s);
        Self::from_chars(c.as_slice())
    }

    /// The decimal number that the characters `s` write, where they write one.
    pub fn from_chars(s: &[char]) -> (r: Option<Decimal>)
        ensures
            r is Some <==> is_decimal(s@),
            r is Some ==> r->0@ == s@,
    {
        let ok = is_decimal_range(s, 0, s.len());
        assert(s@.subrange(0, s@.len() as int) =~= s@);
        if ok {
            Some(Decimal { text: crate::text::string_of(s) })
        } else {
            None
        }
    }

    /// The text that writes the number.
    pub fn as_text(&self) -> (r: String)
        ensures
            r@ == self@,
    {
        self.text.clone()
    }
}

} // verus!
