use vstd::prelude::*;
use vstd::string::StrSliceExecFns;

verus! {

// ----- big-endian integers -------------------------------------------------

/// `256` to the power `n`: one more than the largest `n`-byte integer.
pub open spec fn byte_bound(n: nat) -> nat
    decreases n,
{
    if n == 0 {
        1
    } else {
        256 * byte_bound((n - 1) as nat)
    }
}

/// The unsigned integer whose big-endian bytes are `b`.
pub open spec fn be_value(b: Seq<u8>) -> nat
    decreases b.len(),
{
    if b.len() == 0 {
        0
    } else {
        be_value(b.drop_last()) * 256 + b.last() as nat
    }
}

/// The two's-complement integer whose big-endian bytes are `b`.
pub open spec fn be_signed(b: Seq<u8>) -> int {
    if 2 * be_value(b) >= byte_bound(b.len()) {
        be_value(b) - byte_bound(b.len())
    } else {
        be_value(b) as int
    }
}

/// An `n`-byte big-endian integer is below `256^n`.
pub proof fn lemma_be_value_bound(b: Seq<u8>)
    ensures
        be_value(b) < byte_bound(b.len()),
    decreases b.len(),
{
    if b.len() > 0 {
        lemma_be_value_bound(b.drop_last());
        let x = be_value(b.drop_last());
        let p = byte_bound(b.drop_last().len());
        assert(x * 256 + b.last() < 256 * p) by (nonlinear_arith)
            requires
                x < p,
                b.last() < 256,
        ;
    }
}

/// The big-endian value of `bytes`, at most eight of them.
pub fn be_uint(bytes: &[u8]) -> (v: u64)
    requires
        bytes@.len() <= 8,
    ensures
        v == be_value(bytes@),
{
    let mut acc: u64 = 0;
    let mut i: usize = 0;
    while i < bytes.len()
        invariant
            i <= bytes@.len() <= 8,
            acc == be_value(bytes@.subrange(0, i as int)),
        decreases bytes@.len() - i,
    {
        proof {
            lemma_be_value_bound(bytes@.subrange(0, i as int));
            reveal_with_fuel(byte_bound, 8);
            assert(byte_bound(i as nat) <= 0x100_0000_0000_0000);
            assert(bytes@.subrange(0, i + 1).drop_last() =~= bytes@.subrange(0, i as int));
        }
        acc = acc * 256 + bytes[i] as u64;
        i = i + 1;
    }
    assert(bytes@.subrange(0, i as int) =~= bytes@);
    acc
}

/// The two's-complement big-endian value of `bytes`, one to four of them.
pub fn be_int(bytes: &[u8]) -> (v: i64)
    requires
        1 <= bytes@.len() <= 4,
    ensures
        v == be_signed(bytes@),
{
    let u = be_uint(bytes);
    proof {
        lemma_be_value_bound(bytes@);
        reveal_with_fuel(byte_bound, 5);
    }
    let bound: u64 = if bytes.len() == 1 {
        0x100
    } else if bytes.len() == 2 {
        0x1_0000
    } else if bytes.len() == 3 {
        0x100_0000
    } else {
        0x1_0000_0000
    };
    assert(bound == byte_bound(bytes@.len()));
    if 2 * u >= bound {
        u as i64 - bound as i64
    } else {
        u as i64
    }
}

// ----- decimal text ---------------------------------------------------------

/// The character of the decimal digit `d`.
pub open spec fn digit_char(d: int) -> char {
    (d + 48) as char
}

/// The decimal digits of `n`, most significant first, without leading zeros.
pub open spec fn digits_of(n: nat) -> Seq<char>
    decreases n,
{
    if n < 10 {
        seq![digit_char(n as int)]
    } else {
        digits_of(n / 10).push(digit_char((n % 10) as int))
    }
}

/// The decimal text of `v`: a minus sign for a negative value, then its digits.
pub open spec fn decimal(v: int) -> Seq<char> {
    if v < 0 {
        seq!['-'] + digits_of((-v) as nat)
    } else {
        digits_of(v as nat)
    }
}

/// The text of one decimal digit.
fn digit_str(d: u64) -> (s: &'static str)
    requires
        d < 10,
    ensures
        s@ == seq![digit_char(d as int)],
{
    proof {
        reveal_strlit("0");
        reveal_strlit("1");
        reveal_strlit("2");
        reveal_strlit("3");
        reveal_strlit("4");
        reveal_strlit("5");
        reveal_strlit("6");
        reveal_strlit("7");
        reveal_strlit("8");
        reveal_strlit("9");
    }
    match d {
        0 => "0",
        1 => "1",
        2 => "2",
        3 => "3",
        4 => "4",
        5 => "5",
        6 => "6",
        7 => "7",
        8 => "8",
        _ => "9",
    }
}

/// Appends the decimal digits of `n` to `s`.
pub fn push_digits(s: &mut String, n: u64)
    ensures
        final(s)@ == old(s)@ + digits_of(n as nat),
    decreases n,
{
    if n >= 10 {
        push_digits(s, n / 10);
    }
    s.append(digit_str(n % 10));
    assert(final(s)@ =~= old(s)@ + digits_of(n as nat));
}

/// The decimal text of `v`, as `to_string` writes an integer.
pub fn decimal_string(v: i64) -> (s: String)
    ensures
        s@ == decimal(v as int),
{
    let mut s = String::new();
    if v < 0 {
        proof { reveal_strlit("-"); }
        s.append("-");
        let m: u64 = (0 - (v as i128)) as u64;
        push_digits(&mut s, m);
    } else {
        push_digits(&mut s, v as u64);
    }
    assert(s@ =~= decimal(v as int));
    s
}

/// True for the characters `0` to `9`.
pub open spec fn is_digit(c: char) -> bool {
    '0' <= c <= '9'
}

/// The value of a string of decimal digits, most significant first.
pub open spec fn digits_value(s: Seq<char>) -> nat
    decreases s.len(),
{
    if s.len() == 0 {
        0
    } else {
        digits_value(s.drop_last()) * 10 + (s.last() as nat - 48) as nat
    }
}

/// The digits that follow an optional leading `+`; a lone `+` is kept.
pub open spec fn unsigned_digits(s: Seq<char>) -> Seq<char> {
    if s.len() > 1 && s[0] == '+' {
        s.drop_first()
    } else {
        s
    }
}

/// What `str::parse::<usize>` gives for `s`: the value of an optional `+`
/// followed by one or more decimal digits, where it fits in a `usize`.
pub open spec fn spec_parse_usize(s: Seq<char>) -> Option<usize> {
    let d = unsigned_digits(s);
    if d.len() > 0 && (forall|i: int| 0 <= i < d.len() ==> is_digit(#[trigger] d[i]))
        && digits_value(d) <= usize::MAX {
        Some(digits_value(d) as usize)
    } else {
        None
    }
}

/// A longer string of digits has at least the value of its prefix.
proof fn lemma_digits_value_prefix(d: Seq<char>, k: int)
    requires
        0 <= k <= d.len(),
        forall|i: int| 0 <= i < d.len() ==> is_digit(#[trigger] d[i]),
    ensures
        digits_value(d.subrange(0, k)) <= digits_value(d),
    decreases d.len() - k,
{
    if k < d.len() {
        let e = d.subrange(0, k + 1);
        assert(e.drop_last() =~= d.subrange(0, k));
        assert(is_digit(d[k]));
        lemma_digits_value_prefix(d, k + 1);
    } else {
        assert(d.subrange(0, k) =~= d);
    }
}

/// Parses `s` as `str::parse::<usize>` does.
pub fn parse_usize(s: &str) -> (r: Option<usize>)
    ensures
        r == spec_parse_usize(s@),
{
    let n = s.unicode_len();
    let mut start: usize = 0;
    if n > 1 && s.get_char(0) == '+' {
        start = 1;
    }
    let ghost d = unsigned_digits(s@);
    assert(d =~= s@.subrange(start as int, n as int));
    if start == n {
        return None;
    }
    let mut acc: usize = 0;
    let mut i: usize = start;
    while i < n
        invariant
            start <= i <= n,
            n == s@.len(),
            d == unsigned_digits(s@),
            d == s@.subrange(start as int, n as int),
            start < n,
            forall|j: int| 0 <= j < i - start ==> is_digit(#[trigger] d[j]),
            acc == digits_value(d.subrange(0, i - start)),
        decreases n - i,
    {
        let c = s.get_char(i);
        assert(c == d[i - start]);
        if !('0' <= c && c <= '9') {
            assert(!is_digit(d[i - start]));
            return None;
        }
        let dv: usize = (c as u32 - 48) as usize;
        proof {
            assert(d.subrange(0, i + 1 - start).drop_last() =~= d.subrange(0, i - start));
        }
        let next = match acc.checked_mul(10) {
            Some(m) => m.checked_add(dv),
            None => None,
        };
        match next {
            Some(v) => {
                acc = v;
            },
            None => {
                proof {
                    let ghost after = d.subrange(0, i + 1 - start);
                    assert(after.last() == c);
                    assert(digits_value(after) == acc * 10 + dv);
                    assert(digits_value(after) > usize::MAX);
                    let ghost rest = i + 1 - start;
                    if forall|j: int| 0 <= j < d.len() ==> is_digit(#[trigger] d[j]) {
                        lemma_digits_value_prefix(d, rest);
                    }
                }
                return None;
            },
        }
        i = i + 1;
    }
    assert(d.subrange(0, n - start) =~= d);
    Some(acc)
}

/// The digits of a number read back give the number.
proof fn lemma_digits_of_value(n: nat)
    ensures
        digits_of(n).len() > 0,
        forall|i: int| 0 <= i < digits_of(n).len() ==> is_digit(#[trigger] digits_of(n)[i]),
        digits_value(digits_of(n)) == n,
        digits_of(n)[0] != '+',
    decreases n,
{
    if n < 10 {
        assert(digits_of(n).drop_last() =~= Seq::<char>::empty());
        assert(digits_value(Seq::<char>::empty()) == 0);
    }
    assert(digit_char((n % 10) as int) as nat == n % 10 + 48);
    if n >= 10 {
        lemma_digits_of_value(n / 10);
        assert(digits_of(n).drop_last() =~= digits_of(n / 10));
        assert(digits_of(n).last() == digit_char((n % 10) as int));
        assert(digits_value(digits_of(n)) == digits_value(digits_of(n / 10)) * 10 + n % 10);
        assert(forall|i: int| 0 <= i < digits_of(n).len() - 1 ==> digits_of(n)[i] == digits_of(n / 10)[i]);
        assert((n / 10) * 10 + n % 10 == n);
    } else {
        assert(digits_of(n).last() == digit_char(n as int));
        assert(digits_value(digits_of(n)) == n);
    }
}

proof fn lemma_digits_of_leading(n: nat)
    requires
        n > 0,
    ensures
        digits_of(n)[0] != '0',
    decreases n,
{
    if n >= 10 {
        lemma_digits_of_leading(n / 10);
        assert(digits_of(n)[0] == digits_of(n / 10)[0]);
    }
}

/// Law: the decimal text of a value that is not negative is one or more
/// digits, with no leading zero but for 0 itself, whose value is the value;
/// that of a negative value is a minus sign and the text of its magnitude.
pub proof fn law_decimal_shape(v: int)
    ensures
        v >= 0 ==> decimal(v).len() > 0,
        v >= 0 ==> forall|i: int| 0 <= i < decimal(v).len() ==> is_digit(#[trigger] decimal(v)[i]),
        v >= 0 ==> digits_value(decimal(v)) == v,
        v > 0 ==> decimal(v)[0] != '0',
        v == 0 ==> decimal(v) == seq!['0'],
        v < 0 ==> decimal(v) == seq!['-'] + decimal(-v),
{
    if v >= 0 {
        lemma_digits_of_value(v as nat);
        if v > 0 {
            lemma_digits_of_leading(v as nat);
        }
    }
}

/// Law: a text is not read as a `usize` where it is empty, is a lone `+`,
/// or holds a character other than a digit anywhere but in a leading `+`.
pub proof fn law_parse_usize_rejects(s: Seq<char>)
    ensures
        s.len() == 0 ==> spec_parse_usize(s) is None,
        s == seq!['+'] ==> spec_parse_usize(s) is None,
        forall|i: int|
            0 <= i < s.len() && !is_digit(#[trigger] s[i]) && !(i == 0 && s[0] == '+' && s.len() > 1)
                ==> spec_parse_usize(s) is None,
{
    assert forall|i: int|
        0 <= i < s.len() && !is_digit(#[trigger] s[i]) && !(i == 0 && s[0] == '+' && s.len() > 1)
            implies spec_parse_usize(s) is None by {
        let d = unsigned_digits(s);
        if s.len() > 1 && s[0] == '+' {
            assert(d[i - 1] == s[i]);
        } else {
            assert(d[i] == s[i]);
        }
    }
}

proof fn lemma_leading_zero_value(d: Seq<char>)
    ensures
        digits_value(seq!['0'] + d) == digits_value(d),
    decreases d.len(),
{
    let z = seq!['0'] + d;
    if d.len() == 0 {
        assert(z.drop_last() =~= Seq::<char>::empty());
        assert(digits_value(Seq::<char>::empty()) == 0);
    } else {
        assert(z.drop_last() =~= seq!['0'] + d.drop_last());
        assert(z.last() == d.last());
        lemma_leading_zero_value(d.drop_last());
    }
}

/// Law: a leading zero does not change what a string of digits reads as,
/// nor does a leading `+` before one or more characters that do not start
/// with `+`.
pub proof fn law_parse_usize_prefixes(d: Seq<char>)
    requires
        d.len() > 0,
    ensures
        is_digit(d[0]) ==> spec_parse_usize(seq!['0'] + d) == spec_parse_usize(d),
        d[0] != '+' ==> spec_parse_usize(seq!['+'] + d) == spec_parse_usize(d),
{
    if is_digit(d[0]) {
        let z = seq!['0'] + d;
        lemma_leading_zero_value(d);
        assert(unsigned_digits(z) == z);
        assert(unsigned_digits(d) == d);
        assert((forall|i: int| 0 <= i < z.len() ==> is_digit(#[trigger] z[i]))
            <==> (forall|i: int| 0 <= i < d.len() ==> is_digit(#[trigger] d[i]))) by {
            if forall|i: int| 0 <= i < d.len() ==> is_digit(#[trigger] d[i]) {
                assert forall|i: int| 0 <= i < z.len() implies is_digit(#[trigger] z[i]) by {
                    if i > 0 {
                        assert(z[i] == d[i - 1]);
                    }
                }
            }
            if forall|i: int| 0 <= i < z.len() ==> is_digit(#[trigger] z[i]) {
                assert forall|i: int| 0 <= i < d.len() implies is_digit(#[trigger] d[i]) by {
                    assert(z[i + 1] == d[i]);
                }
            }
        }
    }
    if d[0] != '+' {
        assert((seq!['+'] + d).drop_first() =~= d);
        assert(unsigned_digits(d) == d);
    }
}

/// Law: reading back the decimal text of a `usize` gives the same `usize`;
/// the text `to_string` writes is the text `parse` reads.
pub proof fn law_decimal_roundtrip(n: usize)
    ensures
        spec_parse_usize(decimal(n as int)) == Some(n),
{
    lemma_digits_of_value(n as nat);
    assert(unsigned_digits(digits_of(n as nat)) == digits_of(n as nat));
}

} // verus!
