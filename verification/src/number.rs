//! Numbers in text: reading them in a radix and writing them out.

use vstd::prelude::*;

verus! {

/// The value of the character as a digit of the radix, if it is one: the
/// decimal digits, then the letters of either case.
pub open spec fn digit_value(c: char, radix: int) -> Option<int> {
    let d = if '0' <= c <= '9' {
        c as int - '0' as int
    } else if 'a' <= c <= 'z' {
        c as int - 'a' as int + 10
    } else if 'A' <= c <= 'Z' {
        c as int - 'A' as int + 10
    } else {
        radix
    };
    if d < radix {
        Some(d)
    } else {
        None
    }
}

/// The number that the digits write, most significant digit first; `None`
/// where one of them is no digit of the radix.
pub open spec fn digits_value(s: Seq<char>, radix: int) -> Option<int>
    decreases s.len(),
{
    if s.len() == 0 {
        Some(0)
    } else {
        match (digits_value(s.drop_last(), radix), digit_value(s.last(), radix)) {
            (Some(v), Some(d)) => Some(v * radix + d),
            _ => None,
        }
    }
}

/// How many digits of the radix the text starts with.
pub open spec fn leading_digits(s: Seq<char>, radix: int) -> nat
    decreases s.len(),
{
    if s.len() > 0 && digit_value(s[0], radix) is Some {
        1 + leading_digits(s.skip(1), radix)
    } else {
        0
    }
}

/// The number that the digits write that the text starts with; 0 where it
/// starts with none.
pub open spec fn leading_value(s: Seq<char>, radix: int) -> int {
    digits_value(s.take(leading_digits(s, radix) as int), radix)->0
}

/// The text without the `+` or the `-` that it starts with.
pub open spec fn without_sign(s: Seq<char>) -> Seq<char> {
    if s.len() > 0 && (s[0] == '+' || s[0] == '-') {
        s.skip(1)
    } else {
        s
    }
}

/// The text without the `0x` or `0X` that it starts with, in radix 16.
pub open spec fn without_prefix(s: Seq<char>, radix: int) -> Seq<char> {
    if radix == 16 && s.len() >= 2 && s[0] == '0' && (s[1] == 'x' || s[1] == 'X') {
        s.skip(2)
    } else {
        s
    }
}

/// The number, or its negative where the text starts with a `-`.
pub open spec fn with_sign(s: Seq<char>, size: int) -> int {
    if s.len() > 0 && s[0] == '-' {
        -size
    } else {
        size
    }
}

/// The number that the text starts with: an optional sign, in radix 16 an
/// optional `0x`, and as many digits as there are; 0 where there are none.
pub open spec fn leading_number(s: Seq<char>, radix: int) -> int {
    with_sign(s, leading_value(without_prefix(without_sign(s), radix), radix))
}

/// The number in the range of signed 64-bit numbers that is nearest to the number.
pub open spec fn saturated(n: int) -> int {
    if n > i64::MAX {
        i64::MAX as int
    } else if n < i64::MIN {
        i64::MIN as int
    } else {
        n
    }
}

/// A number in 64 bits: saturated, and negative ones in two's complement.
pub open spec fn in_64_bits(n: int) -> int {
    saturated(n) % 0x1_0000_0000_0000_0000
}

/// The number that the whole text writes: an optional sign, then at least one
/// digit, and nothing else.
pub open spec fn whole_number(s: Seq<char>, radix: int) -> Option<int> {
    let body = without_sign(s);
    match digits_value(body, radix) {
        Some(size) => if body.len() > 0 {
            Some(with_sign(s, size))
        } else {
            None
        },
        None => None,
    }
}

fn digit_of(c: char, radix: u64) -> (r: Option<u64>)
    requires
        2 <= radix <= 36,
    ensures
        r is Some == digit_value(c, radix as int) is Some,
        r matches Some(d) ==> d == digit_value(c, radix as int)->0,
{
    let d: u64 = if '0' <= c && c <= '9' {
        c as u64 - '0' as u64
    } else if 'a' <= c && c <= 'z' {
        c as u64 - 'a' as u64 + 10
    } else if 'A' <= c && c <= 'Z' {
        c as u64 - 'A' as u64 + 10
    } else {
        radix
    };
    if d < radix {
        Some(d)
    } else {
        None
    }
}

/// Once the leading part holds a character that is no digit, so does the whole.
proof fn lemma_bad_digit(s: Seq<char>, k: int, radix: int)
    requires
        0 <= k <= s.len(),
        digits_value(s.take(k), radix) is None,
    ensures
        digits_value(s, radix) is None,
    decreases s.len(),
{
    if k == s.len() {
        assert(s.take(k) =~= s);
    } else {
        assert(s.drop_last().take(k) =~= s.take(k));
        lemma_bad_digit(s.drop_last(), k, radix);
    }
}

/// Reads the digits from position `from` on; `None` where the number that they
/// write does not fit.
fn read_leading(v: &[char], from: usize, radix: u64) -> (r: Option<u64>)
    requires
        from <= v@.len(),
        2 <= radix <= 36,
    ensures
        match r {
            Some(n) => leading_value(v@.skip(from as int), radix as int) == n,
            None => leading_value(v@.skip(from as int), radix as int) > u64::MAX,
        },
{
    let ghost body = v@.skip(from as int);
    let mut i: usize = from;
    let mut acc: u64 = 0;
    let mut over: bool = false;
    proof {
        assert(body.take(0) =~= Seq::<char>::empty());
        assert(body.skip(0) =~= body);
    }
    while i < v.len()
        invariant_except_break
            from <= i <= v@.len(),
            leading_digits(body, radix as int) == i - from + leading_digits(
                body.skip(i - from),
                radix as int,
            ),
        invariant
            from <= i <= v@.len(),
            2 <= radix <= 36,
            body == v@.skip(from as int),
            digits_value(body.take(i - from), radix as int) is Some,
            !over ==> digits_value(body.take(i - from), radix as int) == Some(acc as int),
            over ==> digits_value(body.take(i - from), radix as int)->0 > u64::MAX,
        ensures
            leading_digits(body, radix as int) == i - from,
        decreases v@.len() - i,
    {
        let ghost next = body.take(i - from + 1);
        assert(next.drop_last() =~= body.take(i - from));
        assert(next.last() == v@[i as int]);
        assert(body.skip(i - from)[0] == v@[i as int]);
        assert(body.skip(i - from).skip(1) =~= body.skip(i - from + 1));
        match digit_of(v[i], radix) {
            None => {
                break;
            },
            Some(d) => {
                let ghost before = digits_value(body.take(i - from), radix as int)->0;
                assert(digits_value(next, radix as int) == Some(before * radix + d));
                if over {
                    assert(before * radix + d >= before) by (nonlinear_arith)
                        requires
                            before >= 0,
                            radix >= 1,
                            d >= 0,
                    ;
                } else {
                    match acc.checked_mul(radix) {
                        None => {
                            over = true;
                        },
                        Some(m) => match m.checked_add(d) {
                            None => {
                                over = true;
                            },
                            Some(n) => {
                                acc = n;
                            },
                        },
                    }
                }
            },
        }
        i = i + 1;
    }
    if over {
        None
    } else {
        Some(acc)
    }
}

/// Reads the number that the text starts with.
pub fn read_number(v: &[char], radix: u64) -> (r: u64)
    requires
        2 <= radix <= 36,
    ensures
        r == in_64_bits(leading_number(v@, radix as int)),
{
    let n: usize = v.len();
    let negative: bool = n > 0 && v[0] == '-';
    let mut from: usize = 0;
    if n > 0 && (v[0] == '+' || v[0] == '-') {
        from = 1;
    }
    assert(without_sign(v@) =~= v@.skip(from as int));
    let ghost body = v@.skip(from as int);
    if radix == 16 && n - from >= 2 && v[from] == '0' && (v[from + 1] == 'x' || v[from + 1]
        == 'X') {
        assert(body[0] == v@[from as int] && body[1] == v@[from + 1]);
        from = from + 2;
    } else if n - from >= 2 {
        assert(body[0] == v@[from as int] && body[1] == v@[from + 1]);
    }
    assert(without_prefix(body, radix as int) =~= v@.skip(from as int));
    let size: u64 = match read_leading(v, from, radix) {
        Some(size) => size,
        None => u64::MAX,
    };
    if !negative {
        if size > 0x7fff_ffff_ffff_ffff {
            0x7fff_ffff_ffff_ffff
        } else {
            size
        }
    } else if size > 0x8000_0000_0000_0000 {
        0x8000_0000_0000_0000
    } else if size > 0 {
        u64::MAX - size + 1
    } else {
        0
    }
}

/// Whether the whole text writes a decimal number other than 0.
pub fn is_nonzero(v: &[char]) -> (r: bool)
    ensures
        r == (whole_number(v@, 10) matches Some(n) && n != 0),
{
    let n: usize = v.len();
    let mut from: usize = 0;
    if n > 0 && (v[0] == '+' || v[0] == '-') {
        from = 1;
    }
    let ghost body = v@.skip(from as int);
    assert(without_sign(v@) =~= body);
    let mut i: usize = from;
    let mut nonzero: bool = false;
    assert(body.take(0) =~= Seq::<char>::empty());
    while i < n
        invariant
            from <= i <= n == v@.len(),
            body == v@.skip(from as int),
            without_sign(v@) == body,
            digits_value(body.take(i - from), 10) is Some,
            digits_value(body.take(i - from), 10)->0 >= 0,
            nonzero == (digits_value(body.take(i - from), 10)->0 != 0),
        decreases n - i,
    {
        let ghost next = body.take(i - from + 1);
        assert(next.drop_last() =~= body.take(i - from));
        assert(next.last() == v@[i as int]);
        match digit_of(v[i], 10) {
            None => {
                proof {
                    lemma_bad_digit(body, i - from + 1, 10);
                }
                return false;
            },
            Some(d) => {
                if d != 0 {
                    nonzero = true;
                }
            },
        }
        i = i + 1;
    }
    assert(body.take(i - from) =~= body);
    nonzero
}

/// The character that writes a digit, letters in lower case.
pub open spec fn digit_char(d: int) -> char {
    if d < 10 {
        (d + '0' as int) as char
    } else {
        (d - 10 + 'a' as int) as char
    }
}

/// The number written in the radix, without leading zeros.
pub open spec fn written(n: nat, radix: nat) -> Seq<char>
    decreases n,
{
    if radix < 2 || n < radix {
        seq![digit_char(n as int)]
    } else {
        proof {
            assert(n / radix < n) by (nonlinear_arith)
                requires
                    radix >= 2,
                    n >= radix,
            ;
        }
        written(n / radix, radix).push(digit_char((n % radix) as int))
    }
}

/// The number written in decimal.
pub open spec fn decimal(n: nat) -> Seq<char> {
    written(n, 10)
}

/// The number written in hexadecimal, letters in lower case.
pub open spec fn hexadecimal(n: nat) -> Seq<char> {
    written(n, 16)
}

proof fn lemma_quotient_smaller(n: nat, radix: nat)
    requires
        radix >= 2,
        n >= radix,
    ensures
        n / radix < n,
{
    assert(n / radix < n) by (nonlinear_arith)
        requires
            radix >= 2,
            n >= radix,
    ;
}

fn char_of_digit(d: u64) -> (c: char)
    requires
        d < 36,
    ensures
        c == digit_char(d as int),
{
    if d < 10 {
        (d as u8 + 48u8) as char
    } else {
        (d as u8 + 87u8) as char
    }
}

fn write_digits(n: u64, radix: u64) -> (v: Vec<char>)
    requires
        2 <= radix <= 36,
    ensures
        v@ == written(n as nat, radix as nat),
    decreases n,
{
    if n < radix {
        let mut v: Vec<char> = Vec::new();
        v.push(char_of_digit(n));
        assert(v@ =~= written(n as nat, radix as nat));
        v
    } else {
        proof {
            lemma_quotient_smaller(n as nat, radix as nat);
        }
        let mut v = write_digits(n / radix, radix);
        v.push(char_of_digit(n % radix));
        v
    }
}

/// Writes the number in decimal.
pub fn to_decimal(n: u64) -> (s: String)
    ensures
        s@ == decimal(n as nat),
{
    let v = write_digits(n, 10);
    crate::text::string_of(&v)
}

/// Writes the number in hexadecimal, letters in lower case.
pub fn to_hexadecimal(n: u64) -> (s: String)
    ensures
        s@ == hexadecimal(n as nat),
{
    let v = write_digits(n, 16);
    crate::text::string_of(&v)
}

proof fn lemma_digit_char(d: int, radix: int)
    requires
        0 <= d < radix <= 36,
    ensures
        digit_value(digit_char(d), radix) == Some(d),
{
}

proof fn lemma_written_digits(n: nat, radix: nat)
    requires
        2 <= radix <= 36,
    ensures
        digits_value(written(n, radix), radix as int) == Some(n as int),
        written(n, radix).len() > 0,
        forall|i: int|
            0 <= i < written(n, radix).len() ==> digit_value(
                #[trigger] written(n, radix)[i],
                radix as int,
            ) is Some,
    decreases n,
{
    if n < radix {
        lemma_digit_char(n as int, radix as int);
        assert(written(n, radix).drop_last() =~= Seq::<char>::empty());
        assert(digits_value(Seq::<char>::empty(), radix as int) == Some(0int));
        assert(0 * (radix as int) == 0) by (nonlinear_arith);
    } else {
        lemma_quotient_smaller(n, radix);
        lemma_written_digits(n / radix, radix);
        lemma_digit_char((n % radix) as int, radix as int);
        let shorter = written(n / radix, radix);
        assert(written(n, radix).drop_last() =~= shorter);
        assert((n / radix) * radix + n % radix == n) by (nonlinear_arith)
            requires
                radix >= 2,
        ;
    }
}

/// A number is written with at least one character, and with digits alone.
pub proof fn law_written_in_digits(n: nat, radix: nat)
    requires
        2 <= radix <= 36,
    ensures
        written(n, radix).len() > 0,
        forall|i: int|
            0 <= i < written(n, radix).len() ==> digit_value(
                #[trigger] written(n, radix)[i],
                radix as int,
            ) is Some,
{
    lemma_written_digits(n, radix);
}

proof fn lemma_leading_run(s: Seq<char>, behind: Seq<char>, radix: int)
    requires
        forall|i: int| 0 <= i < s.len() ==> digit_value(#[trigger] s[i], radix) is Some,
        behind.len() > 0 ==> digit_value(behind[0], radix) is None,
    ensures
        leading_digits(s + behind, radix) == s.len(),
    decreases s.len(),
{
    if s.len() > 0 {
        assert forall|i: int| 0 <= i < s.skip(1).len() implies digit_value(
            #[trigger] s.skip(1)[i],
            radix,
        ) is Some by {
            assert(s.skip(1)[i] == s[i + 1]);
        }
        lemma_leading_run(s.skip(1), behind, radix);
        assert((s + behind).skip(1) =~= s.skip(1) + behind);
        assert(digit_value(s[0], radix) is Some);
    } else {
        assert(s + behind =~= behind);
    }
}

/// Reading a number that was written gives the number back, in every radix, and
/// whatever stands behind it that starts with no digit.
pub proof fn law_read_back(n: nat, radix: nat, behind: Seq<char>)
    requires
        2 <= radix <= 36,
        behind.len() > 0 ==> digit_value(behind[0], radix as int) is None,
        radix == 16 && n == 0 && behind.len() > 0 ==> behind[0] != 'x' && behind[0] != 'X',
    ensures
        leading_number(written(n, radix) + behind, radix as int) == n,
        whole_number(written(n, radix), radix as int) == Some(n as int),
{
    lemma_written_digits(n, radix);
    let w = written(n, radix);
    let s = w + behind;
    assert(digit_value(w[0], radix as int) is Some);
    assert(digit_value('+', radix as int) is None);
    assert(digit_value('-', radix as int) is None);
    assert(s[0] == w[0]);
    if s.len() >= 2 && w.len() >= 2 {
        assert(s[1] == w[1]);
        assert(digit_value(w[1], radix as int) is Some);
    }
    lemma_leading_run(w, behind, radix as int);
    assert(s.take(w.len() as int) =~= w);
    if n >= radix {
        lemma_quotient_smaller(n, radix);
        lemma_written_digits(n / radix, radix);
    }
}

/// In hexadecimal, a `0x` or `0X` before the number makes no difference.
pub proof fn law_prefix_is_skipped(n: nat, x: char)
    requires
        x == 'x' || x == 'X',
    ensures
        leading_number(seq!['0', x] + hexadecimal(n), 16) == n,
{
    let s = seq!['0', x] + hexadecimal(n);
    assert(s[0] == '0' && s[1] == x);
    assert(s.skip(2) =~= hexadecimal(n));
    lemma_written_digits(n, 16);
    lemma_leading_run(hexadecimal(n), Seq::empty(), 16);
    assert(hexadecimal(n) + Seq::<char>::empty() =~= hexadecimal(n));
    assert(hexadecimal(n).take(hexadecimal(n).len() as int) =~= hexadecimal(n));
}

/// The character, in upper case where it is a letter from `a` to `f`.
pub open spec fn upper(c: char) -> char {
    if 'a' <= c <= 'f' {
        (c as int - 'a' as int + 'A' as int) as char
    } else {
        c
    }
}

/// The number written in hexadecimal, letters in upper case.
pub open spec fn upper_hexadecimal(n: nat) -> Seq<char> {
    hexadecimal(n).map_values(|c: char| upper(c))
}

proof fn lemma_upper_digit(c: char)
    ensures
        digit_value(upper(c), 16) == digit_value(c, 16),
{
}

proof fn lemma_upper_value(s: Seq<char>)
    ensures
        digits_value(s.map_values(|c: char| upper(c)), 16) == digits_value(s, 16),
    decreases s.len(),
{
    let t = s.map_values(|c: char| upper(c));
    if s.len() > 0 {
        lemma_upper_value(s.drop_last());
        lemma_upper_digit(s.last());
        assert(t.drop_last() =~= s.drop_last().map_values(|c: char| upper(c)));
        assert(t.last() == upper(s.last()));
    }
}

/// Letters in upper case are read back as well.
pub proof fn law_upper_read_back(n: nat)
    ensures
        upper_hexadecimal(n).len() > 0,
        forall|i: int|
            0 <= i < upper_hexadecimal(n).len() ==> digit_value(
                #[trigger] upper_hexadecimal(n)[i],
                16,
            ) is Some,
        leading_number(upper_hexadecimal(n), 16) == n,
{
    let s = hexadecimal(n);
    let t = upper_hexadecimal(n);
    lemma_written_digits(n, 16);
    lemma_upper_value(s);
    assert forall|i: int| 0 <= i < t.len() implies digit_value(#[trigger] t[i], 16) is Some by {
        lemma_upper_digit(s[i]);
        assert(t[i] == upper(s[i]));
    }
    assert(digit_value(t[0], 16) is Some);
    assert(t.len() > 1 ==> digit_value(t[1], 16) is Some);
    lemma_leading_run(t, Seq::empty(), 16);
    assert(t + Seq::<char>::empty() =~= t);
    assert(t.take(t.len() as int) =~= t);
}

/// Which characters are digits: in the digits and letters of either case, the one
/// at each position has the position as its value, where the radix goes beyond
/// it; no other character has a value.
pub proof fn law_digits(c: char, radix: int)
    requires
        2 <= radix <= 36,
    ensures
        forall|d: int|
            0 <= d < radix ==> digit_value(
                #[trigger] "0123456789abcdefghijklmnopqrstuvwxyz"@[d],
                radix,
            ) == Some(d),
        forall|d: int|
            0 <= d < radix ==> digit_value(
                #[trigger] "0123456789ABCDEFGHIJKLMNOPQRSTUVWXYZ"@[d],
                radix,
            ) == Some(d),
        digit_value(c, radix) matches Some(d) ==> 0 <= d < radix && (c
            == "0123456789abcdefghijklmnopqrstuvwxyz"@[d] || c
            == "0123456789ABCDEFGHIJKLMNOPQRSTUVWXYZ"@[d]),
{
    reveal_strlit("0123456789abcdefghijklmnopqrstuvwxyz");
    reveal_strlit("0123456789ABCDEFGHIJKLMNOPQRSTUVWXYZ");
    let low = "0123456789abcdefghijklmnopqrstuvwxyz"@;
    let high = "0123456789ABCDEFGHIJKLMNOPQRSTUVWXYZ"@;
    assert forall|d: int| 0 <= d < 36 implies (#[trigger] low[d]) as int == (if d < 10 {
        48 + d
    } else {
        87 + d
    }) by {
        lemma_low(d);
    }
    assert forall|d: int| 0 <= d < 36 implies (#[trigger] high[d]) as int == (if d < 10 {
        48 + d
    } else {
        55 + d
    }) by {
        lemma_high(d);
    }
}

proof fn lemma_low(d: int)
    requires
        0 <= d < 36,
    ensures
        "0123456789abcdefghijklmnopqrstuvwxyz"@[d] as int == (if d < 10 {
            48 + d
        } else {
            87 + d
        }),
{
    reveal_strlit("0123456789abcdefghijklmnopqrstuvwxyz");
}

proof fn lemma_high(d: int)
    requires
        0 <= d < 36,
    ensures
        "0123456789ABCDEFGHIJKLMNOPQRSTUVWXYZ"@[d] as int == (if d < 10 {
            48 + d
        } else {
            55 + d
        }),
{
    reveal_strlit("0123456789ABCDEFGHIJKLMNOPQRSTUVWXYZ");
}

/// Digits write the sum of their values, each times the weight of its place: a
/// digit more at the front adds its value times the radix to the number of digits
/// behind it. Where one is no digit they write nothing.
pub proof fn law_digits_sum(c: char, s: Seq<char>, radix: int)
    ensures
        digits_value(Seq::empty(), radix) == Some(0int),
        match (digit_value(c, radix), digits_value(s, radix)) {
            (Some(d), Some(v)) => digits_value(seq![c] + s, radix) == Some(
                d * vstd::arithmetic::power::pow(radix, s.len()) + v,
            ),
            _ => digits_value(seq![c] + s, radix) is None,
        },
    decreases s.len(),
{
    let all = seq![c] + s;
    vstd::arithmetic::power::lemma_pow0(radix);
    if s.len() == 0 {
        assert(all.drop_last() =~= Seq::<char>::empty());
        assert(all.last() == c);
        assert(digits_value(Seq::<char>::empty(), radix) == Some(0int));
        if let Some(d) = digit_value(c, radix) {
            assert(0 * radix == 0) by (nonlinear_arith);
            assert(d * 1 == d);
        }
    } else {
        law_digits_sum(c, s.drop_last(), radix);
        assert(all.drop_last() =~= seq![c] + s.drop_last());
        assert(all.last() == s.last());
        let less = (s.len() - 1) as nat;
        let p = vstd::arithmetic::power::pow(radix, less);
        vstd::arithmetic::power::lemma_pow_adds(radix, 1, less);
        vstd::arithmetic::power::lemma_pow1(radix);
        if let (Some(d), Some(v), Some(e)) = (
            digit_value(c, radix),
            digits_value(s.drop_last(), radix),
            digit_value(s.last(), radix),
        ) {
            assert((d * p + v) * radix + e == d * (radix * p) + (v * radix + e))
                by (nonlinear_arith);
        }
    }
}

/// A number is written without zeros at its front, and with letters in lower case
/// alone.
pub proof fn law_written_plainly(n: nat, radix: nat)
    requires
        2 <= radix <= 36,
    ensures
        n > 0 ==> written(n, radix)[0] != '0',
        n == 0 ==> written(n, radix) == seq!['0'],
        forall|i: int|
            0 <= i < written(n, radix).len() ==> !('A' <= #[trigger] written(n, radix)[i] <= 'Z'),
    decreases n,
{
    lemma_written_digits(n, radix);
    if n >= radix {
        lemma_quotient_smaller(n, radix);
        law_written_plainly(n / radix, radix);
        lemma_written_digits(n / radix, radix);
        assert(n / radix > 0) by (nonlinear_arith)
            requires
                n >= radix,
                radix >= 2,
        ;
        assert(written(n, radix)[0] == written(n / radix, radix)[0]);
        assert(n % radix < radix);
    }
}

/// Decimal is radix 10, and hexadecimal is radix 16.
pub proof fn law_radices(n: nat)
    ensures
        digits_value(decimal(n), 10) == Some(n as int),
        digits_value(hexadecimal(n), 16) == Some(n as int),
        decimal(n).len() > 0,
        hexadecimal(n).len() > 0,
        n > 0 ==> decimal(n)[0] != '0' && hexadecimal(n)[0] != '0',
        n == 0 ==> decimal(n) == seq!['0'] && hexadecimal(n) == seq!['0'],
        forall|i: int|
            0 <= i < hexadecimal(n).len() ==> !('A' <= #[trigger] hexadecimal(n)[i] <= 'Z'),
{
    lemma_written_digits(n, 10);
    lemma_written_digits(n, 16);
    law_written_plainly(n, 10);
    law_written_plainly(n, 16);
}

/// Whether the text is digits of the radix alone.
pub open spec fn all_digits(s: Seq<char>, radix: int) -> bool {
    forall|i: int| 0 <= i < s.len() ==> digit_value(#[trigger] s[i], radix) is Some
}

/// Reading takes all digits at the front of a text, leading zeros among them, and
/// stops at the first character that is none; without a sign that is the number,
/// and so it is behind a `+`; behind a `-` it is the negative; and in hexadecimal
/// a `0x` or `0X` before the digits is skipped.
pub proof fn law_leading_number(digits: Seq<char>, behind: Seq<char>, radix: int)
    requires
        2 <= radix <= 36,
        all_digits(digits, radix),
        behind.len() > 0 ==> digit_value(behind[0], radix) is None,
        radix == 16 && digits == seq!['0'] && behind.len() > 0 ==> behind[0] != 'x' && behind[0]
            != 'X',
        digits.len() == 0 && behind.len() > 0 ==> behind[0] != '+' && behind[0] != '-',
    ensures
        digits_value(digits, radix) is Some,
        leading_number(digits + behind, radix) == digits_value(digits, radix)->0,
        leading_number(seq!['+'] + (digits + behind), radix) == digits_value(digits, radix)->0,
        leading_number(seq!['-'] + (digits + behind), radix) == -digits_value(digits, radix)->0,
        radix == 16 ==> leading_number(seq!['0', 'x'] + (digits + behind), radix) == digits_value(
            digits,
            radix,
        )->0,
        radix == 16 ==> leading_number(seq!['0', 'X'] + (digits + behind), radix) == digits_value(
            digits,
            radix,
        )->0,
{
    let s = digits + behind;
    lemma_all_some(digits, radix);
    lemma_leading_run(digits, behind, radix);
    assert(s.take(digits.len() as int) =~= digits);
    assert(digit_value('+', radix) is None && digit_value('-', radix) is None);
    if digits.len() > 0 {
        assert(s[0] == digits[0]);
        assert(digit_value(digits[0], radix) is Some);
    } else if behind.len() > 0 {
        assert(s[0] == behind[0]);
    }
    if radix == 16 {
        assert(digit_value('x', 16) is None && digit_value('X', 16) is None);
    }
    if s.len() >= 2 && digits.len() >= 2 {
        assert(s[1] == digits[1]);
        assert(digit_value(digits[1], radix) is Some);
    } else if s.len() >= 2 && digits.len() == 1 {
        assert(s[1] == behind[0]);
        assert(digits[0] == '0' ==> digits =~= seq!['0']);
    } else if digits.len() == 0 && s.len() >= 2 {
        assert(radix == 16 ==> digit_value('0', 16) is Some);
    }
    assert(without_prefix(s, radix) == s);
    assert((seq!['+'] + s).skip(1) =~= s);
    assert((seq!['-'] + s).skip(1) =~= s);
    assert((seq!['0', 'x'] + s).skip(2) =~= s);
    assert((seq!['0', 'X'] + s).skip(2) =~= s);
    assert((seq!['0', 'x'] + s)[1] == 'x');
    assert((seq!['0', 'X'] + s)[1] == 'X');
}

proof fn lemma_all_some(s: Seq<char>, radix: int)
    requires
        all_digits(s, radix),
    ensures
        digits_value(s, radix) is Some,
    decreases s.len(),
{
    if s.len() > 0 {
        assert forall|i: int| 0 <= i < s.drop_last().len() implies digit_value(
            #[trigger] s.drop_last()[i],
            radix,
        ) is Some by {
            assert(s.drop_last()[i] == s[i]);
        }
        lemma_all_some(s.drop_last(), radix);
        assert(digit_value(s[s.len() - 1], radix) is Some);
    }
}

proof fn lemma_some_all(s: Seq<char>, radix: int)
    requires
        digits_value(s, radix) is Some,
    ensures
        all_digits(s, radix),
    decreases s.len(),
{
    if s.len() > 0 {
        lemma_some_all(s.drop_last(), radix);
        assert forall|i: int| 0 <= i < s.len() implies digit_value(#[trigger] s[i], radix)
            is Some by {
            if i < s.len() - 1 {
                assert(s.drop_last()[i] == s[i]);
            }
        }
    }
}

/// A whole text is a number exactly where it is at least one digit, behind an
/// optional sign, and nothing else; it is the number that the digits write, or
/// its negative behind a `-`.
pub proof fn law_whole_number(s: Seq<char>, radix: int)
    requires
        2 <= radix <= 36,
    ensures
        s.len() > 0 && all_digits(s, radix) ==> whole_number(s, radix) == digits_value(s, radix)
            && digits_value(s, radix) is Some,
        s.len() > 0 && all_digits(s, radix) ==> whole_number(seq!['+'] + s, radix) == digits_value(
            s,
            radix,
        ),
        s.len() > 0 && all_digits(s, radix) ==> whole_number(seq!['-'] + s, radix) == Some(
            -digits_value(s, radix)->0,
        ),
        whole_number(s, radix) is Some ==> (s.len() > 0 && all_digits(s, radix)) || (s.len() > 1
            && (s[0] == '+' || s[0] == '-') && all_digits(s.skip(1), radix)),
{
    assert(digit_value('+', radix) is None && digit_value('-', radix) is None);
    if s.len() > 0 && all_digits(s, radix) {
        lemma_all_some(s, radix);
        assert(digit_value(s[0], radix) is Some);
        assert((seq!['+'] + s).skip(1) =~= s);
        assert((seq!['-'] + s).skip(1) =~= s);
    }
    if whole_number(s, radix) is Some {
        lemma_some_all(without_sign(s), radix);
    }
}

/// What a sign does to whatever stands behind it, a `0x` among it: a `-` gives the
/// negative of what a `+` gives; a `+` changes nothing; and behind a sign a second
/// one is no number.
pub proof fn law_signs(t: Seq<char>, radix: int)
    requires
        2 <= radix <= 36,
    ensures
        leading_number(seq!['-'] + t, radix) == -leading_number(seq!['+'] + t, radix),
        t.len() == 0 || (t[0] != '+' && t[0] != '-') ==> leading_number(seq!['+'] + t, radix)
            == leading_number(t, radix),
        t.len() > 0 && (t[0] == '+' || t[0] == '-') ==> leading_number(seq!['+'] + t, radix) == 0,
{
    assert((seq!['+'] + t).skip(1) =~= t);
    assert((seq!['-'] + t).skip(1) =~= t);
    assert(digit_value('+', radix) is None && digit_value('-', radix) is None);
    if t.len() > 0 && (t[0] == '+' || t[0] == '-') {
        assert(leading_digits(t, radix) == 0);
        assert(t.take(0) =~= Seq::<char>::empty());
    }
}

} // verus!
