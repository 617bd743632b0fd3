//! Wide text: UTF-16 code units to characters and back, and the NUL that ends
//! a wide string.

use vstd::prelude::*;

verus! {

/// `char::from_u32` gives the character with the number, where the number is a
/// Unicode scalar value: at most 0x10FFFF and no surrogate.
pub assume_specification[ char::from_u32 ](i: u32) -> (r: Option<char>)
    ensures
        r is Some <==> (i < 0xD800 || 0xDFFF < i <= 0x10FFFF),
        r matches Some(c) ==> c as u32 == i,
;

/// The character that stands for code units that encode nothing.
pub const REPLACEMENT: char = '\u{fffd}';

/// Whether the code unit is the first of a surrogate pair.
pub open spec fn high_surrogate(u: u16) -> bool {
    0xD800 <= u <= 0xDBFF
}

/// Whether the code unit is the second of a surrogate pair.
pub open spec fn low_surrogate(u: u16) -> bool {
    0xDC00 <= u <= 0xDFFF
}

/// The number of the character that a surrogate pair encodes.
pub open spec fn pair_value(high: u16, low: u16) -> int {
    0x10000 + (high - 0xD800) * 0x400 + (low - 0xDC00)
}

/// The characters that the code units encode; each surrogate outside a pair
/// gives the replacement character.
pub open spec fn decoded(s: Seq<u16>) -> Seq<char>
    decreases s.len(),
{
    if s.len() == 0 {
        Seq::empty()
    } else if high_surrogate(s[0]) && s.len() > 1 && low_surrogate(s[1]) {
        seq![pair_value(s[0], s[1]) as char] + decoded(s.skip(2))
    } else if high_surrogate(s[0]) || low_surrogate(s[0]) {
        seq![REPLACEMENT] + decoded(s.skip(1))
    } else {
        seq![s[0] as char] + decoded(s.skip(1))
    }
}

/// The code units that encode the character.
pub open spec fn units_of(c: char) -> Seq<u16> {
    if c as int <= 0xFFFF {
        seq![c as u16]
    } else {
        seq![
            (0xD800 + (c as int - 0x10000) / 0x400) as u16,
            (0xDC00 + (c as int - 0x10000) % 0x400) as u16,
        ]
    }
}

/// The code units that encode the text.
pub open spec fn encoded(s: Seq<char>) -> Seq<u16>
    decreases s.len(),
{
    if s.len() == 0 {
        Seq::empty()
    } else {
        units_of(s[0]) + encoded(s.skip(1))
    }
}

/// The position of the first NUL, or the length where there is none.
pub open spec fn nul_index(s: Seq<u16>) -> int
    decreases s.len(),
{
    if s.len() == 0 || s[0] == 0 {
        0
    } else {
        1 + nul_index(s.skip(1))
    }
}

/// The text of a wide string that ends before its first NUL, if it has one.
pub open spec fn wide_text(s: Seq<u16>) -> Seq<char> {
    decoded(s.take(nul_index(s)))
}

/// The code units with a NUL behind them, where none is last.
pub open spec fn with_nul(s: Seq<u16>) -> Seq<u16> {
    if s.len() > 0 && s.last() == 0 {
        s
    } else {
        s.push(0)
    }
}

fn scalar(i: u32) -> (c: char)
    requires
        i < 0xD800 || 0xDFFF < i <= 0x10FFFF,
    ensures
        c as u32 == i,
{
    match char::from_u32(i) {
        Some(c) => c,
        None => REPLACEMENT,
    }
}

/// Decodes UTF-16, with the replacement character for what encodes nothing.
pub fn decode(s: &[u16]) -> (r: String)
    ensures
        r@ == decoded(s@),
{
    let mut r = String::new();
    let mut i: usize = 0;
    assert(s@.skip(0) =~= s@);
    assert(r@ + decoded(s@) =~= decoded(s@));
    while i < s.len()
        invariant
            i <= s@.len(),
            r@ + decoded(s@.skip(i as int)) == decoded(s@),
        decreases s@.len() - i,
    {
        let ghost rest = s@.skip(i as int);
        let ghost before = r@;
        let u: u16 = s[i];
        assert(rest[0] == u);
        if 0xD800 <= u && u <= 0xDBFF && i + 1 < s.len() && 0xDC00 <= s[i + 1] && s[i + 1] <= 0xDFFF {
            let low: u16 = s[i + 1];
            assert(rest[1] == low);
            let n: u32 = 0x10000 + (u as u32 - 0xD800) * 0x400 + (low as u32 - 0xDC00);
            let c = scalar(n);
            r.push(c);
            assert(rest.skip(2) =~= s@.skip(i + 2));
            assert(decoded(rest) == seq![c] + decoded(s@.skip(i + 2)));
            i = i + 2;
        } else if 0xD800 <= u && u <= 0xDFFF {
            r.push(REPLACEMENT);
            assert(rest.skip(1) =~= s@.skip(i + 1));
            assert(decoded(rest) == seq![REPLACEMENT] + decoded(s@.skip(i + 1)));
            i = i + 1;
        } else {
            let c = scalar(u as u32);
            r.push(c);
            assert(rest.skip(1) =~= s@.skip(i + 1));
            assert(decoded(rest) == seq![c] + decoded(s@.skip(i + 1)));
            i = i + 1;
        }
        assert(r@ + decoded(s@.skip(i as int)) =~= before + decoded(rest));
    }
    assert(s@.skip(i as int) =~= Seq::<u16>::empty());
    assert(r@ + decoded(s@.skip(i as int)) =~= r@);
    r
}

proof fn lemma_scalar(c: char)
    ensures
        0 <= c as int <= 0x10FFFF,
        !(0xD800 <= c as int <= 0xDFFF),
        c as u32 as char == c,
        (c as int) as char == c,
{
}

/// Encodes text as UTF-16.
pub fn encode(s: &str) -> (r: Vec<u16>)
    ensures
        r@ == encoded(s@),
{
    let v = crate::text::chars_of(s);
    let mut r: Vec<u16> = Vec::new();
    let mut i: usize = 0;
    assert(v@.skip(0) =~= v@);
    assert(r@ + encoded(v@) =~= encoded(v@));
    while i < v.len()
        invariant
            i <= v@.len(),
            v@ == s@,
            r@ + encoded(v@.skip(i as int)) == encoded(s@),
        decreases v@.len() - i,
    {
        let ghost rest = v@.skip(i as int);
        let ghost before = r@;
        let c: char = v[i];
        proof {
            lemma_scalar(c);
        }
        let n: u32 = c as u32;
        if n <= 0xFFFF {
            r.push(n as u16);
        } else {
            r.push((0xD800 + (n - 0x10000) / 0x400) as u16);
            r.push((0xDC00 + (n - 0x10000) % 0x400) as u16);
        }
        i = i + 1;
        assert(rest.skip(1) =~= v@.skip(i as int));
        assert(r@ =~= before + units_of(c));
        assert(r@ + encoded(v@.skip(i as int)) =~= before + encoded(rest));
    }
    assert(v@.skip(i as int) =~= Seq::<char>::empty());
    assert(r@ + encoded(v@.skip(i as int)) =~= r@);
    r
}

/// Finds the first NUL, or the length where there is none.
pub fn find_nul(s: &[u16]) -> (r: usize)
    ensures
        r == nul_index(s@),
        r <= s@.len(),
{
    let mut i: usize = 0;
    assert(s@.skip(0) =~= s@);
    while i < s.len() && s[i] != 0
        invariant
            i <= s@.len(),
            nul_index(s@) == i + nul_index(s@.skip(i as int)),
        decreases s@.len() - i,
    {
        assert(s@.skip(i as int).skip(1) =~= s@.skip(i + 1));
        i = i + 1;
    }
    i
}

/// Copies the code units, and puts a NUL behind them where none is last.
pub fn nul_terminated(s: &[u16]) -> (r: Vec<u16>)
    ensures
        r@ == with_nul(s@),
{
    let mut r: Vec<u16> = Vec::new();
    let mut i: usize = 0;
    while i < s.len()
        invariant
            i <= s@.len(),
            r@ == s@.take(i as int),
        decreases s@.len() - i,
    {
        r.push(s[i]);
        i = i + 1;
        assert(r@ =~= s@.take(i as int));
    }
    assert(r@ =~= s@);
    if s.len() == 0 || s[s.len() - 1] != 0 {
        r.push(0);
    }
    r
}

/// Decoding what was encoded gives the text back.
pub proof fn law_decode_encoded(s: Seq<char>)
    ensures
        decoded(encoded(s)) == s,
    decreases s.len(),
{
    if s.len() == 0 {
        assert(s =~= Seq::<char>::empty());
    } else {
        let rest = encoded(s.skip(1));
        let units = units_of(s[0]);
        law_decode_encoded(s.skip(1));
        lemma_scalar(s[0]);
        assert(encoded(s).skip(units.len() as int) =~= rest);
        assert(encoded(s)[0] == units[0]);
        if units.len() == 2 {
            assert(encoded(s)[1] == units[1]);
        }
        assert(seq![s[0]] + s.skip(1) =~= s);
    }
}

proof fn lemma_no_nul(s: Seq<char>, rest: Seq<u16>)
    requires
        !s.contains('\0'),
    ensures
        nul_index(encoded(s) + rest) == encoded(s).len() + nul_index(rest),
    decreases s.len(),
{
    if s.len() == 0 {
        assert(encoded(s) + rest =~= rest);
    } else {
        let units = units_of(s[0]);
        let tail = encoded(s.skip(1)) + rest;
        lemma_scalar(s[0]);
        assert(s.contains(s[0]));
        assert(!s.skip(1).contains('\0')) by {
            if s.skip(1).contains('\0') {
                let k = choose|k: int| 0 <= k < s.skip(1).len() && s.skip(1)[k] == '\0';
                assert(s[k + 1] == '\0');
            }
        }
        lemma_no_nul(s.skip(1), rest);
        let whole = encoded(s) + rest;
        assert(units[0] != 0);
        reveal_with_fuel(nul_index, 3);
        assert(whole =~= units + tail);
        assert(whole[0] == units[0]);
        if units.len() == 1 {
            assert(whole.skip(1) =~= tail);
        } else {
            assert(whole.skip(1)[0] == units[1]);
            assert(whole.skip(1).skip(1) =~= tail);
        }
    }
}

/// A wide string gives back the text that it was made of, whether it ends in a
/// NUL or not, and whatever stands behind the NUL.
pub proof fn law_wide_text(s: Seq<char>, behind: Seq<u16>)
    requires
        !s.contains('\0'),
    ensures
        wide_text(encoded(s)) == s,
        wide_text(encoded(s).push(0) + behind) == s,
{
    law_decode_encoded(s);
    lemma_no_nul(s, Seq::empty());
    assert(encoded(s) + Seq::<u16>::empty() =~= encoded(s));
    assert(encoded(s).take(encoded(s).len() as int) =~= encoded(s));
    let tail = seq![0u16] + behind;
    lemma_no_nul(s, tail);
    assert(encoded(s).push(0) + behind =~= encoded(s) + tail);
    assert((encoded(s) + tail).take(encoded(s).len() as int) =~= encoded(s));
}

/// A character below 0x10000 is one unit, its own number; every other is two, a
/// first from 0xD800 on and a second from 0xDC00 on, which hold the ten high and
/// the ten low bits of what the number is beyond 0x10000.
pub proof fn law_units(c: char)
    ensures
        c as int <= 0xFFFF ==> units_of(c).len() == 1 && units_of(c)[0] == c as int,
        c as int > 0xFFFF ==> units_of(c).len() == 2 && 0xD800 <= units_of(c)[0] <= 0xDBFF && 0xDC00
            <= units_of(c)[1] <= 0xDFFF && (units_of(c)[0] - 0xD800) * 1024 + (units_of(c)[1]
            - 0xDC00) + 0x10000 == c as int,
{
    lemma_scalar(c);
}

/// A text is encoded character by character.
pub proof fn law_encoded_in_order(a: Seq<char>, b: Seq<char>)
    ensures
        encoded(a + b) == encoded(a) + encoded(b),
        a.len() == 1 ==> encoded(a) == units_of(a[0]),
    decreases a.len(),
{
    if a.len() == 0 {
        assert(a + b =~= b);
        assert(encoded(a) + encoded(b) =~= encoded(b));
    } else {
        law_encoded_in_order(a.skip(1), b);
        assert((a + b).skip(1) =~= a.skip(1) + b);
        assert(encoded(a + b) =~= encoded(a) + encoded(b));
        if a.len() == 1 {
            assert(a.skip(1).len() == 0);
            assert(encoded(a) =~= units_of(a[0]));
        }
    }
}

/// Text in ASCII has one unit for each character, its number.
pub proof fn law_ascii_units(s: Seq<char>)
    requires
        forall|i: int| 0 <= i < s.len() ==> #[trigger] s[i] <= '\u{7f}',
    ensures
        encoded(s).len() == s.len(),
        forall|i: int| 0 <= i < s.len() ==> (#[trigger] encoded(s)[i]) as int == s[i] as int,
    decreases s.len(),
{
    if s.len() > 0 {
        let rest = s.skip(1);
        assert forall|i: int| 0 <= i < rest.len() implies #[trigger] rest[i] <= '\u{7f}' by {
            assert(rest[i] == s[i + 1]);
        }
        assert(s[0] <= '\u{7f}');
        law_ascii_units(rest);
        lemma_scalar(s[0]);
        assert forall|i: int| 0 <= i < s.len() implies (#[trigger] encoded(s)[i]) as int
            == s[i] as int by {
            if i > 0 {
                assert(encoded(s)[i] == encoded(rest)[i - 1]);
                assert(rest[i - 1] == s[i]);
            }
        }
    }
}

/// Units are decoded from the front: a pair of a first and a second unit gives
/// the character with the bits of both, a unit that is neither gives the
/// character with its number, and one that stands outside a pair gives U+FFFD.
pub proof fn law_decoded_in_order(s: Seq<u16>)
    requires
        s.len() > 0,
    ensures
        ({
            let first = 0xD800 <= s[0] <= 0xDBFF;
            let second = 0xDC00 <= s[0] <= 0xDFFF;
            let paired = first && s.len() > 1 && 0xDC00 <= s[1] <= 0xDFFF;
            let d = decoded(s);
            &&& d.len() > 0
            &&& paired ==> d[0] as int == 0x10000 + (s[0] - 0xD800) * 1024 + (s[1] - 0xDC00)
                && d.skip(1) == decoded(s.skip(2))
            &&& !paired ==> d.skip(1) == decoded(s.skip(1))
            &&& !paired && (first || second) ==> d[0] == '\u{fffd}'
            &&& !first && !second ==> d[0] as int == s[0]
        }),
        decoded(Seq::empty()) == Seq::<char>::empty(),
{
    let d = decoded(s);
    if high_surrogate(s[0]) && s.len() > 1 && low_surrogate(s[1]) {
        assert(d.skip(1) =~= decoded(s.skip(2)));
    } else {
        assert(d.skip(1) =~= decoded(s.skip(1)));
    }
}

/// A wide string is what stands before its first NUL, or all of it where it has
/// none.
pub proof fn law_wide_text_ends(s: Seq<u16>, k: int)
    requires
        0 <= k <= s.len(),
        forall|j: int| 0 <= j < k ==> s[j] != 0,
        k < s.len() ==> s[k] == 0,
    ensures
        nul_index(s) == k,
        wide_text(s) == decoded(s.take(k)),
    decreases k,
{
    if k > 0 {
        assert forall|j: int| 0 <= j < k - 1 implies s.skip(1)[j] != 0 by {
            assert(s.skip(1)[j] == s[j + 1]);
        }
        law_wide_text_ends(s.skip(1), k - 1);
    }
}

} // verus!
