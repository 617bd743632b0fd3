//! Text as a sequence of characters: conversions, comparison and trimming.

use vstd::prelude::*;

verus! {

/// `String::push` puts the character behind the text that the string holds.
pub assume_specification[ String::push ](s: &mut String, c: char)
    ensures
        final(s)@ == old(s)@.push(c),
;

/// The characters of a string slice, in order.
pub fn chars_of(s: &str) -> (v: Vec<char>)
    ensures
        v@ == s@,
{
    let mut v: Vec<char> = Vec::new();
    for c in it: s.chars()
        invariant
            it.seq() == s@,
            v@ == s@.take(it.index()),
    {
        v.push(c);
        assert(v@ =~= s@.take(it.index() + 1));
    }
    v
}

/// The string made of the given characters.
pub fn string_of(v: &[char]) -> (s: String)
    ensures
        s@ == v@,
{
    let mut s = String::new();
    let mut i: usize = 0;
    while i < v.len()
        invariant
            i <= v@.len(),
            s@ == v@.take(i as int),
        decreases v@.len() - i,
    {
        s.push(v[i]);
        i = i + 1;
        assert(s@ =~= v@.take(i as int));
    }
    assert(v@.take(i as int) =~= v@);
    s
}

/// Whether two string slices hold the same characters.
pub fn same_text(a: &str, b: &str) -> (r: bool)
    ensures
        r == (a@ == b@),
{
    let x = chars_of(a);
    let y = chars_of(b);
    if x.len() != y.len() {
        return false;
    }
    let mut i: usize = 0;
    while i < x.len()
        invariant
            i <= x@.len(),
            x@ == a@,
            y@ == b@,
            x@.len() == y@.len(),
            forall|j: int| 0 <= j < i ==> x@[j] == y@[j],
        decreases x@.len() - i,
    {
        if x[i] != y[i] {
            return false;
        }
        i = i + 1;
    }
    assert(x@ =~= y@);
    true
}

/// The sets of characters that trimming takes off both ends of a text.
#[derive(Clone, Copy, PartialEq, Eq, Structural)]
pub enum TrimSet {
    /// Space and tab.
    Blank,
    /// Every character with the Unicode property `White_Space`.
    WhiteSpace,
}

/// Whether the character has the Unicode property `White_Space`.
pub open spec fn white_space(c: char) -> bool {
    ||| '\u{9}' <= c <= '\u{d}'
    ||| c == '\u{20}'
    ||| c == '\u{85}'
    ||| c == '\u{a0}'
    ||| c == '\u{1680}'
    ||| '\u{2000}' <= c <= '\u{200a}'
    ||| c == '\u{2028}'
    ||| c == '\u{2029}'
    ||| c == '\u{202f}'
    ||| c == '\u{205f}'
    ||| c == '\u{3000}'
}

/// Whether trimming by `set` takes the character off.
pub open spec fn in_set(set: TrimSet, c: char) -> bool {
    match set {
        TrimSet::Blank => c == ' ' || c == '\t',
        TrimSet::WhiteSpace => white_space(c),
    }
}

/// The text without its leading characters of `set`.
pub open spec fn trim_start(set: TrimSet, s: Seq<char>) -> Seq<char>
    decreases s.len(),
{
    if s.len() > 0 && in_set(set, s[0]) {
        trim_start(set, s.drop_first())
    } else {
        s
    }
}

/// The text without its trailing characters of `set`.
pub open spec fn trim_end(set: TrimSet, s: Seq<char>) -> Seq<char>
    decreases s.len(),
{
    if s.len() > 0 && in_set(set, s.last()) {
        trim_end(set, s.drop_last())
    } else {
        s
    }
}

/// The text without the characters of `set` at both ends.
pub open spec fn trim(set: TrimSet, s: Seq<char>) -> Seq<char> {
    trim_end(set, trim_start(set, s))
}

/// Whether neither end of the text is a character of `set`.
pub open spec fn trimmed(set: TrimSet, s: Seq<char>) -> bool {
    s.len() > 0 ==> !in_set(set, s[0]) && !in_set(set, s.last())
}

fn is_in_set(set: TrimSet, c: char) -> (r: bool)
    ensures
        r == in_set(set, c),
{
    match set {
        TrimSet::Blank => c == ' ' || c == '\t',
        TrimSet::WhiteSpace => ('\u{9}' <= c && c <= '\u{d}') || c == '\u{20}' || c == '\u{85}' || c
            == '\u{a0}' || c == '\u{1680}' || ('\u{2000}' <= c && c <= '\u{200a}') || c
            == '\u{2028}' || c == '\u{2029}' || c == '\u{202f}' || c == '\u{205f}' || c
            == '\u{3000}',
    }
}

/// The characters from position `from` up to, not with, position `to`.
pub fn slice_of(v: &[char], from: usize, to: usize) -> (r: Vec<char>)
    requires
        from <= to <= v@.len(),
    ensures
        r@ == v@.subrange(from as int, to as int),
{
    let mut r: Vec<char> = Vec::new();
    let mut i: usize = from;
    while i < to
        invariant
            from <= i <= to <= v@.len(),
            r@ == v@.subrange(from as int, i as int),
        decreases to - i,
    {
        r.push(v[i]);
        i = i + 1;
        assert(r@ =~= v@.subrange(from as int, i as int));
    }
    r
}

/// Takes the characters of `set` off both ends.
pub fn trim_chars(set: TrimSet, v: &[char]) -> (r: Vec<char>)
    ensures
        r@ == trim(set, v@),
{
    let mut from: usize = 0;
    assert(v@.skip(0) =~= v@);
    while from < v.len() && is_in_set(set, v[from])
        invariant
            from <= v@.len(),
            trim_start(set, v@) == trim_start(set, v@.skip(from as int)),
        decreases v@.len() - from,
    {
        assert(v@.skip(from as int).drop_first() =~= v@.skip(from + 1));
        from = from + 1;
    }
    let ghost started = v@.skip(from as int);
    let mut to: usize = v.len();
    assert(v@.subrange(from as int, to as int) =~= started);
    while to > from && is_in_set(set, v[to - 1])
        invariant
            from <= to <= v@.len(),
            trim_end(set, started) == trim_end(set, v@.subrange(from as int, to as int)),
        decreases to,
    {
        assert(v@.subrange(from as int, to as int).drop_last() =~= v@.subrange(
            from as int,
            to - 1,
        ));
        to = to - 1;
    }
    slice_of(v, from, to)
}

/// Trimming leaves nothing more to trim.
pub proof fn law_trim_leaves_trimmed(set: TrimSet, s: Seq<char>)
    ensures
        trimmed(set, trim(set, s)),
        trim(set, trim(set, s)) == trim(set, s),
{
    lemma_trim_start(set, s);
    lemma_trim_end(set, trim_start(set, s));
}

/// Trimming a text that has nothing to trim changes nothing.
pub proof fn law_trim_keeps_trimmed(set: TrimSet, s: Seq<char>)
    requires
        trimmed(set, s),
    ensures
        trim(set, s) == s,
{
}

proof fn lemma_trim_start(set: TrimSet, s: Seq<char>)
    ensures
        trim_start(set, s).len() > 0 ==> !in_set(set, trim_start(set, s)[0]),
    decreases s.len(),
{
    if s.len() > 0 && in_set(set, s[0]) {
        lemma_trim_start(set, s.drop_first());
    }
}

proof fn lemma_trim_end(set: TrimSet, s: Seq<char>)
    ensures
        trim_end(set, s).len() > 0 ==> trim_end(set, s)[0] == s[0] && !in_set(
            set,
            trim_end(set, s).last(),
        ),
    decreases s.len(),
{
    if s.len() > 0 && in_set(set, s.last()) {
        lemma_trim_end(set, s.drop_last());
    }
}

/// Trimming takes a part out of the text, with nothing but characters of the set
/// before it and behind it; where the text starts with nothing to trim, the part
/// stands at its start.
pub proof fn law_trim_takes_a_part(set: TrimSet, s: Seq<char>) -> (r: (int, int))
    ensures
        0 <= r.0 <= r.1 <= s.len(),
        trim(set, s) == s.subrange(r.0, r.1),
        forall|i: int|
            0 <= i < r.0 || r.1 <= i < s.len() ==> in_set(set, #[trigger] s[i]),
        s.len() > 0 && !in_set(set, s[0]) ==> r.0 == 0,
{
    let from = lemma_start_part(set, s);
    let len = lemma_end_part(set, s.skip(from));
    assert(s.skip(from).take(len) =~= s.subrange(from, from + len));
    assert forall|i: int| from + len <= i < s.len() implies in_set(set, #[trigger] s[i]) by {
        assert(s.skip(from)[i - from] == s[i]);
    }
    (from, from + len)
}

proof fn lemma_start_part(set: TrimSet, s: Seq<char>) -> (k: int)
    ensures
        0 <= k <= s.len(),
        trim_start(set, s) == s.skip(k),
        forall|i: int| 0 <= i < k ==> in_set(set, #[trigger] s[i]),
        s.len() > 0 && !in_set(set, s[0]) ==> k == 0,
    decreases s.len(),
{
    if s.len() > 0 && in_set(set, s[0]) {
        let k = lemma_start_part(set, s.drop_first());
        assert(s.drop_first().skip(k) =~= s.skip(k + 1));
        assert forall|i: int| 0 <= i < k + 1 implies in_set(set, #[trigger] s[i]) by {
            if i > 0 {
                assert(s.drop_first()[i - 1] == s[i]);
            }
        }
        k + 1
    } else {
        assert(s.skip(0) =~= s);
        0
    }
}

proof fn lemma_end_part(set: TrimSet, s: Seq<char>) -> (k: int)
    ensures
        0 <= k <= s.len(),
        trim_end(set, s) == s.take(k),
        forall|i: int| k <= i < s.len() ==> in_set(set, #[trigger] s[i]),
    decreases s.len(),
{
    if s.len() > 0 && in_set(set, s.last()) {
        let k = lemma_end_part(set, s.drop_last());
        assert(s.drop_last().take(k) =~= s.take(k));
        assert forall|i: int| k <= i < s.len() implies in_set(set, #[trigger] s[i]) by {
            if i < s.len() - 1 {
                assert(s.drop_last()[i] == s[i]);
            }
        }
        k
    } else {
        assert(s.take(s.len() as int) =~= s);
        s.len() as int
    }
}

/// The blanks are the space and the tab, and the white space is what Unicode calls
/// so: these 25 characters and no other.
pub proof fn law_sets(c: char)
    ensures
        in_set(TrimSet::Blank, c) <==> c == ' ' || c == '\t',
        in_set(TrimSet::WhiteSpace, c) <==> seq![
            9int,
            10,
            11,
            12,
            13,
            32,
            133,
            160,
            5760,
            8192,
            8193,
            8194,
            8195,
            8196,
            8197,
            8198,
            8199,
            8200,
            8201,
            8202,
            8232,
            8233,
            8239,
            8287,
            12288,
        ].contains(c as int),
{
    let all = seq![
        9int,
        10,
        11,
        12,
        13,
        32,
        133,
        160,
        5760,
        8192,
        8193,
        8194,
        8195,
        8196,
        8197,
        8198,
        8199,
        8200,
        8201,
        8202,
        8232,
        8233,
        8239,
        8287,
        12288,
    ];
    let n = c as int;
    assert(all[0] == 9 && all[1] == 10 && all[2] == 11 && all[3] == 12 && all[4] == 13);
    assert(all[5] == 32 && all[6] == 133 && all[7] == 160 && all[8] == 5760 && all[9] == 8192);
    assert(all[10] == 8193 && all[11] == 8194 && all[12] == 8195 && all[13] == 8196);
    assert(all[14] == 8197 && all[15] == 8198 && all[16] == 8199 && all[17] == 8200);
    assert(all[18] == 8201 && all[19] == 8202 && all[20] == 8232 && all[21] == 8233);
    assert(all[22] == 8239 && all[23] == 8287 && all[24] == 12288);
}

} // verus!
