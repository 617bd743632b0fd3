//! Laws of the configuration file: what holds of every file, and of every
//! lookup in it.

use crate::ini_file;
use crate::ini_file::{SectionView, VariableView};
use crate::number;
use crate::text;
use crate::text::TrimSet;
use crate::utf16;
use vstd::prelude::*;

verus! {

// ---------------------------------------------------------------------------
// Lookup
// ---------------------------------------------------------------------------

/// A section is found exactly where one with the name exists, and the one that
/// is found is the first.
pub proof fn law_first_section(sections: Seq<SectionView>, name: Seq<char>)
    ensures
        match ini_file::find_section(sections, name) {
            Some(s) => exists|i: int|
                #![trigger sections[i]]
                0 <= i < sections.len() && sections[i] == s && s.name == name && forall|j: int|
                    0 <= j < i ==> (#[trigger] sections[j]).name != name,
            None => forall|j: int| 0 <= j < sections.len() ==> (#[trigger] sections[j]).name != name,
        },
    decreases sections.len(),
{
    if sections.len() > 0 {
        let rest = sections.skip(1);
        law_first_section(rest, name);
        if sections[0].name == name {
            assert(sections[0] == ini_file::find_section(sections, name)->0);
        } else if let Some(s) = ini_file::find_section(rest, name) {
            let i = choose|i: int|
                #![trigger rest[i]]
                0 <= i < rest.len() && rest[i] == s && s.name == name && forall|j: int|
                    0 <= j < i ==> (#[trigger] rest[j]).name != name;
            assert(sections[i + 1] == s);
            assert forall|j: int| 0 <= j < i + 1 implies (#[trigger] sections[j]).name != name by {
                if j > 0 {
                    assert(rest[j - 1] == sections[j]);
                }
            }
        } else {
            assert forall|j: int| 0 <= j < sections.len() implies (#[trigger] sections[j]).name
                != name by {
                if j > 0 {
                    assert(rest[j - 1] == sections[j]);
                }
            }
        }
    }
}

/// A variable is found exactly where one with the name exists, and the one that
/// is found is the first.
pub proof fn law_first_variable(variables: Seq<VariableView>, name: Seq<char>)
    ensures
        match ini_file::find_variable(variables, name) {
            Some(v) => exists|i: int|
                #![trigger variables[i]]
                0 <= i < variables.len() && variables[i] == v && v.name == name && forall|j: int|
                    0 <= j < i ==> (#[trigger] variables[j]).name != name,
            None => forall|j: int|
                0 <= j < variables.len() ==> (#[trigger] variables[j]).name != name,
        },
    decreases variables.len(),
{
    if variables.len() > 0 {
        let rest = variables.skip(1);
        law_first_variable(rest, name);
        if variables[0].name == name {
            assert(variables[0] == ini_file::find_variable(variables, name)->0);
        } else if let Some(v) = ini_file::find_variable(rest, name) {
            let i = choose|i: int|
                #![trigger rest[i]]
                0 <= i < rest.len() && rest[i] == v && v.name == name && forall|j: int|
                    0 <= j < i ==> (#[trigger] rest[j]).name != name;
            assert(variables[i + 1] == v);
            assert forall|j: int| 0 <= j < i + 1 implies (#[trigger] variables[j]).name
                != name by {
                if j > 0 {
                    assert(rest[j - 1] == variables[j]);
                }
            }
        } else {
            assert forall|j: int| 0 <= j < variables.len() implies (#[trigger] variables[j]).name
                != name by {
                if j > 0 {
                    assert(rest[j - 1] == variables[j]);
                }
            }
        }
    }
}

pub(crate) proof fn lemma_find_variable_push(
    variables: Seq<VariableView>,
    added: VariableView,
    name: Seq<char>,
)
    ensures
        ini_file::find_variable(variables, name) is Some ==> ini_file::find_variable(
            variables.push(added),
            name,
        ) == ini_file::find_variable(variables, name),
        ini_file::find_variable(variables, name) is None && added.name == name
            ==> ini_file::find_variable(variables.push(added), name) == Some(added),
    decreases variables.len(),
{
    if variables.len() > 0 {
        lemma_find_variable_push(variables.skip(1), added, name);
        assert(variables.push(added).skip(1) =~= variables.skip(1).push(added));
    } else {
        assert(variables.push(added)[0] == added);
    }
}

pub(crate) proof fn lemma_find_section_push(sections: Seq<SectionView>, added: SectionView, name: Seq<char>)
    ensures
        ini_file::find_section(sections, name) is Some ==> ini_file::find_section(
            sections.push(added),
            name,
        ) == ini_file::find_section(sections, name),
        ini_file::find_section(sections, name) is None && added.name == name
            ==> ini_file::find_section(sections.push(added), name) == Some(added),
        ini_file::find_section(sections, name) is None && added.name != name
            ==> ini_file::find_section(sections.push(added), name) is None,
    decreases sections.len(),
{
    if sections.len() > 0 {
        lemma_find_section_push(sections.skip(1), added, name);
        assert(sections.push(added).skip(1) =~= sections.skip(1).push(added));
    } else {
        reveal_with_fuel(ini_file::find_section, 2);
        assert(sections.push(added)[0] == added);
        assert(sections.push(added).skip(1).len() == 0);
    }
}

proof fn lemma_lookup_with_line(
    sections: Seq<SectionView>,
    line: Seq<char>,
    section: Seq<char>,
    name: Seq<char>,
)
    ensures
        ini_file::lookup(sections, section, name) is Some ==> ini_file::lookup(
            ini_file::with_line(sections, line),
            section,
            name,
        ) == ini_file::lookup(sections, section, name),
{
    if ini_file::is_ignored(line) {
    } else if ini_file::is_header(line) {
        let added = SectionView {
            name: line.subrange(1, line.len() - 1),
            variables: Seq::empty(),
        };
        lemma_find_section_push(sections, added, section);
    } else if let Some(v) = ini_file::variable_of(line) {
        if sections.len() > 0 {
            let front = sections.drop_last();
            let last = sections.last();
            assert(front.push(last) =~= sections);
            lemma_find_section_push(front, last, section);
            lemma_find_section_push(front, ini_file::with_variable(last, v), section);
            lemma_find_variable_push(last.variables, v, name);
        }
    }
}

/// The first definition wins: lines behind the one that defines a variable
/// change nothing about it.
pub proof fn law_first_definition_wins(
    sections: Seq<SectionView>,
    behind: Seq<Seq<u8>>,
    section: Seq<char>,
    name: Seq<char>,
)
    requires
        ini_file::lookup(sections, section, name) is Some,
    ensures
        ini_file::lookup(ini_file::with_lines(sections, behind), section, name)
            == ini_file::lookup(sections, section, name),
    decreases behind.len(),
{
    if behind.len() > 0 {
        law_first_definition_wins(sections, behind.drop_last(), section, name);
        lemma_lookup_with_line(
            ini_file::with_lines(sections, behind.drop_last()),
            ini_file::line_text(behind.last()),
            section,
            name,
        );
    }
}

/// A variable exists only in a section that exists, has bytes only where it
/// exists, and has the name that was asked for.
pub proof fn law_existence(sections: Seq<SectionView>, section: Seq<char>, name: Seq<char>)
    ensures
        ini_file::lookup(sections, section, name) is Some ==> ini_file::find_section(
            sections,
            section,
        ) is Some,
        ini_file::lookup_bytes(sections, section, name) is Some ==> ini_file::lookup(
            sections,
            section,
            name,
        ) is Some,
        ini_file::lookup(sections, section, name) matches Some(v) ==> v.name == name,
{
    if let Some(s) = ini_file::find_section(sections, section) {
        law_first_variable(s.variables, name);
    }
}

/// Names in wide strings find what the same names in text find.
pub proof fn law_wide_lookup(
    sections: Seq<SectionView>,
    section: Seq<char>,
    name: Seq<char>,
    behind: Seq<u16>,
)
    requires
        !section.contains('\0'),
        !name.contains('\0'),
    ensures
        ini_file::find_section(sections, utf16::wide_text(utf16::encoded(section).push(0) + behind))
            == ini_file::find_section(sections, section),
        ini_file::lookup(
            sections,
            utf16::wide_text(utf16::encoded(section).push(0) + behind),
            utf16::wide_text(utf16::encoded(name)),
        ) == ini_file::lookup(sections, section, name),
{
    utf16::law_wide_text(section, behind);
    utf16::law_wide_text(name, behind);
}

// ---------------------------------------------------------------------------
// Lines
// ---------------------------------------------------------------------------

/// A line defines a variable exactly where it holds an unquoted `=`, and the
/// first of them splits it.
pub proof fn law_first_unquoted_split(s: Seq<char>)
    ensures
        match ini_file::split_from(s, 0) {
            Some(i) => ini_file::splits_at(s, i) && forall|j: int|
                0 <= j < i ==> !#[trigger] ini_file::splits_at(s, j),
            None => forall|j: int| !#[trigger] ini_file::splits_at(s, j),
        },
        ini_file::variable_of(s) is Some <==> exists|i: int| ini_file::splits_at(s, i),
{
    lemma_split_from(s, 0);
}

proof fn lemma_split_from(s: Seq<char>, i: int)
    requires
        0 <= i,
    ensures
        match ini_file::split_from(s, i) {
            Some(k) => i <= k && ini_file::splits_at(s, k) && forall|j: int|
                i <= j < k ==> !#[trigger] ini_file::splits_at(s, j),
            None => forall|j: int| i <= j ==> !#[trigger] ini_file::splits_at(s, j),
        },
    decreases s.len() - i,
{
    if i < s.len() && !ini_file::splits_at(s, i) {
        lemma_split_from(s, i + 1);
    }
}

// ---------------------------------------------------------------------------
// Values
// ---------------------------------------------------------------------------

proof fn lemma_written_has_no_white_space(n: nat, radix: nat)
    requires
        2 <= radix <= 36,
    ensures
        text::trim(TrimSet::WhiteSpace, number::written(n, radix)) == number::written(n, radix),
{
    number::law_written_in_digits(n, radix);
    let s = number::written(n, radix);
    assert(number::digit_value(s[0], radix as int) is Some);
    assert(number::digit_value(s.last(), radix as int) is Some);
    text::law_trim_keeps_trimmed(TrimSet::WhiteSpace, s);
}

/// The number in decimal, with a `-` before it where it is negative.
pub open spec fn signed_decimal(n: int) -> Seq<char> {
    if n < 0 {
        seq!['-'] + number::decimal((-n) as nat)
    } else {
        number::decimal(n as nat)
    }
}

/// A number that was written in decimal, or in hexadecimal with letters of either
/// case, is read back in 64 bits; so is a negative one in decimal. One beyond the
/// range gives the end of the range.
pub proof fn law_dword_read_back(n: int)
    ensures
        ini_file::dword_value(signed_decimal(n), 10) == number::in_64_bits(n),
        n >= 0 ==> ini_file::dword_value(number::hexadecimal(n as nat), 16)
            == number::in_64_bits(n),
        n >= 0 ==> ini_file::dword_value(number::upper_hexadecimal(n as nat), 16)
            == number::in_64_bits(n),
        0 <= n <= i64::MAX ==> number::in_64_bits(n) == n,
        n > i64::MAX ==> number::in_64_bits(n) == i64::MAX,
        i64::MIN <= n < 0 ==> number::in_64_bits(n) == n + 0x1_0000_0000_0000_0000,
        n < i64::MIN ==> number::in_64_bits(n) == 0x8000_0000_0000_0000,
{
    let size: nat = if n < 0 {
        (-n) as nat
    } else {
        n as nat
    };
    let w = number::decimal(size);
    let x = number::hexadecimal(size);
    let u = number::upper_hexadecimal(size);
    lemma_written_has_no_white_space(size, 10);
    lemma_written_has_no_white_space(size, 16);
    number::law_read_back(size, 10, Seq::empty());
    number::law_read_back(size, 16, Seq::empty());
    assert(w + Seq::<char>::empty() =~= w);
    assert(x + Seq::<char>::empty() =~= x);
    number::law_upper_read_back(size);
    assert(number::digit_value(u[0], 16) is Some);
    assert(number::digit_value(u.last(), 16) is Some);
    text::law_trim_keeps_trimmed(TrimSet::WhiteSpace, u);
    if n < 0 {
        let s = signed_decimal(n);
        number::law_written_in_digits(size, 10);
        assert(number::digit_value(w[0], 10) is Some);
        assert(number::digit_value(w.last(), 10) is Some);
        assert(s.skip(1) =~= w);
        assert(s.last() == w.last());
        text::law_trim_keeps_trimmed(TrimSet::WhiteSpace, s);
        assert(number::without_sign(w) == w);
    }
}

/// A decimal number is true exactly where it is not 0, however large it is.
pub proof fn law_bool_read_back(n: int)
    ensures
        ini_file::bool_value(signed_decimal(n)) == (n != 0),
{
    let size: nat = if n < 0 {
        (-n) as nat
    } else {
        n as nat
    };
    let digits = number::decimal(size);
    lemma_written_has_no_white_space(size, 10);
    number::law_read_back(size, 10, Seq::empty());
    number::law_written_in_digits(size, 10);
    assert(number::digit_value(digits[0], 10) is Some);
    assert(number::digit_value(digits.last(), 10) is Some);
    if n < 0 {
        let s = signed_decimal(n);
        assert(s.skip(1) =~= digits);
        assert(s.last() == digits.last());
        text::law_trim_keeps_trimmed(TrimSet::WhiteSpace, s);
    }
}

/// A lookup gives out every text whole that fits into a field, and never more
/// than fits.
pub proof fn law_fields(s: Seq<char>)
    ensures
        ini_file::field(s).len() <= ini_file::MAX_STRING_LEN,
        ini_file::MAX_STRING_LEN == 255,
        s.len() <= ini_file::MAX_STRING_LEN ==> ini_file::field(s) == s,
        s.len() > ini_file::MAX_STRING_LEN ==> ini_file::field(s).len() == 255,
        ini_file::field(s) == s.take(ini_file::field(s).len() as int),
{
    assert(s.take(s.len() as int) =~= s);
}

/// The hexadecimal digit in upper case.
pub open spec fn upper_digit(d: int) -> char {
    if d < 10 {
        (d + '0' as int) as char
    } else {
        (d - 10 + 'A' as int) as char
    }
}

/// The bytes in hexadecimal, two digits each, letters in upper case.
pub open spec fn upper_hex(bytes: Seq<u8>) -> Seq<char> {
    Seq::new(
        2 * bytes.len(),
        |i: int|
            if i % 2 == 0 {
                upper_digit(bytes[i / 2] as int / 16)
            } else {
                upper_digit(bytes[i / 2] as int % 16)
            },
    )
}

/// Bytes that were written in upper-case hexadecimal are read back, up to the
/// first 16 of them.
pub proof fn law_bytes_read_back(bytes: Seq<u8>)
    ensures
        ini_file::bytes_value(upper_hex(bytes)) == Some(
            bytes.take(
                if bytes.len() < 16 {
                    bytes.len() as int
                } else {
                    16
                },
            ),
        ),
{
    let value = upper_hex(bytes);
    let n: int = if bytes.len() < 16 {
        bytes.len() as int
    } else {
        16
    };
    let read = ini_file::bytes_value(value)->0;
    assert(read.len() == n);
    assert forall|i: int| 0 <= i < n implies read[i] == bytes[i] by {
        assert((2 * i) / 2 == i && (2 * i) % 2 == 0);
        assert((2 * i + 1) / 2 == i && (2 * i + 1) % 2 == 1);
        assert(value[2 * i] == upper_digit(bytes[i] as int / 16));
        assert(value[2 * i + 1] == upper_digit(bytes[i] as int % 16));
        lemma_upper_digit(bytes[i] as int / 16);
        lemma_upper_digit(bytes[i] as int % 16);
    }
    assert(read =~= bytes.take(n));
}

proof fn lemma_upper_digit(d: int)
    requires
        0 <= d < 16,
    ensures
        ini_file::nibble(upper_digit(d)) == d,
{
}

/// No value gives more than 16 bytes.
pub proof fn law_at_most_sixteen_bytes(value: Seq<char>)
    ensures
        ini_file::bytes_value(value) matches Some(bytes) ==> bytes.len() <= 16,
{
}

/// Quotes are open behind a text exactly where it holds an odd number of quote
/// characters, single and double ones counted together.
pub proof fn law_quotes_are_counted(s: Seq<char>)
    ensures
        ini_file::quoted(s) <==> s.filter(|c: char| c == '"' || c == '\'').len() % 2 == 1,
    decreases s.len(),
{
    reveal(Seq::filter);
    if s.len() > 0 {
        law_quotes_are_counted(s.drop_last());
    }
}

/// A line that an `=` outside quotes splits, with none before it, defines the
/// variable with the trimmed texts on both sides of it; a line without such an
/// `=` defines none.
pub proof fn law_line_is_split(left: Seq<char>, right: Seq<char>)
    requires
        forall|i: int| !#[trigger] ini_file::splits_at(left, i),
    ensures
        !ini_file::quoted(left) ==> ini_file::variable_of(left + (seq!['='] + right)) == Some(
            VariableView {
                name: text::trim(TrimSet::Blank, left),
                value: text::trim(TrimSet::Blank, right),
            },
        ),
        ini_file::variable_of(left) is None,
{
    let s = left + (seq!['='] + right);
    let n = left.len() as int;
    law_first_unquoted_split(left);
    law_first_unquoted_split(s);
    if !ini_file::quoted(left) {
        assert(s[n] == '=');
        assert(s.take(n) =~= left);
        assert(s.skip(n + 1) =~= right);
        assert(ini_file::splits_at(s, n));
        assert forall|j: int| 0 <= j < n implies !#[trigger] ini_file::splits_at(s, j) by {
            assert(s.take(j) =~= left.take(j));
            assert(!ini_file::splits_at(left, j));
        }
        assert(ini_file::split_from(s, 0) == Some(n));
    }
}

/// A lookup gives the first variable with the name in the first section with the
/// name, and nothing where there is no such section or no such variable in it.
pub proof fn law_lookup(
    sections: Seq<SectionView>,
    i: int,
    j: int,
    section: Seq<char>,
    name: Seq<char>,
)
    requires
        0 <= i <= sections.len(),
        forall|k: int| 0 <= k < i ==> (#[trigger] sections[k]).name != section,
        i < sections.len() ==> sections[i].name == section && 0 <= j
            <= sections[i].variables.len() && (forall|k: int|
            0 <= k < j ==> (#[trigger] sections[i].variables[k]).name != name) && (j
            < sections[i].variables.len() ==> sections[i].variables[j].name == name),
    ensures
        ini_file::lookup(sections, section, name) == (if i < sections.len() && j
            < sections[i].variables.len() {
            Some(sections[i].variables[j])
        } else {
            None
        }),
        ini_file::find_section(sections, section) == (if i < sections.len() {
            Some(sections[i])
        } else {
            None
        }),
{
    law_first_section(sections, section);
    if i < sections.len() {
        let s = ini_file::find_section(sections, section)->0;
        let at = choose|k: int|
            #![trigger sections[k]]
            0 <= k < sections.len() && sections[k] == s && s.name == section && forall|l: int|
                0 <= l < k ==> (#[trigger] sections[l]).name != section;
        assert(sections[i].name == section);
        assert(at == i) by {
            if at < i {
                assert(sections[at].name != section);
            }
            if i < at {
                assert(sections[i].name != section);
            }
        }
        let variables = sections[i].variables;
        law_first_variable(variables, name);
        if j < variables.len() {
            assert(variables[j].name == name);
            let v = ini_file::find_variable(variables, name)->0;
            let there = choose|k: int|
                #![trigger variables[k]]
                0 <= k < variables.len() && variables[k] == v && v.name == name && forall|l: int|
                    0 <= l < k ==> (#[trigger] variables[l]).name != name;
            assert(there == j) by {
                if there < j {
                    assert(variables[there].name != name);
                }
                if j < there {
                    assert(variables[j].name != name);
                }
            }
        } else if ini_file::find_variable(variables, name) is Some {
            let v = ini_file::find_variable(variables, name)->0;
            let there = choose|k: int|
                #![trigger variables[k]]
                0 <= k < variables.len() && variables[k] == v && v.name == name && forall|l: int|
                    0 <= l < k ==> (#[trigger] variables[l]).name != name;
            assert(variables[there].name != name);
        }
    }
}

/// What is trimmed off a text is exactly what stands around its trimmed core.
pub proof fn law_trim_around(space: Seq<char>, core: Seq<char>, behind: Seq<char>, set: TrimSet)
    requires
        forall|i: int| 0 <= i < space.len() ==> text::in_set(set, #[trigger] space[i]),
        forall|i: int| 0 <= i < behind.len() ==> text::in_set(set, #[trigger] behind[i]),
        text::trimmed(set, core),
    ensures
        text::trim(set, space + core + behind) == core,
{
    let s = space + core + behind;
    let (from, to) = text::law_trim_takes_a_part(set, s);
    let t = text::trim(set, s);
    text::law_trim_leaves_trimmed(set, s);
    let a = space.len() as int;
    let b = a + core.len();
    if core.len() > 0 {
        assert(s[a] == core[0]);
        assert(s[b - 1] == core.last());
        assert(from <= a && b <= to);
        if from < a {
            assert(t[0] == s[from]);
            assert(s[from] == space[from]);
        }
        if b < to {
            assert(t.last() == s[to - 1]);
            assert(s[to - 1] == behind[to - 1 - b]);
        }
        assert(t =~= core);
    } else if t.len() > 0 {
        assert(t[0] == s[from]);
        if from < a {
            assert(s[from] == space[from]);
        } else {
            assert(s[from] == behind[from - a]);
        }
        assert(false);
    } else {
        assert(t =~= core);
    }
}

/// A value is read as the number at its front, behind white space; the number is
/// kept in 64 bits, and one beyond the range of signed numbers is the end of the
/// range.
pub proof fn law_dword_of_a_value(space: Seq<char>, core: Seq<char>, behind: Seq<char>, radix: int)
    requires
        forall|i: int|
            0 <= i < space.len() ==> text::in_set(TrimSet::WhiteSpace, #[trigger] space[i]),
        forall|i: int|
            0 <= i < behind.len() ==> text::in_set(TrimSet::WhiteSpace, #[trigger] behind[i]),
        text::trimmed(TrimSet::WhiteSpace, core),
    ensures
        ({
            let n = number::leading_number(core, radix);
            let r = ini_file::dword_value(space + core + behind, radix);
            &&& 0 <= n <= i64::MAX ==> r == n
            &&& n > i64::MAX ==> r == i64::MAX
            &&& i64::MIN <= n < 0 ==> r == n + 0x1_0000_0000_0000_0000
            &&& n < i64::MIN ==> r == 0x8000_0000_0000_0000
        }),
{
    law_trim_around(space, core, behind, TrimSet::WhiteSpace);
    law_dword_read_back(number::leading_number(core, radix));
}

/// A value is true exactly where it is, between white space, a whole decimal
/// number other than 0.
pub proof fn law_bool_of_a_value(space: Seq<char>, core: Seq<char>, behind: Seq<char>)
    requires
        forall|i: int|
            0 <= i < space.len() ==> text::in_set(TrimSet::WhiteSpace, #[trigger] space[i]),
        forall|i: int|
            0 <= i < behind.len() ==> text::in_set(TrimSet::WhiteSpace, #[trigger] behind[i]),
        text::trimmed(TrimSet::WhiteSpace, core),
    ensures
        ini_file::bool_value(space + core + behind) <==> (number::whole_number(core, 10) matches
            Some(n) && n != 0),
{
    law_trim_around(space, core, behind, TrimSet::WhiteSpace);
}

/// The digits of bytes are the decimal digits and the letters from `A` to `F` in
/// upper case; every other character counts as 0.
pub proof fn law_byte_digits(c: char)
    ensures
        forall|d: int| 0 <= d < 16 ==> ini_file::nibble(#[trigger] "0123456789ABCDEF"@[d]) == d,
        0 <= ini_file::nibble(c) < 16,
        ini_file::nibble(c) != 0 ==> c == "0123456789ABCDEF"@[ini_file::nibble(c)],
{
    reveal_strlit("0123456789ABCDEF");
    assert forall|d: int| 0 <= d < 16 implies (#[trigger] "0123456789ABCDEF"@[d]) as int == (if d
        < 10 {
        48 + d
    } else {
        55 + d
    }) by {
        lemma_byte_digit(d);
    }
}

proof fn lemma_byte_digit(d: int)
    requires
        0 <= d < 16,
    ensures
        "0123456789ABCDEF"@[d] as int == (if d < 10 {
            48 + d
        } else {
            55 + d
        }),
{
    reveal_strlit("0123456789ABCDEF");
}

/// A value with an odd number of characters has no bytes. Every other has one byte
/// for each two characters, the first of them the more significant digit, but at
/// most 16 bytes.
pub proof fn law_bytes_of_a_value(value: Seq<char>, i: int)
    ensures
        value.len() % 2 == 1 ==> ini_file::bytes_value(value) is None,
        value.len() % 2 == 0 ==> (ini_file::bytes_value(value) matches Some(b) && b.len() == (if
            value.len() <= 32 {
            value.len() / 2
        } else {
            16
        }) && (0 <= i < b.len() ==> b[i] == 16 * ini_file::nibble(value[2 * i])
            + ini_file::nibble(value[2 * i + 1]))),
{
    if value.len() % 2 == 0 && 0 <= i && 2 * i + 1 < value.len() {
        law_byte_digits(value[2 * i]);
        law_byte_digits(value[2 * i + 1]);
    }
}

/// The bytes of a variable are the bytes of its value.
pub proof fn law_bytes_are_looked_up(
    sections: Seq<SectionView>,
    section: Seq<char>,
    name: Seq<char>,
)
    ensures
        match ini_file::lookup(sections, section, name) {
            Some(v) => ini_file::lookup_bytes(sections, section, name) == ini_file::bytes_value(
                v.value,
            ),
            None => ini_file::lookup_bytes(sections, section, name) is None,
        },
{
}

} // verus!
