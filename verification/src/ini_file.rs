//! The INI configuration file: its grammar, the values that it holds, and how
//! they are looked up.
//!
//! A file is a sequence of lines, each of which ends at a carriage return with a
//! line feed behind it. A line `[name]` opens a section, a line
//! `name=value` puts a variable into the section that was opened last, a line
//! that starts with `;` is a comment. Names are matched character by character,
//! and the first section and the first variable with a name win.

use crate::text;
use crate::text::TrimSet;
use crate::number;
use crate::utf16;
use vstd::prelude::*;

verus! {

/// The largest number of characters in a field of text that a lookup gives out.
pub const MAX_STRING_LEN: usize = 255;

/// A variable's text.
pub struct IniVarString {
    pub name: String,
    pub value: String,
}

/// A variable's text as a number, read twice: in decimal and in hexadecimal. A
/// reading takes white space, a sign, in hexadecimal a `0x`, and the digits
/// behind that, as far as they go. It is 0 where there are no digits. A number
/// beyond the range of signed 64-bit numbers is the end of that range, and a
/// negative one stands in two's complement.
pub struct IniVarDword {
    pub name: String,
    pub value_dec: u64,
    pub value_hex: u64,
}

/// A variable's text as bytes, at most 16 of them, two hexadecimal digits each.
pub struct IniVarByteArray {
    pub name: String,
    pub value: Vec<u8>,
}

impl Clone for IniVarString {
    fn clone(&self) -> (r: Self)
        ensures
            r.name@ == self.name@,
            r.value@ == self.value@,
    {
        IniVarString { name: self.name.clone(), value: self.value.clone() }
    }
}

impl Default for IniVarString {
    fn default() -> (r: Self)
        ensures
            r.name@ == Seq::<char>::empty(),
            r.value@ == Seq::<char>::empty(),
    {
        IniVarString { name: String::new(), value: String::new() }
    }
}

impl Clone for IniVarDword {
    fn clone(&self) -> (r: Self)
        ensures
            r.name@ == self.name@,
            r.value_dec == self.value_dec,
            r.value_hex == self.value_hex,
    {
        IniVarDword {
            name: self.name.clone(),
            value_dec: self.value_dec,
            value_hex: self.value_hex,
        }
    }
}

impl Default for IniVarDword {
    fn default() -> (r: Self)
        ensures
            r.name@ == Seq::<char>::empty(),
            r.value_dec == 0,
            r.value_hex == 0,
    {
        IniVarDword { name: String::new(), value_dec: 0, value_hex: 0 }
    }
}

impl Clone for IniVarByteArray {
    fn clone(&self) -> (r: Self)
        ensures
            r.name@ == self.name@,
            r.value@ == self.value@,
    {
        IniVarByteArray { name: self.name.clone(), value: self.value.clone() }
    }
}

impl Default for IniVarByteArray {
    fn default() -> (r: Self)
        ensures
            r.name@ == Seq::<char>::empty(),
            r.value@ == Seq::<u8>::empty(),
    {
        IniVarByteArray { name: String::new(), value: Vec::new() }
    }
}

/// What a variable is: its name and its value.
pub struct VariableView {
    pub name: Seq<char>,
    pub value: Seq<char>,
}

/// What a section is: its name and its variables, in the order of the file.
pub struct SectionView {
    pub name: Seq<char>,
    pub variables: Seq<VariableView>,
}

struct IniSectionVariable {
    name: String,
    value: String,
}

impl View for IniSectionVariable {
    type V = VariableView;

    closed spec fn view(&self) -> VariableView {
        VariableView { name: self.name@, value: self.value@ }
    }
}

struct IniSection {
    name: String,
    variables: Vec<IniSectionVariable>,
}

impl View for IniSection {
    type V = SectionView;

    closed spec fn view(&self) -> SectionView {
        SectionView {
            name: self.name@,
            variables: Seq::new(self.variables@.len(), |i: int| self.variables@[i]@),
        }
    }
}

/// A parsed configuration file.
pub struct IniFile {
    sections: Vec<IniSection>,
}

impl View for IniFile {
    type V = Seq<SectionView>;

    closed spec fn view(&self) -> Seq<SectionView> {
        sections_view(self.sections@)
    }
}

closed spec fn sections_view(sections: Seq<IniSection>) -> Seq<SectionView> {
    Seq::new(sections.len(), |i: int| sections[i]@)
}

// ---------------------------------------------------------------------------
// The grammar
// ---------------------------------------------------------------------------

pub const LINE_FEED: u8 = 10;

pub const CARRIAGE_RETURN: u8 = 13;

/// Whether a line ends at the position: a carriage return stands there, and a
/// line feed behind it.
pub open spec fn pair_at(raw: Seq<u8>, i: int) -> bool {
    0 <= i && i + 1 < raw.len() && raw[i] == CARRIAGE_RETURN && raw[i + 1] == LINE_FEED
}

/// The position where the first line ends, or the length where it takes all.
pub open spec fn line_end(raw: Seq<u8>) -> int
    decreases raw.len(),
{
    if raw.len() == 0 || pair_at(raw, 0) {
        0
    } else {
        1 + line_end(raw.skip(1))
    }
}

/// The lines of the file: what stands between the pairs of a carriage return and
/// a line feed.
pub open spec fn lines(raw: Seq<u8>) -> Seq<Seq<u8>>
    decreases raw.len(),
{
    let end = line_end(raw);
    if pair_at(raw, end) {
        seq![raw.take(end)] + lines(raw.skip(end + 2))
    } else {
        seq![raw]
    }
}

/// The characters of Latin-1 bytes: each byte is the character of its number.
pub open spec fn latin1(line: Seq<u8>) -> Seq<char> {
    Seq::new(line.len(), |i: int| line[i] as char)
}

/// What a line says: its characters, without spaces and tabs at its ends.
pub open spec fn line_text(line: Seq<u8>) -> Seq<char> {
    text::trim(TrimSet::Blank, latin1(line))
}

/// Whether the character opens or closes quotes.
pub open spec fn is_quote(c: char) -> bool {
    c == '"' || c == '\''
}

/// Whether a text leaves quotes open: it holds an odd number of quote characters.
pub open spec fn quoted(s: Seq<char>) -> bool
    decreases s.len(),
{
    if s.len() == 0 {
        false
    } else if is_quote(s.last()) {
        !quoted(s.drop_last())
    } else {
        quoted(s.drop_last())
    }
}

/// Whether the line has an unquoted `=` at the position.
pub open spec fn splits_at(s: Seq<char>, i: int) -> bool {
    0 <= i < s.len() && s[i] == '=' && !quoted(s.take(i))
}

/// The first position from `i` on with an unquoted `=`.
pub open spec fn split_from(s: Seq<char>, i: int) -> Option<int>
    decreases s.len() - i,
{
    if i < 0 || i >= s.len() {
        None
    } else if splits_at(s, i) {
        Some(i)
    } else {
        split_from(s, i + 1)
    }
}

/// The variable that the line defines: the trimmed texts before and behind its
/// first unquoted `=`.
pub open spec fn variable_of(s: Seq<char>) -> Option<VariableView> {
    match split_from(s, 0) {
        Some(i) => Some(
            VariableView {
                name: text::trim(TrimSet::Blank, s.take(i)),
                value: text::trim(TrimSet::Blank, s.skip(i + 1)),
            },
        ),
        None => None,
    }
}

/// Whether the line says nothing: it is empty or a comment.
pub open spec fn is_ignored(s: Seq<char>) -> bool {
    s.len() == 0 || s[0] == ';'
}

/// Whether the line opens a section.
pub open spec fn is_header(s: Seq<char>) -> bool {
    s.len() > 0 && s[0] == '[' && s.last() == ']'
}

/// The section with one more variable.
pub open spec fn with_variable(section: SectionView, variable: VariableView) -> SectionView {
    SectionView { name: section.name, variables: section.variables.push(variable) }
}

/// The sections after one more line.
pub open spec fn with_line(sections: Seq<SectionView>, s: Seq<char>) -> Seq<SectionView> {
    if is_ignored(s) {
        sections
    } else if is_header(s) {
        sections.push(SectionView { name: s.subrange(1, s.len() - 1), variables: Seq::empty() })
    } else {
        match variable_of(s) {
            Some(variable) => if sections.len() == 0 {
                sections
            } else {
                sections.drop_last().push(with_variable(sections.last(), variable))
            },
            None => sections,
        }
    }
}

/// The sections that the lines define, one line after the other.
pub open spec fn with_lines(sections: Seq<SectionView>, all: Seq<Seq<u8>>) -> Seq<SectionView>
    decreases all.len(),
{
    if all.len() == 0 {
        sections
    } else {
        with_line(with_lines(sections, all.drop_last()), line_text(all.last()))
    }
}

/// The sections that the file defines.
pub open spec fn parsed(raw: Seq<u8>) -> Seq<SectionView> {
    with_lines(Seq::empty(), lines(raw))
}

// ---------------------------------------------------------------------------
// Lookup and values
// ---------------------------------------------------------------------------

/// The first section with the name.
pub open spec fn find_section(sections: Seq<SectionView>, name: Seq<char>) -> Option<SectionView>
    decreases sections.len(),
{
    if sections.len() == 0 {
        None
    } else if sections[0].name == name {
        Some(sections[0])
    } else {
        find_section(sections.skip(1), name)
    }
}

/// The first variable with the name.
pub open spec fn find_variable(variables: Seq<VariableView>, name: Seq<char>) -> Option<
    VariableView,
>
    decreases variables.len(),
{
    if variables.len() == 0 {
        None
    } else if variables[0].name == name {
        Some(variables[0])
    } else {
        find_variable(variables.skip(1), name)
    }
}

/// The first variable with the name in the first section with the name.
pub open spec fn lookup(
    sections: Seq<SectionView>,
    section: Seq<char>,
    name: Seq<char>,
) -> Option<VariableView> {
    match find_section(sections, section) {
        Some(s) => find_variable(s.variables, name),
        None => None,
    }
}

/// What a lookup gives out of a text: its first characters, as many as a field
/// takes.
pub open spec fn field(s: Seq<char>) -> Seq<char> {
    if s.len() <= MAX_STRING_LEN {
        s
    } else {
        s.take(MAX_STRING_LEN as int)
    }
}

/// The number that a value starts with in the radix, saturated, in 64 bits.
pub open spec fn dword_value(value: Seq<char>, radix: int) -> int {
    number::in_64_bits(
        number::leading_number(text::trim(TrimSet::WhiteSpace, value), radix),
    )
}

/// Whether a value writes a decimal number that is not 0.
pub open spec fn bool_value(value: Seq<char>) -> bool {
    match number::whole_number(text::trim(TrimSet::WhiteSpace, value), 10) {
        Some(n) => n != 0,
        None => false,
    }
}

/// The value of a hexadecimal digit; 0 for every character that is no decimal
/// digit and no letter from `A` to `F` in upper case.
pub open spec fn nibble(c: char) -> int {
    if '0' <= c <= '9' {
        c as int - '0' as int
    } else if 'A' <= c <= 'F' {
        c as int - 'A' as int + 10
    } else {
        0
    }
}

/// How many characters of a value are read as bytes: at most 32.
pub open spec fn hex_len(value: Seq<char>) -> int {
    if value.len() > 32 {
        32
    } else {
        value.len() as int
    }
}

/// The bytes that a value writes, two characters each; `None` where it has an
/// odd number of characters.
pub open spec fn bytes_value(value: Seq<char>) -> Option<Seq<u8>> {
    if value.len() % 2 != 0 {
        None
    } else {
        Some(
            Seq::new(
                (hex_len(value) / 2) as nat,
                |i: int| (nibble(value[2 * i]) * 16 + nibble(value[2 * i + 1])) as u8,
            ),
        )
    }
}

/// The bytes of a variable.
pub open spec fn lookup_bytes(
    sections: Seq<SectionView>,
    section: Seq<char>,
    name: Seq<char>,
) -> Option<Seq<u8>> {
    match lookup(sections, section, name) {
        Some(v) => bytes_value(v.value),
        None => None,
    }
}

// ---------------------------------------------------------------------------
// Parsing
// ---------------------------------------------------------------------------

fn split_lines(raw: &[u8]) -> (r: Vec<Vec<u8>>)
    ensures
        r@.len() == lines(raw@).len(),
        forall|i: int| 0 <= i < r@.len() ==> (#[trigger] r@[i])@ == lines(raw@)[i],
{
    let n: usize = raw.len();
    let mut r: Vec<Vec<u8>> = Vec::new();
    let mut line: Vec<u8> = Vec::new();
    let mut i: usize = 0;
    let ghost mut start: int = 0;
    assert(raw@.skip(0) =~= raw@);
    while i < n
        invariant
            0 <= start <= i <= n == raw@.len(),
            line@ == raw@.subrange(start, i as int),
            line_end(raw@.skip(start)) == i - start + line_end(raw@.skip(i as int)),
            lines(raw@).len() == r@.len() + lines(raw@.skip(start)).len(),
            forall|j: int|
                0 <= j < lines(raw@.skip(start)).len() ==> lines(raw@)[r@.len() + j] == #[trigger] lines(
                    raw@.skip(start),
                )[j],
            forall|j: int| 0 <= j < r@.len() ==> (#[trigger] r@[j])@ == lines(raw@)[j],
        decreases n - i,
    {
        let ghost rest = raw@.skip(start);
        let ghost ahead = raw@.skip(i as int);
        assert(ahead.skip(1) =~= raw@.skip(i + 1));
        assert(ahead[0] == raw@[i as int]);
        assert(ahead.len() > 1 ==> ahead[1] == raw@[i + 1]);
        if n - i > 1 && raw[i] == CARRIAGE_RETURN && raw[i + 1] == LINE_FEED {
            proof {
                assert(pair_at(ahead, 0));
                assert(line_end(rest) == i - start);
                assert(rest.take(i - start) =~= line@);
                assert(rest.skip(i - start + 2) =~= raw@.skip(i + 2));
                assert(lines(rest) == seq![line@] + lines(raw@.skip(i + 2)));
                assert(lines(rest)[0] == line@);
                assert forall|j: int| 0 <= j < lines(raw@.skip(i + 2)).len() implies lines(raw@)[r@.len() + 1 + j]
                    == #[trigger] lines(raw@.skip(i + 2))[j] by {
                    assert(lines(rest)[j + 1] == lines(raw@.skip(i + 2))[j]);
                }
            }
            r.push(line);
            line = Vec::new();
            i = i + 2;
            proof {
                start = i as int;
                assert(line@ =~= raw@.subrange(start, i as int));
            }
        } else {
            assert(!pair_at(ahead, 0));
            line.push(raw[i]);
            i = i + 1;
            assert(line@ =~= raw@.subrange(start, i as int));
        }
    }
    proof {
        let rest = raw@.skip(start);
        assert(raw@.skip(i as int).len() == 0);
        assert(line_end(rest) == rest.len());
        assert(line@ =~= rest);
        assert(lines(rest) =~= seq![rest]);
        assert(lines(rest)[0] == line@);
    }
    r.push(line);
    r
}

fn decode_line(line: &[u8]) -> (r: Vec<char>)
    ensures
        r@ == line_text(line@),
{
    let n: usize = line.len();
    let mut v: Vec<char> = Vec::new();
    let mut i: usize = 0;
    while i < n
        invariant
            i <= n == line@.len(),
            v@ == latin1(line@.take(i as int)),
        decreases n - i,
    {
        v.push(line[i] as char);
        i = i + 1;
        assert(v@ =~= latin1(line@.take(i as int)));
    }
    assert(line@.take(i as int) =~= line@);
    text::trim_chars(TrimSet::Blank, &v)
}

/// Cuts a text to what a field takes.
fn cut_field(s: String) -> (r: String)
    ensures
        r@ == field(s@),
        r@.len() <= MAX_STRING_LEN,
{
    let v = text::chars_of(&s);
    if v.len() <= MAX_STRING_LEN {
        s
    } else {
        let cut = text::slice_of(&v, 0, MAX_STRING_LEN);
        assert(cut@ =~= s@.take(MAX_STRING_LEN as int));
        text::string_of(&cut)
    }
}

impl IniFile {
    /// The configuration in the contents of a file; `None` where the file could
    /// not be opened or read.
    pub fn open(contents: Option<&[u8]>) -> (r: Option<IniFile>)
        ensures
            match contents {
                Some(raw) => r is Some && r->0@ == parsed(raw@),
                None => r is None,
            },
    {
        match contents {
            Some(raw) => Some(IniFile { sections: Self::parse(raw) }),
            None => None,
        }
    }

    fn parse(raw: &[u8]) -> (sections: Vec<IniSection>)
        ensures
            sections_view(sections@) == parsed(raw@),
    {
        let all = split_lines(raw);
        let mut sections: Vec<IniSection> = Vec::new();
        let mut k: usize = 0;
        assert(sections_view(sections@) =~= Seq::<SectionView>::empty());
        while k < all.len()
            invariant
                k <= all@.len() == lines(raw@).len(),
                forall|i: int| 0 <= i < all@.len() ==> (#[trigger] all@[i])@ == lines(raw@)[i],
                sections_view(sections@) == with_lines(
                    Seq::empty(),
                    lines(raw@).take(k as int),
                ),
            decreases all@.len() - k,
        {
            let line = decode_line(&all[k]);
            let ghost before = sections_view(sections@);
            proof {
                let next = lines(raw@).take(k + 1);
                assert(next.drop_last() =~= lines(raw@).take(k as int));
                assert(next.last() == all@[k as int]@);
                assert(with_lines(Seq::empty(), next) == with_line(before, line@));
            }
            k = k + 1;
            if line.len() == 0 || line[0] == ';' {
                continue ;
            }
            if line[0] == '[' && line[line.len() - 1] == ']' {
                let name = text::slice_of(&line, 1, line.len() - 1);
                let section = IniSection { name: text::string_of(&name), variables: Vec::new() };
                assert(section@.variables =~= Seq::empty());
                sections.push(section);
                assert(sections_view(sections@) =~= before.push(section@));
                continue ;
            }
            match Self::fill_variable(&line) {
                Some(variable) => {
                    if sections.len() > 0 {
                        let ghost added = variable@;
                        let last: usize = sections.len() - 1;
                        sections[last].variables.push(variable);
                        assert(sections@[last as int]@.variables =~= before.last().variables.push(
                            added,
                        ));
                        assert(sections_view(sections@) =~= before.drop_last().push(
                            with_variable(before.last(), added),
                        ));
                    }
                },
                None => {},
            }
        }
        assert(lines(raw@).take(k as int) =~= lines(raw@));
        sections
    }

    /// Takes spaces and tabs off both ends.
    pub fn str_trim(s: &str) -> (r: String)
        ensures
            r@ == text::trim(TrimSet::Blank, s@),
    {
        let v = text::chars_of(s);
        text::string_of(&text::trim_chars(TrimSet::Blank, &v))
    }

    /// Finds the first unquoted `=`.
    fn find_split(line: &[char]) -> (r: Option<usize>)
        ensures
            match r {
                Some(i) => split_from(line@, 0) == Some(i as int) && i < line@.len(),
                None => split_from(line@, 0) is None,
            },
    {
        let mut in_quotes: bool = false;
        let mut i: usize = 0;
        while i < line.len()
            invariant
                i <= line@.len(),
                in_quotes == quoted(line@.take(i as int)),
                split_from(line@, 0) == split_from(line@, i as int),
            decreases line@.len() - i,
        {
            let c: char = line[i];
            assert(line@.take(i + 1).drop_last() =~= line@.take(i as int));
            if c == '"' || c == '\'' {
                in_quotes = !in_quotes;
            }
            if c == '=' && !in_quotes {
                return Some(i);
            }
            i = i + 1;
        }
        None
    }

    /// Whether the line holds an unquoted `=`.
    pub fn is_variable(s: &str) -> (r: bool)
        ensures
            r == (variable_of(s@) is Some),
    {
        let line = text::chars_of(s);
        Self::find_split(&line).is_some()
    }

    /// Splits the line at its first unquoted `=` and trims both sides.
    fn fill_variable(line: &[char]) -> (r: Option<IniSectionVariable>)
        ensures
            match r {
                Some(v) => variable_of(line@) == Some(v@),
                None => variable_of(line@) is None,
            },
    {
        let n: usize = line.len();
        match Self::find_split(line) {
            Some(i) => {
                let name = text::slice_of(line, 0, i);
                let value = text::slice_of(line, i + 1, n);
                assert(name@ =~= line@.take(i as int));
                assert(value@ =~= line@.skip(i + 1));
                Some(
                    IniSectionVariable {
                        name: text::string_of(&text::trim_chars(TrimSet::Blank, &name)),
                        value: text::string_of(&text::trim_chars(TrimSet::Blank, &value)),
                    },
                )
            },
            None => None,
        }
    }

    fn get_section(&self, name: &str) -> (r: Option<&IniSection>)
        ensures
            match r {
                Some(s) => find_section(self@, name@) == Some(s@),
                None => find_section(self@, name@) is None,
            },
    {
        let mut i: usize = 0;
        assert(self@.skip(0) =~= self@);
        while i < self.sections.len()
            invariant
                i <= self.sections@.len(),
                find_section(self@, name@) == find_section(self@.skip(i as int), name@),
            decreases self.sections@.len() - i,
        {
            assert(self@.skip(i as int)[0] == self.sections@[i as int]@);
            assert(self@.skip(i as int).skip(1) =~= self@.skip(i + 1));
            if text::same_text(&self.sections[i].name, name) {
                return Some(&self.sections[i]);
            }
            i = i + 1;
        }
        None
    }

    fn get_variable_raw(&self, section: &str, var_name: &str) -> (r: Option<IniSectionVariable>)
        ensures
            match r {
                Some(v) => lookup(self@, section@, var_name@) == Some(v@),
                None => lookup(self@, section@, var_name@) is None,
            },
    {
        let found = match self.get_section(section) {
            Some(s) => s,
            None => {
                return None;
            },
        };
        let ghost all = found@.variables;
        let mut i: usize = 0;
        assert(all.skip(0) =~= all);
        while i < found.variables.len()
            invariant
                i <= found.variables@.len(),
                all == found@.variables,
                find_section(self@, section@) == Some(found@),
                find_variable(all, var_name@) == find_variable(all.skip(i as int), var_name@),
            decreases found.variables@.len() - i,
        {
            assert(all.skip(i as int)[0] == found.variables@[i as int]@);
            assert(all.skip(i as int).skip(1) =~= all.skip(i + 1));
            let v = &found.variables[i];
            if text::same_text(&v.name, var_name) {
                return Some(
                    IniSectionVariable { name: v.name.clone(), value: v.value.clone() },
                );
            }
            i = i + 1;
        }
        None
    }

    /// Whether the file has a section with the name.
    pub fn section_exists(&self, section: &str) -> (r: bool)
        ensures
            r == (find_section(self@, section@) is Some),
    {
        self.get_section(section).is_some()
    }

    /// Whether the section has a variable with the name.
    pub fn variable_exists(&self, section: &str, var_name: &str) -> (r: bool)
        ensures
            r == (lookup(self@, section@, var_name@) is Some),
    {
        self.get_variable_raw(section, var_name).is_some()
    }

    /// The variable's name and text, cut to what a field takes; `None` where there
    /// is no such variable.
    pub fn get_string(&self, section: &str, var_name: &str) -> (r: Option<IniVarString>)
        ensures
            match lookup(self@, section@, var_name@) {
                Some(v) => r is Some && r->0.name@ == field(v.name) && r->0.value@ == field(
                    v.value,
                ),
                None => r is None,
            },
            r matches Some(s) ==> s.name@.len() <= MAX_STRING_LEN && s.value@.len()
                <= MAX_STRING_LEN,
    {
        match self.get_variable_raw(section, var_name) {
            Some(raw) => Some(
                IniVarString { name: cut_field(raw.name), value: cut_field(raw.value) },
            ),
            None => None,
        }
    }

    /// The variable's text as a number; `None` where there is no such variable.
    pub fn get_dword(&self, section: &str, var_name: &str) -> (r: Option<IniVarDword>)
        ensures
            match lookup(self@, section@, var_name@) {
                Some(v) => r is Some && r->0.name@ == field(v.name) && r->0.value_dec == dword_value(
                    v.value,
                    10,
                ) && r->0.value_hex == dword_value(v.value, 16),
                None => r is None,
            },
            r matches Some(d) ==> d.name@.len() <= MAX_STRING_LEN,
    {
        match self.get_variable_raw(section, var_name) {
            Some(raw) => {
                let digits = text::trim_chars(TrimSet::WhiteSpace, &text::chars_of(&raw.value));
                let value_dec: u64 = number::read_number(&digits, 10);
                let value_hex: u64 = number::read_number(&digits, 16);
                Some(IniVarDword { name: cut_field(raw.name), value_dec, value_hex })
            },
            None => None,
        }
    }

    /// Whether the variable's text is a decimal number other than 0; `None` where
    /// there is no such variable.
    pub fn get_bool(&self, section: &str, var_name: &str) -> (r: Option<bool>)
        ensures
            match lookup(self@, section@, var_name@) {
                Some(v) => r == Some(bool_value(v.value)),
                None => r is None,
            },
    {
        match self.get_variable_raw(section, var_name) {
            Some(raw) => {
                let digits = text::trim_chars(TrimSet::WhiteSpace, &text::chars_of(&raw.value));
                Some(number::is_nonzero(&digits))
            },
            None => None,
        }
    }

    /// The variable's text as bytes; `None` where there is no such variable, and
    /// where the text has an odd number of characters.
    pub fn get_bytearray(&self, section: &str, var_name: &str) -> (r: Option<IniVarByteArray>)
        ensures
            match lookup_bytes(self@, section@, var_name@) {
                Some(bytes) => r is Some && r->0.name@ == field(var_name@) && r->0.value@ == bytes,
                None => r is None,
            },
            r matches Some(b) ==> b.name@.len() <= MAX_STRING_LEN && b.value@.len() <= 16,
    {
        let raw = match self.get_variable_raw(section, var_name) {
            Some(raw) => raw,
            None => {
                return None;
            },
        };
        proof {
            lemma_found_name(self@, section@, var_name@);
        }
        let hex_chars = text::chars_of(&raw.value);
        if hex_chars.len() % 2 != 0 {
            return None;
        }
        let value_len: usize = if hex_chars.len() > 32 {
            32
        } else {
            hex_chars.len()
        };
        let ghost expected = bytes_value(raw.value@)->0;
        let mut bytes: Vec<u8> = Vec::new();
        let mut i: usize = 0;
        while i < value_len
            invariant
                i <= value_len <= hex_chars@.len(),
                i % 2 == 0,
                value_len % 2 == 0,
                hex_chars@ == raw.value@,
                value_len == hex_len(raw.value@),
                raw.value@.len() % 2 == 0,
                expected == bytes_value(raw.value@)->0,
                bytes@ == expected.take(i as int / 2),
            decreases value_len - i,
        {
            let hi: u8 = Self::hex_nibble(hex_chars[i]);
            let lo: u8 = Self::hex_nibble(hex_chars[i + 1]);
            assert((hi << 4) | lo == hi * 16 + lo) by (bit_vector)
                requires
                    hi < 16,
                    lo < 16,
            ;
            let k: Ghost<int> = Ghost(i as int / 2);
            bytes.push((hi << 4) | lo);
            assert(expected[k@] == hi * 16 + lo);
            i = i + 2;
            assert(bytes@ =~= expected.take(i as int / 2));
        }
        assert(bytes@ =~= expected);
        Some(IniVarByteArray { name: cut_field(raw.name), value: bytes })
    }

    /// The value of one hexadecimal digit in upper case; 0 for everything else.
    pub fn hex_nibble(c: char) -> (r: u8)
        ensures
            r == nibble(c),
            r < 16,
    {
        match c {
            '0' => 0,
            '1' => 1,
            '2' => 2,
            '3' => 3,
            '4' => 4,
            '5' => 5,
            '6' => 6,
            '7' => 7,
            '8' => 8,
            '9' => 9,
            'A' => 10,
            'B' => 11,
            'C' => 12,
            'D' => 13,
            'E' => 14,
            'F' => 15,
            _ => 0,
        }
    }

    /// The text of a wide string, which ends at its first NUL, if it has one.
    pub fn wide_to_string(wide: &[u16]) -> (r: String)
        ensures
            r@ == utf16::wide_text(wide@),
    {
        let end: usize = utf16::find_nul(wide);
        utf16::decode(vstd::slice::slice_subrange(wide, 0, end))
    }

    /// `section_exists` for a wide name.
    pub fn section_exists_wide(&self, section: &[u16]) -> (r: bool)
        ensures
            r == (find_section(self@, utf16::wide_text(section@)) is Some),
    {
        self.section_exists(&Self::wide_to_string(section))
    }

    /// `variable_exists` for wide names.
    pub fn variable_exists_wide(&self, section: &[u16], var_name: &[u16]) -> (r: bool)
        ensures
            r == (lookup(self@, utf16::wide_text(section@), utf16::wide_text(var_name@)) is Some),
    {
        self.variable_exists(&Self::wide_to_string(section), &Self::wide_to_string(var_name))
    }

    /// `get_string` for wide names.
    pub fn get_string_wide(&self, section: &[u16], var_name: &[u16]) -> (r: Option<IniVarString>)
        ensures
            match lookup(self@, utf16::wide_text(section@), utf16::wide_text(var_name@)) {
                Some(v) => r is Some && r->0.name@ == field(v.name) && r->0.value@ == field(
                    v.value,
                ),
                None => r is None,
            },
            r matches Some(s) ==> s.name@.len() <= MAX_STRING_LEN && s.value@.len()
                <= MAX_STRING_LEN,
    {
        self.get_string(&Self::wide_to_string(section), &Self::wide_to_string(var_name))
    }

    /// `get_dword` for wide names.
    pub fn get_dword_wide(&self, section: &[u16], var_name: &[u16]) -> (r: Option<IniVarDword>)
        ensures
            match lookup(self@, utf16::wide_text(section@), utf16::wide_text(var_name@)) {
                Some(v) => r is Some && r->0.name@ == field(v.name) && r->0.value_dec == dword_value(
                    v.value,
                    10,
                ) && r->0.value_hex == dword_value(v.value, 16),
                None => r is None,
            },
            r matches Some(d) ==> d.name@.len() <= MAX_STRING_LEN,
    {
        self.get_dword(&Self::wide_to_string(section), &Self::wide_to_string(var_name))
    }

    /// `get_bool` for wide names.
    pub fn get_bool_wide(&self, section: &[u16], var_name: &[u16]) -> (r: Option<bool>)
        ensures
            match lookup(self@, utf16::wide_text(section@), utf16::wide_text(var_name@)) {
                Some(v) => r == Some(bool_value(v.value)),
                None => r is None,
            },
    {
        self.get_bool(&Self::wide_to_string(section), &Self::wide_to_string(var_name))
    }

    /// `get_bytearray` for wide names.
    pub fn get_bytearray_wide(&self, section: &[u16], var_name: &[u16]) -> (r: Option<
        IniVarByteArray,
    >)
        ensures
            match lookup_bytes(
                self@,
                utf16::wide_text(section@),
                utf16::wide_text(var_name@),
            ) {
                Some(bytes) => r is Some && r->0.name@ == field(utf16::wide_text(var_name@))
                    && r->0.value@ == bytes,
                None => r is None,
            },
            r matches Some(b) ==> b.name@.len() <= MAX_STRING_LEN && b.value@.len() <= 16,
    {
        self.get_bytearray(&Self::wide_to_string(section), &Self::wide_to_string(var_name))
    }
}

// ---------------------------------------------------------------------------
// Names
// ---------------------------------------------------------------------------

/// A variable that is found has the name that was asked for.
proof fn lemma_found_name(sections: Seq<SectionView>, section: Seq<char>, name: Seq<char>)
    ensures
        lookup(sections, section, name) matches Some(v) ==> v.name == name,
{
    if let Some(s) = find_section(sections, section) {
        lemma_variable_name(s.variables, name);
    }
}

proof fn lemma_variable_name(variables: Seq<VariableView>, name: Seq<char>)
    ensures
        find_variable(variables, name) matches Some(v) ==> v.name == name,
    decreases variables.len(),
{
    if variables.len() > 0 {
        lemma_variable_name(variables.skip(1), name);
    }
}

} // verus!
