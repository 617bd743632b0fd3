//! Laws of whole configuration files: where their lines end, and what the lines
//! say together.

use crate::ini_file;
use crate::ini_file::{SectionView, VariableView};
use crate::ini_laws;
use crate::text;
use crate::text::TrimSet;
use vstd::prelude::*;

verus! {

// ---------------------------------------------------------------------------
// Lines
// ---------------------------------------------------------------------------

/// What ends a line.
pub open spec fn line_break() -> Seq<u8> {
    seq![ini_file::CARRIAGE_RETURN, ini_file::LINE_FEED]
}

/// Whether no line ends within the bytes.
pub open spec fn one_line(line: Seq<u8>) -> bool {
    forall|i: int| !#[trigger] ini_file::pair_at(line, i)
}

/// Whether a line starts behind the bytes: there are none, or they end with the
/// end of a line.
pub open spec fn at_line_start(a: Seq<u8>) -> bool {
    a.len() == 0 || ini_file::pair_at(a, a.len() - 2)
}

proof fn lemma_line_end(raw: Seq<u8>)
    ensures
        0 <= ini_file::line_end(raw) <= raw.len(),
        ini_file::line_end(raw) < raw.len() ==> ini_file::pair_at(raw, ini_file::line_end(raw)),
        forall|j: int|
            0 <= j < ini_file::line_end(raw) ==> !#[trigger] ini_file::pair_at(raw, j),
    decreases raw.len(),
{
    if raw.len() > 0 && !ini_file::pair_at(raw, 0) {
        let rest = raw.skip(1);
        lemma_line_end(rest);
        assert(ini_file::line_end(rest) < rest.len() ==> ini_file::pair_at(
            raw,
            ini_file::line_end(rest) + 1,
        ));
        assert forall|j: int| 0 <= j < ini_file::line_end(raw) implies !#[trigger] ini_file::pair_at(
            raw,
            j,
        ) by {
            if j > 0 {
                assert(!ini_file::pair_at(rest, j - 1));
            }
        }
    }
}

proof fn lemma_line_end_is(raw: Seq<u8>, k: int)
    requires
        0 <= k <= raw.len(),
        k < raw.len() ==> ini_file::pair_at(raw, k),
        forall|j: int| 0 <= j < k ==> !#[trigger] ini_file::pair_at(raw, j),
    ensures
        ini_file::line_end(raw) == k,
{
    lemma_line_end(raw);
}

/// The lines of two texts with the end of a line between them are those of the
/// first, then those of the second.
pub proof fn law_lines_of_joined(a: Seq<u8>, b: Seq<u8>)
    ensures
        ini_file::lines(a + line_break() + b) == ini_file::lines(a) + ini_file::lines(b),
    decreases a.len(),
{
    let raw = a + line_break() + b;
    let end = ini_file::line_end(a);
    lemma_line_end(a);
    assert(raw[a.len() as int] == ini_file::CARRIAGE_RETURN);
    assert(raw[a.len() as int + 1] == ini_file::LINE_FEED);
    assert forall|j: int| 0 <= j < end implies !#[trigger] ini_file::pair_at(raw, j) by {
        assert(!ini_file::pair_at(a, j));
    }
    lemma_line_end_is(raw, end);
    if end < a.len() {
        let rest = a.skip(end + 2);
        law_lines_of_joined(rest, b);
        assert(raw.take(end) =~= a.take(end));
        assert(raw.skip(end + 2) =~= rest + line_break() + b);
        assert(ini_file::lines(raw) =~= ini_file::lines(a) + ini_file::lines(b));
    } else {
        assert(raw.take(end) =~= a);
        assert(raw.skip(end + 2) =~= b);
    }
}

/// Only a carriage return with a line feed behind it ends a line: a text without
/// such a pair is one line, whatever carriage returns and line feeds it holds.
pub proof fn law_only_pairs_end_lines(raw: Seq<u8>)
    requires
        one_line(raw),
    ensures
        ini_file::lines(raw) == seq![raw],
{
    lemma_line_end_is(raw, raw.len() as int);
}

/// No line holds the end of a line, and every text has at least one line.
pub proof fn law_lines_hold_no_break(raw: Seq<u8>)
    ensures
        ini_file::lines(raw).len() > 0,
        forall|i: int|
            0 <= i < ini_file::lines(raw).len() ==> one_line(#[trigger] ini_file::lines(raw)[i]),
    decreases raw.len(),
{
    let end = ini_file::line_end(raw);
    lemma_line_end(raw);
    let first = raw.take(end);
    assert forall|j: int| !#[trigger] ini_file::pair_at(first, j) by {
        assert(0 <= j < end ==> !ini_file::pair_at(raw, j));
    }
    if end < raw.len() {
        let rest = ini_file::lines(raw.skip(end + 2));
        law_lines_hold_no_break(raw.skip(end + 2));
        assert forall|i: int| 0 <= i < ini_file::lines(raw).len() implies one_line(
            #[trigger] ini_file::lines(raw)[i],
        ) by {
            if i > 0 {
                assert(ini_file::lines(raw)[i] == rest[i - 1]);
            }
        }
    } else {
        assert(first =~= raw);
    }
}

proof fn lemma_with_lines_concat(
    sections: Seq<SectionView>,
    first: Seq<Seq<u8>>,
    second: Seq<Seq<u8>>,
)
    ensures
        ini_file::with_lines(sections, first + second) == ini_file::with_lines(
            ini_file::with_lines(sections, first),
            second,
        ),
    decreases second.len(),
{
    if second.len() == 0 {
        assert(first + second =~= first);
    } else {
        lemma_with_lines_concat(sections, first, second.drop_last());
        assert((first + second).drop_last() =~= first + second.drop_last());
        assert((first + second).last() == second.last());
    }
}

proof fn lemma_with_one_line(sections: Seq<SectionView>, line: Seq<u8>)
    ensures
        ini_file::with_lines(sections, seq![line]) == ini_file::with_line(
            sections,
            ini_file::line_text(line),
        ),
{
    assert(seq![line].drop_last() =~= Seq::empty());
    assert(ini_file::with_lines(sections, Seq::empty()) == sections);
}

proof fn lemma_empty_text(sections: Seq<SectionView>)
    ensures
        ini_file::lines(Seq::empty()) == seq![Seq::<u8>::empty()],
        ini_file::with_lines(sections, seq![Seq::<u8>::empty()]) == sections,
{
    law_only_pairs_end_lines(Seq::empty());
    lemma_with_one_line(sections, Seq::empty());
    let said = ini_file::latin1(Seq::empty());
    assert(said.len() == 0);
    assert(ini_file::line_text(Seq::empty()).len() == 0);
}

/// A text with the end of a line between its parts says what the second part
/// adds to the first.
proof fn lemma_parsed_joined(a: Seq<u8>, b: Seq<u8>)
    ensures
        ini_file::parsed(a + line_break() + b) == ini_file::with_lines(
            ini_file::parsed(a),
            ini_file::lines(b),
        ),
{
    law_lines_of_joined(a, b);
    lemma_with_lines_concat(Seq::empty(), ini_file::lines(a), ini_file::lines(b));
}

/// The same where the second part starts on a line of its own.
proof fn lemma_parsed_from_line_start(a: Seq<u8>, b: Seq<u8>)
    requires
        at_line_start(a),
    ensures
        ini_file::parsed(a + b) == ini_file::with_lines(ini_file::parsed(a), ini_file::lines(b)),
{
    if a.len() == 0 {
        assert(a =~= Seq::empty());
        lemma_empty_text(Seq::empty());
        assert(a + b =~= b);
    } else {
        let front = a.take(a.len() - 2);
        assert(a =~= front + line_break() + Seq::<u8>::empty());
        assert(a + b =~= front + line_break() + b);
        lemma_parsed_joined(front, Seq::empty());
        lemma_parsed_joined(front, b);
        lemma_empty_text(ini_file::parsed(front));
    }
}

proof fn lemma_line_then_rest(line: Seq<u8>, b: Seq<u8>, sections: Seq<SectionView>)
    requires
        one_line(line),
    ensures
        ini_file::with_lines(sections, ini_file::lines(line + line_break() + b))
            == ini_file::with_lines(
            ini_file::with_line(sections, ini_file::line_text(line)),
            ini_file::lines(b),
        ),
        ini_file::with_lines(sections, ini_file::lines(line)) == ini_file::with_line(
            sections,
            ini_file::line_text(line),
        ),
{
    law_lines_of_joined(line, b);
    law_only_pairs_end_lines(line);
    lemma_with_lines_concat(sections, seq![line], ini_file::lines(b));
    lemma_with_one_line(sections, line);
}

proof fn lemma_next_line(a: Seq<u8>, line: Seq<u8>)
    requires
        at_line_start(a),
        one_line(line),
    ensures
        at_line_start(a + line + line_break()),
        ini_file::parsed(a + line + line_break()) == ini_file::with_line(
            ini_file::parsed(a),
            ini_file::line_text(line),
        ),
{
    let whole = a + line + line_break();
    let behind = line + line_break() + Seq::<u8>::empty();
    assert(whole =~= a + behind);
    lemma_parsed_from_line_start(a, behind);
    lemma_line_then_rest(line, Seq::empty(), ini_file::parsed(a));
    lemma_empty_text(ini_file::with_line(ini_file::parsed(a), ini_file::line_text(line)));
}

/// A line that is empty or a comment changes nothing, wherever it stands: before
/// other lines, between them or behind them.
pub proof fn law_ignored_line(a: Seq<u8>, line: Seq<u8>, b: Seq<u8>)
    requires
        at_line_start(a),
        one_line(line),
        ini_file::is_ignored(ini_file::line_text(line)),
    ensures
        ini_file::parsed(a + line + line_break() + b) == ini_file::parsed(a + b),
        ini_file::parsed(a + line) == ini_file::parsed(a),
{
    assert(a + line + line_break() + b =~= a + (line + line_break() + b));
    lemma_parsed_from_line_start(a, line + line_break() + b);
    lemma_parsed_from_line_start(a, b);
    lemma_parsed_from_line_start(a, line);
    lemma_line_then_rest(line, b, ini_file::parsed(a));
}

proof fn lemma_sections_behind(sections: Seq<SectionView>, all: Seq<Seq<u8>>)
    requires
        all.len() > 0,
        ini_file::is_header(ini_file::line_text(all[0])),
    ensures
        ini_file::with_lines(Seq::empty(), all).len() > 0,
        ini_file::with_lines(sections, all) == sections + ini_file::with_lines(Seq::empty(), all),
    decreases all.len(),
{
    let s = ini_file::line_text(all.last());
    let none = Seq::<SectionView>::empty();
    let rest = all.drop_last();
    if rest.len() == 0 {
        assert(ini_file::with_lines(sections, rest) == sections);
        assert(ini_file::with_lines(none, rest) == none);
        assert(ini_file::with_line(sections, s) =~= sections + ini_file::with_line(none, s));
    } else {
        assert(rest[0] == all[0]);
        lemma_sections_behind(sections, rest);
        let added = ini_file::with_lines(none, rest);
        assert((sections + added).last() == added.last());
        assert(ini_file::with_line(sections + added, s) =~= sections + ini_file::with_line(
            added,
            s,
        ));
    }
}

/// A file whose second part starts with the header of a section has the sections
/// of its first part, then those of its second.
pub proof fn law_joined_files(a: Seq<u8>, b: Seq<u8>)
    requires
        ini_file::is_header(ini_file::line_text(ini_file::lines(b)[0])),
    ensures
        ini_file::parsed(a + line_break() + b) == ini_file::parsed(a) + ini_file::parsed(b),
{
    law_lines_hold_no_break(b);
    lemma_parsed_joined(a, b);
    lemma_sections_behind(ini_file::parsed(a), ini_file::lines(b));
}

// ---------------------------------------------------------------------------
// What a file defines
// ---------------------------------------------------------------------------

/// The bytes of the line that opens a section.
pub open spec fn header_line(section: Seq<u8>) -> Seq<u8> {
    seq!['[' as u8] + section + seq![']' as u8]
}

/// The bytes of the line that defines a variable.
pub open spec fn variable_line(name: Seq<u8>, value: Seq<u8>) -> Seq<u8> {
    name.push('=' as u8) + value
}

/// Whether the bytes can be a section's name in a file.
pub open spec fn section_writable(section: Seq<u8>) -> bool {
    one_line(section)
}

/// Whether the bytes can be a variable's name and value in a file: they stay on
/// their line, have no blanks at their ends, the name ends outside quotes and
/// holds no unquoted `=`, and the line is neither a comment nor a header.
pub open spec fn variable_writable(name: Seq<u8>, value: Seq<u8>) -> bool {
    &&& one_line(name)
    &&& one_line(value)
    &&& text::trimmed(TrimSet::Blank, ini_file::latin1(name))
    &&& text::trimmed(TrimSet::Blank, ini_file::latin1(value))
    &&& ini_file::variable_of(ini_file::latin1(name)) is None
    &&& !ini_file::quoted(ini_file::latin1(name))
    &&& name.len() > 0 ==> name[0] != ';' as u8
    &&& name.len() > 0 && name[0] == '[' as u8 ==> value.len() == 0 || value.last() != ']' as u8
}

proof fn lemma_header_line(section: Seq<u8>)
    requires
        section_writable(section),
    ensures
        one_line(header_line(section)),
        ini_file::is_header(ini_file::line_text(header_line(section))),
        ini_file::line_text(header_line(section)).subrange(
            1,
            ini_file::line_text(header_line(section)).len() - 1,
        ) == ini_file::latin1(section),
        !ini_file::is_ignored(ini_file::line_text(header_line(section))),
{
    let line = header_line(section);
    assert forall|i: int| !#[trigger] ini_file::pair_at(line, i) by {
        assert(!ini_file::pair_at(section, i - 1));
    }
    let said = ini_file::latin1(line);
    assert(said[0] == '[' && said.last() == ']');
    text::law_trim_keeps_trimmed(TrimSet::Blank, said);
    assert(said.subrange(1, said.len() - 1) =~= ini_file::latin1(section));
}

proof fn lemma_variable_line(name: Seq<u8>, value: Seq<u8>)
    requires
        variable_writable(name, value),
    ensures
        one_line(variable_line(name, value)),
        !ini_file::is_ignored(ini_file::line_text(variable_line(name, value))),
        !ini_file::is_header(ini_file::line_text(variable_line(name, value))),
        ini_file::variable_of(ini_file::line_text(variable_line(name, value))) == Some(
            VariableView { name: ini_file::latin1(name), value: ini_file::latin1(value) },
        ),
{
    let line = variable_line(name, value);
    let n = name.len() as int;
    assert forall|i: int| !#[trigger] ini_file::pair_at(line, i) by {
        assert(!ini_file::pair_at(name, i));
        assert(!ini_file::pair_at(value, i - n - 1));
    }
    let left = ini_file::latin1(name);
    let right = ini_file::latin1(value);
    let said = ini_file::latin1(line);
    assert(said =~= left + (seq!['='] + right));
    assert(text::trimmed(TrimSet::Blank, said)) by {
        if n > 0 {
            assert(said[0] == left[0]);
        } else {
            assert(said[0] == '=');
        }
        if value.len() > 0 {
            assert(said.last() == right.last());
        } else {
            assert(said.last() == '=');
        }
    }
    text::law_trim_keeps_trimmed(TrimSet::Blank, said);
    assert(said[n] == '=');
    assert(said.take(n) =~= left);
    assert(said.skip(n + 1) =~= right);
    assert(ini_file::splits_at(said, n));
    ini_laws::law_first_unquoted_split(left);
    ini_laws::law_first_unquoted_split(said);
    assert forall|j: int| 0 <= j < n implies !#[trigger] ini_file::splits_at(said, j) by {
        assert(said.take(j) =~= left.take(j));
        assert(!ini_file::splits_at(left, j));
    }
    assert(ini_file::split_from(said, 0) == Some(n));
    text::law_trim_keeps_trimmed(TrimSet::Blank, left);
    text::law_trim_keeps_trimmed(TrimSet::Blank, right);
    if n > 0 {
        assert(said[0] == left[0] && left[0] == name[0] as char);
    } else {
        assert(said[0] == '=');
    }
    if value.len() > 0 {
        assert(said.last() == right.last() && right.last() == value.last() as char);
    }
}

/// A file gives back what it defines: a variable that its section does not have
/// yet is found with the name and the value that stand in the file, in the
/// section that was opened last, where no section before has that name, and
/// whatever the rest of the file holds, if there is any.
pub proof fn law_defined_variable_is_found(
    before: Seq<u8>,
    name: Seq<u8>,
    value: Seq<u8>,
    behind: Seq<u8>,
)
    requires
        at_line_start(before),
        variable_writable(name, value),
        ini_file::parsed(before).len() > 0,
        ini_file::find_section(
            ini_file::parsed(before).drop_last(),
            ini_file::parsed(before).last().name,
        ) is None,
        ini_file::find_variable(
            ini_file::parsed(before).last().variables,
            ini_file::latin1(name),
        ) is None,
    ensures
        ini_file::lookup(
            ini_file::parsed(before + variable_line(name, value) + line_break() + behind),
            ini_file::parsed(before).last().name,
            ini_file::latin1(name),
        ) == Some(VariableView { name: ini_file::latin1(name), value: ini_file::latin1(value) }),
        ini_file::lookup(
            ini_file::parsed(before + variable_line(name, value)),
            ini_file::parsed(before).last().name,
            ini_file::latin1(name),
        ) == Some(VariableView { name: ini_file::latin1(name), value: ini_file::latin1(value) }),
{
    let line = variable_line(name, value);
    let v = VariableView { name: ini_file::latin1(name), value: ini_file::latin1(value) };
    let sections = ini_file::parsed(before);
    let front = sections.drop_last();
    let last = sections.last();
    lemma_variable_line(name, value);
    assert(before + line + line_break() + behind =~= before + (line + line_break() + behind));
    lemma_parsed_from_line_start(before, line);
    lemma_parsed_from_line_start(before, line + line_break() + behind);
    lemma_line_then_rest(line, behind, sections);
    let filled = ini_file::with_line(sections, ini_file::line_text(line));
    assert(filled == front.push(ini_file::with_variable(last, v)));
    ini_laws::lemma_find_section_push(front, ini_file::with_variable(last, v), last.name);
    ini_laws::lemma_find_variable_push(last.variables, v, v.name);
    assert(ini_file::lookup(filled, last.name, v.name) == Some(v));
    ini_laws::law_first_definition_wins(filled, ini_file::lines(behind), last.name, v.name);
}

/// A header line opens an empty section behind those before it.
pub proof fn law_header_opens_section(before: Seq<u8>, section: Seq<u8>)
    requires
        at_line_start(before),
        section_writable(section),
    ensures
        ini_file::parsed(before + header_line(section)) == ini_file::parsed(before).push(
            SectionView { name: ini_file::latin1(section), variables: Seq::empty() },
        ),
{
    let header = header_line(section);
    lemma_header_line(section);
    lemma_parsed_from_line_start(before, header);
    lemma_line_then_rest(header, Seq::empty(), ini_file::parsed(before));
}

/// A variable in bytes, as a file has it.
pub struct WrittenVariable {
    pub name: Seq<u8>,
    pub value: Seq<u8>,
}

/// A section in bytes, as a file has it.
pub struct WrittenSection {
    pub name: Seq<u8>,
    pub variables: Seq<WrittenVariable>,
}

/// The lines of variables, one behind the other.
pub open spec fn written_variables(variables: Seq<WrittenVariable>) -> Seq<u8>
    decreases variables.len(),
{
    if variables.len() == 0 {
        Seq::empty()
    } else {
        written_variables(variables.drop_last()) + variable_line(
            variables.last().name,
            variables.last().value,
        ) + line_break()
    }
}

/// The header line of a section, then the lines of its variables.
pub open spec fn written_section(section: WrittenSection) -> Seq<u8> {
    header_line(section.name) + line_break() + written_variables(section.variables)
}

/// A file with the sections, one behind the other.
pub open spec fn written_file(sections: Seq<WrittenSection>) -> Seq<u8>
    decreases sections.len(),
{
    if sections.len() == 0 {
        Seq::empty()
    } else {
        written_file(sections.drop_last()) + written_section(sections.last())
    }
}

/// What a written variable says.
pub open spec fn said_variable(variable: WrittenVariable) -> VariableView {
    VariableView {
        name: ini_file::latin1(variable.name),
        value: ini_file::latin1(variable.value),
    }
}

/// What a written section says.
pub open spec fn said_section(section: WrittenSection) -> SectionView {
    SectionView {
        name: ini_file::latin1(section.name),
        variables: section.variables.map_values(|v: WrittenVariable| said_variable(v)),
    }
}

/// Whether the section and its variables can stand in a file.
pub open spec fn writable(section: WrittenSection) -> bool {
    &&& section_writable(section.name)
    &&& forall|i: int|
        0 <= i < section.variables.len() ==> variable_writable(
            (#[trigger] section.variables[i]).name,
            section.variables[i].value,
        )
}

/// Whether the bytes are printable ASCII, without spaces at their ends.
pub open spec fn printable(s: Seq<u8>) -> bool {
    &&& forall|i: int| 0 <= i < s.len() ==> ' ' as u8 <= #[trigger] s[i] <= '~' as u8
    &&& s.len() > 0 ==> s[0] != ' ' as u8 && s.last() != ' ' as u8
}

proof fn lemma_no_quotes(s: Seq<char>)
    requires
        forall|i: int| 0 <= i < s.len() ==> !ini_file::is_quote(#[trigger] s[i]),
    ensures
        !ini_file::quoted(s),
    decreases s.len(),
{
    if s.len() > 0 {
        assert forall|i: int| 0 <= i < s.drop_last().len() implies !ini_file::is_quote(
            #[trigger] s.drop_last()[i],
        ) by {
            assert(s.drop_last()[i] == s[i]);
        }
        lemma_no_quotes(s.drop_last());
        assert(s.last() == s[s.len() - 1]);
    }
}

/// Ordinary variables can stand in a file: those with a printable name without
/// `=` and quotes that starts with no `;` and no `[`, and with a printable value.
pub proof fn law_ordinary_variables_are_writable(name: Seq<u8>, value: Seq<u8>)
    requires
        printable(name),
        printable(value),
        forall|i: int|
            0 <= i < name.len() ==> #[trigger] name[i] != '=' as u8 && name[i] != '"' as u8
                && name[i] != '\'' as u8,
        name.len() > 0 ==> name[0] != ';' as u8 && name[0] != '[' as u8,
    ensures
        variable_writable(name, value),
{
    let said = ini_file::latin1(name);
    assert forall|i: int| !#[trigger] ini_file::pair_at(name, i) by {}
    assert forall|i: int| !#[trigger] ini_file::pair_at(value, i) by {}
    assert forall|i: int| 0 <= i < said.len() implies !ini_file::is_quote(#[trigger] said[i])
        && said[i] != '=' by {
        assert(said[i] == name[i] as char);
    }
    lemma_no_quotes(said);
    ini_laws::law_first_unquoted_split(said);
    if value.len() > 0 {
        let right = ini_file::latin1(value);
        assert(right[0] == value[0] as char && right.last() == value.last() as char);
        assert(value.last() == value[value.len() - 1]);
    }
    if name.len() > 0 {
        assert(said[0] == name[0] as char && said.last() == name.last() as char);
        assert(name.last() == name[name.len() - 1]);
    }
}

proof fn lemma_written_variables(a: Seq<u8>, front: Seq<SectionView>, section: WrittenSection)
    requires
        at_line_start(a),
        writable(section),
        ini_file::parsed(a) == front.push(
            SectionView { name: ini_file::latin1(section.name), variables: Seq::empty() },
        ),
    ensures
        at_line_start(a + written_variables(section.variables)),
        ini_file::parsed(a + written_variables(section.variables)) == front.push(
            said_section(section),
        ),
    decreases section.variables.len(),
{
    let all = section.variables;
    if all.len() == 0 {
        assert(a + written_variables(all) =~= a);
        assert(said_section(section).variables =~= Seq::empty());
    } else {
        let fewer = WrittenSection { name: section.name, variables: all.drop_last() };
        assert forall|i: int| 0 <= i < fewer.variables.len() implies variable_writable(
            (#[trigger] fewer.variables[i]).name,
            fewer.variables[i].value,
        ) by {
            assert(fewer.variables[i] == all[i]);
        }
        lemma_written_variables(a, front, fewer);
        let last = all[all.len() - 1];
        let line = variable_line(last.name, last.value);
        let before = a + written_variables(fewer.variables);
        lemma_variable_line(last.name, last.value);
        lemma_next_line(before, line);
        assert(a + written_variables(all) =~= before + line + line_break());
        let sections = front.push(said_section(fewer));
        assert(sections.drop_last() =~= front);
        assert(said_section(section).variables =~= said_section(fewer).variables.push(
            said_variable(last),
        ));
    }
}

/// A file that was written from sections parses to exactly these sections, with
/// exactly their variables, in the same order.
pub proof fn law_written_file_parses(sections: Seq<WrittenSection>)
    requires
        forall|i: int| 0 <= i < sections.len() ==> writable(#[trigger] sections[i]),
    ensures
        ini_file::parsed(written_file(sections)) == sections.map_values(
            |s: WrittenSection| said_section(s),
        ),
        at_line_start(written_file(sections)),
    decreases sections.len(),
{
    let said = sections.map_values(|s: WrittenSection| said_section(s));
    if sections.len() == 0 {
        lemma_empty_text(Seq::empty());
        assert(said =~= Seq::empty());
    } else {
        let front = sections.drop_last();
        assert forall|i: int| 0 <= i < front.len() implies writable(#[trigger] front[i]) by {
            assert(front[i] == sections[i]);
        }
        law_written_file_parses(front);
        let last = sections[sections.len() - 1];
        let before = written_file(front);
        let said_front = front.map_values(|s: WrittenSection| said_section(s));
        let header = header_line(last.name);
        lemma_header_line(last.name);
        lemma_next_line(before, header);
        lemma_written_variables(before + header + line_break(), said_front, last);
        assert(written_file(sections) =~= before + header + line_break() + written_variables(
            last.variables,
        ));
        assert(said =~= said_front.push(said_section(last)));
    }
}

// ---------------------------------------------------------------------------
// What holds of every file
// ---------------------------------------------------------------------------

/// The text of the line that opens a section.
pub open spec fn header_text(name: Seq<char>) -> Seq<char> {
    seq!['['] + name + seq![']']
}

proof fn lemma_header_text(s: Seq<char>, name: Seq<char>)
    ensures
        s == header_text(name) <==> ini_file::is_header(s) && s.subrange(1, s.len() - 1) == name,
{
    let h = header_text(name);
    assert(h[0] == '[' && h.last() == ']');
    assert(h.subrange(1, h.len() - 1) =~= name);
    if ini_file::is_header(s) && s.subrange(1, s.len() - 1) == name {
        assert(s.len() >= 2);
        assert forall|i: int| 0 <= i < s.len() implies s[i] == h[i] by {
            if 0 < i < s.len() - 1 {
                assert(s.subrange(1, s.len() - 1)[i - 1] == s[i]);
            }
        }
        assert(s =~= h);
    }
}

proof fn lemma_section_with_line(sections: Seq<SectionView>, s: Seq<char>, name: Seq<char>)
    ensures
        ini_file::find_section(ini_file::with_line(sections, s), name) is Some
            <==> ini_file::find_section(sections, name) is Some || s == header_text(name),
{
    lemma_header_text(s, name);
    if ini_file::is_ignored(s) {
    } else if ini_file::is_header(s) {
        let added = SectionView { name: s.subrange(1, s.len() - 1), variables: Seq::empty() };
        ini_laws::lemma_find_section_push(sections, added, name);
    } else if let Some(v) = ini_file::variable_of(s) {
        if sections.len() > 0 {
            let front = sections.drop_last();
            let last = sections.last();
            assert(front.push(last) =~= sections);
            ini_laws::lemma_find_section_push(front, last, name);
            ini_laws::lemma_find_section_push(front, ini_file::with_variable(last, v), name);
        }
    }
}

proof fn lemma_section_with_lines(all: Seq<Seq<u8>>, name: Seq<char>)
    ensures
        ini_file::find_section(ini_file::with_lines(Seq::empty(), all), name) is Some
            <==> exists|i: int|
            0 <= i < all.len() && ini_file::line_text(#[trigger] all[i]) == header_text(name),
    decreases all.len(),
{
    if all.len() > 0 {
        let rest = all.drop_last();
        lemma_section_with_lines(rest, name);
        lemma_section_with_line(
            ini_file::with_lines(Seq::empty(), rest),
            ini_file::line_text(all.last()),
            name,
        );
        assert(all.last() == all[all.len() - 1]);
        if exists|i: int|
            0 <= i < rest.len() && ini_file::line_text(#[trigger] rest[i]) == header_text(name) {
            let i = choose|i: int|
                0 <= i < rest.len() && ini_file::line_text(#[trigger] rest[i]) == header_text(name);
            assert(all[i] == rest[i]);
        }
        if exists|i: int|
            0 <= i < all.len() && ini_file::line_text(#[trigger] all[i]) == header_text(name) {
            let i = choose|i: int|
                0 <= i < all.len() && ini_file::line_text(#[trigger] all[i]) == header_text(name);
            if i < rest.len() {
                assert(rest[i] == all[i]);
            }
        }
    }
}

/// A section exists exactly where some line of the file, without blanks at its
/// ends, is its name in brackets.
pub proof fn law_section_exists(raw: Seq<u8>, name: Seq<char>)
    ensures
        ini_file::find_section(ini_file::parsed(raw), name) is Some <==> exists|i: int|
            0 <= i < ini_file::lines(raw).len() && ini_file::line_text(
                #[trigger] ini_file::lines(raw)[i],
            ) == header_text(name),
{
    lemma_section_with_lines(ini_file::lines(raw), name);
}

/// Whether a carriage return stands at the position, and a line feed behind it.
pub open spec fn break_at(s: Seq<char>, i: int) -> bool {
    0 <= i && i + 1 < s.len() && s[i] == '\r' && s[i + 1] == '\n'
}

/// Whether the text is one line of Latin-1.
pub open spec fn plain(s: Seq<char>) -> bool {
    &&& forall|i: int| 0 <= i < s.len() ==> #[trigger] s[i] <= '\u{ff}'
    &&& forall|i: int| !#[trigger] break_at(s, i)
}

/// Whether the variable is one that a line can define: its name and its value
/// have no blanks at their ends and are each one line of Latin-1, the name starts
/// no comment, and each `=` in it is quoted.
pub open spec fn definable(v: VariableView) -> bool {
    &&& text::trimmed(TrimSet::Blank, v.name)
    &&& text::trimmed(TrimSet::Blank, v.value)
    &&& plain(v.name)
    &&& plain(v.value)
    &&& v.name.len() > 0 ==> v.name[0] != ';'
    &&& forall|i: int|
        0 <= i < v.name.len() && #[trigger] v.name[i] == '=' ==> ini_file::quoted(v.name.take(i))
}

/// Whether the names of the sections are each one line of Latin-1, and all their
/// variables are definable.
pub open spec fn all_definable(sections: Seq<SectionView>) -> bool {
    &&& forall|i: int| 0 <= i < sections.len() ==> plain((#[trigger] sections[i]).name)
    &&& forall|i: int, j: int|
        #![trigger sections[i].variables[j]]
        0 <= i < sections.len() && 0 <= j < sections[i].variables.len() ==> definable(
            sections[i].variables[j],
        )
}

proof fn lemma_plain_part(s: Seq<char>, from: int, to: int)
    requires
        plain(s),
        0 <= from <= to <= s.len(),
    ensures
        plain(s.subrange(from, to)),
{
    let part = s.subrange(from, to);
    assert forall|i: int| 0 <= i < part.len() implies #[trigger] part[i] <= '\u{ff}' by {
        assert(part[i] == s[from + i]);
    }
    assert forall|i: int| !#[trigger] break_at(part, i) by {
        assert(!break_at(s, from + i));
    }
}

proof fn lemma_plain_trim(s: Seq<char>)
    requires
        plain(s),
    ensures
        plain(text::trim(TrimSet::Blank, s)),
{
    let (from, to) = text::law_trim_takes_a_part(TrimSet::Blank, s);
    lemma_plain_part(s, from, to);
}

proof fn lemma_line_is_plain(line: Seq<u8>)
    requires
        one_line(line),
    ensures
        plain(ini_file::line_text(line)),
{
    let said = ini_file::latin1(line);
    assert forall|i: int| !#[trigger] break_at(said, i) by {
        assert(!ini_file::pair_at(line, i));
    }
    lemma_plain_trim(said);
}

proof fn lemma_variable_definable(s: Seq<char>)
    requires
        plain(s),
        text::trimmed(TrimSet::Blank, s),
        !ini_file::is_ignored(s),
    ensures
        ini_file::variable_of(s) matches Some(v) ==> definable(v),
{
    ini_laws::law_first_unquoted_split(s);
    if let Some(k) = ini_file::split_from(s, 0) {
        let left = s.take(k);
        let right = s.skip(k + 1);
        assert(left =~= s.subrange(0, k));
        assert(right =~= s.subrange(k + 1, s.len() as int));
        lemma_plain_part(s, 0, k);
        lemma_plain_part(s, k + 1, s.len() as int);
        lemma_plain_trim(left);
        lemma_plain_trim(right);
        text::law_trim_leaves_trimmed(TrimSet::Blank, left);
        text::law_trim_leaves_trimmed(TrimSet::Blank, right);
        let name = text::trim(TrimSet::Blank, left);
        let (from, to) = text::law_trim_takes_a_part(TrimSet::Blank, left);
        if name.len() > 0 {
            assert(left[0] == s[0]);
            assert(from == 0);
            assert(name[0] == s[0]);
            assert forall|i: int| 0 <= i < name.len() && #[trigger] name[i] == '=' implies
                ini_file::quoted(name.take(i)) by {
                assert(name[i] == s[i]);
                assert(!ini_file::splits_at(s, i));
                assert(name.take(i) =~= s.take(i));
            }
        }
    }
}

proof fn lemma_all_definable(all: Seq<Seq<u8>>)
    requires
        forall|i: int| 0 <= i < all.len() ==> one_line(#[trigger] all[i]),
    ensures
        all_definable(ini_file::with_lines(Seq::empty(), all)),
    decreases all.len(),
{
    if all.len() > 0 {
        let rest = all.drop_last();
        assert forall|i: int| 0 <= i < rest.len() implies one_line(#[trigger] rest[i]) by {
            assert(rest[i] == all[i]);
        }
        lemma_all_definable(rest);
        let sections = ini_file::with_lines(Seq::empty(), rest);
        let line = all[all.len() - 1];
        let s = ini_file::line_text(line);
        lemma_line_is_plain(line);
        text::law_trim_leaves_trimmed(TrimSet::Blank, ini_file::latin1(line));
        if !ini_file::is_ignored(s) {
            lemma_variable_definable(s);
        }
        if ini_file::is_header(s) {
            lemma_plain_part(s, 1, s.len() - 1);
        }
        let after = ini_file::with_line(sections, s);
        assert forall|i: int| 0 <= i < after.len() implies plain((#[trigger] after[i]).name) by {
            if i < sections.len() {
                assert(after[i].name == sections[i].name);
            }
        }
        assert forall|i: int, j: int|
            #![trigger after[i].variables[j]]
            0 <= i < after.len() && 0 <= j < after[i].variables.len() implies definable(
            after[i].variables[j],
        ) by {
            if i < sections.len() && j < sections[i].variables.len() {
                assert(after[i].variables[j] == sections[i].variables[j]);
            }
        }
    }
}

/// In every file, each variable's name and value have no blanks at their ends,
/// no name starts with a `;` or holds an unquoted `=`, and no name and no value
/// holds the end of a line or a character beyond Latin-1.
pub proof fn law_all_definable(raw: Seq<u8>)
    ensures
        all_definable(ini_file::parsed(raw)),
{
    law_lines_hold_no_break(raw);
    lemma_all_definable(ini_file::lines(raw));
}

proof fn lemma_no_header(all: Seq<Seq<u8>>)
    requires
        forall|i: int|
            0 <= i < all.len() ==> !ini_file::is_header(ini_file::line_text(#[trigger] all[i])),
    ensures
        ini_file::with_lines(Seq::empty(), all) == Seq::<SectionView>::empty(),
    decreases all.len(),
{
    if all.len() > 0 {
        assert forall|i: int| 0 <= i < all.drop_last().len() implies !ini_file::is_header(
            ini_file::line_text(#[trigger] all.drop_last()[i]),
        ) by {
            assert(all[i] == all.drop_last()[i]);
        }
        lemma_no_header(all.drop_last());
        assert(!ini_file::is_header(ini_file::line_text(all[all.len() - 1])));
    }
}

/// A file without a line that opens a section defines nothing: variables
/// outside sections are dropped.
pub proof fn law_no_section_no_variable(raw: Seq<u8>)
    requires
        forall|i: int|
            0 <= i < ini_file::lines(raw).len() ==> !ini_file::is_header(
                ini_file::line_text(#[trigger] ini_file::lines(raw)[i]),
            ),
    ensures
        ini_file::parsed(raw) == Seq::<SectionView>::empty(),
{
    lemma_no_header(ini_file::lines(raw));
}

/// The characters of a line are its bytes, one for one.
pub proof fn law_characters_are_bytes(line: Seq<u8>, i: int)
    ensures
        ini_file::latin1(line).len() == line.len(),
        0 <= i < line.len() ==> ini_file::latin1(line)[i] as int == line[i],
{
}

/// What a line says is what stands between the blanks at its ends.
pub proof fn law_line_says_its_core(space: Seq<u8>, core: Seq<u8>, behind: Seq<u8>)
    requires
        forall|i: int| 0 <= i < space.len() ==> #[trigger] space[i] == 32 || space[i] == 9,
        forall|i: int| 0 <= i < behind.len() ==> #[trigger] behind[i] == 32 || behind[i] == 9,
        core.len() > 0 ==> core[0] != 32 && core[0] != 9 && core.last() != 32 && core.last() != 9,
    ensures
        ini_file::line_text(space + core + behind) == ini_file::latin1(core),
{
    let a = ini_file::latin1(space);
    let b = ini_file::latin1(core);
    let c = ini_file::latin1(behind);
    assert(ini_file::latin1(space + core + behind) =~= a + b + c);
    assert forall|i: int| 0 <= i < a.len() implies text::in_set(TrimSet::Blank, #[trigger] a[i]) by {
        assert(space[i] == 32 || space[i] == 9);
    }
    assert forall|i: int| 0 <= i < c.len() implies text::in_set(TrimSet::Blank, #[trigger] c[i]) by {
        assert(behind[i] == 32 || behind[i] == 9);
    }
    ini_laws::law_trim_around(a, b, c, TrimSet::Blank);
}

/// What a line does: an empty line and a comment nothing, a header opens a section
/// behind the others with what stands between its brackets as the name, and every
/// other line puts the variable that it defines, if it defines one, behind those
/// of the section that was opened last, if one was.
pub proof fn law_line_effect(sections: Seq<SectionView>, s: Seq<char>)
    ensures
        ({
            let after = ini_file::with_line(sections, s);
            let header = s.len() >= 2 && s[0] == '[' && s[s.len() - 1] == ']';
            let ignored = s.len() == 0 || s[0] == ';';
            &&& ignored ==> after == sections
            &&& header ==> after.len() == sections.len() + 1 && after.drop_last() == sections
                && header_text(after.last().name) == s && after.last().variables.len() == 0
            &&& !ignored && !header && (ini_file::variable_of(s) is None || sections.len() == 0)
                ==> after == sections
            &&& !ignored && !header && sections.len() > 0 ==> (ini_file::variable_of(s) matches
                Some(v) ==> after.len() == sections.len() && after.drop_last()
                == sections.drop_last() && after.last().name == sections.last().name
                && after.last().variables == sections.last().variables.push(v))
        }),
{
    let after = ini_file::with_line(sections, s);
    if s.len() >= 2 && s[0] == '[' && s[s.len() - 1] == ']' {
        lemma_header_text(s, s.subrange(1, s.len() - 1));
        assert(after.drop_last() =~= sections);
    } else if after.len() == sections.len() && sections.len() > 0 {
        assert(after.drop_last() =~= sections.drop_last());
    }
}

/// A file is read line by line, from nothing: it says what its last line adds to
/// what the lines before it say.
pub proof fn law_file_is_read_in_order(a: Seq<u8>, line: Seq<u8>)
    requires
        one_line(line),
    ensures
        ini_file::parsed(line) == ini_file::with_line(Seq::empty(), ini_file::line_text(line)),
        ini_file::parsed(a + line_break() + line) == ini_file::with_line(
            ini_file::parsed(a),
            ini_file::line_text(line),
        ),
{
    lemma_parsed_joined(a, line);
    law_only_pairs_end_lines(line);
    lemma_with_one_line(ini_file::parsed(a), line);
    lemma_with_one_line(Seq::empty(), line);
}

} // verus!
