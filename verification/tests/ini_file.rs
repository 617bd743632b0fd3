use rdpwrap::ini_file::{IniFile, IniVarByteArray, IniVarDword, IniVarString, MAX_STRING_LEN};

fn ini(text: &str) -> IniFile {
    IniFile::open(Some(text.as_bytes())).unwrap()
}

fn ini_bytes(raw: &[u8]) -> IniFile {
    IniFile::open(Some(raw)).unwrap()
}

fn wide(s: &str) -> Vec<u16> {
    s.encode_utf16().collect()
}

fn wide_nul(s: &str) -> Vec<u16> {
    let mut w = wide(s);
    w.push(0);
    w.extend(wide("behind"));
    w
}

fn value(f: &IniFile, section: &str, name: &str) -> Option<String> {
    f.get_string(section, name).map(|v| v.value)
}

#[test]
fn missing_file_gives_nothing() {
    assert!(IniFile::open(None).is_none());
}

#[test]
fn empty_file_has_no_sections() {
    let f = ini("");
    assert!(!f.section_exists(""));
    assert!(!f.section_exists("Main"));
}

#[test]
fn section_and_variable_are_found() {
    let f = ini("[Main]\r\nUpdated=2018-10-10\r\nLogFile=\\rdpwrap.txt\r\n");
    assert!(f.section_exists("Main"));
    assert!(!f.section_exists("main"));
    assert!(!f.section_exists("Mai"));
    assert!(f.variable_exists("Main", "Updated"));
    assert!(!f.variable_exists("Main", "updated"));
    assert!(!f.variable_exists("Other", "Updated"));
    let v = f.get_string("Main", "LogFile").unwrap();
    assert_eq!(v.name, "LogFile");
    assert_eq!(v.value, "\\rdpwrap.txt");
    assert!(f.get_string("Main", "Missing").is_none());
    assert!(f.get_string("Missing", "LogFile").is_none());
}

#[test]
fn only_a_pair_ends_a_line() {
    let f = ini_bytes(b"[A]\nx=1\r\n");
    assert!(!f.section_exists("A"));
    assert!(!f.section_exists("[A]\nx"));
    let f = ini_bytes(b"[A]\r\nx=1\n2\r3\r\ny=4\r\n");
    assert_eq!(value(&f, "A", "x").unwrap(), "1\n2\r3");
    assert_eq!(value(&f, "A", "y").unwrap(), "4");
    let f = ini_bytes(b"[A]\r\nx=1\r\r\ny=\r\n\nz=2");
    assert_eq!(value(&f, "A", "x").unwrap(), "1\r");
    assert_eq!(value(&f, "A", "y").unwrap(), "");
    assert_eq!(value(&f, "A", "\nz").unwrap(), "2");
}

#[test]
fn last_line_needs_no_end() {
    assert_eq!(value(&ini("[A]\r\nx=1"), "A", "x").unwrap(), "1");
    assert_eq!(value(&ini("[A]\r\nx=1\r"), "A", "x").unwrap(), "1\r");
}

#[test]
fn written_file_parses_to_what_was_written() {
    let mut raw = Vec::new();
    let sections = [("Main", vec![("a", "1"), ("b", "x y")]), ("", vec![]), ("Z", vec![("a", "=")])];
    for (name, variables) in &sections {
        raw.extend(format!("[{}]\r\n", name).bytes());
        for (n, v) in variables {
            raw.extend(format!("{}={}\r\n", n, v).bytes());
        }
    }
    let f = ini_bytes(&raw);
    for (name, variables) in &sections {
        assert!(f.section_exists(name));
        for (n, v) in variables {
            assert_eq!(value(&f, name, n).unwrap(), *v);
        }
    }
    assert!(!f.section_exists("main"));
}

#[test]
fn joined_files_have_the_sections_of_both() {
    let f = ini("[A]\r\nx=1\r\n\r\n[B]\r\nx=2\r\n");
    assert_eq!(value(&f, "A", "x").unwrap(), "1");
    assert_eq!(value(&f, "B", "x").unwrap(), "2");
}

#[test]
fn section_exists_where_its_header_stands() {
    let f = ini(" \t[A] \r\nx=[B]\r\n;[C]\r\n[D]x\r\n");
    assert!(f.section_exists("A"));
    for name in ["B", "C", "D", "a", "[A]"] {
        assert!(!f.section_exists(name));
    }
}

#[test]
fn fields_are_cut_to_their_largest_length() {
    assert_eq!(MAX_STRING_LEN, 255);
    let name = "n".repeat(300);
    let f = ini(&format!("[A]\r\n{}={}\r\nshort={}\r\n", name, "v".repeat(300), "v".repeat(255)));
    let s = f.get_string("A", &name).unwrap();
    assert_eq!(s.name, "n".repeat(255));
    assert_eq!(s.value, "v".repeat(255));
    assert!(f.get_string("A", &s.name).is_none());
    assert_eq!(value(&f, "A", "short").unwrap(), "v".repeat(255));
    assert_eq!(f.get_dword("A", &name).unwrap().name, "n".repeat(255));
    assert_eq!(f.get_bytearray("A", &name).unwrap().name, "n".repeat(255));
}

#[test]
fn names_and_values_are_trimmed() {
    let f = ini("  [A] \t\r\n \t x \t = \t a b \t \r\n");
    assert_eq!(value(&f, "A", "x").unwrap(), "a b");
    assert_eq!(f.get_string("A", "x").unwrap().name, "x");
}

#[test]
fn section_names_keep_inner_blanks() {
    let f = ini("[ A ]\r\nx=1\r\n");
    assert!(f.section_exists(" A "));
    assert!(!f.section_exists("A"));
}

#[test]
fn empty_section_name_is_a_name() {
    let f = ini("[]\r\nx=1\r\n");
    assert!(f.section_exists(""));
    assert_eq!(value(&f, "", "x").unwrap(), "1");
}

#[test]
fn lone_bracket_is_no_section() {
    let f = ini("[\r\n]\r\n[A\r\n");
    assert!(!f.section_exists(""));
    assert!(!f.section_exists("A"));
}

#[test]
fn comments_and_blank_lines_are_ignored() {
    let plain = ini("[A]\r\nx=1\r\ny=2\r\n");
    let noted = ini("; [Z]\r\n\r\n[A]\r\n ; x=0\r\nx=1\r\n   \r\n;y=0\r\ny=2\r\n");
    for f in [&plain, &noted] {
        assert_eq!(value(f, "A", "x").unwrap(), "1");
        assert_eq!(value(f, "A", "y").unwrap(), "2");
        assert!(!f.section_exists("Z"));
    }
}

#[test]
fn variables_before_a_section_are_dropped() {
    let f = ini("x=1\r\n[A]\r\ny=2\r\n");
    assert!(value(&f, "A", "x").is_none());
    assert!(value(&f, "", "x").is_none());
    assert_eq!(value(&f, "A", "y").unwrap(), "2");
}

#[test]
fn first_definition_wins() {
    let f = ini("[A]\r\nx=1\r\nx=2\r\n[A]\r\nx=3\r\ny=4\r\n");
    assert_eq!(value(&f, "A", "x").unwrap(), "1");
    assert!(value(&f, "A", "y").is_none());
}

#[test]
fn value_keeps_further_equal_signs() {
    assert_eq!(value(&ini("[A]\r\nx=1=2=3\r\n"), "A", "x").unwrap(), "1=2=3");
}

#[test]
fn quoted_equal_sign_does_not_split() {
    let f = ini("[A]\r\n\"a=b\"=c\r\n'd=e'=f\r\n");
    assert_eq!(value(&f, "A", "\"a=b\"").unwrap(), "c");
    assert_eq!(value(&f, "A", "'d=e'").unwrap(), "f");
    assert!(value(&f, "A", "\"a").is_none());
}

#[test]
fn either_quote_closes_the_other() {
    let f = ini("[A]\r\n\"a'=b\r\n");
    assert_eq!(value(&f, "A", "\"a'").unwrap(), "b");
}

#[test]
fn open_quote_hides_every_equal_sign() {
    let f = ini("[A]\r\n\"a=b\r\nx=1\r\n");
    assert!(value(&f, "A", "\"a").is_none());
    assert_eq!(value(&f, "A", "x").unwrap(), "1");
}

#[test]
fn line_without_equal_sign_defines_nothing() {
    let f = ini("[A]\r\nhello\r\nx=1\r\n");
    assert!(!f.variable_exists("A", "hello"));
    assert!(f.variable_exists("A", "x"));
}

#[test]
fn empty_name_and_empty_value_are_kept() {
    let f = ini("[A]\r\n=v\r\nx=\r\n");
    assert_eq!(value(&f, "A", "").unwrap(), "v");
    assert_eq!(value(&f, "A", "x").unwrap(), "");
}

#[test]
fn header_with_equal_sign_is_a_header() {
    let f = ini("[A]\r\n[x=1]\r\ny=2\r\n");
    assert!(f.section_exists("x=1"));
    assert!(!f.variable_exists("A", "[x"));
    assert!(f.variable_exists("x=1", "y"));
}

#[test]
fn bytes_are_latin_one() {
    let f = ini_bytes(b"[\xe9]\r\nx=\xff\x80\r\n");
    assert_eq!(value(&f, "\u{e9}", "x").unwrap(), "\u{ff}\u{80}");
}

#[test]
fn str_trim_takes_spaces_and_tabs() {
    assert_eq!(IniFile::str_trim(" \t a\tb \t"), "a\tb");
    assert_eq!(IniFile::str_trim("\r\n a \r"), "\r\n a \r");
    assert_eq!(IniFile::str_trim(" \t "), "");
}

#[test]
fn is_variable_looks_for_an_unquoted_equal_sign() {
    assert!(IniFile::is_variable("a=b"));
    assert!(IniFile::is_variable("="));
    assert!(!IniFile::is_variable("ab"));
    assert!(!IniFile::is_variable("\"a=b\""));
    assert!(IniFile::is_variable("\"a=b\"="));
    assert!(!IniFile::is_variable(""));
}

fn dword(text: &str) -> (u64, u64) {
    let f = ini(&format!("[S]\r\nv={}\r\n", text));
    let d = f.get_dword("S", "v").unwrap();
    assert_eq!(d.name, "v");
    (d.value_dec, d.value_hex)
}

#[test]
fn dword_is_read_in_both_radices() {
    assert_eq!(dword("10"), (10, 16));
    assert_eq!(dword("17F38"), (17, 0x17F38));
    assert_eq!(dword("1F"), (1, 31));
    assert_eq!(dword("0x1F"), (0, 31));
    assert_eq!(dword("-0X1f"), (0, 0u64.wrapping_sub(31)));
    assert_eq!(dword("c0ffee"), (0, 0xC0FFEE));
    assert_eq!(dword("+10"), (10, 16));
    assert_eq!(dword("007"), (7, 7));
}

#[test]
fn dword_takes_the_digits_at_the_start() {
    assert_eq!(dword("1 2"), (1, 1));
    assert_eq!(dword("1_000"), (1, 1));
    assert_eq!(dword("12; note"), (12, 0x12));
    assert_eq!(dword("-1"), (u64::MAX, u64::MAX));
    assert_eq!(dword("-0"), (0, 0));
    assert_eq!(dword("0x"), (0, 0));
    assert_eq!(dword("0xg"), (0, 0));
    assert_eq!(dword("00x1"), (0, 0));
}

#[test]
fn dword_without_digits_is_zero() {
    assert_eq!(dword(""), (0, 0));
    assert_eq!(dword("+"), (0, 0));
    assert_eq!(dword("-"), (0, 0));
    assert_eq!(dword("xyz"), (0, 0));
    assert_eq!(dword("++1"), (0, 0));
    assert_eq!(dword("- 1"), (0, 0));
}

#[test]
fn dword_stays_at_its_limits() {
    let top = i64::MAX as u64;
    let bottom = i64::MIN as u64;
    assert_eq!(dword("9223372036854775807").0, top);
    assert_eq!(dword("9223372036854775808").0, top);
    assert_eq!(dword("99999999999999999999999").0, top);
    assert_eq!(dword("-9223372036854775808").0, bottom);
    assert_eq!(dword("-9223372036854775809").0, bottom);
    assert_eq!(dword("7FFFFFFFFFFFFFFF").1, top);
    assert_eq!(dword("FFFFFFFFFFFFFFFF").1, top);
    assert_eq!(dword("10000000000000000").1, top);
    assert_eq!(dword("FFFFFFFF").1, 0xFFFF_FFFF);
    assert_eq!(dword("00000000000000000000000000000001"), (1, 1));
}

#[test]
fn numbers_may_have_white_space_around_them() {
    let f = ini_bytes(b"[S]\r\na=\r\x0b12\xa0\x85\r\nb=\x0c1\r\n");
    assert_eq!(f.get_dword("S", "a").unwrap().value_dec, 12);
    assert_eq!(f.get_dword("S", "a").unwrap().value_hex, 0x12);
    assert_eq!(f.get_bool("S", "b"), Some(true));
}

#[test]
fn missing_dword_gives_nothing() {
    let f = ini("[S]\r\nv=1\r\n");
    assert!(f.get_dword("S", "w").is_none());
    assert!(f.get_dword("T", "v").is_none());
}

fn flag(text: &str) -> Option<bool> {
    ini(&format!("[S]\r\nv={}\r\n", text)).get_bool("S", "v")
}

#[test]
fn bool_is_a_number_other_than_zero() {
    assert_eq!(flag("1"), Some(true));
    assert_eq!(flag("0"), Some(false));
    assert_eq!(flag("-1"), Some(true));
    assert_eq!(flag("-0"), Some(false));
    assert_eq!(flag("+2"), Some(true));
    assert_eq!(flag("true"), Some(false));
    assert_eq!(flag(""), Some(false));
    assert_eq!(flag("-"), Some(false));
    assert_eq!(flag("9223372036854775807"), Some(true));
    assert_eq!(flag("9223372036854775808"), Some(true));
    assert_eq!(flag("-9223372036854775808"), Some(true));
    assert_eq!(flag("-9223372036854775809"), Some(true));
    assert_eq!(flag("99999999999999999999999"), Some(true));
    assert_eq!(flag("00000000000000000000000"), Some(false));
    assert_eq!(flag("1x"), Some(false));
    assert_eq!(flag("0x1"), Some(false));
    assert_eq!(ini("[S]\r\n").get_bool("S", "v"), None);
}

fn bytes(text: &str) -> Option<Vec<u8>> {
    let f = ini(&format!("[PatchCodes]\r\nv={}\r\n", text));
    f.get_bytearray("PatchCodes", "v").map(|b| {
        assert_eq!(b.name, "v");
        b.value
    })
}

#[test]
fn bytearray_reads_pairs_of_digits() {
    assert_eq!(bytes("B80001000089813806000090").unwrap(), vec![
        0xB8, 0x00, 0x01, 0x00, 0x00, 0x89, 0x81, 0x38, 0x06, 0x00, 0x00, 0x90
    ]);
    assert_eq!(bytes("EB").unwrap(), vec![0xEB]);
    assert_eq!(bytes("").unwrap(), Vec::<u8>::new());
    assert_eq!(bytes("0123456789ABCDEF").unwrap(), vec![0x01, 0x23, 0x45, 0x67, 0x89, 0xAB, 0xCD, 0xEF]);
}

#[test]
fn bytearray_of_odd_length_is_refused() {
    assert!(bytes("ABC").is_none());
    assert!(bytes("0").is_none());
    assert!(bytes("000000000000000000000000000000000").is_none());
}

#[test]
fn bytearray_stops_after_sixteen_bytes() {
    let b = bytes("000102030405060708090A0B0C0D0E0F1011").unwrap();
    assert_eq!(b, (0u8..16).collect::<Vec<u8>>());
}

#[test]
fn bytearray_reads_upper_case_only() {
    assert_eq!(bytes("abAB").unwrap(), vec![0x00, 0xAB]);
    assert_eq!(bytes("1g G1").unwrap_or(vec![]), Vec::<u8>::new());
    assert_eq!(bytes("1gG1").unwrap(), vec![0x10, 0x01]);
}

#[test]
fn missing_bytearray_gives_nothing() {
    let f = ini("[PatchCodes]\r\nnop=90\r\n");
    assert!(f.get_bytearray("PatchCodes", "jmp").is_none());
    assert!(f.get_bytearray("Codes", "nop").is_none());
}

#[test]
fn bytearray_counts_characters() {
    let f = ini_bytes(b"[P]\r\na=\xe9\r\nb=\xe9\xe9\r\nc=A\xe9\r\nd=\xe9A1B\r\n");
    assert!(f.get_bytearray("P", "a").is_none());
    assert_eq!(f.get_bytearray("P", "b").unwrap().value, vec![0x00]);
    assert_eq!(f.get_bytearray("P", "c").unwrap().value, vec![0xA0]);
    assert_eq!(f.get_bytearray("P", "d").unwrap().value, vec![0x0A, 0x1B]);
}

#[test]
fn hex_nibble_values() {
    for (i, c) in "0123456789ABCDEF".chars().enumerate() {
        assert_eq!(IniFile::hex_nibble(c), i as u8);
    }
    for c in "abcdefgG /:@`\u{e9}".chars() {
        assert_eq!(IniFile::hex_nibble(c), 0);
    }
}

#[test]
fn wide_string_ends_at_its_nul() {
    assert_eq!(IniFile::wide_to_string(&wide("Main")), "Main");
    assert_eq!(IniFile::wide_to_string(&wide_nul("Main")), "Main");
    assert_eq!(IniFile::wide_to_string(&[0, 65]), "");
    assert_eq!(IniFile::wide_to_string(&[]), "");
}

#[test]
fn wide_string_decodes_pairs_and_replaces_the_rest() {
    assert_eq!(IniFile::wide_to_string(&[0xD83D, 0xDE00]), "\u{1F600}");
    assert_eq!(IniFile::wide_to_string(&[0xD800, 65]), "\u{FFFD}A");
    assert_eq!(IniFile::wide_to_string(&[0xDC00]), "\u{FFFD}");
    assert_eq!(IniFile::wide_to_string(&[0xD800]), "\u{FFFD}");
    assert_eq!(IniFile::wide_to_string(&[0xD800, 0xD800, 0xDC00]), "\u{FFFD}\u{10000}");
    assert_eq!(IniFile::wide_to_string(&[0xFFFF, 0xE000, 0xD7FF]), "\u{FFFF}\u{E000}\u{D7FF}");
}

#[test]
fn wide_names_find_the_same() {
    let f = ini("[Main]\r\nx=15\r\ny=1\r\nz=0A\r\n");
    let main = wide_nul("Main");
    assert!(f.section_exists_wide(&main));
    assert!(!f.section_exists_wide(&wide("main")));
    assert!(f.variable_exists_wide(&main, &wide("x")));
    assert!(!f.variable_exists_wide(&main, &wide("w")));
    assert_eq!(f.get_string_wide(&main, &wide_nul("x")).unwrap().value, "15");
    assert!(f.get_string_wide(&main, &wide("w")).is_none());
    let d = f.get_dword_wide(&main, &wide("x")).unwrap();
    assert_eq!((d.value_dec, d.value_hex), (15, 0x15));
    assert_eq!(f.get_bool_wide(&main, &wide("y")), Some(true));
    assert_eq!(f.get_bytearray_wide(&main, &wide("z")).unwrap().value, vec![0x0A]);
}

#[test]
fn values_have_defaults_and_copies() {
    let s = IniVarString::default();
    assert_eq!((s.name.as_str(), s.value.as_str()), ("", ""));
    let d = IniVarDword::default();
    assert_eq!((d.value_dec, d.value_hex), (0, 0));
    assert!(IniVarByteArray::default().value.is_empty());
    let f = ini("[A]\r\nx=10\r\n");
    assert_eq!(f.get_string("A", "x").unwrap().clone().value, "10");
    assert_eq!(f.get_dword("A", "x").unwrap().clone().value_hex, 16);
    assert_eq!(f.get_bytearray("A", "x").unwrap().clone().value, vec![0x10]);
}
