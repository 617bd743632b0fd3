use rdpwrap::bytes;
use rdpwrap::farjmp::{farjmp_size, make_stub, Arch, FarJmp};
use rdpwrap::image;
use rdpwrap::ini_file::IniFile;
use rdpwrap::loading;
use rdpwrap::loading::FileLoad;
use rdpwrap::log;
use rdpwrap::number;
use rdpwrap::paths;
use rdpwrap::globals::Globals;
use rdpwrap::service::{continue_call, Export, Installation, Request};
use rdpwrap::settings;
use rdpwrap::text;
use rdpwrap::threads;
use rdpwrap::threads::ThreadWalk;
use rdpwrap::utf16;
use rdpwrap::version::{read_version, FileVersion};

fn chars(s: &str) -> Vec<char> {
    s.chars().collect()
}

fn wide(s: &str) -> Vec<u16> {
    s.encode_utf16().collect()
}

#[test]
fn text_goes_to_characters_and_back() {
    assert_eq!(text::chars_of("a\u{e9}\u{1F600}"), vec!['a', '\u{e9}', '\u{1F600}']);
    assert_eq!(text::string_of(&['a', '\u{e9}', '\u{1F600}']), "a\u{e9}\u{1F600}");
    assert!(text::same_text("abc", "abc"));
    assert!(!text::same_text("abc", "abd"));
    assert!(!text::same_text("abc", "ab"));
}

#[test]
fn white_space_is_trimmed_as_the_standard_library_does() {
    for n in 0u32..0x3100 {
        if let Some(c) = char::from_u32(n) {
            let s = format!("{}x{}", c, c);
            let t = text::trim_chars(text::TrimSet::WhiteSpace, &chars(&s));
            assert_eq!(text::string_of(&t), s.trim());
        }
    }
}

#[test]
fn numbers_are_read_from_the_start_of_a_text() {
    for (text, radix, expected) in [
        ("", 10u64, 0u64),
        ("+7", 10, 7),
        ("-7", 10, 0u64.wrapping_sub(7)),
        ("--7", 10, 0),
        ("12a", 10, 12),
        ("12a", 16, 0x12a),
        ("FfG", 16, 0xff),
        ("0x1F", 16, 31),
        ("0x1F", 10, 0),
        ("+0X1f", 16, 31),
        ("Zz", 36, 35 * 36 + 35),
        ("0x", 36, 33),
        ("102", 2, 2),
        ("\u{661}", 10, 0),
        ("9223372036854775807", 10, 0x7fff_ffff_ffff_ffff),
        ("9223372036854775808", 10, 0x7fff_ffff_ffff_ffff),
        ("18446744073709551615", 10, 0x7fff_ffff_ffff_ffff),
        ("18446744073709551616", 10, 0x7fff_ffff_ffff_ffff),
        ("ffffffffffffffff", 16, 0x7fff_ffff_ffff_ffff),
        ("-9223372036854775808", 10, 0x8000_0000_0000_0000),
        ("-9223372036854775809", 10, 0x8000_0000_0000_0000),
        ("-18446744073709551616", 10, 0x8000_0000_0000_0000),
    ] {
        assert_eq!(number::read_number(&chars(text), radix), expected);
    }
}

#[test]
fn nonzero_numbers_are_whole_numbers() {
    for text in ["1", "-1", "+01", "10", "99999999999999999999999999"] {
        assert!(number::is_nonzero(&chars(text)));
    }
    for text in ["", "-", "0", "-0", "000", "1a", "a", " 1", "1-"] {
        assert!(!number::is_nonzero(&chars(text)));
    }
}

#[test]
fn numbers_are_written_and_read_back() {
    for n in [0u64, 1, 9, 10, 15, 16, 255, 65535, 4294967295, i64::MAX as u64] {
        let d = number::to_decimal(n);
        let h = number::to_hexadecimal(n);
        assert_eq!(d, format!("{}", n));
        assert_eq!(h, format!("{:x}", n));
        assert_eq!(number::read_number(&chars(&d), 10), n);
        assert_eq!(number::read_number(&chars(&h), 16), n);
        assert_eq!(number::read_number(&chars(&h.to_uppercase()), 16), n);
        assert_eq!(number::read_number(&chars(&format!("0x{}", h)), 16), n);
        assert_eq!(number::read_number(&chars(&format!("{}.5", d)), 10), n);
    }
}

#[test]
fn utf16_is_decoded_as_the_standard_library_does() {
    let samples: [&[u16]; 8] = [
        &[],
        &[65, 66],
        &[0xD83D, 0xDE00, 0x41],
        &[0xDE00, 0xD83D],
        &[0xD83D, 0xD83D, 0xDE00],
        &[0xDBFF, 0xDFFF],
        &[0xD800, 0xDC00],
        &[0, 0xFFFF, 0xFFFD, 0xD7FF, 0xE000],
    ];
    for s in samples {
        assert_eq!(utf16::decode(s), String::from_utf16_lossy(s));
    }
}

#[test]
fn utf16_is_encoded_and_decoded_back() {
    for s in ["", "rdpwrap", "\u{e9}\u{FFFF}", "\u{10000}\u{10FFFF}x"] {
        assert_eq!(utf16::encode(s), wide(s));
        assert_eq!(utf16::decode(&utf16::encode(s)), s);
    }
}

#[test]
fn nul_is_added_once() {
    assert_eq!(utf16::nul_terminated(&[]), vec![0]);
    assert_eq!(utf16::nul_terminated(&[65]), vec![65, 0]);
    assert_eq!(utf16::nul_terminated(&[65, 0]), vec![65, 0]);
    assert_eq!(utf16::nul_terminated(&[0, 65]), vec![0, 65, 0]);
    assert_eq!(utf16::find_nul(&[65, 66]), 2);
    assert_eq!(utf16::find_nul(&[65, 0, 66, 0]), 1);
}

#[test]
fn little_endian_bytes() {
    let mut out = vec![1u8];
    bytes::push_le(&mut out, 0x1234_5678, 4);
    assert_eq!(out, vec![1, 0x78, 0x56, 0x34, 0x12]);
    assert_eq!(bytes::read_le_u32(&out, 1), 0x1234_5678);
    assert_eq!(bytes::read_le_u32(&[255, 255, 255, 255], 0), u32::MAX);
}

#[test]
fn jump_on_x64() {
    let j = make_stub(Arch::X64, 0x1234_5678);
    assert_eq!(j.as_bytes(), vec![0x48, 0xB8, 0x78, 0x56, 0x34, 0x12, 0, 0, 0, 0, 0x50, 0xC3]);
    assert_eq!(j.size(), 12);
    assert_eq!(farjmp_size(Arch::X64), 12);
    assert!(matches!(j, FarJmp::X64(k) if k.mov_arg == 0x1234_5678));
}

#[test]
fn jump_on_x86() {
    let j = make_stub(Arch::X86, 0x1234_5678);
    assert_eq!(j.as_bytes(), vec![0x68, 0x78, 0x56, 0x34, 0x12, 0xC3]);
    assert_eq!(j.size(), 6);
    assert_eq!(farjmp_size(Arch::X86), 6);
    let k = make_stub(Arch::X86, usize::MAX);
    assert_eq!(k.as_bytes(), vec![0x68, 255, 255, 255, 255, 0xC3]);
    assert_eq!(Arch::X64.name(), "x64");
    assert_eq!(Arch::X86.name(), "x86");
}

fn resource(ms: u32, ls: u32, size: usize) -> Vec<u8> {
    let mut r = vec![0u8; 48];
    r.extend(ms.to_le_bytes());
    r.extend(ls.to_le_bytes());
    r.resize(size, 0);
    r
}

#[test]
fn version_stands_in_the_resource() {
    let v = read_version(&resource(0x0006_0001, 0x1DB1_4A7F, 60)).unwrap();
    assert_eq!(v, FileVersion { major: 6, minor: 1, release: 0x1DB1, build: 0x4A7F });
    assert_eq!(v.text(), "6.1.7601.19071");
    assert_eq!(v.pack(), 0x0601);
    assert!(read_version(&resource(1, 1, 56)).is_some());
    assert!(read_version(&resource(1, 1, 56)[..55]).is_none());
    assert!(read_version(&[]).is_none());
}

#[test]
fn packed_version_loses_high_bits() {
    let v = FileVersion { major: 0x0102, minor: 0x0304, release: 0, build: 0 };
    assert_eq!(v.pack(), 0x0304 | 0x0200);
    assert_eq!(FileVersion::default().pack(), 0);
    assert_eq!(FileVersion::default().text(), "0.0.0.0");
    assert_ne!(
        FileVersion { major: 1, minor: 11, release: 1, build: 1 }.text(),
        FileVersion { major: 11, minor: 1, release: 1, build: 1 }.text()
    );
}

fn buffer(s: &str) -> Vec<u16> {
    let mut b = wide(s);
    b.resize(256, 0);
    b
}

#[test]
fn sibling_replaces_the_file_name() {
    let b = paths::sibling_path(&buffer("C:\\Program Files\\RDP Wrapper\\rdpwrap.dll"), "rdpwrap.txt\0");
    assert_eq!(b, buffer("C:\\Program Files\\RDP Wrapper\\rdpwrap.txt"));
    assert_eq!(b.len(), 256);
}

#[test]
fn sibling_clears_what_a_longer_name_left() {
    let b = paths::sibling_path(&buffer("C:\\averyveryverylongname.dll"), "a\0");
    assert_eq!(b, buffer("C:\\a"));
}

#[test]
fn sibling_without_backslash_keeps_the_first_unit() {
    assert_eq!(paths::sibling_path(&buffer("module.dll"), "a\0"), buffer("ma"));
    assert_eq!(paths::sibling_path(&buffer("\\module.dll"), "a\0"), buffer("\\a"));
}

#[test]
fn sibling_always_ends_in_a_nul() {
    let mut full = vec![65u16; 256];
    full[250] = 92;
    let b = paths::sibling_path(&full, "rdpwrap.txt\0");
    assert_eq!(b[..251], full[..251]);
    assert_eq!(b[251..255], wide("rdpw")[..]);
    assert_eq!(b[255], 0);
    full[255] = 92;
    let b = paths::sibling_path(&full, "rdpwrap.txt\0");
    assert_eq!(b[..255], full[..255]);
    assert_eq!(b[255], 0);
}

#[test]
fn path_buffer_holds_the_text() {
    assert_eq!(paths::path_buffer("C:\\log.txt"), buffer("C:\\log.txt"));
    assert_eq!(IniFile::wide_to_string(&paths::path_buffer("C:\\log.txt")), "C:\\log.txt");
    let long = paths::path_buffer(&"a".repeat(300));
    assert_eq!(long.len(), 256);
    assert_eq!(long[..255], vec![97u16; 255][..]);
    assert_eq!(long[255], 0);
    assert!(paths::holds_path(&buffer("x")));
    assert!(!paths::holds_path(&buffer("")));
    assert!(!paths::holds_path(&[]));
}

#[test]
fn settings_fall_back_to_defaults() {
    let f = IniFile::open(Some(b"[S]\r\nhex=1F\r\ntext=abc\r\non=1\r\noff=0\r\nbad=zz\r\n")).unwrap();
    assert_eq!(settings::ini_read_dword_hex(Some(&f), "S", "hex", 7), 0x1F);
    assert_eq!(settings::ini_read_dword_hex(Some(&f), "S", "bad", 7), 0);
    assert_eq!(settings::ini_read_dword_hex(Some(&f), "S", "none", 7), 7);
    assert_eq!(settings::ini_read_dword_hex(None, "S", "hex", 7), 7);
    assert_eq!(settings::ini_read_string(Some(&f), "S", "text", "d"), "abc");
    assert_eq!(settings::ini_read_string(Some(&f), "S", "none", "d"), "d");
    assert_eq!(settings::ini_read_string(None, "S", "text", "d"), "d");
    assert!(settings::ini_read_bool(Some(&f), "S", "on", false));
    assert!(!settings::ini_read_bool(Some(&f), "S", "off", true));
    assert!(settings::ini_read_bool(Some(&f), "S", "none", true));
    assert!(settings::ini_read_bool(None, "S", "off", true));
    assert!(settings::ini_has_section(Some(&f), "S"));
    assert!(!settings::ini_has_section(Some(&f), "T"));
    assert!(!settings::ini_has_section(None, "S"));
}

#[test]
fn code_section_of_a_module() {
    assert_eq!(image::E_LFANEW_OFFSET, 0x3C);
    assert_eq!(image::size_of_code_offset(0x100), 0x100 + 28);
    assert_eq!(image::code_section(0x40_0000, 0x1000), Some((0x40_0000, 0x1000)));
    assert_eq!(image::code_section(0x40_0000, 0), None);
    assert_eq!(image::code_section(0, 0x1000), None);
}

#[test]
fn file_is_loaded_and_closed() {
    let mut load = FileLoad::new(&wide("a.ini"));
    assert_eq!(load.path, utf16::nul_terminated(&wide("a.ini")));
    assert_eq!(load.request, loading::Request::Open);
    load.step(loading::Event::Opened { open: true });
    assert_eq!(load.request, loading::Request::Size);
    load.step(loading::Event::Size { size: 14 });
    assert_eq!(load.request, loading::Request::Read { size: 14 });
    load.step(loading::Event::Read { ok: true, buffer: b"[A]\r\nx=1\r\nzzzz".to_vec(), bytes_read: 10 });
    assert_eq!(load.request, loading::Request::Close);
    load.step(loading::Event::Closed);
    assert_eq!(load.request, loading::Request::Done);
    assert_eq!(load.contents.as_deref(), Some(&b"[A]\r\nx=1\r\n"[..]));
    let f = load.into_ini().unwrap();
    assert_eq!(f.get_string("A", "x").unwrap().value, "1");
}

#[test]
fn file_that_cannot_be_loaded_is_given_up() {
    let mut load = FileLoad::new(&[]);
    load.step(loading::Event::Opened { open: false });
    assert_eq!(load.request, loading::Request::Done);
    assert!(load.into_ini().is_none());
    for size in [0u32, 0xFFFF_FFFF] {
        let mut load = FileLoad::new(&[]);
        load.step(loading::Event::Opened { open: true });
        load.step(loading::Event::Size { size });
        assert_eq!(load.request, loading::Request::Close);
        load.step(loading::Event::Closed);
        assert!(load.into_ini().is_none());
    }
    let mut load = FileLoad::new(&[]);
    load.step(loading::Event::Opened { open: true });
    load.step(loading::Event::Size { size: 3 });
    load.step(loading::Event::Read { ok: false, buffer: vec![1, 2, 3], bytes_read: 3 });
    assert_eq!(load.request, loading::Request::Close);
    load.step(loading::Event::Closed);
    assert!(load.into_ini().is_none());
}

#[test]
fn log_write_goes_to_the_end_and_closes() {
    let mut seen = vec![log::begin_write(&buffer("C:\\log.txt"))];
    while seen[seen.len() - 1] != log::Request::Done {
        seen.push(log::continue_write(&seen[seen.len() - 1], true, "a\u{e9}\r\n"));
    }
    assert_eq!(seen, vec![
        log::Request::Open,
        log::Request::SeekEnd,
        log::Request::Write { bytes: vec![0x61, 0xC3, 0xA9, 0x0D, 0x0A] },
        log::Request::Close,
        log::Request::Done,
    ]);
    assert_eq!(log::begin_write(&buffer("")), log::Request::Done);
    assert_eq!(log::continue_write(&log::Request::Open, false, "x"), log::Request::Done);
    let write = log::Request::Write { bytes: vec![] };
    assert_eq!(log::continue_write(&write, false, "x"), log::Request::Close);
}

fn walk(resume: bool, entries: &[(u32, u32)], refused: u32) -> (Vec<u32>, usize, usize) {
    let mut w = ThreadWalk::new(resume, 1, 100);
    let mut at = 0;
    let mut open = 0;
    let mut changed = vec![];
    let mut closed_threads = 0;
    let mut closed_snapshots = 0;
    loop {
        let event = match w.request {
            threads::Request::Snapshot => threads::Event::Snapshot { taken: true },
            threads::Request::First | threads::Request::Next => {
                if at < entries.len() {
                    at += 1;
                    threads::Event::Entry { thread: entries[at - 1].0, process: entries[at - 1].1 }
                } else {
                    threads::Event::NoEntry
                }
            }
            threads::Request::Open { id } => {
                open = id;
                threads::Event::Opened { open: id != refused }
            }
            threads::Request::Resume => {
                assert!(resume);
                changed.push(open);
                threads::Event::Acknowledged
            }
            threads::Request::Suspend => {
                assert!(!resume);
                changed.push(open);
                threads::Event::Acknowledged
            }
            threads::Request::CloseThread => {
                closed_threads += 1;
                threads::Event::Acknowledged
            }
            threads::Request::CloseSnapshot => {
                closed_snapshots += 1;
                threads::Event::Acknowledged
            }
            threads::Request::Done => return (changed, closed_threads, closed_snapshots),
        };
        w.step(event);
    }
}

#[test]
fn walk_changes_the_other_threads_of_the_process() {
    let entries = [(1, 100), (2, 100), (3, 200), (4, 100), (1, 200), (5, 100)];
    assert_eq!(walk(false, &entries, 0), (vec![2, 4, 5], 3, 1));
    assert_eq!(walk(true, &entries, 4), (vec![2, 5], 2, 1));
    assert_eq!(walk(true, &[], 0), (vec![], 0, 1));
}

#[test]
fn walk_without_snapshot_is_over() {
    let mut w = ThreadWalk::new(true, 1, 2);
    assert_eq!(w.request, threads::Request::Snapshot);
    w.step(threads::Event::Snapshot { taken: false });
    assert_eq!(w.request, threads::Request::Done);
}

#[test]
fn installation_happens_once() {
    let mut g = Installation::new();
    assert!(g.enter());
    assert!(!g.enter());
    assert!(!g.enter());
}

#[test]
fn service_messages() {
    assert_eq!(Export::ServiceMain.enter_message(), ">>> ServiceMain\r\n");
    assert_eq!(Export::ServiceMain.leave_message(), "<<< ServiceMain\r\n");
    assert_eq!(Export::SvchostPushServiceGlobals.enter_message(), ">>> SvchostPushServiceGlobals\r\n");
    assert_eq!(Export::SvchostPushServiceGlobals.leave_message(), "<<< SvchostPushServiceGlobals\r\n");
}

fn call_once(installation: &mut Installation, export: Export, g: &Globals) -> Vec<Request> {
    let mut seen = vec![Request::Enter];
    loop {
        let last = seen[seen.len() - 1];
        if last == Request::Done {
            return seen;
        }
        let known = if last == Request::Enter && !installation.hooked { None } else { Some(g) };
        seen.push(continue_call(last, export, installation, known));
    }
}

#[test]
fn first_call_installs_and_each_is_passed_on() {
    let mut g = Globals::new(buffer(""));
    g.service_main = Some(7);
    let mut i = Installation::new();
    assert_eq!(call_once(&mut i, Export::ServiceMain, &g), vec![
        Request::Enter,
        Request::Install,
        Request::Call { target: 7 },
        Request::Leave,
        Request::Done,
    ]);
    assert_eq!(call_once(&mut i, Export::ServiceMain, &g), vec![
        Request::Enter,
        Request::Call { target: 7 },
        Request::Leave,
        Request::Done,
    ]);
    assert_eq!(call_once(&mut i, Export::SvchostPushServiceGlobals, &g), vec![
        Request::Enter,
        Request::Leave,
        Request::Done,
    ]);
}
