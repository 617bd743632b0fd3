use rdpwrap::action::Action;
use rdpwrap::farjmp::{make_stub, Arch};
use rdpwrap::globals::Globals;
use rdpwrap::hook::{Event, Hook, Phase};
use rdpwrap::ini_file::IniFile;
use rdpwrap::patch::{apply_binary_patch, Targets};
use rdpwrap::policy::{
    begin_hooked_query, begin_internal_query, finish_hooked_query, finish_internal_query,
    override_sl, Outcome, E_FAIL, S_OK,
};
use rdpwrap::service::Export;
use rdpwrap::sl_init::csl_query_initialize;
use rdpwrap::version::FileVersion;

const TARGETS: Targets = Targets {
    sl_get_info: 0x1111,
    win8_sl: 0x2222,
    win8_sl_cp: 0x3333,
    csl_query_initialize: 0x4444,
};

#[derive(Debug, PartialEq)]
enum Seen {
    Log(String),
    Write(usize, Vec<u8>),
    Store(usize, u32),
    Freeze,
    Resume,
}

fn seen(actions: Vec<Action>) -> Vec<Seen> {
    actions
        .into_iter()
        .map(|a| match a {
            Action::Log(s) => Seen::Log(s),
            Action::WriteMemory { address, bytes } => Seen::Write(address, bytes),
            Action::WriteDword { address, value } => Seen::Store(address, value),
            Action::FreezeThreads => Seen::Freeze,
            Action::ResumeThreads => Seen::Resume,
        })
        .collect()
}

fn log(s: &str) -> Seen {
    Seen::Log(s.to_string())
}

fn ini(text: &str) -> IniFile {
    IniFile::open(Some(text.as_bytes())).unwrap()
}

fn wide(s: &str) -> Vec<u16> {
    s.encode_utf16().collect()
}

fn buffer(s: &str) -> Vec<u16> {
    let mut b = wide(s);
    b.resize(256, 0);
    b
}

const PATCHES: &str = "[6.1.7601.17514]\r\n\
LocalOnlyPatch.x64=1\r\nLocalOnlyOffset.x64=10\r\nLocalOnlyCode.x64=jmpshort\r\n\
SingleUserPatch.x64=1\r\nSingleUserOffset.x64=17F4\r\nSingleUserCode.x64=nop\r\n\
DefPolicyPatch.x64=1\r\nDefPolicyOffset.x64=200\r\nDefPolicyCode.x64=CDefPolicy_Query_eax_rdi\r\n\
SLPolicyInternal.x64=1\r\nSLPolicyOffset.x64=300\r\nSLPolicyFunc.x64=New_Win8SL_CP\r\n\
SLInitHook.x64=1\r\nSLInitOffset.x64=400\r\nSLInitFunc.x64=New_CSLQuery_Initialize\r\n\
LocalOnlyPatch.x86=0\r\nSLPolicyInternal.x86=1\r\nSLPolicyOffset.x86=300\r\nSLPolicyFunc.x86=New_Win8SL_CP\r\n\
[PatchCodes]\r\nnop=90\r\njmpshort=EB\r\nCDefPolicy_Query_eax_rdi=B80001000089873806000090\r\n";

#[test]
fn patches_of_a_section_on_x64() {
    let f = ini(PATCHES);
    let a = seen(apply_binary_patch(Some(&f), "6.1.7601.17514", Arch::X64, 0x10_0000, TARGETS));
    assert_eq!(a, vec![
        log("Patch CEnforcementCore::GetInstanceOfTSLicense\r\n"),
        Seen::Write(0x10_0010, vec![0xEB]),
        log("Patch CSessionArbitrationHelper::IsSingleSessionPerUserEnabled\r\n"),
        Seen::Write(0x10_17F4, vec![0x90]),
        log("Patch CDefPolicy::Query\r\n"),
        Seen::Write(0x10_0200, vec![0xB8, 0, 1, 0, 0, 0x89, 0x87, 0x38, 6, 0, 0, 0x90]),
        log("Hook SLGetWindowsInformationDWORDWrapper\r\n"),
        Seen::Write(0x10_0300, make_stub(Arch::X64, 0x2222).as_bytes()),
        log("Hook CSLQuery::Initialize\r\n"),
        Seen::Write(0x10_0400, make_stub(Arch::X64, 0x4444).as_bytes()),
    ]);
}

#[test]
fn patches_of_a_section_on_x86() {
    let f = ini(PATCHES);
    let a = seen(apply_binary_patch(Some(&f), "6.1.7601.17514", Arch::X86, 0x10_0000, TARGETS));
    assert_eq!(a, vec![
        log("Hook SLGetWindowsInformationDWORDWrapper\r\n"),
        Seen::Write(0x10_0300, make_stub(Arch::X86, 0x3333).as_bytes()),
    ]);
}

#[test]
fn nothing_switched_on_changes_nothing() {
    let f = ini(PATCHES);
    assert!(apply_binary_patch(Some(&f), "1.2.3.4", Arch::X64, 1, TARGETS).is_empty());
    assert!(apply_binary_patch(None, "6.1.7601.17514", Arch::X64, 1, TARGETS).is_empty());
}

#[test]
fn patch_that_cannot_be_written_is_only_logged() {
    for rest in [
        "",
        "LocalOnlyOffset.x64=0\r\nLocalOnlyCode.x64=nop\r\n",
        "LocalOnlyOffset.x64=10\r\n",
        "LocalOnlyOffset.x64=10\r\nLocalOnlyCode.x64=missing\r\n",
        "LocalOnlyOffset.x64=10\r\nLocalOnlyCode.x64=odd\r\n",
        "LocalOnlyOffset.x64=10\r\nLocalOnlyCode.x64=empty\r\n",
        "LocalOnlyOffset.x64=-1\r\nLocalOnlyCode.x64=nop\r\n",
    ] {
        let f = ini(&format!(
            "[v]\r\nLocalOnlyPatch.x64=1\r\n{}[PatchCodes]\r\nnop=90\r\nodd=123\r\nempty=\r\n",
            rest
        ));
        let a = seen(apply_binary_patch(Some(&f), "v", Arch::X64, 0x10, TARGETS));
        assert_eq!(a, vec![log("Patch CEnforcementCore::GetInstanceOfTSLicense\r\n")]);
    }
}

#[test]
fn patch_code_counts_characters() {
    let f = IniFile::open(Some(
        b"[v]\r\nLocalOnlyPatch.x64=1\r\nLocalOnlyOffset.x64=0x10\r\nLocalOnlyCode.x64=c\r\n[PatchCodes]\r\nc=\xe9A\r\n",
    ))
    .unwrap();
    let a = seen(apply_binary_patch(Some(&f), "v", Arch::X64, 0x10, TARGETS));
    assert_eq!(a, vec![
        log("Patch CEnforcementCore::GetInstanceOfTSLicense\r\n"),
        Seen::Write(0x20, vec![0x0A]),
    ]);
}

fn initialized(ini: Option<&IniFile>, fv: FileVersion, arch: Arch, base: usize) -> Vec<Seen> {
    let done = csl_query_initialize(ini, fv, arch, base);
    assert_eq!(done.result, S_OK);
    seen(done.actions)
}

#[test]
fn policy_variables_are_set() {
    let f = ini(
        "[SLInit]\r\nbServerSku=1\r\nlMaxUserSessions=5\r\n\
         [6.3.9600.17415-SLInit]\r\nbServerSku.x64=B3B30\r\nlMaxUserSessions.x64=10\r\nbInitialized.x64=20\r\nbFUSEnabled.x86=30\r\n",
    );
    let fv = FileVersion { major: 6, minor: 3, release: 9600, build: 17415 };
    let a = initialized(Some(&f), fv, Arch::X64, 0x1000);
    assert_eq!(a, vec![
        log(">>> CSLQuery::Initialize\r\n"),
        Seen::Store(0xB4B30, 1),
        log("SLInit [0x0xb4b30] bServerSku = 1\r\n"),
        Seen::Store(0x1010, 5),
        log("SLInit [0x0x1010] lMaxUserSessions = 5\r\n"),
        Seen::Store(0x1020, 1),
        log("SLInit [0x0x1020] bInitialized = 1\r\n"),
        log("<<< CSLQuery::Initialize\r\n"),
    ]);
    let b = initialized(Some(&f), fv, Arch::X86, 0x1000);
    assert_eq!(b, vec![
        log(">>> CSLQuery::Initialize\r\n"),
        Seen::Store(0x1030, 1),
        log("SLInit [0x0x1030] bFUSEnabled = 1\r\n"),
        log("<<< CSLQuery::Initialize\r\n"),
    ]);
}

#[test]
fn all_policy_variables_in_their_order() {
    let names = [
        ("bServerSku", 1),
        ("bRemoteConnAllowed", 1),
        ("bFUSEnabled", 1),
        ("bAppServerAllowed", 1),
        ("bMultimonAllowed", 1),
        ("lMaxUserSessions", 0),
        ("ulMaxDebugSessions", 0),
        ("bInitialized", 1),
    ];
    let mut text = String::from("[1.2.3.4-SLInit]\r\n");
    for (i, (name, _)) in names.iter().enumerate().rev() {
        text.push_str(&format!("{}.x64={:x}\r\n", name, 16 * (i + 1)));
    }
    let f = ini(&text);
    let fv = FileVersion { major: 1, minor: 2, release: 3, build: 4 };
    let stores: Vec<Seen> = initialized(Some(&f), fv, Arch::X64, 0)
        .into_iter()
        .filter(|s| matches!(s, Seen::Store(_, _)))
        .collect();
    let expected: Vec<Seen> =
        names.iter().enumerate().map(|(i, (_, d))| Seen::Store(16 * (i + 1), *d)).collect();
    assert_eq!(stores, expected);
}

#[test]
fn policy_variables_without_a_section_are_left_alone() {
    let f = ini("[SLInit]\r\nbServerSku=1\r\n");
    let fv = FileVersion { major: 1, minor: 2, release: 3, build: 4 };
    for config in [Some(&f), None] {
        assert_eq!(initialized(config, fv, Arch::X64, 1), vec![
            log(">>> CSLQuery::Initialize\r\n"),
            log("<<< CSLQuery::Initialize\r\n"),
        ]);
    }
}

fn globals(text: &str) -> Globals {
    let mut g = Globals::new(buffer("log"));
    g.ini_file = Some(ini(text));
    g
}

const POLICY: &str = "[SLPolicy]\r\nTerminalServices-RemoteConnectionManager-AllowRemoteConnections=1\r\nbig=4294967299\r\nbad=x\r\n";

#[test]
fn policies_are_overridden_by_name() {
    let f = ini(POLICY);
    let name = wide("TerminalServices-RemoteConnectionManager-AllowRemoteConnections");
    assert_eq!(override_sl(Some(&f), &name), Some(1));
    assert_eq!(override_sl(Some(&f), &wide("big\0rest")), Some(3));
    assert_eq!(override_sl(Some(&f), &wide("bad")), Some(0));
    assert_eq!(override_sl(Some(&f), &wide("other")), None);
    assert_eq!(override_sl(None, &name), None);
}

#[test]
fn named_policy_is_answered() {
    let g = globals(POLICY);
    for q in [begin_hooked_query(&g, &wide("big"), 0x77), begin_internal_query(&g, &wide("big"), 0x77)] {
        assert_eq!(q.outcome, Outcome::Answered { result: S_OK });
        assert_eq!(seen(q.actions), vec![
            log("Policy query: big\r\n"),
            Seen::Store(0x77, 3),
            log("Policy rewrite: 3\r\n"),
        ]);
    }
}

#[test]
fn other_policy_goes_through_the_restored_function() {
    let mut g = globals(POLICY);
    let jump = make_stub(Arch::X64, 0x1111);
    g.sl_get_info = Some(0x5000);
    g.old_sl_bytes = vec![7; 12];
    g.stub_sl = Some(jump);
    let q = begin_hooked_query(&g, &wide("other"), 0x77);
    assert_eq!(q.outcome, Outcome::Forwarded { target: 0x5000 });
    assert_eq!(seen(q.actions), vec![
        log("Policy query: other\r\n"),
        Seen::Write(0x5000, vec![7; 12]),
    ]);
    assert_eq!(seen(finish_hooked_query(&g, 0x5000, S_OK, 42)), vec![
        log("Policy result: 42\r\n"),
        Seen::Write(0x5000, jump.as_bytes()),
    ]);
    assert_eq!(seen(finish_hooked_query(&g, 0x5000, E_FAIL, 42)), vec![
        log("Policy request failed\r\n"),
        Seen::Write(0x5000, jump.as_bytes()),
    ]);
}

#[test]
fn other_policy_without_a_jump_is_only_forwarded() {
    let mut g = globals(POLICY);
    g.sl_get_info = Some(0x5000);
    let q = begin_hooked_query(&g, &wide("other"), 0x77);
    assert_eq!(q.outcome, Outcome::Forwarded { target: 0x5000 });
    assert_eq!(seen(q.actions), vec![log("Policy query: other\r\n")]);
    assert_eq!(seen(finish_hooked_query(&g, 0x5000, S_OK, 0)), vec![log("Policy result: 0\r\n")]);
}

#[test]
fn internal_query_needs_the_system_function() {
    let mut g = globals(POLICY);
    let q = begin_internal_query(&g, &wide("other"), 0x77);
    assert_eq!(q.outcome, Outcome::Answered { result: E_FAIL });
    assert_eq!(E_FAIL as u32, 0x8000_4005);
    assert_eq!(seen(q.actions), vec![log("Policy query: other\r\n")]);
    g.sl_get_info = Some(9);
    let q = begin_internal_query(&g, &wide("other"), 0x77);
    assert_eq!(q.outcome, Outcome::Forwarded { target: 9 });
    assert_eq!(seen(finish_internal_query(S_OK, 5)), vec![log("Policy result: 5\r\n")]);
    assert_eq!(seen(finish_internal_query(1, 5)), vec![log("Policy request failed\r\n")]);
}

fn to_version(config: Option<IniFile>) -> Hook {
    let mut h = Hook::new(Arch::X64, TARGETS);
    assert_eq!(h.phase, Phase::LogModulePath);
    assert_eq!(h.globals.log_file, buffer(""));
    let module = buffer("C:\\rdp\\rdpwrap.dll");
    assert!(h.accepts(&Event::ModulePath(module.clone())));
    assert!(seen(h.step(Event::ModulePath(module.clone()))).is_empty());
    assert_eq!(h.globals.log_file, buffer("C:\\rdp\\rdpwrap.txt"));
    let a = seen(h.step(Event::ModulePath(module)));
    assert_eq!(h.config_file, buffer("C:\\rdp\\rdpwrap.ini"));
    let padded = format!("C:\\rdp\\rdpwrap.ini{}", "\0".repeat(256 - 18));
    assert_eq!(a, vec![
        log("Loading configuration...\r\n"),
        log(&format!("Configuration file: {}\r\n", padded)),
    ]);
    assert_eq!(h.phase, Phase::Config);
    assert_eq!(seen(h.step(Event::Config(config))), vec![log("Initializing RDP Wrapper...\r\n")]);
    assert!(h.step(Event::Module(0x10_0000)).is_empty());
    assert_eq!(h.globals.h_termsrv, 0x10_0000);
    let a = seen(h.step(Event::Exports { service_main: 0x10_1234, svchost_push: 0x10_0ABC }));
    assert_eq!(a, vec![log(
        "Base addr:  0x0x100000\r\nSvcMain:    termsrv.dll+0x1234\r\nSvcGlobals: termsrv.dll+0xabc\r\n"
    )]);
    assert_eq!(Export::ServiceMain.target(&h.globals), Some(0x10_1234));
    assert_eq!(Export::SvchostPushServiceGlobals.target(&h.globals), Some(0x10_0ABC));
    assert_eq!(h.phase, Phase::Version);
    h
}

fn version(major: u16, minor: u16) -> Event {
    Event::Version(Some(FileVersion { major, minor, release: 7601, build: 17514 }))
}

fn freezing(text: &str) -> Vec<Seen> {
    vec![log(&format!("Version:    {}\r\n", text)), log("Freezing threads...\r\n"), Seen::Freeze]
}

#[test]
fn installation_on_windows_seven() {
    let mut h = to_version(Some(ini(PATCHES)));
    assert_eq!(seen(h.step(version(6, 1))), freezing("6.1.7601.17514"));
    assert_eq!(h.phase, Phase::LoadSlcForJump);
    assert!(h.step(Event::Module(0x20_0000)).is_empty());
    assert_eq!(h.globals.h_slc, 0x20_0000);
    assert_eq!(seen(h.step(Event::Function(0x20_0500))), vec![log("Hook SLGetWindowsInformationDWORD\r\n")]);
    assert_eq!(h.globals.sl_get_info, Some(0x20_0500));
    assert_eq!(h.phase, Phase::SaveSlBytes);
    let a = seen(h.step(Event::Memory(Some(vec![9; 12]))));
    assert_eq!(a, vec![Seen::Write(0x20_0500, make_stub(Arch::X64, 0x1111).as_bytes())]);
    assert_eq!(h.globals.old_sl_bytes, vec![9; 12]);
    assert_eq!(h.globals.stub_sl, Some(make_stub(Arch::X64, 0x1111)));
    assert_eq!(h.phase, Phase::CodeSection);
    let a = seen(h.step(Event::CodeSection(Some((0x10_0000, 0x8000)))));
    assert_eq!(a.len(), 12);
    assert_eq!(a[1], Seen::Write(0x10_0010, vec![0xEB]));
    assert_eq!(a[10], log("Resuming threads...\r\n"));
    assert_eq!(a[11], Seen::Resume);
    assert_eq!(h.globals.termsrv_base, 0x10_0000);
    assert_eq!(h.phase, Phase::Done);
    assert!(!h.accepts(&Event::Module(1)));
}

#[test]
fn bytes_that_cannot_be_saved_leave_the_function_alone() {
    for read in [None, Some(vec![9; 11])] {
        let mut h = to_version(Some(ini("[Main]\r\n")));
        h.step(version(6, 0));
        h.step(Event::Module(0x20_0000));
        h.step(Event::Function(0x20_0500));
        let a = seen(h.step(Event::Memory(read)));
        assert_eq!(a, vec![
            log("Error: Failed to save original SLGetWindowsInformationDWORD bytes\r\n"),
            log("Resuming threads...\r\n"),
            Seen::Resume,
        ]);
        assert!(h.globals.old_sl_bytes.is_empty());
        assert_eq!(h.globals.stub_sl, None);
        assert_eq!(h.phase, Phase::Done);
    }
}

#[test]
fn missing_policy_library_or_function_is_passed_over() {
    let mut h = to_version(None);
    h.step(version(6, 1));
    assert_eq!(seen(h.step(Event::Module(0))), vec![log("Resuming threads...\r\n"), Seen::Resume]);
    assert_eq!(h.globals.h_slc, 0);
    let mut h = to_version(None);
    h.step(version(6, 1));
    h.step(Event::Module(5));
    assert_eq!(seen(h.step(Event::Function(0))), vec![log("Resuming threads...\r\n"), Seen::Resume]);
    assert_eq!(h.globals.sl_get_info, None);
    assert_eq!(h.phase, Phase::Done);
}

#[test]
fn configuration_can_refuse_the_jump() {
    for (major, minor, key) in [(6, 0, "SLPolicyHookNT60"), (6, 1, "SLPolicyHookNT61")] {
        let mut h = to_version(Some(ini(&format!("[Main]\r\n{}=0\r\n", key))));
        let mut expected = freezing(&format!("{}.{}.7601.17514", major, minor));
        expected.push(log("Resuming threads...\r\n"));
        expected.push(Seen::Resume);
        assert_eq!(seen(h.step(version(major, minor))), expected);
        assert_eq!(h.phase, Phase::Done);
    }
}

#[test]
fn installation_on_windows_eight_looks_the_function_up() {
    let mut h = to_version(None);
    h.step(version(6, 2));
    assert_eq!(h.phase, Phase::LoadSlcForCall);
    assert!(h.step(Event::Module(0)).is_empty());
    assert_eq!(seen(h.step(Event::Function(0x30))), vec![log("Resuming threads...\r\n"), Seen::Resume]);
    assert_eq!(h.globals.sl_get_info, Some(0x30));
    assert_eq!(h.globals.stub_sl, None);
}

#[test]
fn later_windows_goes_straight_to_the_patches() {
    let f = ini("[6.3.7601.17514]\r\nSLInitHook.x64=1\r\nSLInitOffset.x64=40\r\n");
    let mut h = to_version(Some(f));
    assert_eq!(seen(h.step(version(6, 3))), freezing("6.3.7601.17514"));
    assert_eq!(h.phase, Phase::CodeSection);
    let a = seen(h.step(Event::CodeSection(None)));
    assert_eq!(a, vec![log("Resuming threads...\r\n"), Seen::Resume]);
    assert_eq!(h.globals.termsrv_base, 0);
}

#[test]
fn missing_service_library_ends_the_installation() {
    let mut h = Hook::new(Arch::X86, TARGETS);
    h.step(Event::ModulePath(buffer("C:\\a.dll")));
    h.step(Event::ModulePath(buffer("C:\\a.dll")));
    h.step(Event::Config(None));
    assert_eq!(seen(h.step(Event::Module(0))), vec![log("Error: Failed to load Terminal Services library\r\n")]);
    assert_eq!(h.phase, Phase::Done);
}

#[test]
fn unknown_version_ends_the_installation() {
    for event in [Event::Version(None), version(0, 0)] {
        let mut h = to_version(None);
        assert_eq!(seen(h.step(event)), vec![log("Error: Failed to detect Terminal Services version\r\n")]);
        assert_eq!(h.phase, Phase::Done);
    }
}

#[test]
fn missing_exports_are_not_kept() {
    let mut h = Hook::new(Arch::X64, TARGETS);
    h.step(Event::ModulePath(buffer("C:\\a.dll")));
    h.step(Event::ModulePath(buffer("C:\\a.dll")));
    h.step(Event::Config(None));
    h.step(Event::Module(0x1000));
    let a = seen(h.step(Event::Exports { service_main: 0, svchost_push: 0x1001 }));
    assert_eq!(a, vec![log(&format!(
        "Base addr:  0x0x1000\r\nSvcMain:    termsrv.dll+0x{:x}\r\nSvcGlobals: termsrv.dll+0x1\r\n",
        0usize.wrapping_sub(0x1000)
    ))]);
    assert_eq!(h.globals.service_main, None);
    assert_eq!(h.globals.svchost_push, Some(0x1001));
}

#[test]
fn configuration_names_the_log() {
    let mut h = Hook::new(Arch::X64, TARGETS);
    h.step(Event::ModulePath(buffer("C:\\a.dll")));
    h.step(Event::ModulePath(buffer("C:\\a.dll")));
    h.step(Event::Config(Some(ini("[Main]\r\nLogFile=D:\\x.log\r\n"))));
    assert_eq!(h.globals.log_file, buffer("D:\\x.log"));
}

#[test]
fn answers_to_something_else_are_not_taken() {
    let h = Hook::new(Arch::X64, TARGETS);
    assert!(!h.accepts(&Event::ModulePath(vec![0; 255])));
    assert!(!h.accepts(&Event::Module(1)));
    assert!(!h.accepts(&Event::Config(None)));
    let mut h = to_version(Some(ini(PATCHES)));
    h.step(version(6, 3));
    assert!(!h.accepts(&Event::CodeSection(None)));
}

#[test]
fn log_path_ends_in_a_nul_however_long_the_module_path_is() {
    let mut path = vec![65u16; 256];
    path[250] = 92;
    let mut h = Hook::new(Arch::X64, TARGETS);
    h.step(Event::ModulePath(path.clone()));
    assert_eq!(h.globals.log_file[255], 0);
    h.step(Event::ModulePath(path));
    assert_eq!(h.config_file[255], 0);
    h.step(Event::Config(Some(ini(&format!("[Main]\r\nLogFile={}\r\n", "x".repeat(300))))));
    assert_eq!(h.globals.log_file[..255], vec!['x' as u16; 255][..]);
    assert_eq!(h.globals.log_file[255], 0);
}

#[test]
fn threads_are_frozen_once_and_let_go_once() {
    let mut h = to_version(Some(ini(PATCHES)));
    let mut all = seen(h.step(version(6, 1)));
    all.extend(seen(h.step(Event::Module(1))));
    all.extend(seen(h.step(Event::Function(2))));
    all.extend(seen(h.step(Event::Memory(Some(vec![9; 12])))));
    all.extend(seen(h.step(Event::CodeSection(Some((0x1000, 1))))));
    assert_eq!(h.phase, Phase::Done);
    let at = |wanted: &Seen| -> Vec<usize> { (0..all.len()).filter(|i| all[*i] == *wanted).collect() };
    let freeze = at(&Seen::Freeze);
    let resume = at(&Seen::Resume);
    assert_eq!((freeze.len(), resume.len()), (1, 1));
    let writes: Vec<usize> =
        (0..all.len()).filter(|i| matches!(all[*i], Seen::Write(_, _))).collect();
    assert_eq!(writes.len(), 6);
    for w in writes {
        assert!(freeze[0] < w && w < resume[0]);
    }
}
