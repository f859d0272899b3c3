use logdump::bitness::{
    bitness_from_pe, capture_target_path, image_path_candidate, image_path_env_names, os_is_64_from,
    parse_image_path, reg_output_env_names, resolve, resolve_needs_detect, select_binary,
    service_image_path, set_target, target_path_source, Bitness, TargetPathSource,
};
use logdump::bitness::{image_name_matches, wanted_name};
use logdump::config::{Config, TargetType};
use logdump::pe::{cor20_flags, pe_machine, COMIMAGE_FLAGS_32BITPREFERRED, COMIMAGE_FLAGS_32BITREQUIRED};

/// The value of an environment variable on a typical Windows host; `None`
/// for any other name.
fn env(name: &str) -> Option<String> {
    match name {
        "SystemRoot" => Some(r"C:\Windows".to_string()),
        _ => None,
    }
}

fn parse(raw: &str) -> Option<String> {
    let names = image_path_env_names(raw);
    let vals: Vec<Option<String>> = names.iter().map(|n| env(n)).collect();
    parse_image_path(raw, &vals)
}

/// The image path a service's `reg.exe` output leads to, with the existence
/// check made against this host's file system.
fn reg_image_path(out: &str) -> Option<String> {
    let names = reg_output_env_names(out);
    let vals: Vec<Option<String>> = names.iter().map(|n| env(n)).collect();
    let exists = image_path_candidate(out, &vals)
        .map(|p| std::path::Path::new(&p).exists())
        .unwrap_or(false);
    service_image_path(Some(out), &vals, exists)
}

fn reg_output(line: &str) -> String {
    format!("\r\nHKEY_LOCAL_MACHINE\\SYSTEM\\CurrentControlSet\\Services\\Test\r\n    {line}\r\n\r\n")
}

#[test]
fn x86_target_prefers_procdump_exe() {
    let c = select_binary(Bitness::X86, r"C:\pd", true, true, true);
    assert!(c.actual.ends_with("procdump.exe"));
    assert_eq!(c.actual, r"C:\pd\procdump.exe");
    assert!(c.warning.is_none());
}

#[test]
fn x64_target_prefers_procdump64() {
    assert!(select_binary(Bitness::X64, r"C:\pd", true, true, true).actual.ends_with("procdump64.exe"));
}

#[test]
fn missing_preferred_falls_back_with_warning() {
    let c = select_binary(Bitness::X86, r"C:\pd", true, true, false);
    assert!(c.actual.ends_with("procdump64.exe"));
    assert!(c.warning.is_some());
}

#[test]
fn unknown_defaults_to_64_on_64bit_os() {
    assert!(select_binary(Bitness::Unknown, r"C:\pd", true, true, true).actual.ends_with("procdump64.exe"));
}

#[test]
fn neither_binary_is_reported() {
    let c = select_binary(Bitness::X64, r"C:\pd", true, false, false);
    assert_eq!(c.actual, "");
    assert!(c.warning.is_some());
}

#[test]
fn on_32bit_os_only_procdump_exe() {
    assert!(select_binary(Bitness::X64, r"C:\pd", false, true, true).actual.ends_with("procdump.exe"));
}

fn synth_pe(machine: u16, magic: u16, n_rva: u32, clr_rva: u32, flags: u32) -> Vec<u8> {
    let (n_rva_off, dirs_off) = if magic == 0x20B { (108usize, 112usize) } else { (92, 96) };
    let opt_size = dirs_off + 16 * 8;
    let opt = 0x58usize;
    let mut v = vec![0u8; 0x600];
    v[0..2].copy_from_slice(b"MZ");
    v[0x3C..0x40].copy_from_slice(&0x40u32.to_le_bytes());
    v[0x40..0x44].copy_from_slice(b"PE\0\0");
    v[0x44..0x46].copy_from_slice(&machine.to_le_bytes());
    v[0x46..0x48].copy_from_slice(&1u16.to_le_bytes());
    v[0x54..0x56].copy_from_slice(&(opt_size as u16).to_le_bytes());
    v[opt..opt + 2].copy_from_slice(&magic.to_le_bytes());
    v[opt + n_rva_off..opt + n_rva_off + 4].copy_from_slice(&n_rva.to_le_bytes());
    let d14 = opt + dirs_off + 14 * 8;
    v[d14..d14 + 4].copy_from_slice(&clr_rva.to_le_bytes());
    v[d14 + 4..d14 + 8].copy_from_slice(&72u32.to_le_bytes());
    let sec = opt + opt_size;
    v[sec..sec + 5].copy_from_slice(b".text");
    v[sec + 12..sec + 16].copy_from_slice(&0x1000u32.to_le_bytes());
    v[sec + 16..sec + 20].copy_from_slice(&0x200u32.to_le_bytes());
    v[sec + 20..sec + 24].copy_from_slice(&0x400u32.to_le_bytes());
    v[0x400..0x404].copy_from_slice(&72u32.to_le_bytes());
    v[0x410..0x414].copy_from_slice(&flags.to_le_bytes());
    v
}

const ILONLY: u32 = 0x1;

#[test]
fn anycpu_managed_pe32_resolves_as_64bit() {
    // machine I386, ILONLY, neither 32BITREQUIRED nor 32BITPREFERRED: the
    // 64-bit CLR runs it as a 64-bit process.
    let image = synth_pe(0x014C, 0x10B, 16, 0x1000, ILONLY);
    assert_eq!(pe_machine(&image), Some(0x014C), "precondition: it IS a PE32 I386 image");
    let flags = cor20_flags(&image).expect("precondition: it IS managed");
    assert_eq!(flags & COMIMAGE_FLAGS_32BITREQUIRED, 0);
    assert_eq!(flags & COMIMAGE_FLAGS_32BITPREFERRED, 0);
    assert_eq!(bitness_from_pe(&image), Bitness::X64, "AnyCPU managed PE32 must not be classified X86");
}

#[test]
fn synthetic_anycpu_pe32_resolves_as_64bit() {
    let image = synth_pe(0x014C, 0x10B, 16, 0x1000, ILONLY);
    assert_eq!(pe_machine(&image), Some(0x014C));
    assert_eq!(cor20_flags(&image), Some(ILONLY));
    assert_eq!(bitness_from_pe(&image), Bitness::X64);
}

#[test]
fn managed_pe32_flags_decide_the_anycpu_answer() {
    for (flags, want) in [
        (ILONLY, Bitness::X64),
        (ILONLY | COMIMAGE_FLAGS_32BITREQUIRED, Bitness::X86),
        (ILONLY | COMIMAGE_FLAGS_32BITPREFERRED, Bitness::X86),
        (ILONLY | COMIMAGE_FLAGS_32BITREQUIRED | COMIMAGE_FLAGS_32BITPREFERRED, Bitness::X86),
        (0, Bitness::X64),
    ] {
        assert_eq!(bitness_from_pe(&synth_pe(0x014C, 0x10B, 16, 0x1000, flags)), want, "flags={flags:#x}");
    }
}

#[test]
fn unmanaged_i386_stays_x86() {
    let image = synth_pe(0x014C, 0x10B, 16, 0, ILONLY);
    assert_eq!(cor20_flags(&image), None);
    assert_eq!(bitness_from_pe(&image), Bitness::X86);
}

#[test]
fn amd64_never_consults_the_cor20_header() {
    let image = synth_pe(0x8664, 0x20B, 16, 0x1000, ILONLY | COMIMAGE_FLAGS_32BITREQUIRED);
    assert_eq!(bitness_from_pe(&image), Bitness::X64);
}

#[test]
fn cor20_walk_rejects_malformed_images_without_panicking() {
    let cases: Vec<(&str, Vec<u8>)> = vec![
        ("few_dirs", synth_pe(0x014C, 0x10B, 14, 0x1000, ILONLY)),
        ("bad_rva", synth_pe(0x014C, 0x10B, 16, 0xFFFF_F000, ILONLY)),
        ("rva_past_eof", synth_pe(0x014C, 0x10B, 16, 0x11FF, ILONLY)),
        ("bad_magic", synth_pe(0x014C, 0xDEAD, 16, 0x1000, ILONLY)),
    ];
    for (tag, bytes) in cases {
        assert_eq!(cor20_flags(&bytes), None, "{tag}: walk should have refused");
        assert_eq!(bitness_from_pe(&bytes), Bitness::X86, "{tag}");
    }
}

#[test]
fn cor20_walk_survives_truncation_at_every_length() {
    let full = synth_pe(0x014C, 0x10B, 16, 0x1000, ILONLY);
    for len in (0..full.len()).step_by(16) {
        let got = bitness_from_pe(&full[..len]);
        assert!(matches!(got, Bitness::X86 | Bitness::X64 | Bitness::Unknown), "len={len}");
    }
}

#[test]
fn the_section_walk_is_capped_at_the_pe_spec_limit() {
    let mut v = synth_pe(0x014C, 0x10B, 16, 0x1000, ILONLY);
    let sec = 0x58 + 96 + 16 * 8;
    v.resize(0x3200, 0);
    v[0x46..0x48].copy_from_slice(&300u16.to_le_bytes());
    v[sec + 12..sec + 24].fill(0);
    let s200 = sec + 200 * 40;
    v[s200 + 12..s200 + 16].copy_from_slice(&0x1000u32.to_le_bytes());
    v[s200 + 16..s200 + 20].copy_from_slice(&0x200u32.to_le_bytes());
    v[s200 + 20..s200 + 24].copy_from_slice(&0x3100u32.to_le_bytes());
    v[0x3110..0x3114].copy_from_slice(&ILONLY.to_le_bytes());
    assert_eq!(bitness_from_pe(&v), Bitness::X86, "the walk looked past section 96");
    let mut v = synth_pe(0x014C, 0x10B, 16, 0xFFFF_F000, ILONLY);
    v[0x46..0x48].copy_from_slice(&0xFFFFu16.to_le_bytes());
    assert_eq!(bitness_from_pe(&v), Bitness::X86);
}

fn dos_header(lfanew: u32) -> Vec<u8> {
    let mut v = vec![0u8; 64];
    v[0..2].copy_from_slice(b"MZ");
    v[0x3C..0x40].copy_from_slice(&lfanew.to_le_bytes());
    v
}

#[test]
fn cor20_flags_refuses_garbage_and_non_pe_files() {
    assert_eq!(cor20_flags(&[0xABu8; 4096]), None);
    let bad = dos_header(0xFFFF_FFF0);
    assert_eq!(cor20_flags(&bad), None);
    assert_eq!(bitness_from_pe(&bad), Bitness::Unknown);
    assert_eq!(cor20_flags(&[]), None);
}

#[test]
fn pe_machine_reads_wow64_binary_as_32bit() {
    // An unmanaged PE32 I386 image, as SysWOW64 binaries are.
    let image = synth_pe(0x014C, 0x10B, 16, 0, 0);
    assert_eq!(pe_machine(&image), Some(0x014C));
    assert_eq!(bitness_from_pe(&image), Bitness::X86);
}

#[test]
fn pe_machine_rejects_non_pe_and_missing_files() {
    let text = b"this is not a PE file at all, not even close";
    assert_eq!(pe_machine(text), None);
    assert_eq!(bitness_from_pe(text), Bitness::Unknown);
    assert_eq!(pe_machine(&[]), None);
}

#[test]
fn pe_machine_rejects_truncated_file() {
    assert_eq!(pe_machine(b"MZ"), None);
}

#[test]
fn pe_machine_rejects_garbage_lfanew_past_eof() {
    assert_eq!(pe_machine(&dos_header(0xFFFF_FFF0)), None);
}

#[test]
fn pe_machine_rejects_bad_signature() {
    let mut v = dos_header(0x40);
    v.extend_from_slice(b"XX\0\0");
    v.extend_from_slice(&[0x64, 0x86]);
    assert_eq!(pe_machine(&v), None);
    let mut ok = dos_header(0x40);
    ok.extend_from_slice(b"PE\0\0");
    ok.extend_from_slice(&[0x64, 0x86]);
    assert_eq!(pe_machine(&ok), Some(0x8664));
    assert_eq!(bitness_from_pe(&ok), Bitness::X64);
}

#[test]
fn image_path_plain_unquoted() {
    assert_eq!(
        parse(r"C:\Program Files\SWH\CrossFire.Server.exe"),
        Some(r"C:\Program Files\SWH\CrossFire.Server.exe".to_string())
    );
}

#[test]
fn image_path_quoted_with_arguments() {
    assert_eq!(
        parse(r#""C:\Program Files\SWH\CrossFire.Server.exe" -k netsvcs"#),
        Some(r"C:\Program Files\SWH\CrossFire.Server.exe".to_string())
    );
}

#[test]
fn image_path_unquoted_with_arguments_splits_at_exe() {
    assert_eq!(
        parse(r"C:\Windows\system32\svchost.exe -k netsvcs"),
        Some(r"C:\Windows\system32\svchost.exe".to_string())
    );
}

#[test]
fn image_path_strips_nt_prefix() {
    assert_eq!(
        parse(r"\??\C:\Program Files\SWH\Driver.exe"),
        Some(r"C:\Program Files\SWH\Driver.exe".to_string())
    );
}

#[test]
fn image_path_uppercase_exe_keeps_original_casing() {
    assert_eq!(
        parse(r"C:\WINDOWS\SYSTEM32\SVCHOST.EXE -k netsvcs"),
        Some(r"C:\WINDOWS\SYSTEM32\SVCHOST.EXE".to_string())
    );
}

#[test]
fn image_path_expands_environment_variables() {
    let raw = r"%SystemRoot%\system32\services.exe";
    assert_eq!(image_path_env_names(raw), vec!["SystemRoot".to_string()]);
    assert_eq!(
        parse_image_path(raw, &vec![Some(r"C:\Windows".to_string())]),
        Some(r"C:\Windows\system32\services.exe".to_string())
    );
}

#[test]
fn image_path_keeps_unknown_env_var_literal() {
    assert_eq!(parse(r"%PDM_NO_SUCH_VAR%\svc.exe"), Some(r"%PDM_NO_SUCH_VAR%\svc.exe".to_string()));
}

#[test]
fn image_path_rejects_empty() {
    assert_eq!(parse(""), None);
    assert_eq!(parse("   "), None);
}

#[test]
fn os_is_64_from_covers_every_arm() {
    let s = |x: &str| Some(x.to_string());
    assert!(os_is_64_from(s("AMD64"), None), "native x64");
    assert!(os_is_64_from(s("ARM64"), None), "native arm64");
    assert!(!os_is_64_from(s("x86"), None), "genuine 32-bit OS");
    assert!(!os_is_64_from(s("X86"), None), "casing must not flip the answer");
    assert!(os_is_64_from(s("x86"), s("AMD64")), "32-bit process under WOW64");
    assert!(os_is_64_from(None, None), "unreadable env -> assume 64-bit");
}

#[test]
fn reg_output_yields_the_image_path() {
    let me = r"C:\Program Files\SWH\CrossFire.Server.exe".to_string();
    let out = reg_output(&format!("ImagePath    REG_EXPAND_SZ    {me}"));
    let cand = image_path_candidate(&out, &vec![]);
    assert_eq!(cand, Some(me.clone()));
    assert_eq!(service_image_path(Some(&out), &vec![], true), Some(me));
}

#[test]
fn reg_output_rejects_a_similarly_named_value() {
    let out = reg_output(r"ImagePathBackup    REG_SZ    C:\x\svc.exe");
    assert_eq!(image_path_candidate(&out, &vec![]), None);
    assert_eq!(service_image_path(Some(&out), &vec![], true), None);
}

#[test]
fn reg_output_rejects_a_wrong_type_token() {
    let out = reg_output(r"ImagePath    NOTAREGTYPE    C:\x\svc.exe");
    assert_eq!(image_path_candidate(&out, &vec![]), None);
    assert_eq!(service_image_path(Some(&out), &vec![], true), None);

    let out = reg_output(r"ImagePath    C:\x.exe -args");
    assert_eq!(image_path_candidate(&out, &vec![]), None);
    assert_eq!(reg_image_path(&out), None);
}

#[test]
fn reg_output_rejects_a_driver_style_image_path() {
    let out = reg_output(r"ImagePath    REG_EXPAND_SZ    system32\DRIVERS\pdm_no_such.sys");
    assert_eq!(reg_image_path(&out), None);
}

#[test]
fn reg_output_rejects_a_nonexistent_exe() {
    let out = reg_output(r"ImagePath    REG_EXPAND_SZ    C:\pdm_no_such_dir\nope.exe");
    assert_eq!(reg_image_path(&out), None);
}

#[test]
fn reg_output_rejects_svchost_hosted_services() {
    let out = reg_output(r"ImagePath    REG_EXPAND_SZ    %SystemRoot%\system32\svchost.exe -k netsvcs -p");
    let vals = vec![Some(r"C:\Windows".to_string())];
    assert_eq!(reg_output_env_names(&out), vec!["SystemRoot".to_string()]);
    assert_eq!(image_path_candidate(&out, &vals), None);
    assert_eq!(service_image_path(Some(&out), &vals, true), None);
}

#[test]
fn reg_output_with_no_image_path_value_is_none() {
    assert_eq!(reg_image_path(""), None);
    assert_eq!(reg_image_path(&reg_output("Start    REG_DWORD    0x2")), None);
}

#[test]
fn service_image_path_resolves_a_real_windows_service() {
    let out = reg_output(r"ImagePath    REG_EXPAND_SZ    %SystemRoot%\System32\spoolsv.exe");
    match reg_image_path(&out) {
        Some(p) => {
            let s = p.to_ascii_lowercase();
            assert!(s.ends_with("spoolsv.exe"), "unexpected ImagePath: {s}");
            assert!(std::path::Path::new(&p).exists(), "resolved path does not exist: {s}");
        }
        None => println!("skipping: Spooler service not present"),
    }
    let vals = vec![Some(r"C:\Windows".to_string())];
    assert_eq!(
        service_image_path(Some(&out), &vals, true),
        Some(r"C:\Windows\System32\spoolsv.exe".to_string())
    );
}

#[test]
fn service_image_path_returns_none_for_unknown_service() {
    assert_eq!(service_image_path(None, &vec![], false), None);
}

#[test]
fn service_image_path_returns_none_for_a_real_svchost_service() {
    let out = reg_output(r"ImagePath    REG_EXPAND_SZ    %SystemRoot%\system32\svchost.exe -k netsvcs -p");
    assert_eq!(service_image_path(Some(&out), &vec![Some(r"C:\Windows".to_string())], true), None);
}

#[test]
fn resolve_target_path_source_prefers_a_valid_configured_path() {
    let mut c = Config::default();
    c.target_type = TargetType::Process;
    c.target_path = r" C:\apps\me.exe ".to_string();
    assert_eq!(target_path_source(&c, true), TargetPathSource::CachedPath);
    assert_eq!(target_path_source(&c, false), TargetPathSource::RunningProcess);
    c.target_path = "  ".to_string();
    assert_eq!(target_path_source(&c, true), TargetPathSource::RunningProcess);
    c.target_type = TargetType::Service;
    assert_eq!(target_path_source(&c, true), TargetPathSource::ServiceRegistry);
}

#[test]
fn resolve_target_path_is_none_when_nothing_resolves() {
    let mut c = Config::default();
    c.target_type = TargetType::Process;
    c.target_name = "PdmDefinitelyNotRunning.exe".into();
    assert_eq!(target_path_source(&c, false), TargetPathSource::RunningProcess);
    assert_eq!(resolve(Bitness::Unknown, TargetType::Process, Bitness::Unknown).0, Bitness::Unknown);
}

#[test]
fn resolve_uses_pe_for_a_service_target() {
    assert_eq!(resolve(Bitness::X64, TargetType::Service, Bitness::Unknown), (Bitness::X64, "PE header".to_string()));
}

#[test]
fn resolve_prefers_the_pe_over_runtime_detect() {
    assert_eq!(resolve(Bitness::X86, TargetType::Process, Bitness::X64), (Bitness::X86, "PE header".to_string()));
    assert!(!resolve_needs_detect(Bitness::X86, TargetType::Process));
}

#[test]
fn resolve_falls_back_to_runtime_detect_when_the_pe_is_unreadable() {
    assert!(resolve_needs_detect(Bitness::Unknown, TargetType::Process));
    assert_eq!(
        resolve(Bitness::Unknown, TargetType::Process, Bitness::X64),
        (Bitness::X64, "running process".to_string())
    );
}

#[test]
fn resolve_does_not_runtime_detect_a_service_target() {
    assert!(!resolve_needs_detect(Bitness::Unknown, TargetType::Service));
    assert_eq!(
        resolve(Bitness::Unknown, TargetType::Service, Bitness::X64),
        (Bitness::Unknown, "unresolved".to_string())
    );
}

#[test]
fn resolve_of_a_default_config_is_unresolved() {
    let c = Config::default();
    assert_eq!(target_path_source(&c, false), TargetPathSource::RunningProcess);
    assert_eq!(resolve(Bitness::Unknown, c.target_type, Bitness::Unknown), (Bitness::Unknown, "unresolved".to_string()));
}

#[test]
fn resolve_falls_back_to_unknown_for_an_unresolvable_target() {
    let (b, source) = resolve(Bitness::Unknown, TargetType::Process, Bitness::Unknown);
    assert_eq!(b, Bitness::Unknown);
    assert_eq!(source, "unresolved");
}

#[test]
fn set_target_does_not_resolve_or_capture() {
    let mut c = Config::default();
    set_target(&mut c, "MyProc.exe", TargetType::Process);
    assert_eq!(c.target_name, "MyProc.exe");
    assert_eq!(c.target_type, TargetType::Process);
    assert_eq!(c.target_path, "", "set_target must not resolve");
    capture_target_path(&mut c, Some(r"C:\apps\MyProc.exe".to_string()));
    assert_eq!(c.target_path, r"C:\apps\MyProc.exe");
}

#[test]
fn set_target_then_capture_does_not_re_bless_the_previous_targets_path() {
    let mut c = Config::default();
    c.target_type = TargetType::Process;
    c.target_name = "PdmPreviousTarget.exe".into();
    c.target_path = r"C:\apps\prev.exe".into();
    set_target(&mut c, "PdmDefinitelyNotRunning.exe", TargetType::Process);
    capture_target_path(&mut c, None);
    assert_eq!(c.target_path, "", "re-blessed the previous target's path");
}

#[test]
fn set_target_clears_a_stale_path_when_only_the_type_changes() {
    let mut c = Config::default();
    c.target_type = TargetType::Process;
    c.target_name = "svc".into();
    c.target_path = r"C:\apps\svc.exe".into();
    set_target(&mut c, "svc", TargetType::Service);
    assert_eq!(c.target_path, "");
    assert_eq!(c.target_type, TargetType::Service);
}

#[test]
fn capture_target_path_keeps_a_good_path_when_resolve_fails() {
    let mut c = Config::default();
    c.target_type = TargetType::Service;
    c.target_name = "PdmDefinitelyNotAService".into();
    c.target_path = r"C:\apps\good.exe".into();
    set_target(&mut c, "PdmDefinitelyNotAService", TargetType::Service);
    capture_target_path(&mut c, None);
    assert_eq!(c.target_path, r"C:\apps\good.exe");
}

#[test]
fn set_target_treats_a_casing_only_name_change_as_the_same_target() {
    let mut c = Config::default();
    c.target_type = TargetType::Service;
    c.target_name = "PdmDefinitelyNotAService".into();
    c.target_path = r"C:\apps\good.exe".into();
    set_target(&mut c, "PDMDEFINITELYNOTASERVICE", TargetType::Service);
    assert_eq!(c.target_path, r"C:\apps\good.exe");
    assert_eq!(c.target_name, "PDMDEFINITELYNOTASERVICE");
}

#[test]
fn set_target_clears_a_stale_path_when_the_name_changes() {
    let mut c = Config::default();
    c.target_type = TargetType::Process;
    c.target_name = "PdmPreviousTarget.exe".into();
    c.target_path = r"C:\Apps\PdmPreviousTarget.exe".into();
    set_target(&mut c, "PdmDefinitelyNotRunning.exe", TargetType::Process);
    assert_eq!(c.target_path, "", "stale path survived a target switch");
    assert_eq!(c.target_name, "PdmDefinitelyNotRunning.exe");
}

#[test]
fn process_names_are_matched_without_exe_and_case() {
    assert_eq!(wanted_name("MyApp.exe"), "myapp");
    assert_eq!(wanted_name("MyApp.EXE"), "myapp");
    assert_eq!(wanted_name("a.exe.exe"), "a");
    assert_eq!(wanted_name("Tool.Exe"), "tool.exe");
    assert!(image_name_matches("MYAPP.exe", "myapp"));
    assert!(!image_name_matches("myapp.EXE", "myapp"));
    assert!(image_name_matches("svc", "SVC"));
}
