use sj_probe::platform::{
    command_output, command_text, isa_features, overlay_value_name, ps, target_triple,
    windows_power_mode, Aarch64Features, Arch, IsaProbe, Os, X86Features,
};

#[test]
fn target_triples() {
    assert_eq!(target_triple(Arch::X86_64, Os::Windows, true), "x86_64-pc-windows-msvc");
    assert_eq!(target_triple(Arch::Aarch64, Os::Windows, true), "aarch64-pc-windows-msvc");
    assert_eq!(target_triple(Arch::Aarch64, Os::Windows, false), "unknown");
    assert_eq!(target_triple(Arch::X86_64, Os::MacOs, false), "x86_64-apple-darwin");
    assert_eq!(target_triple(Arch::Aarch64, Os::MacOs, false), "aarch64-apple-darwin");
    assert_eq!(target_triple(Arch::X86_64, Os::Linux, false), "x86_64-unknown-linux-gnu");
    assert_eq!(target_triple(Arch::Aarch64, Os::Linux, true), "aarch64-unknown-linux-gnu");
    assert_eq!(target_triple(Arch::Other, Os::Linux, false), "unknown");
    assert_eq!(target_triple(Arch::X86_64, Os::Other, false), "unknown");
}

#[test]
fn isa_feature_names_in_order() {
    let arm = IsaProbe::Aarch64(Aarch64Features {
        neon: true,
        dotprod: true,
        i8mm: false,
        fp16: true,
        bf16: false,
        sve: false,
        sve2: true,
    });
    assert_eq!(isa_features(&arm), vec!["neon", "dotprod", "fp16", "sve2"]);
    let x86 = IsaProbe::X86(X86Features {
        avx2: true,
        fma: true,
        f16c: false,
        avx512f: true,
        avx512vnni: false,
        avxvnni: true,
    });
    assert_eq!(isa_features(&x86), vec!["avx2", "fma", "avx512f", "avxvnni"]);
    assert!(isa_features(&IsaProbe::Other).is_empty());
}

#[test]
fn powershell_invocation() {
    let c = ps("(Get-CimInstance Win32_Processor).Name");
    assert_eq!(c.program, "powershell");
    assert_eq!(
        c.args,
        vec!["-NoProfile", "-NonInteractive", "-Command", "(Get-CimInstance Win32_Processor).Name"]
    );
}

#[test]
fn overlay_value_depends_on_power_source() {
    assert_eq!(overlay_value_name(Some(false)), "ActiveOverlayDcPowerScheme");
    assert_eq!(overlay_value_name(Some(true)), "ActiveOverlayAcPowerScheme");
    assert_eq!(overlay_value_name(None), "ActiveOverlayAcPowerScheme");
}

#[test]
fn windows_power_mode_from_overlay() {
    let reg = "HKEY_LOCAL_MACHINE\\SYSTEM\\CurrentControlSet\\Control\\Power\\User\\PowerSchemes\r\n    ActiveOverlayAcPowerScheme    REG_SZ    DED574B5-45A0-4F42-8737-46345C09C238\r\n";
    assert_eq!(windows_power_mode(Some(reg), "Balanced"), "Best performance");
    let better = "x REG_SZ 3af9b8d9-7c97-431d-ad78-34a8bfea439f";
    assert_eq!(windows_power_mode(Some(better), "Balanced"), "Better performance");
    let eff = "x REG_SZ 961cc777-2547-4f9d-8174-7d86181b8a7a\n";
    assert_eq!(windows_power_mode(Some(eff), "Balanced"), "Best power efficiency");
    let none = "x REG_SZ 00000000-0000-0000-0000-000000000000";
    assert_eq!(windows_power_mode(Some(none), "Balanced"), "Balanced");
    assert_eq!(windows_power_mode(None, "Power saver"), "Power saver");
    assert_eq!(windows_power_mode(Some("   \n"), "Balanced"), "Balanced");
    assert_eq!(
        windows_power_mode(Some("v REG_SZ ABCDEF"), "Balanced"),
        "Balanced (overlay abcdef)"
    );
}

#[test]
fn command_output_is_trimmed_and_nonempty() {
    assert_eq!(command_output(true, b"  host\n").as_deref(), Some("host"));
    assert_eq!(command_output(true, b" \n "), None);
    assert_eq!(command_output(false, b"host"), None);
    assert_eq!(command_output(true, b"a\xffb").as_deref(), Some("a\u{fffd}b"));
    assert_eq!(command_text(true, "\tx y\t").as_deref(), Some("x y"));
}
