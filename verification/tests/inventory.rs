use sj_probe::inventory::{
    cpu_name_from_cpuinfo, json_array, meminfo_number, power_mode_note,
};

#[test]
fn cpu_name_from_proc_cpuinfo() {
    let x86 = "processor\t: 0\nvendor_id\t: GenuineIntel\nmodel\t\t: 140\nmodel name\t: 11th Gen Intel(R) Core(TM) i7-1165G7 @ 2.80GHz\nstepping\t: 1\n";
    assert_eq!(
        cpu_name_from_cpuinfo(x86).as_deref(),
        Some("11th Gen Intel(R) Core(TM) i7-1165G7 @ 2.80GHz")
    );
    let arm = "processor\t: 0\nBogoMIPS\t: 38.40\n\nHardware\t: BCM2835\nModel\t\t: Raspberry Pi 4 Model B Rev 1.4\n";
    assert_eq!(cpu_name_from_cpuinfo(arm).as_deref(), Some("Raspberry Pi 4 Model B Rev 1.4"));
    assert_eq!(cpu_name_from_cpuinfo("model name without colon\nModel: a:b\n").as_deref(), Some("a"));
    assert_eq!(cpu_name_from_cpuinfo("processor: 0\n"), None);
}

#[test]
fn meminfo_numbers() {
    let m = "MemTotal:       16318856 kB\nMemFree:         1234567 kB\nMemAvailable:    8123456 kB\n";
    assert_eq!(meminfo_number(m, "MemTotal:").as_deref(), Some("16318856"));
    assert_eq!(meminfo_number(m, "MemAvailable:").as_deref(), Some("8123456"));
    assert_eq!(meminfo_number(m, "SwapTotal:"), None);
    assert_eq!(meminfo_number("MemTotal: 1\nMemTotal: 2\n", "MemTotal:").as_deref(), Some("2"));
}

#[test]
fn json_array_wrapping() {
    assert_eq!(json_array("[{\"a\":1}]".to_string()), "[{\"a\":1}]");
    assert_eq!(json_array("{\"a\":1}".to_string()), "[{\"a\":1}]");
    assert_eq!(json_array(String::new()), "[]");
}

#[test]
fn power_mode_note_for_saving_modes() {
    assert!(power_mode_note("Best power efficiency").is_some());
    assert!(power_mode_note("POWER SAVER").is_some());
    assert!(power_mode_note("Balanced").is_none());
    assert_eq!(
        power_mode_note("Efficiency").as_deref(),
        Some("Windows power mode is not Best performance; ARM laptops in particular clock down. Rerun on Best performance, plugged in.")
    );
}
