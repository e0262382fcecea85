use sj_probe::payload::{class_input, payload_json, PayloadFields};

#[test]
fn class_input_fields_in_order() {
    assert_eq!(
        class_input("windows", "aarch64", "Snapdragon X", "", 12, "32", "135"),
        "sjv1n|windows|aarch64|Snapdragon X||12|32|135"
    );
}

fn fields() -> PayloadFields {
    PayloadFields {
        class_hash: "ab12".to_string(),
        os: "linux".to_string(),
        arch: "x86_64".to_string(),
        gpu: None,
        threads: 8,
        memory_gb: "31.2000".to_string(),
        memory_known: true,
        bandwidth_gbps: "40.5000".to_string(),
        gflops_f32: "210.0000".to_string(),
        k: "null".to_string(),
        on_ac: None,
        power_mode: "performance".to_string(),
        cpu_load_pct: "null".to_string(),
        runs: "[]".to_string(),
    }
}

#[test]
fn payload_without_gpu_or_calibration() {
    assert_eq!(
        payload_json(&fields()),
        "{\"class_hash\":\"ab12\",\"source\":\"speedcheck\",\"platform\":\"linux\",\"arch\":\"x86_64\",\"gpu\":null,\"threads\":8,\"memory_gb\":31.2000,\"memory_known\":true,\"bandwidth_gbps\":40.5000,\"gflops_f32\":210.0000,\"k\":null,\"on_ac\":null,\"power_mode\":\"performance\",\"cpu_load_pct\":null,\"runs\":[]}"
    );
}

#[test]
fn payload_with_gpu_and_power_source() {
    let mut f = fields();
    f.gpu = Some("Adreno \"X1\"".to_string());
    f.on_ac = Some(false);
    f.memory_known = false;
    f.memory_gb = "null".to_string();
    let p = payload_json(&f);
    assert!(p.contains(",\"gpu\":{\"description\":\"Adreno \\\"X1\\\"\"},"));
    assert!(p.contains(",\"memory_gb\":null,\"memory_known\":false,"));
    assert!(p.contains(",\"on_ac\":false,"));
}
