use sj_probe::json::{
    gpu_description, json_num_text, json_str, jstr, single_string_array, top_level_objects,
};

#[test]
fn jstr_plain_text_is_quoted() {
    assert_eq!(jstr("Qwen3 4B"), "\"Qwen3 4B\"");
    assert_eq!(jstr(""), "\"\"");
}

#[test]
fn jstr_escapes_quotes_backslashes_and_controls() {
    assert_eq!(jstr("a\"b"), "\"a\\\"b\"");
    assert_eq!(jstr("C:\\x"), "\"C:\\\\x\"");
    assert_eq!(jstr("l1\nl2\r\tz"), "\"l1\\nl2\\r\\tz\"");
    assert_eq!(jstr("\u{1}\u{1f}"), "\"\\u0001\\u001f\"");
    assert_eq!(jstr("\u{7f}é"), "\"\u{7f}é\"");
}

#[test]
fn json_str_reads_flat_values() {
    let m = r#"{ "model": { "name" : "Qwen3-0.6B", "file": "q.gguf", "size_bytes": 484220320 } }"#;
    assert_eq!(json_str(m, "name").as_deref(), Some("Qwen3-0.6B"));
    assert_eq!(json_str(m, "file").as_deref(), Some("q.gguf"));
    assert_eq!(json_str(m, "size_bytes"), None);
    assert_eq!(json_str(m, "url"), None);
}

#[test]
fn json_str_uses_first_occurrence() {
    let j = r#"{"id":"first","x":{"id":"second"}}"#;
    assert_eq!(json_str(j, "id").as_deref(), Some("first"));
}

#[test]
fn json_str_needs_colon_and_quote() {
    assert_eq!(json_str(r#"{"a" "b"}"#, "a"), None);
    assert_eq!(json_str(r#"{"a": 5}"#, "a"), None);
    assert_eq!(json_str(r#"{"a": "unterminated"#, "a"), None);
    assert_eq!(json_str("{\"a\"\u{3000}:\t\"wide\"}", "a").as_deref(), Some("wide"));
}

#[test]
fn json_str_reads_back_jstr() {
    let doc = format!("{{{}:{}}}", jstr("delete_token"), jstr("tok-123"));
    assert_eq!(json_str(&doc, "delete_token").as_deref(), Some("tok-123"));
}

#[test]
fn json_num_text_reads_bare_values() {
    let m = r#"{"size_bytes": 484220320, "avg_ts":12.5,"n_gen":0}"#;
    assert_eq!(json_num_text(m, "size_bytes").as_deref(), Some("484220320"));
    assert_eq!(json_num_text(m, "avg_ts").as_deref(), Some("12.5"));
    assert_eq!(json_num_text(m, "n_gen").as_deref(), Some("0"));
    assert_eq!(json_num_text(m, "missing"), None);
    assert_eq!(json_num_text(r#"{"a":}"#, "a").as_deref(), Some(""));
}

#[test]
fn top_level_objects_of_engine_output() {
    let out = "[\n  {\"n_prompt\": 0, \"n_gen\": 32, \"x\": {\"y\": 1}},\n  {\"n_gen\": 128}\n]";
    assert_eq!(
        top_level_objects(out),
        vec!["{\"n_prompt\": 0, \"n_gen\": 32, \"x\": {\"y\": 1}}", "{\"n_gen\": 128}"]
    );
    assert!(top_level_objects("no objects").is_empty());
    assert_eq!(top_level_objects("}{a}"), Vec::<String>::new());
}

#[test]
fn gpu_description_picks_first_nonblank() {
    let w = r#"[{"Name":"  Qualcomm(R) Adreno(TM) 8cx Gen 3 ","AdapterRAM":0,"VideoProcessor":"x"}]"#;
    assert_eq!(gpu_description(w).as_deref(), Some("Qualcomm(R) Adreno(TM) 8cx Gen 3"));
    let v = r#"[{"Name":"  ","VideoProcessor":"Intel Iris Xe"}]"#;
    assert_eq!(gpu_description(v).as_deref(), Some("Intel Iris Xe"));
    assert_eq!(gpu_description("null"), None);
    assert_eq!(gpu_description(r#"{"description":"GPU"}"#).as_deref(), Some("GPU"));
}

#[test]
fn single_string_array_quotes() {
    assert_eq!(single_string_array("00:02.0 VGA \"x\""), "[\"00:02.0 VGA \\\"x\\\"\"]");
}

#[test]
fn top_level_objects_are_braced() {
    let out = "x{a{b}c}y{}z{{}}}{";
    let objs = top_level_objects(out);
    assert_eq!(objs, vec!["{a{b}c}", "{}", "{{}}"]);
    for o in objs {
        assert!(o.starts_with('{') && o.ends_with('}') && o.len() >= 2);
    }
}

#[test]
fn jstr_keeps_different_strings_apart() {
    // a quote and a backslash followed by a quote must not be written alike
    assert_ne!(jstr("a\""), jstr("a\\\""));
    assert_eq!(jstr("a\""), "\"a\\\"\"");
    assert_eq!(jstr("a\\\""), "\"a\\\\\\\"\"");
    // a control character and its escape text must not be written alike
    assert_ne!(jstr("\u{1}"), jstr("\\u0001"));
    assert_eq!(jstr("\u{1}"), "\"\\u0001\"");
    assert_eq!(jstr("\\u0001"), "\"\\\\u0001\"");
}
