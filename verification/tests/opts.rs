use sj_probe::opts::{k_args, parse_opts, parse_u64, Parsed};

fn args(v: &[&str]) -> Vec<String> {
    v.iter().map(|s| s.to_string()).collect()
}

fn run(v: &[&str]) -> sj_probe::opts::Opts {
    match parse_opts(&args(v)) {
        Ok(Parsed::Run(o)) => o,
        Ok(Parsed::Help) => panic!("unexpected help"),
        Err(e) => panic!("unexpected error {}", e),
    }
}

#[test]
fn parse_u64_like_std() {
    for s in ["0", "42", "+7", "", "+", "-1", "++1", "1a", "18446744073709551615", "18446744073709551616", "00012", " 1"] {
        assert_eq!(parse_u64(s), s.parse::<u64>().ok(), "input {:?}", s);
    }
}

#[test]
fn default_options() {
    let o = run(&[]);
    assert_eq!((o.bw_seconds, o.gemm_seconds), (60, 20));
    assert!(!o.quick && !o.skip_storage && !o.offline && !o.no_share && !o.show_payload);
    assert_eq!(o.out, "");
}

#[test]
fn options_are_read_in_order() {
    let o = run(&["--quick", "--bw-seconds", "30", "--out", "r.json", "--offline", "--no-share", "--skip-storage", "--show-payload"]);
    assert!(o.quick);
    assert_eq!((o.bw_seconds, o.gemm_seconds), (30, 5));
    assert_eq!(o.out, "r.json");
    assert!(o.offline && o.no_share && o.skip_storage && o.show_payload);
    let o = run(&["--gemm-seconds", "9", "--quick"]);
    assert_eq!((o.bw_seconds, o.gemm_seconds), (10, 5));
}

#[test]
fn option_errors_and_help() {
    assert_eq!(parse_opts(&args(&["--bw-seconds"])).err().as_deref(), Some("bad --bw-seconds"));
    assert_eq!(parse_opts(&args(&["--bw-seconds", "x"])).err().as_deref(), Some("bad --bw-seconds"));
    assert_eq!(parse_opts(&args(&["--gemm-seconds", "-1"])).err().as_deref(), Some("bad --gemm-seconds"));
    assert_eq!(parse_opts(&args(&["--out"])).err().as_deref(), Some("bad --out"));
    assert_eq!(parse_opts(&args(&["--bogus"])).err().as_deref(), Some("unknown arg --bogus"));
    assert!(matches!(parse_opts(&args(&["-h", "--bogus"])), Ok(Parsed::Help)));
    assert!(matches!(parse_opts(&args(&["--quick", "--help"])), Ok(Parsed::Help)));
    assert!(parse_opts(&args(&["--bogus", "-h"])).is_err());
}

#[test]
fn k_subcommand_arguments() {
    let k = k_args(&args(&["--tokps", "12.5", "--model-gb", "4.9", "--bw", "60"]));
    assert_eq!(k.tokps.as_deref(), Some("12.5"));
    assert_eq!(k.model_gb.as_deref(), Some("4.9"));
    assert_eq!(k.bw.as_deref(), Some("60"));
    // a later flag replaces an earlier value; other arguments are ignored
    let k = k_args(&args(&["x", "--bw", "1", "--bw", "2"]));
    assert_eq!(k.bw.as_deref(), Some("2"));
    assert_eq!(k.tokps, None);
    // a flag takes the next argument as its value, even another flag
    let k = k_args(&args(&["--tokps", "--bw", "5"]));
    assert_eq!(k.tokps.as_deref(), Some("--bw"));
    assert_eq!(k.bw, None);
    // a flag given last has no value and clears an earlier one
    let k = k_args(&args(&["--model-gb", "3", "--model-gb"]));
    assert_eq!(k.model_gb, None);
}
