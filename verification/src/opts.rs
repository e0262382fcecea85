//! Command-line options of the probe.

use vstd::prelude::*;
use vstd::string::StringExecFns;

use crate::platform::views;
use crate::text::{chars_eq_str, is_digit, to_chars};

verus! {

/// Value of a string of ASCII digits, read in base ten.
pub open spec fn digits_value(d: Seq<char>) -> int
    decreases d.len(),
{
    if d.len() == 0 {
        0
    } else {
        10 * digits_value(d.drop_last()) + ((d.last() as u32) - 48)
    }
}

/// Whether every character of `d` is an ASCII digit.
pub open spec fn all_digits(d: Seq<char>) -> bool {
    forall|i: int| 0 <= i < d.len() ==> is_digit(#[trigger] d[i])
}

/// What std's `u64::from_str` accepts: an optional `+`, then one or more digits whose
/// value fits in 64 bits.
pub open spec fn parse_u64_spec(s: Seq<char>) -> Option<u64> {
    let d = if s.len() > 1 && s[0] == '+' {
        s.drop_first()
    } else {
        s
    };
    if d.len() > 0 && all_digits(d) && digits_value(d) <= u64::MAX {
        Some(digits_value(d) as u64)
    } else {
        None
    }
}

proof fn lemma_digits_value_prefix(d: Seq<char>, k: int)
    requires
        all_digits(d),
        0 <= k <= d.len(),
    ensures
        0 <= digits_value(d.subrange(0, k)) <= digits_value(d),
    decreases d.len(),
{
    if d.len() > 0 {
        if k == d.len() {
            assert(d.subrange(0, k) =~= d);
            lemma_digits_value_prefix(d.drop_last(), d.len() - 1);
            assert(d.drop_last().subrange(0, d.len() - 1) =~= d.drop_last());
        } else {
            assert(all_digits(d.drop_last()));
            lemma_digits_value_prefix(d.drop_last(), k);
            assert(d.drop_last().subrange(0, k) =~= d.subrange(0, k));
            lemma_digits_value_prefix(d.drop_last(), d.len() - 1);
            assert(d.drop_last().subrange(0, d.len() - 1) =~= d.drop_last());
        }
    } else {
        assert(d.subrange(0, k) =~= d);
    }
}

/// The number in `s`, as std's `u64::from_str` reads it.
pub fn parse_u64(s: &str) -> (r: Option<u64>)
    ensures
        r == parse_u64_spec(s@),
{
    let v = to_chars(s);
    let n = v.len();
    let from: usize = if n > 1 && v[0] == '+' {
        1
    } else {
        0
    };
    let ghost d = if s@.len() > 1 && s@[0] == '+' {
        s@.drop_first()
    } else {
        s@
    };
    assert(d =~= v@.subrange(from as int, n as int));
    if from == n {
        return None;
    }
    let mut acc: u64 = 0;
    let mut i = from;
    while i < n
        invariant
            from <= i <= n,
            n == v@.len(),
            d == v@.subrange(from as int, n as int),
            d == (if s@.len() > 1 && s@[0] == '+' {
                s@.drop_first()
            } else {
                s@
            }),
            all_digits(v@.subrange(from as int, i as int)),
            acc == digits_value(v@.subrange(from as int, i as int)),
        decreases n - i,
    {
        let c = v[i];
        if !('0' <= c && c <= '9') {
            assert(d[i - from] == c);
            return None;
        }
        let dig = (c as u32 - 48) as u64;
        assert(v@.subrange(from as int, i + 1).drop_last() =~= v@.subrange(from as int, i as int));
        if acc > 1844674407370955161 || (acc == 1844674407370955161 && dig > 5) {
            proof {
                if all_digits(d) {
                    lemma_digits_value_prefix(d, i + 1 - from);
                    assert(d.subrange(0, i + 1 - from) =~= v@.subrange(from as int, i + 1));
                }
            }
            return None;
        }
        acc = acc * 10 + dig;
        assert(all_digits(v@.subrange(from as int, i + 1))) by {
            assert forall|j: int| 0 <= j < i + 1 - from implies is_digit(
                #[trigger] v@.subrange(from as int, i + 1)[j],
            ) by {
                if j < i - from {
                    assert(v@.subrange(from as int, i + 1)[j] == v@.subrange(from as int, i as int)[j]);
                }
            }
        }
        i += 1;
    }
    Some(acc)
}

/// The probe's options.
pub struct Opts {
    pub bw_seconds: u64,
    pub gemm_seconds: u64,
    pub quick: bool,
    pub out: String,
    pub skip_storage: bool,
    pub offline: bool,
    pub no_share: bool,
    pub show_payload: bool,
}

/// The probe's options as values.
pub struct OptsModel {
    pub bw_seconds: u64,
    pub gemm_seconds: u64,
    pub quick: bool,
    pub out: Seq<char>,
    pub skip_storage: bool,
    pub offline: bool,
    pub no_share: bool,
    pub show_payload: bool,
}

impl Opts {
    /// The options as values.
    pub open spec fn model(&self) -> OptsModel {
        OptsModel {
            bw_seconds: self.bw_seconds,
            gemm_seconds: self.gemm_seconds,
            quick: self.quick,
            out: self.out@,
            skip_storage: self.skip_storage,
            offline: self.offline,
            no_share: self.no_share,
            show_payload: self.show_payload,
        }
    }
}

/// What the command line asks for: a run with options, or the help text.
pub enum Parsed {
    Run(Opts),
    Help,
}

/// What the command line asks for, as values.
pub enum ParsedModel {
    Run(OptsModel),
    Help,
}

/// The options before any argument is read.
pub open spec fn default_opts() -> OptsModel {
    OptsModel {
        bw_seconds: 60,
        gemm_seconds: 20,
        quick: false,
        out: Seq::empty(),
        skip_storage: false,
        offline: false,
        no_share: false,
        show_payload: false,
    }
}

/// The number in argument `j`, if there is one.
pub open spec fn arg_u64(args: Seq<Seq<char>>, j: int) -> Option<u64> {
    if 0 <= j < args.len() {
        parse_u64_spec(args[j])
    } else {
        None
    }
}

/// Reading the arguments from index `i` on, with options `o` so far. Arguments are read
/// left to right; `-h`/`--help` stops reading, an unknown argument or a missing or bad
/// value is an error.
pub open spec fn parse_from(args: Seq<Seq<char>>, i: nat, o: OptsModel) -> Result<ParsedModel, Seq<char>>
    decreases args.len() - i,
{
    if i >= args.len() {
        Ok(ParsedModel::Run(o))
    } else {
        let a = args[i as int];
        if a == "--bw-seconds"@ {
            match arg_u64(args, i + 1 as int) {
                Some(v) => parse_from(args, i + 2, OptsModel { bw_seconds: v, ..o }),
                None => Err("bad --bw-seconds"@),
            }
        } else if a == "--gemm-seconds"@ {
            match arg_u64(args, i + 1 as int) {
                Some(v) => parse_from(args, i + 2, OptsModel { gemm_seconds: v, ..o }),
                None => Err("bad --gemm-seconds"@),
            }
        } else if a == "--out"@ {
            if i + 1 < args.len() {
                parse_from(args, i + 2, OptsModel { out: args[i + 1 as int], ..o })
            } else {
                Err("bad --out"@)
            }
        } else if a == "--quick"@ {
            parse_from(args, i + 1, OptsModel { quick: true, bw_seconds: 10, gemm_seconds: 5, ..o })
        } else if a == "--skip-storage"@ {
            parse_from(args, i + 1, OptsModel { skip_storage: true, ..o })
        } else if a == "--offline"@ {
            parse_from(args, i + 1, OptsModel { offline: true, ..o })
        } else if a == "--no-share"@ {
            parse_from(args, i + 1, OptsModel { no_share: true, ..o })
        } else if a == "--show-payload"@ {
            parse_from(args, i + 1, OptsModel { show_payload: true, ..o })
        } else if a == "-h"@ || a == "--help"@ {
            Ok(ParsedModel::Help)
        } else {
            Err("unknown arg "@ + a)
        }
    }
}

/// Reading arguments behind a prefix, from just after the prefix, is reading them alone.
proof fn lemma_parse_shift(p: Seq<Seq<char>>, rest: Seq<Seq<char>>, i: nat, o: OptsModel)
    ensures
        parse_from(p + rest, p.len() + i, o) == parse_from(rest, i, o),
    decreases rest.len() - i,
{
    let a = p + rest;
    let k: nat = p.len() + i;
    if i < rest.len() {
        assert(a[k as int] == rest[i as int]);
        assert(arg_u64(a, k + 1 as int) == arg_u64(rest, i + 1 as int)) by {
            if i + 1 < rest.len() {
                assert(a[k + 1 as int] == rest[i + 1 as int]);
            }
        }
        let r = rest[i as int];
        if r == "--bw-seconds"@ {
            if let Some(v) = arg_u64(rest, i + 1 as int) {
                lemma_parse_shift(p, rest, i + 2, OptsModel { bw_seconds: v, ..o });
            }
        } else if r == "--gemm-seconds"@ {
            if let Some(v) = arg_u64(rest, i + 1 as int) {
                lemma_parse_shift(p, rest, i + 2, OptsModel { gemm_seconds: v, ..o });
            }
        } else if r == "--out"@ {
            if i + 1 < rest.len() {
                assert(a[k + 1 as int] == rest[i + 1 as int]);
                lemma_parse_shift(p, rest, i + 2, OptsModel { out: rest[i + 1 as int], ..o });
            }
        } else if r == "--quick"@ {
            lemma_parse_shift(p, rest, i + 1, OptsModel { quick: true, bw_seconds: 10, gemm_seconds: 5, ..o });
        } else if r == "--skip-storage"@ {
            lemma_parse_shift(p, rest, i + 1, OptsModel { skip_storage: true, ..o });
        } else if r == "--offline"@ {
            lemma_parse_shift(p, rest, i + 1, OptsModel { offline: true, ..o });
        } else if r == "--no-share"@ {
            lemma_parse_shift(p, rest, i + 1, OptsModel { no_share: true, ..o });
        } else if r == "--show-payload"@ {
            lemma_parse_shift(p, rest, i + 1, OptsModel { show_payload: true, ..o });
        }
    }
}

proof fn lemma_flag_literals()
    ensures
        "--bw-seconds"@ != "--gemm-seconds"@,
        "--bw-seconds"@ != "--out"@,
        "--gemm-seconds"@ != "--out"@,
        "--quick"@ != "--bw-seconds"@ && "--quick"@ != "--gemm-seconds"@ && "--quick"@ != "--out"@,
        "--skip-storage"@ != "--bw-seconds"@ && "--skip-storage"@ != "--gemm-seconds"@
            && "--skip-storage"@ != "--out"@ && "--skip-storage"@ != "--quick"@,
        "--offline"@ != "--bw-seconds"@ && "--offline"@ != "--gemm-seconds"@ && "--offline"@ != "--out"@
            && "--offline"@ != "--quick"@ && "--offline"@ != "--skip-storage"@,
        "--no-share"@ != "--bw-seconds"@ && "--no-share"@ != "--gemm-seconds"@ && "--no-share"@ != "--out"@
            && "--no-share"@ != "--quick"@ && "--no-share"@ != "--skip-storage"@ && "--no-share"@
            != "--offline"@,
        "--show-payload"@ != "--bw-seconds"@ && "--show-payload"@ != "--gemm-seconds"@
            && "--show-payload"@ != "--out"@ && "--show-payload"@ != "--quick"@ && "--show-payload"@
            != "--skip-storage"@ && "--show-payload"@ != "--offline"@ && "--show-payload"@
            != "--no-share"@,
        "-h"@ != "--bw-seconds"@ && "-h"@ != "--gemm-seconds"@ && "-h"@ != "--out"@ && "-h"@
            != "--quick"@ && "-h"@ != "--skip-storage"@ && "-h"@ != "--offline"@ && "-h"@
            != "--no-share"@ && "-h"@ != "--show-payload"@,
        "--help"@ != "--bw-seconds"@ && "--help"@ != "--gemm-seconds"@ && "--help"@ != "--out"@
            && "--help"@ != "--quick"@ && "--help"@ != "--skip-storage"@ && "--help"@ != "--offline"@
            && "--help"@ != "--no-share"@ && "--help"@ != "--show-payload"@,
{
    reveal_strlit("--bw-seconds");
    reveal_strlit("--gemm-seconds");
    reveal_strlit("--out");
    reveal_strlit("--quick");
    reveal_strlit("--skip-storage");
    reveal_strlit("--offline");
    reveal_strlit("--no-share");
    reveal_strlit("--show-payload");
    reveal_strlit("-h");
    reveal_strlit("--help");
    assert("--bw-seconds"@.len() == 12 && "--gemm-seconds"@.len() == 14 && "--out"@.len() == 5);
    assert("--quick"@.len() == 7 && "--skip-storage"@.len() == 14 && "--offline"@.len() == 9);
    assert("--no-share"@.len() == 10 && "--show-payload"@.len() == 14 && "-h"@.len() == 2);
    assert("--help"@.len() == 6);
    assert("--gemm-seconds"@[2] == 'g' && "--skip-storage"@[2] == 's' && "--show-payload"@[3] == 'h'
        && "--skip-storage"@[3] == 'k');
    assert("--gemm-seconds"@[3] == 'e');
}

/// What reading one option at the front of the command line does, whatever follows it:
/// `--bw-seconds N` and `--gemm-seconds N` set that duration to N (a valid number) and
/// nothing else, or fail when N is missing or not a number; `--out F` sets the output path;
/// `--quick` sets the quick mode with 10 s and 5 s; the switches set their own flag;
/// `-h` and `--help` ask for the help text.
pub proof fn lemma_leading_option(n: Seq<char>, rest: Seq<Seq<char>>, o: OptsModel)
    ensures
        parse_u64_spec(n) matches Some(v) ==> parse_from(seq!["--bw-seconds"@, n] + rest, 0, o)
            == parse_from(rest, 0, OptsModel { bw_seconds: v, ..o }),
        parse_u64_spec(n) matches Some(v) ==> parse_from(seq!["--gemm-seconds"@, n] + rest, 0, o)
            == parse_from(rest, 0, OptsModel { gemm_seconds: v, ..o }),
        parse_u64_spec(n) is None ==> parse_from(seq!["--bw-seconds"@, n] + rest, 0, o) == Err::<
            ParsedModel,
            Seq<char>,
        >("bad --bw-seconds"@),
        parse_u64_spec(n) is None ==> parse_from(seq!["--gemm-seconds"@, n] + rest, 0, o) == Err::<
            ParsedModel,
            Seq<char>,
        >("bad --gemm-seconds"@),
        parse_from(seq!["--bw-seconds"@], 0, o) == Err::<ParsedModel, Seq<char>>("bad --bw-seconds"@),
        parse_from(seq!["--gemm-seconds"@], 0, o) == Err::<ParsedModel, Seq<char>>(
            "bad --gemm-seconds"@,
        ),
        parse_from(seq!["--out"@, n] + rest, 0, o) == parse_from(rest, 0, OptsModel { out: n, ..o }),
        parse_from(seq!["--out"@], 0, o) == Err::<ParsedModel, Seq<char>>("bad --out"@),
        parse_from(seq!["--quick"@] + rest, 0, o) == parse_from(
            rest,
            0,
            OptsModel { quick: true, bw_seconds: 10, gemm_seconds: 5, ..o },
        ),
        parse_from(seq!["--skip-storage"@] + rest, 0, o) == parse_from(
            rest,
            0,
            OptsModel { skip_storage: true, ..o },
        ),
        parse_from(seq!["--offline"@] + rest, 0, o) == parse_from(rest, 0, OptsModel { offline: true, ..o }),
        parse_from(seq!["--no-share"@] + rest, 0, o) == parse_from(
            rest,
            0,
            OptsModel { no_share: true, ..o },
        ),
        parse_from(seq!["--show-payload"@] + rest, 0, o) == parse_from(
            rest,
            0,
            OptsModel { show_payload: true, ..o },
        ),
        parse_from(seq!["-h"@] + rest, 0, o) == Ok::<ParsedModel, Seq<char>>(ParsedModel::Help),
        parse_from(seq!["--help"@] + rest, 0, o) == Ok::<ParsedModel, Seq<char>>(ParsedModel::Help),
{
    lemma_flag_literals();
    let bw = seq!["--bw-seconds"@, n];
    let gm = seq!["--gemm-seconds"@, n];
    let ot = seq!["--out"@, n];
    assert((bw + rest)[0] == "--bw-seconds"@ && (bw + rest)[1] == n);
    assert((gm + rest)[0] == "--gemm-seconds"@ && (gm + rest)[1] == n);
    assert((ot + rest)[0] == "--out"@ && (ot + rest)[1] == n);
    if let Some(v) = parse_u64_spec(n) {
        lemma_parse_shift(bw, rest, 0, OptsModel { bw_seconds: v, ..o });
        lemma_parse_shift(gm, rest, 0, OptsModel { gemm_seconds: v, ..o });
    }
    lemma_parse_shift(ot, rest, 0, OptsModel { out: n, ..o });
    let q = seq!["--quick"@];
    let ss = seq!["--skip-storage"@];
    let of = seq!["--offline"@];
    let ns = seq!["--no-share"@];
    let sp = seq!["--show-payload"@];
    let h1 = seq!["-h"@];
    let h2 = seq!["--help"@];
    assert((q + rest)[0] == "--quick"@);
    assert((ss + rest)[0] == "--skip-storage"@);
    assert((of + rest)[0] == "--offline"@);
    assert((ns + rest)[0] == "--no-share"@);
    assert((sp + rest)[0] == "--show-payload"@);
    assert((h1 + rest)[0] == "-h"@);
    assert((h2 + rest)[0] == "--help"@);
    lemma_parse_shift(q, rest, 0, OptsModel { quick: true, bw_seconds: 10, gemm_seconds: 5, ..o });
    lemma_parse_shift(ss, rest, 0, OptsModel { skip_storage: true, ..o });
    lemma_parse_shift(of, rest, 0, OptsModel { offline: true, ..o });
    lemma_parse_shift(ns, rest, 0, OptsModel { no_share: true, ..o });
    lemma_parse_shift(sp, rest, 0, OptsModel { show_payload: true, ..o });
    assert(rest =~= Seq::<Seq<char>>::empty() + rest);
}

/// Before any argument is read the probe runs the full measurement: 60 s of sustained
/// bandwidth, 20 s of sustained compute, no quick mode, no output file, storage measured,
/// online, asking before sharing, payload not shown. An empty command line runs with these.
pub proof fn lemma_default_options()
    ensures
        parse_from(Seq::empty(), 0, default_opts()) == Ok::<ParsedModel, Seq<char>>(
            ParsedModel::Run(
                OptsModel {
                    bw_seconds: 60,
                    gemm_seconds: 20,
                    quick: false,
                    out: Seq::empty(),
                    skip_storage: false,
                    offline: false,
                    no_share: false,
                    show_payload: false,
                },
            ),
        ),
{
}

/// What a parse result stands for.
pub open spec fn parsed_model(r: Result<Parsed, String>) -> Result<ParsedModel, Seq<char>> {
    match r {
        Ok(Parsed::Run(o)) => Ok(ParsedModel::Run(o.model())),
        Ok(Parsed::Help) => Ok(ParsedModel::Help),
        Err(e) => Err(e@),
    }
}

fn is_flag(v: &Vec<char>, flag: &str) -> (b: bool)
    ensures
        b == (v@ == flag@),
{
    chars_eq_str(v, flag)
}

/// The options given by the command-line arguments (the program name not included).
pub fn parse_opts(args: &Vec<String>) -> (r: Result<Parsed, String>)
    ensures
        parsed_model(r) == parse_from(views(args@), 0, default_opts()),
{
    let ghost av = views(args@);
    let mut o = Opts {
        bw_seconds: 60,
        gemm_seconds: 20,
        quick: false,
        out: String::new(),
        skip_storage: false,
        offline: false,
        no_share: false,
        show_payload: false,
    };
    assert(o.model() == default_opts());
    let mut i: usize = 0;
    while i < args.len()
        invariant
            0 <= i <= args@.len(),
            av == views(args@),
            parse_from(av, 0, default_opts()) == parse_from(av, i as nat, o.model()),
        decreases args@.len() - i,
    {
        let a = to_chars(args[i].as_str());
        assert(a@ == av[i as int]);
        if is_flag(&a, "--bw-seconds") {
            if i + 1 < args.len() {
                match parse_u64(args[i + 1].as_str()) {
                    Some(v) => {
                        o.bw_seconds = v;
                    },
                    None => {
                        return Err("bad --bw-seconds".to_owned());
                    },
                }
            } else {
                return Err("bad --bw-seconds".to_owned());
            }
            i += 2;
        } else if is_flag(&a, "--gemm-seconds") {
            if i + 1 < args.len() {
                match parse_u64(args[i + 1].as_str()) {
                    Some(v) => {
                        o.gemm_seconds = v;
                    },
                    None => {
                        return Err("bad --gemm-seconds".to_owned());
                    },
                }
            } else {
                return Err("bad --gemm-seconds".to_owned());
            }
            i += 2;
        } else if is_flag(&a, "--out") {
            if i + 1 < args.len() {
                o.out = args[i + 1].clone();
            } else {
                return Err("bad --out".to_owned());
            }
            i += 2;
        } else if is_flag(&a, "--quick") {
            o.quick = true;
            o.bw_seconds = 10;
            o.gemm_seconds = 5;
            i += 1;
        } else if is_flag(&a, "--skip-storage") {
            o.skip_storage = true;
            i += 1;
        } else if is_flag(&a, "--offline") {
            o.offline = true;
            i += 1;
        } else if is_flag(&a, "--no-share") {
            o.no_share = true;
            i += 1;
        } else if is_flag(&a, "--show-payload") {
            o.show_payload = true;
            i += 1;
        } else if is_flag(&a, "-h") || is_flag(&a, "--help") {
            return Ok(Parsed::Help);
        } else {
            let mut e = "unknown arg ".to_owned();
            e.append(args[i].as_str());
            return Err(e);
        }
    }
    Ok(Parsed::Run(o))
}

/// The raw values given to the `k` subcommand: the text after the last `--tokps`,
/// `--model-gb` and `--bw` (each parsed as a number by the caller).
pub struct KArgs {
    pub tokps: Option<String>,
    pub model_gb: Option<String>,
    pub bw: Option<String>,
}

/// The raw values given to the `k` subcommand, as values.
pub struct KArgsModel {
    pub tokps: Option<Seq<char>>,
    pub model_gb: Option<Seq<char>>,
    pub bw: Option<Seq<char>>,
}

/// The view of an optional string.
pub open spec fn opt_string_view(s: Option<String>) -> Option<Seq<char>> {
    match s {
        Some(x) => Some(x@),
        None => None,
    }
}

impl KArgs {
    /// The raw values as values.
    pub open spec fn model(&self) -> KArgsModel {
        KArgsModel {
            tokps: opt_string_view(self.tokps),
            model_gb: opt_string_view(self.model_gb),
            bw: opt_string_view(self.bw),
        }
    }
}

/// The argument after index `i`, if there is one.
pub open spec fn next_arg(args: Seq<Seq<char>>, i: int) -> Option<Seq<char>> {
    if 0 <= i + 1 < args.len() {
        Some(args[i + 1])
    } else {
        None
    }
}

/// Scanning the `k` subcommand's arguments from index `i` on, with values `acc` so far: a
/// flag takes the next argument as its value (nothing when it is last) and skips it; any
/// other argument is ignored. A later flag replaces an earlier value.
pub open spec fn k_scan(args: Seq<Seq<char>>, i: nat, acc: KArgsModel) -> KArgsModel
    decreases args.len() - i,
{
    if i >= args.len() {
        acc
    } else {
        let a = args[i as int];
        let v = next_arg(args, i as int);
        let skip: nat = if v is Some { 2 } else { 1 };
        if a == "--tokps"@ {
            k_scan(args, i + skip, KArgsModel { tokps: v, ..acc })
        } else if a == "--model-gb"@ {
            k_scan(args, i + skip, KArgsModel { model_gb: v, ..acc })
        } else if a == "--bw"@ {
            k_scan(args, i + skip, KArgsModel { bw: v, ..acc })
        } else {
            k_scan(args, i + 1, acc)
        }
    }
}

/// The raw values of the `k` subcommand's arguments (those after `k`).
pub fn k_args(args: &Vec<String>) -> (r: KArgs)
    ensures
        r.model() == k_scan(views(args@), 0, KArgsModel { tokps: None, model_gb: None, bw: None }),
{
    let ghost av = views(args@);
    let mut r = KArgs { tokps: None, model_gb: None, bw: None };
    let mut i: usize = 0;
    while i < args.len()
        invariant
            0 <= i <= args@.len(),
            av == views(args@),
            k_scan(av, 0, KArgsModel { tokps: None, model_gb: None, bw: None }) == k_scan(
                av,
                i as nat,
                r.model(),
            ),
        decreases args@.len() - i,
    {
        let a = to_chars(args[i].as_str());
        assert(a@ == av[i as int]);
        let v: Option<String> = if i + 1 < args.len() {
            Some(args[i + 1].clone())
        } else {
            None
        };
        assert(opt_string_view(v) == next_arg(av, i as int));
        let skip: usize = if i + 1 < args.len() {
            2
        } else {
            1
        };
        if is_flag(&a, "--tokps") {
            r.tokps = v;
            i += skip;
        } else if is_flag(&a, "--model-gb") {
            r.model_gb = v;
            i += skip;
        } else if is_flag(&a, "--bw") {
            r.bw = v;
            i += skip;
        } else {
            i += 1;
        }
    }
    r
}

} // verus!
