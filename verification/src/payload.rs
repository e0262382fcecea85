//! The record the probe sends when the user agrees to share: which fields it holds and how
//! they are written. The measured numbers arrive already written as JSON number text.

use vstd::prelude::*;
use vstd::string::StringExecFns;

use crate::json::{json_quote, json_string_value, jstr, lemma_jstr_decodes};
use crate::measure::{decimal, lemma_decimal_round_trip, u64_to_decimal};
use crate::opts::{opt_string_view, parse_u64_spec};
use vstd::seq_lib::lemma_concat_associative;

verus! {

/// The input of the machine-class hash: a version tag and the class fields, separated by `|`.
pub open spec fn class_input_spec(
    os: Seq<char>,
    arch: Seq<char>,
    cpu: Seq<char>,
    gpu: Seq<char>,
    cores: usize,
    ram_gb: Seq<char>,
    bw_bucket: Seq<char>,
) -> Seq<char> {
    "sjv1n|"@ + os + "|"@ + arch + "|"@ + cpu + "|"@ + gpu + "|"@ + decimal(cores as nat) + "|"@
        + ram_gb + "|"@ + bw_bucket
}

/// The input of the machine-class hash. `ram_gb` and `bw_bucket` are the rounded memory
/// size and the bucketed bandwidth, already written as text.
pub fn class_input(
    os: &str,
    arch: &str,
    cpu: &str,
    gpu: &str,
    cores: usize,
    ram_gb: &str,
    bw_bucket: &str,
) -> (s: String)
    ensures
        s@ == class_input_spec(os@, arch@, cpu@, gpu@, cores, ram_gb@, bw_bucket@),
{
    let mut s = "sjv1n|".to_owned();
    s.append(os);
    s.append("|");
    s.append(arch);
    s.append("|");
    s.append(cpu);
    s.append("|");
    s.append(gpu);
    s.append("|");
    s.append(u64_to_decimal(cores as u64).as_str());
    s.append("|");
    s.append(ram_gb);
    s.append("|");
    s.append(bw_bucket);
    s
}

/// What is sent when the user agrees to share. The number fields hold JSON number text
/// (or `null`); `runs` holds the JSON array of calibration runs.
pub struct PayloadFields {
    pub class_hash: String,
    pub os: String,
    pub arch: String,
    pub gpu: Option<String>,
    pub threads: usize,
    pub memory_gb: String,
    pub memory_known: bool,
    pub bandwidth_gbps: String,
    pub gflops_f32: String,
    pub k: String,
    pub on_ac: Option<bool>,
    pub power_mode: String,
    pub cpu_load_pct: String,
    pub runs: String,
}

/// A boolean as JSON.
pub open spec fn bool_json(b: bool) -> Seq<char> {
    if b {
        "true"@
    } else {
        "false"@
    }
}

/// An optional boolean as JSON, `null` when unknown.
pub open spec fn opt_bool_json(b: Option<bool>) -> Seq<char> {
    match b {
        Some(true) => "true"@,
        Some(false) => "false"@,
        None => "null"@,
    }
}

/// The `gpu` field: an object with the description, or `null`.
pub open spec fn gpu_json(d: Option<String>) -> Seq<char> {
    match d {
        Some(x) => "{\"description\":"@ + json_quote(x@) + "}"@,
        None => "null"@,
    }
}

/// The payload as one JSON object, fields in a fixed order. These fields are all it holds:
/// no host name or hash of it, no user name, no path.
pub open spec fn payload_spec(f: PayloadFields) -> Seq<char> {
    "{\"class_hash\":"@ + json_quote(f.class_hash@) + ",\"source\":\"speedcheck\",\"platform\":"@
        + json_quote(f.os@) + ",\"arch\":"@ + json_quote(f.arch@) + ",\"gpu\":"@ + gpu_json(f.gpu)
        + ",\"threads\":"@ + decimal(f.threads as nat) + ",\"memory_gb\":"@ + f.memory_gb@
        + ",\"memory_known\":"@ + bool_json(f.memory_known) + ",\"bandwidth_gbps\":"@
        + f.bandwidth_gbps@ + ",\"gflops_f32\":"@ + f.gflops_f32@ + ",\"k\":"@ + f.k@
        + ",\"on_ac\":"@ + opt_bool_json(f.on_ac) + ",\"power_mode\":"@ + json_quote(f.power_mode@)
        + ",\"cpu_load_pct\":"@ + f.cpu_load_pct@ + ",\"runs\":"@ + f.runs@ + "}"@
}

/// The payload sent when the user agrees to share.
#[verifier::spinoff_prover]
#[verifier::rlimit(40)]
pub fn payload_json(f: &PayloadFields) -> (s: String)
    ensures
        s@ == payload_spec(*f),
{
    let mut s = "{\"class_hash\":".to_owned();
    s.append(jstr(f.class_hash.as_str()).as_str());
    s.append(",\"source\":\"speedcheck\",\"platform\":");
    s.append(jstr(f.os.as_str()).as_str());
    s.append(",\"arch\":");
    s.append(jstr(f.arch.as_str()).as_str());
    s.append(",\"gpu\":");
    match &f.gpu {
        Some(d) => {
            s.append("{\"description\":");
            s.append(jstr(d.as_str()).as_str());
            s.append("}");
        },
        None => {
            s.append("null");
        },
    }
    s.append(",\"threads\":");
    s.append(u64_to_decimal(f.threads as u64).as_str());
    s.append(",\"memory_gb\":");
    s.append(f.memory_gb.as_str());
    s.append(",\"memory_known\":");
    s.append(if f.memory_known {
        "true"
    } else {
        "false"
    });
    s.append(",\"bandwidth_gbps\":");
    s.append(f.bandwidth_gbps.as_str());
    s.append(",\"gflops_f32\":");
    s.append(f.gflops_f32.as_str());
    s.append(",\"k\":");
    s.append(f.k.as_str());
    s.append(",\"on_ac\":");
    s.append(
        match f.on_ac {
            Some(true) => "true",
            Some(false) => "false",
            None => "null",
        },
    );
    s.append(",\"power_mode\":");
    s.append(jstr(f.power_mode.as_str()).as_str());
    s.append(",\"cpu_load_pct\":");
    s.append(f.cpu_load_pct.as_str());
    s.append(",\"runs\":");
    s.append(f.runs.as_str());
    s.append("}");
    s
}

/// The boolean that a JSON literal stands for.
pub open spec fn json_bool_value(t: Seq<char>) -> Option<bool> {
    if t == "true"@ {
        Some(true)
    } else if t == "false"@ {
        Some(false)
    } else {
        None
    }
}

/// The optional boolean that a JSON literal stands for, `null` standing for none.
pub open spec fn json_opt_bool_value(t: Seq<char>) -> Option<Option<bool>> {
    if t == "null"@ {
        Some(None)
    } else {
        match json_bool_value(t) {
            Some(b) => Some(Some(b)),
            None => None,
        }
    }
}

/// `doc` is `pre`, then `key`, then the value text `t`, then `next`, then `post`.
pub open spec fn field_at(
    doc: Seq<char>,
    pre: Seq<char>,
    key: Seq<char>,
    t: Seq<char>,
    next: Seq<char>,
    post: Seq<char>,
) -> bool {
    doc == pre + key + t + next + post
}

/// What the `gpu` field stands for: `null` for none, and `{"description":S}` for the
/// description that the string literal `S` holds.
pub open spec fn gpu_field_value(t: Seq<char>) -> Option<Option<Seq<char>>> {
    let k = "{\"description\":"@;
    if t == "null"@ {
        Some(None)
    } else if t.len() >= k.len() + 1 && t.subrange(0, k.len() as int) == k && t.last() == '}' {
        match json_string_value(t.subrange(k.len() as int, t.len() - 1)) {
            Some(v) => Some(Some(v)),
            None => None,
        }
    } else {
        None
    }
}

/// Every field of the payload reads back as what was handed in: the class hash, platform,
/// architecture and power mode are JSON strings whose value is the input; the GPU field
/// holds the description (or `null`); the thread count is a number that parses back to
/// it; `memory_known` and `on_ac` are the JSON literals of the input (`null` for an unknown
/// power source); and the number fields and the runs are exactly the text handed in.
pub proof fn lemma_payload_reads_back(f: PayloadFields)
    ensures
        exists|pre: Seq<char>, t: Seq<char>, post: Seq<char>|
            #[trigger] field_at(payload_spec(f), pre, "{\"class_hash\":"@, t, ",\"source\":\"speedcheck\",\"platform\":"@, post)
                && json_string_value(t) == Some(f.class_hash@),
        exists|pre: Seq<char>, t: Seq<char>, post: Seq<char>|
            #[trigger] field_at(payload_spec(f), pre, ",\"source\":\"speedcheck\",\"platform\":"@, t, ",\"arch\":"@, post)
                && json_string_value(t) == Some(f.os@),
        exists|pre: Seq<char>, t: Seq<char>, post: Seq<char>|
            #[trigger] field_at(payload_spec(f), pre, ",\"arch\":"@, t, ",\"gpu\":"@, post)
                && json_string_value(t) == Some(f.arch@),
        exists|pre: Seq<char>, t: Seq<char>, post: Seq<char>|
            #[trigger] field_at(payload_spec(f), pre, ",\"gpu\":"@, t, ",\"threads\":"@, post)
                && gpu_field_value(t) == Some(opt_string_view(f.gpu)),
        exists|pre: Seq<char>, t: Seq<char>, post: Seq<char>|
            #[trigger] field_at(payload_spec(f), pre, ",\"threads\":"@, t, ",\"memory_gb\":"@, post)
                && parse_u64_spec(t) == Some(f.threads as u64),
        exists|pre: Seq<char>, t: Seq<char>, post: Seq<char>|
            #[trigger] field_at(payload_spec(f), pre, ",\"memory_gb\":"@, t, ",\"memory_known\":"@, post)
                && t == f.memory_gb@,
        exists|pre: Seq<char>, t: Seq<char>, post: Seq<char>|
            #[trigger] field_at(payload_spec(f), pre, ",\"memory_known\":"@, t, ",\"bandwidth_gbps\":"@, post)
                && json_bool_value(t) == Some(f.memory_known),
        exists|pre: Seq<char>, t: Seq<char>, post: Seq<char>|
            #[trigger] field_at(payload_spec(f), pre, ",\"bandwidth_gbps\":"@, t, ",\"gflops_f32\":"@, post)
                && t == f.bandwidth_gbps@,
        exists|pre: Seq<char>, t: Seq<char>, post: Seq<char>|
            #[trigger] field_at(payload_spec(f), pre, ",\"gflops_f32\":"@, t, ",\"k\":"@, post)
                && t == f.gflops_f32@,
        exists|pre: Seq<char>, t: Seq<char>, post: Seq<char>|
            #[trigger] field_at(payload_spec(f), pre, ",\"k\":"@, t, ",\"on_ac\":"@, post)
                && t == f.k@,
        exists|pre: Seq<char>, t: Seq<char>, post: Seq<char>|
            #[trigger] field_at(payload_spec(f), pre, ",\"on_ac\":"@, t, ",\"power_mode\":"@, post)
                && json_opt_bool_value(t) == Some(f.on_ac),
        exists|pre: Seq<char>, t: Seq<char>, post: Seq<char>|
            #[trigger] field_at(payload_spec(f), pre, ",\"power_mode\":"@, t, ",\"cpu_load_pct\":"@, post)
                && json_string_value(t) == Some(f.power_mode@),
        exists|pre: Seq<char>, t: Seq<char>, post: Seq<char>|
            #[trigger] field_at(payload_spec(f), pre, ",\"cpu_load_pct\":"@, t, ",\"runs\":"@, post)
                && t == f.cpu_load_pct@,
        exists|pre: Seq<char>, t: Seq<char>, post: Seq<char>|
            #[trigger] field_at(payload_spec(f), pre, ",\"runs\":"@, t, "}"@, post)
                && t == f.runs@,
{
    lemma_payload_field_class_hash(f);
    lemma_payload_field_platform(f);
    lemma_payload_field_arch(f);
    lemma_payload_field_gpu(f);
    lemma_payload_field_threads(f);
    lemma_payload_field_memory_gb(f);
    lemma_payload_field_memory_known(f);
    lemma_payload_field_bandwidth(f);
    lemma_payload_field_gflops(f);
    lemma_payload_field_k(f);
    lemma_payload_field_on_ac(f);
    lemma_payload_field_power_mode(f);
    lemma_payload_field_cpu_load(f);
    lemma_payload_field_runs(f);
}

proof fn lemma_payload_field_class_hash(f: PayloadFields)
    ensures
        exists|pre: Seq<char>, t: Seq<char>, post: Seq<char>|
            #[trigger] field_at(payload_spec(f), pre, "{\"class_hash\":"@, t, ",\"source\":\"speedcheck\",\"platform\":"@, post)
                && json_string_value(t) == Some(f.class_hash@),
{
    let k1 = "{\"class_hash\":"@;
    let v1 = json_quote(f.class_hash@);
    let k2 = ",\"source\":\"speedcheck\",\"platform\":"@;
    let v2 = json_quote(f.os@);
    let k3 = ",\"arch\":"@;
    let v3 = json_quote(f.arch@);
    let k4 = ",\"gpu\":"@;
    let v4 = gpu_json(f.gpu);
    let k5 = ",\"threads\":"@;
    let v5 = decimal(f.threads as nat);
    let k6 = ",\"memory_gb\":"@;
    let mem = f.memory_gb@;
    let k7 = ",\"memory_known\":"@;
    let v7 = bool_json(f.memory_known);
    let k8 = ",\"bandwidth_gbps\":"@;
    let bw = f.bandwidth_gbps@;
    let k9 = ",\"gflops_f32\":"@;
    let gf = f.gflops_f32@;
    let k10 = ",\"k\":"@;
    let kk = f.k@;
    let k11 = ",\"on_ac\":"@;
    let v11 = opt_bool_json(f.on_ac);
    let k12 = ",\"power_mode\":"@;
    let v12 = json_quote(f.power_mode@);
    let k13 = ",\"cpu_load_pct\":"@;
    let cpu = f.cpu_load_pct@;
    let k14 = ",\"runs\":"@;
    let runs = f.runs@;
    let close = "}"@;

    let doc = payload_spec(f);
    assert(doc == k1 + v1 + k2 + v2 + k3 + v3 + k4 + v4 + k5 + v5 + k6 + mem + k7 + v7 + k8 + bw + k9 + gf + k10 + kk + k11 + v11 + k12 + v12 + k13 + cpu + k14 + runs + close);
    let x = k1 + v1 + k2;
    let y3 = v2;
    let y4 = y3 + k3;
    lemma_concat_associative(x, y3, k3);
    let y5 = y4 + v3;
    lemma_concat_associative(x, y4, v3);
    let y6 = y5 + k4;
    lemma_concat_associative(x, y5, k4);
    let y7 = y6 + v4;
    lemma_concat_associative(x, y6, v4);
    let y8 = y7 + k5;
    lemma_concat_associative(x, y7, k5);
    let y9 = y8 + v5;
    lemma_concat_associative(x, y8, v5);
    let y10 = y9 + k6;
    lemma_concat_associative(x, y9, k6);
    let y11 = y10 + mem;
    lemma_concat_associative(x, y10, mem);
    let y12 = y11 + k7;
    lemma_concat_associative(x, y11, k7);
    let y13 = y12 + v7;
    lemma_concat_associative(x, y12, v7);
    let y14 = y13 + k8;
    lemma_concat_associative(x, y13, k8);
    let y15 = y14 + bw;
    lemma_concat_associative(x, y14, bw);
    let y16 = y15 + k9;
    lemma_concat_associative(x, y15, k9);
    let y17 = y16 + gf;
    lemma_concat_associative(x, y16, gf);
    let y18 = y17 + k10;
    lemma_concat_associative(x, y17, k10);
    let y19 = y18 + kk;
    lemma_concat_associative(x, y18, kk);
    let y20 = y19 + k11;
    lemma_concat_associative(x, y19, k11);
    let y21 = y20 + v11;
    lemma_concat_associative(x, y20, v11);
    let y22 = y21 + k12;
    lemma_concat_associative(x, y21, k12);
    let y23 = y22 + v12;
    lemma_concat_associative(x, y22, v12);
    let y24 = y23 + k13;
    lemma_concat_associative(x, y23, k13);
    let y25 = y24 + cpu;
    lemma_concat_associative(x, y24, cpu);
    let y26 = y25 + k14;
    lemma_concat_associative(x, y25, k14);
    let y27 = y26 + runs;
    lemma_concat_associative(x, y26, runs);
    let y28 = y27 + close;
    lemma_concat_associative(x, y27, close);
    assert(x + y28 == doc);
    assert(Seq::<char>::empty() + k1 =~= k1);
    lemma_jstr_decodes(f.class_hash@, f.class_hash@);
    assert(field_at(doc, Seq::<char>::empty(), k1, v1, k2, y28));
}

proof fn lemma_payload_field_platform(f: PayloadFields)
    ensures
        exists|pre: Seq<char>, t: Seq<char>, post: Seq<char>|
            #[trigger] field_at(payload_spec(f), pre, ",\"source\":\"speedcheck\",\"platform\":"@, t, ",\"arch\":"@, post)
                && json_string_value(t) == Some(f.os@),
{
    let k1 = "{\"class_hash\":"@;
    let v1 = json_quote(f.class_hash@);
    let k2 = ",\"source\":\"speedcheck\",\"platform\":"@;
    let v2 = json_quote(f.os@);
    let k3 = ",\"arch\":"@;
    let v3 = json_quote(f.arch@);
    let k4 = ",\"gpu\":"@;
    let v4 = gpu_json(f.gpu);
    let k5 = ",\"threads\":"@;
    let v5 = decimal(f.threads as nat);
    let k6 = ",\"memory_gb\":"@;
    let mem = f.memory_gb@;
    let k7 = ",\"memory_known\":"@;
    let v7 = bool_json(f.memory_known);
    let k8 = ",\"bandwidth_gbps\":"@;
    let bw = f.bandwidth_gbps@;
    let k9 = ",\"gflops_f32\":"@;
    let gf = f.gflops_f32@;
    let k10 = ",\"k\":"@;
    let kk = f.k@;
    let k11 = ",\"on_ac\":"@;
    let v11 = opt_bool_json(f.on_ac);
    let k12 = ",\"power_mode\":"@;
    let v12 = json_quote(f.power_mode@);
    let k13 = ",\"cpu_load_pct\":"@;
    let cpu = f.cpu_load_pct@;
    let k14 = ",\"runs\":"@;
    let runs = f.runs@;
    let close = "}"@;

    let doc = payload_spec(f);
    assert(doc == k1 + v1 + k2 + v2 + k3 + v3 + k4 + v4 + k5 + v5 + k6 + mem + k7 + v7 + k8 + bw + k9 + gf + k10 + kk + k11 + v11 + k12 + v12 + k13 + cpu + k14 + runs + close);
    let x = k1 + v1 + k2 + v2 + k3;
    let y5 = v3;
    let y6 = y5 + k4;
    lemma_concat_associative(x, y5, k4);
    let y7 = y6 + v4;
    lemma_concat_associative(x, y6, v4);
    let y8 = y7 + k5;
    lemma_concat_associative(x, y7, k5);
    let y9 = y8 + v5;
    lemma_concat_associative(x, y8, v5);
    let y10 = y9 + k6;
    lemma_concat_associative(x, y9, k6);
    let y11 = y10 + mem;
    lemma_concat_associative(x, y10, mem);
    let y12 = y11 + k7;
    lemma_concat_associative(x, y11, k7);
    let y13 = y12 + v7;
    lemma_concat_associative(x, y12, v7);
    let y14 = y13 + k8;
    lemma_concat_associative(x, y13, k8);
    let y15 = y14 + bw;
    lemma_concat_associative(x, y14, bw);
    let y16 = y15 + k9;
    lemma_concat_associative(x, y15, k9);
    let y17 = y16 + gf;
    lemma_concat_associative(x, y16, gf);
    let y18 = y17 + k10;
    lemma_concat_associative(x, y17, k10);
    let y19 = y18 + kk;
    lemma_concat_associative(x, y18, kk);
    let y20 = y19 + k11;
    lemma_concat_associative(x, y19, k11);
    let y21 = y20 + v11;
    lemma_concat_associative(x, y20, v11);
    let y22 = y21 + k12;
    lemma_concat_associative(x, y21, k12);
    let y23 = y22 + v12;
    lemma_concat_associative(x, y22, v12);
    let y24 = y23 + k13;
    lemma_concat_associative(x, y23, k13);
    let y25 = y24 + cpu;
    lemma_concat_associative(x, y24, cpu);
    let y26 = y25 + k14;
    lemma_concat_associative(x, y25, k14);
    let y27 = y26 + runs;
    lemma_concat_associative(x, y26, runs);
    let y28 = y27 + close;
    lemma_concat_associative(x, y27, close);
    assert(x + y28 == doc);
    lemma_jstr_decodes(f.os@, f.os@);
    assert(field_at(doc, k1 + v1, k2, v2, k3, y28));
}

proof fn lemma_payload_field_arch(f: PayloadFields)
    ensures
        exists|pre: Seq<char>, t: Seq<char>, post: Seq<char>|
            #[trigger] field_at(payload_spec(f), pre, ",\"arch\":"@, t, ",\"gpu\":"@, post)
                && json_string_value(t) == Some(f.arch@),
{
    let k1 = "{\"class_hash\":"@;
    let v1 = json_quote(f.class_hash@);
    let k2 = ",\"source\":\"speedcheck\",\"platform\":"@;
    let v2 = json_quote(f.os@);
    let k3 = ",\"arch\":"@;
    let v3 = json_quote(f.arch@);
    let k4 = ",\"gpu\":"@;
    let v4 = gpu_json(f.gpu);
    let k5 = ",\"threads\":"@;
    let v5 = decimal(f.threads as nat);
    let k6 = ",\"memory_gb\":"@;
    let mem = f.memory_gb@;
    let k7 = ",\"memory_known\":"@;
    let v7 = bool_json(f.memory_known);
    let k8 = ",\"bandwidth_gbps\":"@;
    let bw = f.bandwidth_gbps@;
    let k9 = ",\"gflops_f32\":"@;
    let gf = f.gflops_f32@;
    let k10 = ",\"k\":"@;
    let kk = f.k@;
    let k11 = ",\"on_ac\":"@;
    let v11 = opt_bool_json(f.on_ac);
    let k12 = ",\"power_mode\":"@;
    let v12 = json_quote(f.power_mode@);
    let k13 = ",\"cpu_load_pct\":"@;
    let cpu = f.cpu_load_pct@;
    let k14 = ",\"runs\":"@;
    let runs = f.runs@;
    let close = "}"@;

    let doc = payload_spec(f);
    assert(doc == k1 + v1 + k2 + v2 + k3 + v3 + k4 + v4 + k5 + v5 + k6 + mem + k7 + v7 + k8 + bw + k9 + gf + k10 + kk + k11 + v11 + k12 + v12 + k13 + cpu + k14 + runs + close);
    let x = k1 + v1 + k2 + v2 + k3 + v3 + k4;
    let y7 = v4;
    let y8 = y7 + k5;
    lemma_concat_associative(x, y7, k5);
    let y9 = y8 + v5;
    lemma_concat_associative(x, y8, v5);
    let y10 = y9 + k6;
    lemma_concat_associative(x, y9, k6);
    let y11 = y10 + mem;
    lemma_concat_associative(x, y10, mem);
    let y12 = y11 + k7;
    lemma_concat_associative(x, y11, k7);
    let y13 = y12 + v7;
    lemma_concat_associative(x, y12, v7);
    let y14 = y13 + k8;
    lemma_concat_associative(x, y13, k8);
    let y15 = y14 + bw;
    lemma_concat_associative(x, y14, bw);
    let y16 = y15 + k9;
    lemma_concat_associative(x, y15, k9);
    let y17 = y16 + gf;
    lemma_concat_associative(x, y16, gf);
    let y18 = y17 + k10;
    lemma_concat_associative(x, y17, k10);
    let y19 = y18 + kk;
    lemma_concat_associative(x, y18, kk);
    let y20 = y19 + k11;
    lemma_concat_associative(x, y19, k11);
    let y21 = y20 + v11;
    lemma_concat_associative(x, y20, v11);
    let y22 = y21 + k12;
    lemma_concat_associative(x, y21, k12);
    let y23 = y22 + v12;
    lemma_concat_associative(x, y22, v12);
    let y24 = y23 + k13;
    lemma_concat_associative(x, y23, k13);
    let y25 = y24 + cpu;
    lemma_concat_associative(x, y24, cpu);
    let y26 = y25 + k14;
    lemma_concat_associative(x, y25, k14);
    let y27 = y26 + runs;
    lemma_concat_associative(x, y26, runs);
    let y28 = y27 + close;
    lemma_concat_associative(x, y27, close);
    assert(x + y28 == doc);
    lemma_jstr_decodes(f.arch@, f.arch@);
    assert(field_at(doc, k1 + v1 + k2 + v2, k3, v3, k4, y28));
}

proof fn lemma_payload_field_gpu(f: PayloadFields)
    ensures
        exists|pre: Seq<char>, t: Seq<char>, post: Seq<char>|
            #[trigger] field_at(payload_spec(f), pre, ",\"gpu\":"@, t, ",\"threads\":"@, post)
                && gpu_field_value(t) == Some(opt_string_view(f.gpu)),
{
    let k1 = "{\"class_hash\":"@;
    let v1 = json_quote(f.class_hash@);
    let k2 = ",\"source\":\"speedcheck\",\"platform\":"@;
    let v2 = json_quote(f.os@);
    let k3 = ",\"arch\":"@;
    let v3 = json_quote(f.arch@);
    let k4 = ",\"gpu\":"@;
    let v4 = gpu_json(f.gpu);
    let k5 = ",\"threads\":"@;
    let v5 = decimal(f.threads as nat);
    let k6 = ",\"memory_gb\":"@;
    let mem = f.memory_gb@;
    let k7 = ",\"memory_known\":"@;
    let v7 = bool_json(f.memory_known);
    let k8 = ",\"bandwidth_gbps\":"@;
    let bw = f.bandwidth_gbps@;
    let k9 = ",\"gflops_f32\":"@;
    let gf = f.gflops_f32@;
    let k10 = ",\"k\":"@;
    let kk = f.k@;
    let k11 = ",\"on_ac\":"@;
    let v11 = opt_bool_json(f.on_ac);
    let k12 = ",\"power_mode\":"@;
    let v12 = json_quote(f.power_mode@);
    let k13 = ",\"cpu_load_pct\":"@;
    let cpu = f.cpu_load_pct@;
    let k14 = ",\"runs\":"@;
    let runs = f.runs@;
    let close = "}"@;

    let doc = payload_spec(f);
    assert(doc == k1 + v1 + k2 + v2 + k3 + v3 + k4 + v4 + k5 + v5 + k6 + mem + k7 + v7 + k8 + bw + k9 + gf + k10 + kk + k11 + v11 + k12 + v12 + k13 + cpu + k14 + runs + close);
    let x = k1 + v1 + k2 + v2 + k3 + v3 + k4 + v4 + k5;
    let y9 = v5;
    let y10 = y9 + k6;
    lemma_concat_associative(x, y9, k6);
    let y11 = y10 + mem;
    lemma_concat_associative(x, y10, mem);
    let y12 = y11 + k7;
    lemma_concat_associative(x, y11, k7);
    let y13 = y12 + v7;
    lemma_concat_associative(x, y12, v7);
    let y14 = y13 + k8;
    lemma_concat_associative(x, y13, k8);
    let y15 = y14 + bw;
    lemma_concat_associative(x, y14, bw);
    let y16 = y15 + k9;
    lemma_concat_associative(x, y15, k9);
    let y17 = y16 + gf;
    lemma_concat_associative(x, y16, gf);
    let y18 = y17 + k10;
    lemma_concat_associative(x, y17, k10);
    let y19 = y18 + kk;
    lemma_concat_associative(x, y18, kk);
    let y20 = y19 + k11;
    lemma_concat_associative(x, y19, k11);
    let y21 = y20 + v11;
    lemma_concat_associative(x, y20, v11);
    let y22 = y21 + k12;
    lemma_concat_associative(x, y21, k12);
    let y23 = y22 + v12;
    lemma_concat_associative(x, y22, v12);
    let y24 = y23 + k13;
    lemma_concat_associative(x, y23, k13);
    let y25 = y24 + cpu;
    lemma_concat_associative(x, y24, cpu);
    let y26 = y25 + k14;
    lemma_concat_associative(x, y25, k14);
    let y27 = y26 + runs;
    lemma_concat_associative(x, y26, runs);
    let y28 = y27 + close;
    lemma_concat_associative(x, y27, close);
    assert(x + y28 == doc);
    reveal_strlit("null");
    reveal_strlit("{\"description\":");
    reveal_strlit("}");
    match f.gpu {
        Some(d) => {
            let kd = "{\"description\":"@;
            assert(v4 == kd + json_quote(d@) + "}"@);
            assert(v4.subrange(0, kd.len() as int) =~= kd);
            assert(v4.subrange(kd.len() as int, v4.len() - 1) =~= json_quote(d@));
            assert(v4[0] == '{' && "null"@[0] == 'n');
            lemma_jstr_decodes(d@, d@);
        },
        None => {},
    }
    assert(field_at(doc, k1 + v1 + k2 + v2 + k3 + v3, k4, v4, k5, y28));
}

proof fn lemma_payload_field_threads(f: PayloadFields)
    ensures
        exists|pre: Seq<char>, t: Seq<char>, post: Seq<char>|
            #[trigger] field_at(payload_spec(f), pre, ",\"threads\":"@, t, ",\"memory_gb\":"@, post)
                && parse_u64_spec(t) == Some(f.threads as u64),
{
    let k1 = "{\"class_hash\":"@;
    let v1 = json_quote(f.class_hash@);
    let k2 = ",\"source\":\"speedcheck\",\"platform\":"@;
    let v2 = json_quote(f.os@);
    let k3 = ",\"arch\":"@;
    let v3 = json_quote(f.arch@);
    let k4 = ",\"gpu\":"@;
    let v4 = gpu_json(f.gpu);
    let k5 = ",\"threads\":"@;
    let v5 = decimal(f.threads as nat);
    let k6 = ",\"memory_gb\":"@;
    let mem = f.memory_gb@;
    let k7 = ",\"memory_known\":"@;
    let v7 = bool_json(f.memory_known);
    let k8 = ",\"bandwidth_gbps\":"@;
    let bw = f.bandwidth_gbps@;
    let k9 = ",\"gflops_f32\":"@;
    let gf = f.gflops_f32@;
    let k10 = ",\"k\":"@;
    let kk = f.k@;
    let k11 = ",\"on_ac\":"@;
    let v11 = opt_bool_json(f.on_ac);
    let k12 = ",\"power_mode\":"@;
    let v12 = json_quote(f.power_mode@);
    let k13 = ",\"cpu_load_pct\":"@;
    let cpu = f.cpu_load_pct@;
    let k14 = ",\"runs\":"@;
    let runs = f.runs@;
    let close = "}"@;

    let doc = payload_spec(f);
    assert(doc == k1 + v1 + k2 + v2 + k3 + v3 + k4 + v4 + k5 + v5 + k6 + mem + k7 + v7 + k8 + bw + k9 + gf + k10 + kk + k11 + v11 + k12 + v12 + k13 + cpu + k14 + runs + close);
    let x = k1 + v1 + k2 + v2 + k3 + v3 + k4 + v4 + k5 + v5 + k6;
    let y11 = mem;
    let y12 = y11 + k7;
    lemma_concat_associative(x, y11, k7);
    let y13 = y12 + v7;
    lemma_concat_associative(x, y12, v7);
    let y14 = y13 + k8;
    lemma_concat_associative(x, y13, k8);
    let y15 = y14 + bw;
    lemma_concat_associative(x, y14, bw);
    let y16 = y15 + k9;
    lemma_concat_associative(x, y15, k9);
    let y17 = y16 + gf;
    lemma_concat_associative(x, y16, gf);
    let y18 = y17 + k10;
    lemma_concat_associative(x, y17, k10);
    let y19 = y18 + kk;
    lemma_concat_associative(x, y18, kk);
    let y20 = y19 + k11;
    lemma_concat_associative(x, y19, k11);
    let y21 = y20 + v11;
    lemma_concat_associative(x, y20, v11);
    let y22 = y21 + k12;
    lemma_concat_associative(x, y21, k12);
    let y23 = y22 + v12;
    lemma_concat_associative(x, y22, v12);
    let y24 = y23 + k13;
    lemma_concat_associative(x, y23, k13);
    let y25 = y24 + cpu;
    lemma_concat_associative(x, y24, cpu);
    let y26 = y25 + k14;
    lemma_concat_associative(x, y25, k14);
    let y27 = y26 + runs;
    lemma_concat_associative(x, y26, runs);
    let y28 = y27 + close;
    lemma_concat_associative(x, y27, close);
    assert(x + y28 == doc);
    lemma_decimal_round_trip(f.threads as u64);
    assert(f.threads as u64 as nat == f.threads as nat);
    assert(field_at(doc, k1 + v1 + k2 + v2 + k3 + v3 + k4 + v4, k5, v5, k6, y28));
}

proof fn lemma_payload_field_memory_gb(f: PayloadFields)
    ensures
        exists|pre: Seq<char>, t: Seq<char>, post: Seq<char>|
            #[trigger] field_at(payload_spec(f), pre, ",\"memory_gb\":"@, t, ",\"memory_known\":"@, post)
                && t == f.memory_gb@,
{
    let k1 = "{\"class_hash\":"@;
    let v1 = json_quote(f.class_hash@);
    let k2 = ",\"source\":\"speedcheck\",\"platform\":"@;
    let v2 = json_quote(f.os@);
    let k3 = ",\"arch\":"@;
    let v3 = json_quote(f.arch@);
    let k4 = ",\"gpu\":"@;
    let v4 = gpu_json(f.gpu);
    let k5 = ",\"threads\":"@;
    let v5 = decimal(f.threads as nat);
    let k6 = ",\"memory_gb\":"@;
    let mem = f.memory_gb@;
    let k7 = ",\"memory_known\":"@;
    let v7 = bool_json(f.memory_known);
    let k8 = ",\"bandwidth_gbps\":"@;
    let bw = f.bandwidth_gbps@;
    let k9 = ",\"gflops_f32\":"@;
    let gf = f.gflops_f32@;
    let k10 = ",\"k\":"@;
    let kk = f.k@;
    let k11 = ",\"on_ac\":"@;
    let v11 = opt_bool_json(f.on_ac);
    let k12 = ",\"power_mode\":"@;
    let v12 = json_quote(f.power_mode@);
    let k13 = ",\"cpu_load_pct\":"@;
    let cpu = f.cpu_load_pct@;
    let k14 = ",\"runs\":"@;
    let runs = f.runs@;
    let close = "}"@;

    let doc = payload_spec(f);
    assert(doc == k1 + v1 + k2 + v2 + k3 + v3 + k4 + v4 + k5 + v5 + k6 + mem + k7 + v7 + k8 + bw + k9 + gf + k10 + kk + k11 + v11 + k12 + v12 + k13 + cpu + k14 + runs + close);
    let x = k1 + v1 + k2 + v2 + k3 + v3 + k4 + v4 + k5 + v5 + k6 + mem + k7;
    let y13 = v7;
    let y14 = y13 + k8;
    lemma_concat_associative(x, y13, k8);
    let y15 = y14 + bw;
    lemma_concat_associative(x, y14, bw);
    let y16 = y15 + k9;
    lemma_concat_associative(x, y15, k9);
    let y17 = y16 + gf;
    lemma_concat_associative(x, y16, gf);
    let y18 = y17 + k10;
    lemma_concat_associative(x, y17, k10);
    let y19 = y18 + kk;
    lemma_concat_associative(x, y18, kk);
    let y20 = y19 + k11;
    lemma_concat_associative(x, y19, k11);
    let y21 = y20 + v11;
    lemma_concat_associative(x, y20, v11);
    let y22 = y21 + k12;
    lemma_concat_associative(x, y21, k12);
    let y23 = y22 + v12;
    lemma_concat_associative(x, y22, v12);
    let y24 = y23 + k13;
    lemma_concat_associative(x, y23, k13);
    let y25 = y24 + cpu;
    lemma_concat_associative(x, y24, cpu);
    let y26 = y25 + k14;
    lemma_concat_associative(x, y25, k14);
    let y27 = y26 + runs;
    lemma_concat_associative(x, y26, runs);
    let y28 = y27 + close;
    lemma_concat_associative(x, y27, close);
    assert(x + y28 == doc);
    assert(field_at(doc, k1 + v1 + k2 + v2 + k3 + v3 + k4 + v4 + k5 + v5, k6, mem, k7, y28));
}

proof fn lemma_payload_field_memory_known(f: PayloadFields)
    ensures
        exists|pre: Seq<char>, t: Seq<char>, post: Seq<char>|
            #[trigger] field_at(payload_spec(f), pre, ",\"memory_known\":"@, t, ",\"bandwidth_gbps\":"@, post)
                && json_bool_value(t) == Some(f.memory_known),
{
    let k1 = "{\"class_hash\":"@;
    let v1 = json_quote(f.class_hash@);
    let k2 = ",\"source\":\"speedcheck\",\"platform\":"@;
    let v2 = json_quote(f.os@);
    let k3 = ",\"arch\":"@;
    let v3 = json_quote(f.arch@);
    let k4 = ",\"gpu\":"@;
    let v4 = gpu_json(f.gpu);
    let k5 = ",\"threads\":"@;
    let v5 = decimal(f.threads as nat);
    let k6 = ",\"memory_gb\":"@;
    let mem = f.memory_gb@;
    let k7 = ",\"memory_known\":"@;
    let v7 = bool_json(f.memory_known);
    let k8 = ",\"bandwidth_gbps\":"@;
    let bw = f.bandwidth_gbps@;
    let k9 = ",\"gflops_f32\":"@;
    let gf = f.gflops_f32@;
    let k10 = ",\"k\":"@;
    let kk = f.k@;
    let k11 = ",\"on_ac\":"@;
    let v11 = opt_bool_json(f.on_ac);
    let k12 = ",\"power_mode\":"@;
    let v12 = json_quote(f.power_mode@);
    let k13 = ",\"cpu_load_pct\":"@;
    let cpu = f.cpu_load_pct@;
    let k14 = ",\"runs\":"@;
    let runs = f.runs@;
    let close = "}"@;

    let doc = payload_spec(f);
    assert(doc == k1 + v1 + k2 + v2 + k3 + v3 + k4 + v4 + k5 + v5 + k6 + mem + k7 + v7 + k8 + bw + k9 + gf + k10 + kk + k11 + v11 + k12 + v12 + k13 + cpu + k14 + runs + close);
    let x = k1 + v1 + k2 + v2 + k3 + v3 + k4 + v4 + k5 + v5 + k6 + mem + k7 + v7 + k8;
    let y15 = bw;
    let y16 = y15 + k9;
    lemma_concat_associative(x, y15, k9);
    let y17 = y16 + gf;
    lemma_concat_associative(x, y16, gf);
    let y18 = y17 + k10;
    lemma_concat_associative(x, y17, k10);
    let y19 = y18 + kk;
    lemma_concat_associative(x, y18, kk);
    let y20 = y19 + k11;
    lemma_concat_associative(x, y19, k11);
    let y21 = y20 + v11;
    lemma_concat_associative(x, y20, v11);
    let y22 = y21 + k12;
    lemma_concat_associative(x, y21, k12);
    let y23 = y22 + v12;
    lemma_concat_associative(x, y22, v12);
    let y24 = y23 + k13;
    lemma_concat_associative(x, y23, k13);
    let y25 = y24 + cpu;
    lemma_concat_associative(x, y24, cpu);
    let y26 = y25 + k14;
    lemma_concat_associative(x, y25, k14);
    let y27 = y26 + runs;
    lemma_concat_associative(x, y26, runs);
    let y28 = y27 + close;
    lemma_concat_associative(x, y27, close);
    assert(x + y28 == doc);
    reveal_strlit("true");
    reveal_strlit("false");
    assert(field_at(doc, k1 + v1 + k2 + v2 + k3 + v3 + k4 + v4 + k5 + v5 + k6 + mem, k7, v7, k8, y28));
}

proof fn lemma_payload_field_bandwidth(f: PayloadFields)
    ensures
        exists|pre: Seq<char>, t: Seq<char>, post: Seq<char>|
            #[trigger] field_at(payload_spec(f), pre, ",\"bandwidth_gbps\":"@, t, ",\"gflops_f32\":"@, post)
                && t == f.bandwidth_gbps@,
{
    let k1 = "{\"class_hash\":"@;
    let v1 = json_quote(f.class_hash@);
    let k2 = ",\"source\":\"speedcheck\",\"platform\":"@;
    let v2 = json_quote(f.os@);
    let k3 = ",\"arch\":"@;
    let v3 = json_quote(f.arch@);
    let k4 = ",\"gpu\":"@;
    let v4 = gpu_json(f.gpu);
    let k5 = ",\"threads\":"@;
    let v5 = decimal(f.threads as nat);
    let k6 = ",\"memory_gb\":"@;
    let mem = f.memory_gb@;
    let k7 = ",\"memory_known\":"@;
    let v7 = bool_json(f.memory_known);
    let k8 = ",\"bandwidth_gbps\":"@;
    let bw = f.bandwidth_gbps@;
    let k9 = ",\"gflops_f32\":"@;
    let gf = f.gflops_f32@;
    let k10 = ",\"k\":"@;
    let kk = f.k@;
    let k11 = ",\"on_ac\":"@;
    let v11 = opt_bool_json(f.on_ac);
    let k12 = ",\"power_mode\":"@;
    let v12 = json_quote(f.power_mode@);
    let k13 = ",\"cpu_load_pct\":"@;
    let cpu = f.cpu_load_pct@;
    let k14 = ",\"runs\":"@;
    let runs = f.runs@;
    let close = "}"@;

    let doc = payload_spec(f);
    assert(doc == k1 + v1 + k2 + v2 + k3 + v3 + k4 + v4 + k5 + v5 + k6 + mem + k7 + v7 + k8 + bw + k9 + gf + k10 + kk + k11 + v11 + k12 + v12 + k13 + cpu + k14 + runs + close);
    let x = k1 + v1 + k2 + v2 + k3 + v3 + k4 + v4 + k5 + v5 + k6 + mem + k7 + v7 + k8 + bw + k9;
    let y17 = gf;
    let y18 = y17 + k10;
    lemma_concat_associative(x, y17, k10);
    let y19 = y18 + kk;
    lemma_concat_associative(x, y18, kk);
    let y20 = y19 + k11;
    lemma_concat_associative(x, y19, k11);
    let y21 = y20 + v11;
    lemma_concat_associative(x, y20, v11);
    let y22 = y21 + k12;
    lemma_concat_associative(x, y21, k12);
    let y23 = y22 + v12;
    lemma_concat_associative(x, y22, v12);
    let y24 = y23 + k13;
    lemma_concat_associative(x, y23, k13);
    let y25 = y24 + cpu;
    lemma_concat_associative(x, y24, cpu);
    let y26 = y25 + k14;
    lemma_concat_associative(x, y25, k14);
    let y27 = y26 + runs;
    lemma_concat_associative(x, y26, runs);
    let y28 = y27 + close;
    lemma_concat_associative(x, y27, close);
    assert(x + y28 == doc);
    assert(field_at(doc, k1 + v1 + k2 + v2 + k3 + v3 + k4 + v4 + k5 + v5 + k6 + mem + k7 + v7, k8, bw, k9, y28));
}

proof fn lemma_payload_field_gflops(f: PayloadFields)
    ensures
        exists|pre: Seq<char>, t: Seq<char>, post: Seq<char>|
            #[trigger] field_at(payload_spec(f), pre, ",\"gflops_f32\":"@, t, ",\"k\":"@, post)
                && t == f.gflops_f32@,
{
    let k1 = "{\"class_hash\":"@;
    let v1 = json_quote(f.class_hash@);
    let k2 = ",\"source\":\"speedcheck\",\"platform\":"@;
    let v2 = json_quote(f.os@);
    let k3 = ",\"arch\":"@;
    let v3 = json_quote(f.arch@);
    let k4 = ",\"gpu\":"@;
    let v4 = gpu_json(f.gpu);
    let k5 = ",\"threads\":"@;
    let v5 = decimal(f.threads as nat);
    let k6 = ",\"memory_gb\":"@;
    let mem = f.memory_gb@;
    let k7 = ",\"memory_known\":"@;
    let v7 = bool_json(f.memory_known);
    let k8 = ",\"bandwidth_gbps\":"@;
    let bw = f.bandwidth_gbps@;
    let k9 = ",\"gflops_f32\":"@;
    let gf = f.gflops_f32@;
    let k10 = ",\"k\":"@;
    let kk = f.k@;
    let k11 = ",\"on_ac\":"@;
    let v11 = opt_bool_json(f.on_ac);
    let k12 = ",\"power_mode\":"@;
    let v12 = json_quote(f.power_mode@);
    let k13 = ",\"cpu_load_pct\":"@;
    let cpu = f.cpu_load_pct@;
    let k14 = ",\"runs\":"@;
    let runs = f.runs@;
    let close = "}"@;

    let doc = payload_spec(f);
    assert(doc == k1 + v1 + k2 + v2 + k3 + v3 + k4 + v4 + k5 + v5 + k6 + mem + k7 + v7 + k8 + bw + k9 + gf + k10 + kk + k11 + v11 + k12 + v12 + k13 + cpu + k14 + runs + close);
    let x = k1 + v1 + k2 + v2 + k3 + v3 + k4 + v4 + k5 + v5 + k6 + mem + k7 + v7 + k8 + bw + k9 + gf + k10;
    let y19 = kk;
    let y20 = y19 + k11;
    lemma_concat_associative(x, y19, k11);
    let y21 = y20 + v11;
    lemma_concat_associative(x, y20, v11);
    let y22 = y21 + k12;
    lemma_concat_associative(x, y21, k12);
    let y23 = y22 + v12;
    lemma_concat_associative(x, y22, v12);
    let y24 = y23 + k13;
    lemma_concat_associative(x, y23, k13);
    let y25 = y24 + cpu;
    lemma_concat_associative(x, y24, cpu);
    let y26 = y25 + k14;
    lemma_concat_associative(x, y25, k14);
    let y27 = y26 + runs;
    lemma_concat_associative(x, y26, runs);
    let y28 = y27 + close;
    lemma_concat_associative(x, y27, close);
    assert(x + y28 == doc);
    assert(field_at(doc, k1 + v1 + k2 + v2 + k3 + v3 + k4 + v4 + k5 + v5 + k6 + mem + k7 + v7 + k8 + bw, k9, gf, k10, y28));
}

proof fn lemma_payload_field_k(f: PayloadFields)
    ensures
        exists|pre: Seq<char>, t: Seq<char>, post: Seq<char>|
            #[trigger] field_at(payload_spec(f), pre, ",\"k\":"@, t, ",\"on_ac\":"@, post)
                && t == f.k@,
{
    let k1 = "{\"class_hash\":"@;
    let v1 = json_quote(f.class_hash@);
    let k2 = ",\"source\":\"speedcheck\",\"platform\":"@;
    let v2 = json_quote(f.os@);
    let k3 = ",\"arch\":"@;
    let v3 = json_quote(f.arch@);
    let k4 = ",\"gpu\":"@;
    let v4 = gpu_json(f.gpu);
    let k5 = ",\"threads\":"@;
    let v5 = decimal(f.threads as nat);
    let k6 = ",\"memory_gb\":"@;
    let mem = f.memory_gb@;
    let k7 = ",\"memory_known\":"@;
    let v7 = bool_json(f.memory_known);
    let k8 = ",\"bandwidth_gbps\":"@;
    let bw = f.bandwidth_gbps@;
    let k9 = ",\"gflops_f32\":"@;
    let gf = f.gflops_f32@;
    let k10 = ",\"k\":"@;
    let kk = f.k@;
    let k11 = ",\"on_ac\":"@;
    let v11 = opt_bool_json(f.on_ac);
    let k12 = ",\"power_mode\":"@;
    let v12 = json_quote(f.power_mode@);
    let k13 = ",\"cpu_load_pct\":"@;
    let cpu = f.cpu_load_pct@;
    let k14 = ",\"runs\":"@;
    let runs = f.runs@;
    let close = "}"@;

    let doc = payload_spec(f);
    assert(doc == k1 + v1 + k2 + v2 + k3 + v3 + k4 + v4 + k5 + v5 + k6 + mem + k7 + v7 + k8 + bw + k9 + gf + k10 + kk + k11 + v11 + k12 + v12 + k13 + cpu + k14 + runs + close);
    let x = k1 + v1 + k2 + v2 + k3 + v3 + k4 + v4 + k5 + v5 + k6 + mem + k7 + v7 + k8 + bw + k9 + gf + k10 + kk + k11;
    let y21 = v11;
    let y22 = y21 + k12;
    lemma_concat_associative(x, y21, k12);
    let y23 = y22 + v12;
    lemma_concat_associative(x, y22, v12);
    let y24 = y23 + k13;
    lemma_concat_associative(x, y23, k13);
    let y25 = y24 + cpu;
    lemma_concat_associative(x, y24, cpu);
    let y26 = y25 + k14;
    lemma_concat_associative(x, y25, k14);
    let y27 = y26 + runs;
    lemma_concat_associative(x, y26, runs);
    let y28 = y27 + close;
    lemma_concat_associative(x, y27, close);
    assert(x + y28 == doc);
    assert(field_at(doc, k1 + v1 + k2 + v2 + k3 + v3 + k4 + v4 + k5 + v5 + k6 + mem + k7 + v7 + k8 + bw + k9 + gf, k10, kk, k11, y28));
}

proof fn lemma_payload_field_on_ac(f: PayloadFields)
    ensures
        exists|pre: Seq<char>, t: Seq<char>, post: Seq<char>|
            #[trigger] field_at(payload_spec(f), pre, ",\"on_ac\":"@, t, ",\"power_mode\":"@, post)
                && json_opt_bool_value(t) == Some(f.on_ac),
{
    let k1 = "{\"class_hash\":"@;
    let v1 = json_quote(f.class_hash@);
    let k2 = ",\"source\":\"speedcheck\",\"platform\":"@;
    let v2 = json_quote(f.os@);
    let k3 = ",\"arch\":"@;
    let v3 = json_quote(f.arch@);
    let k4 = ",\"gpu\":"@;
    let v4 = gpu_json(f.gpu);
    let k5 = ",\"threads\":"@;
    let v5 = decimal(f.threads as nat);
    let k6 = ",\"memory_gb\":"@;
    let mem = f.memory_gb@;
    let k7 = ",\"memory_known\":"@;
    let v7 = bool_json(f.memory_known);
    let k8 = ",\"bandwidth_gbps\":"@;
    let bw = f.bandwidth_gbps@;
    let k9 = ",\"gflops_f32\":"@;
    let gf = f.gflops_f32@;
    let k10 = ",\"k\":"@;
    let kk = f.k@;
    let k11 = ",\"on_ac\":"@;
    let v11 = opt_bool_json(f.on_ac);
    let k12 = ",\"power_mode\":"@;
    let v12 = json_quote(f.power_mode@);
    let k13 = ",\"cpu_load_pct\":"@;
    let cpu = f.cpu_load_pct@;
    let k14 = ",\"runs\":"@;
    let runs = f.runs@;
    let close = "}"@;

    let doc = payload_spec(f);
    assert(doc == k1 + v1 + k2 + v2 + k3 + v3 + k4 + v4 + k5 + v5 + k6 + mem + k7 + v7 + k8 + bw + k9 + gf + k10 + kk + k11 + v11 + k12 + v12 + k13 + cpu + k14 + runs + close);
    let x = k1 + v1 + k2 + v2 + k3 + v3 + k4 + v4 + k5 + v5 + k6 + mem + k7 + v7 + k8 + bw + k9 + gf + k10 + kk + k11 + v11 + k12;
    let y23 = v12;
    let y24 = y23 + k13;
    lemma_concat_associative(x, y23, k13);
    let y25 = y24 + cpu;
    lemma_concat_associative(x, y24, cpu);
    let y26 = y25 + k14;
    lemma_concat_associative(x, y25, k14);
    let y27 = y26 + runs;
    lemma_concat_associative(x, y26, runs);
    let y28 = y27 + close;
    lemma_concat_associative(x, y27, close);
    assert(x + y28 == doc);
    reveal_strlit("true");
    reveal_strlit("false");
    reveal_strlit("null");
    assert("true"@[0] == 't' && "null"@[0] == 'n' && "false"@[0] == 'f');
    assert("true"@ != "null"@ && "false"@ != "null"@ && "true"@ != "false"@);
    assert(json_opt_bool_value(v11) == Some(f.on_ac)) by {
        match f.on_ac {
            Some(true) => assert(v11 == "true"@),
            Some(false) => assert(v11 == "false"@),
            None => assert(v11 == "null"@),
        }
    }
    assert(field_at(doc, k1 + v1 + k2 + v2 + k3 + v3 + k4 + v4 + k5 + v5 + k6 + mem + k7 + v7 + k8 + bw + k9 + gf + k10 + kk, k11, v11, k12, y28));
}

proof fn lemma_payload_field_power_mode(f: PayloadFields)
    ensures
        exists|pre: Seq<char>, t: Seq<char>, post: Seq<char>|
            #[trigger] field_at(payload_spec(f), pre, ",\"power_mode\":"@, t, ",\"cpu_load_pct\":"@, post)
                && json_string_value(t) == Some(f.power_mode@),
{
    let k1 = "{\"class_hash\":"@;
    let v1 = json_quote(f.class_hash@);
    let k2 = ",\"source\":\"speedcheck\",\"platform\":"@;
    let v2 = json_quote(f.os@);
    let k3 = ",\"arch\":"@;
    let v3 = json_quote(f.arch@);
    let k4 = ",\"gpu\":"@;
    let v4 = gpu_json(f.gpu);
    let k5 = ",\"threads\":"@;
    let v5 = decimal(f.threads as nat);
    let k6 = ",\"memory_gb\":"@;
    let mem = f.memory_gb@;
    let k7 = ",\"memory_known\":"@;
    let v7 = bool_json(f.memory_known);
    let k8 = ",\"bandwidth_gbps\":"@;
    let bw = f.bandwidth_gbps@;
    let k9 = ",\"gflops_f32\":"@;
    let gf = f.gflops_f32@;
    let k10 = ",\"k\":"@;
    let kk = f.k@;
    let k11 = ",\"on_ac\":"@;
    let v11 = opt_bool_json(f.on_ac);
    let k12 = ",\"power_mode\":"@;
    let v12 = json_quote(f.power_mode@);
    let k13 = ",\"cpu_load_pct\":"@;
    let cpu = f.cpu_load_pct@;
    let k14 = ",\"runs\":"@;
    let runs = f.runs@;
    let close = "}"@;

    let doc = payload_spec(f);
    assert(doc == k1 + v1 + k2 + v2 + k3 + v3 + k4 + v4 + k5 + v5 + k6 + mem + k7 + v7 + k8 + bw + k9 + gf + k10 + kk + k11 + v11 + k12 + v12 + k13 + cpu + k14 + runs + close);
    let x = k1 + v1 + k2 + v2 + k3 + v3 + k4 + v4 + k5 + v5 + k6 + mem + k7 + v7 + k8 + bw + k9 + gf + k10 + kk + k11 + v11 + k12 + v12 + k13;
    let y25 = cpu;
    let y26 = y25 + k14;
    lemma_concat_associative(x, y25, k14);
    let y27 = y26 + runs;
    lemma_concat_associative(x, y26, runs);
    let y28 = y27 + close;
    lemma_concat_associative(x, y27, close);
    assert(x + y28 == doc);
    lemma_jstr_decodes(f.power_mode@, f.power_mode@);
    assert(field_at(doc, k1 + v1 + k2 + v2 + k3 + v3 + k4 + v4 + k5 + v5 + k6 + mem + k7 + v7 + k8 + bw + k9 + gf + k10 + kk + k11 + v11, k12, v12, k13, y28));
}

proof fn lemma_payload_field_cpu_load(f: PayloadFields)
    ensures
        exists|pre: Seq<char>, t: Seq<char>, post: Seq<char>|
            #[trigger] field_at(payload_spec(f), pre, ",\"cpu_load_pct\":"@, t, ",\"runs\":"@, post)
                && t == f.cpu_load_pct@,
{
    let k1 = "{\"class_hash\":"@;
    let v1 = json_quote(f.class_hash@);
    let k2 = ",\"source\":\"speedcheck\",\"platform\":"@;
    let v2 = json_quote(f.os@);
    let k3 = ",\"arch\":"@;
    let v3 = json_quote(f.arch@);
    let k4 = ",\"gpu\":"@;
    let v4 = gpu_json(f.gpu);
    let k5 = ",\"threads\":"@;
    let v5 = decimal(f.threads as nat);
    let k6 = ",\"memory_gb\":"@;
    let mem = f.memory_gb@;
    let k7 = ",\"memory_known\":"@;
    let v7 = bool_json(f.memory_known);
    let k8 = ",\"bandwidth_gbps\":"@;
    let bw = f.bandwidth_gbps@;
    let k9 = ",\"gflops_f32\":"@;
    let gf = f.gflops_f32@;
    let k10 = ",\"k\":"@;
    let kk = f.k@;
    let k11 = ",\"on_ac\":"@;
    let v11 = opt_bool_json(f.on_ac);
    let k12 = ",\"power_mode\":"@;
    let v12 = json_quote(f.power_mode@);
    let k13 = ",\"cpu_load_pct\":"@;
    let cpu = f.cpu_load_pct@;
    let k14 = ",\"runs\":"@;
    let runs = f.runs@;
    let close = "}"@;

    let doc = payload_spec(f);
    assert(doc == k1 + v1 + k2 + v2 + k3 + v3 + k4 + v4 + k5 + v5 + k6 + mem + k7 + v7 + k8 + bw + k9 + gf + k10 + kk + k11 + v11 + k12 + v12 + k13 + cpu + k14 + runs + close);
    let x = k1 + v1 + k2 + v2 + k3 + v3 + k4 + v4 + k5 + v5 + k6 + mem + k7 + v7 + k8 + bw + k9 + gf + k10 + kk + k11 + v11 + k12 + v12 + k13 + cpu + k14;
    let y27 = runs;
    let y28 = y27 + close;
    lemma_concat_associative(x, y27, close);
    assert(x + y28 == doc);
    assert(field_at(doc, k1 + v1 + k2 + v2 + k3 + v3 + k4 + v4 + k5 + v5 + k6 + mem + k7 + v7 + k8 + bw + k9 + gf + k10 + kk + k11 + v11 + k12 + v12, k13, cpu, k14, y28));
}

proof fn lemma_payload_field_runs(f: PayloadFields)
    ensures
        exists|pre: Seq<char>, t: Seq<char>, post: Seq<char>|
            #[trigger] field_at(payload_spec(f), pre, ",\"runs\":"@, t, "}"@, post)
                && t == f.runs@,
{
    let k1 = "{\"class_hash\":"@;
    let v1 = json_quote(f.class_hash@);
    let k2 = ",\"source\":\"speedcheck\",\"platform\":"@;
    let v2 = json_quote(f.os@);
    let k3 = ",\"arch\":"@;
    let v3 = json_quote(f.arch@);
    let k4 = ",\"gpu\":"@;
    let v4 = gpu_json(f.gpu);
    let k5 = ",\"threads\":"@;
    let v5 = decimal(f.threads as nat);
    let k6 = ",\"memory_gb\":"@;
    let mem = f.memory_gb@;
    let k7 = ",\"memory_known\":"@;
    let v7 = bool_json(f.memory_known);
    let k8 = ",\"bandwidth_gbps\":"@;
    let bw = f.bandwidth_gbps@;
    let k9 = ",\"gflops_f32\":"@;
    let gf = f.gflops_f32@;
    let k10 = ",\"k\":"@;
    let kk = f.k@;
    let k11 = ",\"on_ac\":"@;
    let v11 = opt_bool_json(f.on_ac);
    let k12 = ",\"power_mode\":"@;
    let v12 = json_quote(f.power_mode@);
    let k13 = ",\"cpu_load_pct\":"@;
    let cpu = f.cpu_load_pct@;
    let k14 = ",\"runs\":"@;
    let runs = f.runs@;
    let close = "}"@;

    let doc = payload_spec(f);
    assert(doc == k1 + v1 + k2 + v2 + k3 + v3 + k4 + v4 + k5 + v5 + k6 + mem + k7 + v7 + k8 + bw + k9 + gf + k10 + kk + k11 + v11 + k12 + v12 + k13 + cpu + k14 + runs + close);
    let x = k1 + v1 + k2 + v2 + k3 + v3 + k4 + v4 + k5 + v5 + k6 + mem + k7 + v7 + k8 + bw + k9 + gf + k10 + kk + k11 + v11 + k12 + v12 + k13 + cpu + k14 + runs + close;
    assert(x + Seq::<char>::empty() =~= x);
    assert(field_at(doc, k1 + v1 + k2 + v2 + k3 + v3 + k4 + v4 + k5 + v5 + k6 + mem + k7 + v7 + k8 + bw + k9 + gf + k10 + kk + k11 + v11 + k12 + v12 + k13 + cpu, k14, runs, close, Seq::<char>::empty()));
}

} // verus!
