//! Facts about the machine that the probe reports, computed from what the operating
//! system hands back: target triple, ISA feature names, power mode and power source.

use vstd::prelude::*;
use vstd::string::StringExecFns;

use crate::text::{
    ascii_lower, chars_eq_str, last_token, last_token_of, to_ascii_lowercase, to_chars, trim,
    trim_str,
};

verus! {

/// CPU architecture the probe was built for.
#[derive(Clone, Copy, PartialEq, Eq, Structural, Debug)]
pub enum Arch {
    X86_64,
    Aarch64,
    Other,
}

/// Operating system the probe was built for.
#[derive(Clone, Copy, PartialEq, Eq, Structural, Debug)]
pub enum Os {
    Windows,
    MacOs,
    Linux,
    Other,
}

/// The Rust target triple under which prebuilt engines are looked up.
pub open spec fn target_triple_spec(arch: Arch, os: Os, msvc: bool) -> Seq<char> {
    match (arch, os) {
        (Arch::X86_64, Os::Windows) => if msvc {
            "x86_64-pc-windows-msvc"@
        } else {
            "unknown"@
        },
        (Arch::Aarch64, Os::Windows) => if msvc {
            "aarch64-pc-windows-msvc"@
        } else {
            "unknown"@
        },
        (Arch::X86_64, Os::MacOs) => "x86_64-apple-darwin"@,
        (Arch::Aarch64, Os::MacOs) => "aarch64-apple-darwin"@,
        (Arch::X86_64, Os::Linux) => "x86_64-unknown-linux-gnu"@,
        (Arch::Aarch64, Os::Linux) => "aarch64-unknown-linux-gnu"@,
        _ => "unknown"@,
    }
}

/// The target triple for an architecture, an operating system and whether the
/// toolchain environment is MSVC; `"unknown"` for any other combination.
pub fn target_triple(arch: Arch, os: Os, msvc: bool) -> (t: &'static str)
    ensures
        t@ == target_triple_spec(arch, os, msvc),
{
    match (arch, os) {
        (Arch::X86_64, Os::Windows) => if msvc {
            "x86_64-pc-windows-msvc"
        } else {
            "unknown"
        },
        (Arch::Aarch64, Os::Windows) => if msvc {
            "aarch64-pc-windows-msvc"
        } else {
            "unknown"
        },
        (Arch::X86_64, Os::MacOs) => "x86_64-apple-darwin",
        (Arch::Aarch64, Os::MacOs) => "aarch64-apple-darwin",
        (Arch::X86_64, Os::Linux) => "x86_64-unknown-linux-gnu",
        (Arch::Aarch64, Os::Linux) => "aarch64-unknown-linux-gnu",
        _ => "unknown",
    }
}

/// Which ARM64 instruction-set extensions the CPU reports.
#[derive(Clone, Copy, Debug)]
pub struct Aarch64Features {
    pub neon: bool,
    pub dotprod: bool,
    pub i8mm: bool,
    pub fp16: bool,
    pub bf16: bool,
    pub sve: bool,
    pub sve2: bool,
}

/// Which x86 instruction-set extensions the CPU reports.
#[derive(Clone, Copy, Debug)]
pub struct X86Features {
    pub avx2: bool,
    pub fma: bool,
    pub f16c: bool,
    pub avx512f: bool,
    pub avx512vnni: bool,
    pub avxvnni: bool,
}

/// The runtime feature detection results for the architecture the probe runs on.
#[derive(Clone, Copy, Debug)]
pub enum IsaProbe {
    Aarch64(Aarch64Features),
    X86(X86Features),
    Other,
}

/// `name` followed by nothing or by itself, depending on `on`.
pub open spec fn if_set(on: bool, name: Seq<char>) -> Seq<Seq<char>> {
    if on {
        seq![name]
    } else {
        Seq::empty()
    }
}

/// The names of the detected extensions, in the probe's fixed order.
pub open spec fn isa_names(p: IsaProbe) -> Seq<Seq<char>> {
    match p {
        IsaProbe::Aarch64(f) => if_set(f.neon, "neon"@) + if_set(f.dotprod, "dotprod"@) + if_set(
            f.i8mm,
            "i8mm"@,
        ) + if_set(f.fp16, "fp16"@) + if_set(f.bf16, "bf16"@) + if_set(f.sve, "sve"@) + if_set(
            f.sve2,
            "sve2"@,
        ),
        IsaProbe::X86(f) => if_set(f.avx2, "avx2"@) + if_set(f.fma, "fma"@) + if_set(f.f16c, "f16c"@)
            + if_set(f.avx512f, "avx512f"@) + if_set(f.avx512vnni, "avx512vnni"@) + if_set(
            f.avxvnni,
            "avxvnni"@,
        ),
        IsaProbe::Other => Seq::empty(),
    }
}

/// The views of a list of strings.
pub open spec fn views(v: Seq<String>) -> Seq<Seq<char>> {
    v.map_values(|s: String| s@)
}

fn push_if(v: &mut Vec<String>, on: bool, name: &str)
    ensures
        views(final(v)@) == views(old(v)@) + if_set(on, name@),
{
    let ghost before = views(v@);
    if on {
        v.push(name.to_owned());
    }
    assert(views(v@) =~= before + if_set(on, name@));
}

/// The names of the instruction-set extensions that runtime detection found.
pub fn isa_features(probe: &IsaProbe) -> (v: Vec<String>)
    ensures
        views(v@) == isa_names(*probe),
{
    let mut v: Vec<String> = Vec::new();
    assert(views(v@) =~= Seq::<Seq<char>>::empty());
    match probe {
        IsaProbe::Aarch64(f) => {
            push_if(&mut v, f.neon, "neon");
            push_if(&mut v, f.dotprod, "dotprod");
            push_if(&mut v, f.i8mm, "i8mm");
            push_if(&mut v, f.fp16, "fp16");
            push_if(&mut v, f.bf16, "bf16");
            push_if(&mut v, f.sve, "sve");
            push_if(&mut v, f.sve2, "sve2");
        },
        IsaProbe::X86(f) => {
            push_if(&mut v, f.avx2, "avx2");
            push_if(&mut v, f.fma, "fma");
            push_if(&mut v, f.f16c, "f16c");
            push_if(&mut v, f.avx512f, "avx512f");
            push_if(&mut v, f.avx512vnni, "avx512vnni");
            push_if(&mut v, f.avxvnni, "avxvnni");
        },
        IsaProbe::Other => {},
    }
    v
}

/// Every name in `s` ranks from 0 up to below `r`, and the ranks rise along `s`.
#[verifier::opaque]
pub open spec fn ranked_below(s: Seq<Seq<char>>, rank: spec_fn(Seq<char>) -> int, r: int) -> bool {
    &&& forall|i: int| 0 <= i < s.len() ==> 0 <= #[trigger] rank(s[i]) < r
    &&& forall|i: int, j: int| 0 <= i < j < s.len() ==> #[trigger] rank(s[i]) < #[trigger] rank(s[j])
}

/// Appending a name that ranks above everything so far keeps the list in rising rank.
proof fn lemma_if_set_step(
    acc: Seq<Seq<char>>,
    on: bool,
    name: Seq<char>,
    rank: spec_fn(Seq<char>) -> int,
    r: int,
)
    requires
        0 <= r,
        rank(name) == r,
        ranked_below(acc, rank, r),
    ensures
        ranked_below(acc + if_set(on, name), rank, r + 1),
{
    reveal(ranked_below);
    let s = acc + if_set(on, name);
    if on {
        assert(s =~= acc.push(name));
        assert(s[acc.len() as int] == name);
    } else {
        assert(s =~= acc);
    }
    assert forall|i: int| 0 <= i < s.len() implies 0 <= #[trigger] rank(s[i]) < r + 1 by {
        if i < acc.len() {
            assert(s[i] == acc[i]);
        } else {
            assert(s[i] == name);
        }
    }
    assert forall|i: int, j: int| 0 <= i < j < s.len() implies #[trigger] rank(s[i]) < #[trigger] rank(
        s[j],
    ) by {
        if j < acc.len() {
            assert(s[i] == acc[i] && s[j] == acc[j]);
        } else {
            assert(s[i] == acc[i]);
        }
    }
}

/// Appending a name adds exactly that name, when it is set.
proof fn lemma_if_set_contains(acc: Seq<Seq<char>>, on: bool, name: Seq<char>, x: Seq<char>)
    ensures
        (acc + if_set(on, name)).contains(x) <==> (acc.contains(x) || (on && x == name)),
{
    let s = acc + if_set(on, name);
    if on {
        assert(s =~= acc.push(name));
        assert(s[acc.len() as int] == name);
    } else {
        assert(s =~= acc);
    }
    if s.contains(x) {
        let i = choose|i: int| 0 <= i < s.len() && s[i] == x;
        if i < acc.len() {
            assert(acc[i] == x);
        }
    }
    if acc.contains(x) {
        let i = choose|i: int| 0 <= i < acc.len() && acc[i] == x;
        assert(s[i] == x);
    }
}

/// Position of an x86 extension name in the probe's order; -1 for any other text.
pub open spec fn x86_rank(n: Seq<char>) -> int {
    if n == "avx2"@ {
        0
    } else if n == "fma"@ {
        1
    } else if n == "f16c"@ {
        2
    } else if n == "avx512f"@ {
        3
    } else if n == "avx512vnni"@ {
        4
    } else if n == "avxvnni"@ {
        5
    } else {
        -1
    }
}

/// Position of an ARM64 extension name in the probe's order; -1 for any other text.
pub open spec fn aarch64_rank(n: Seq<char>) -> int {
    if n == "neon"@ {
        0
    } else if n == "dotprod"@ {
        1
    } else if n == "i8mm"@ {
        2
    } else if n == "fp16"@ {
        3
    } else if n == "bf16"@ {
        4
    } else if n == "sve"@ {
        5
    } else if n == "sve2"@ {
        6
    } else {
        -1
    }
}

proof fn x86_members(f: X86Features)
    ensures
        isa_names(IsaProbe::X86(f)).contains("avx2"@) <==> f.avx2,
        isa_names(IsaProbe::X86(f)).contains("fma"@) <==> f.fma,
        isa_names(IsaProbe::X86(f)).contains("f16c"@) <==> f.f16c,
        isa_names(IsaProbe::X86(f)).contains("avx512f"@) <==> f.avx512f,
        isa_names(IsaProbe::X86(f)).contains("avx512vnni"@) <==> f.avx512vnni,
        isa_names(IsaProbe::X86(f)).contains("avxvnni"@) <==> f.avxvnni,
{
    reveal_strlit("avx2");
    reveal_strlit("fma");
    reveal_strlit("f16c");
    reveal_strlit("avx512f");
    reveal_strlit("avx512vnni");
    reveal_strlit("avxvnni");
    assert("avx2"@.len() == 4 && "fma"@.len() == 3 && "f16c"@.len() == 4 && "avx512f"@.len() == 7 && "avx512vnni"@.len() == 10 && "avxvnni"@.len() == 7);
    assert("avx2"@[0] == 'a' && "fma"@[0] == 'f' && "f16c"@[0] == 'f' && "avx512f"@[0] == 'a' && "avx512vnni"@[0] == 'a' && "avxvnni"@[0] == 'a');
    assert("fma"@[1] == 'm' && "f16c"@[1] == '1');
    assert("avx512f"@[3] == '5' && "avxvnni"@[3] == 'v');
    let a0 = Seq::<Seq<char>>::empty();
    let a1 = a0 + if_set(f.avx2, "avx2"@);
    let a2 = a1 + if_set(f.fma, "fma"@);
    let a3 = a2 + if_set(f.f16c, "f16c"@);
    let a4 = a3 + if_set(f.avx512f, "avx512f"@);
    let a5 = a4 + if_set(f.avx512vnni, "avx512vnni"@);
    let a6 = a5 + if_set(f.avxvnni, "avxvnni"@);
    assert(isa_names(IsaProbe::X86(f)) == a6) by {
        assert(a1 =~= if_set(f.avx2, "avx2"@));
    }
    assert(!a0.contains("avx2"@));
    lemma_if_set_contains(a0, f.avx2, "avx2"@, "avx2"@);
    lemma_if_set_contains(a1, f.fma, "fma"@, "avx2"@);
    lemma_if_set_contains(a2, f.f16c, "f16c"@, "avx2"@);
    lemma_if_set_contains(a3, f.avx512f, "avx512f"@, "avx2"@);
    lemma_if_set_contains(a4, f.avx512vnni, "avx512vnni"@, "avx2"@);
    lemma_if_set_contains(a5, f.avxvnni, "avxvnni"@, "avx2"@);
    assert(!a0.contains("fma"@));
    lemma_if_set_contains(a0, f.avx2, "avx2"@, "fma"@);
    lemma_if_set_contains(a1, f.fma, "fma"@, "fma"@);
    lemma_if_set_contains(a2, f.f16c, "f16c"@, "fma"@);
    lemma_if_set_contains(a3, f.avx512f, "avx512f"@, "fma"@);
    lemma_if_set_contains(a4, f.avx512vnni, "avx512vnni"@, "fma"@);
    lemma_if_set_contains(a5, f.avxvnni, "avxvnni"@, "fma"@);
    assert(!a0.contains("f16c"@));
    lemma_if_set_contains(a0, f.avx2, "avx2"@, "f16c"@);
    lemma_if_set_contains(a1, f.fma, "fma"@, "f16c"@);
    lemma_if_set_contains(a2, f.f16c, "f16c"@, "f16c"@);
    lemma_if_set_contains(a3, f.avx512f, "avx512f"@, "f16c"@);
    lemma_if_set_contains(a4, f.avx512vnni, "avx512vnni"@, "f16c"@);
    lemma_if_set_contains(a5, f.avxvnni, "avxvnni"@, "f16c"@);
    assert(!a0.contains("avx512f"@));
    lemma_if_set_contains(a0, f.avx2, "avx2"@, "avx512f"@);
    lemma_if_set_contains(a1, f.fma, "fma"@, "avx512f"@);
    lemma_if_set_contains(a2, f.f16c, "f16c"@, "avx512f"@);
    lemma_if_set_contains(a3, f.avx512f, "avx512f"@, "avx512f"@);
    lemma_if_set_contains(a4, f.avx512vnni, "avx512vnni"@, "avx512f"@);
    lemma_if_set_contains(a5, f.avxvnni, "avxvnni"@, "avx512f"@);
    assert(!a0.contains("avx512vnni"@));
    lemma_if_set_contains(a0, f.avx2, "avx2"@, "avx512vnni"@);
    lemma_if_set_contains(a1, f.fma, "fma"@, "avx512vnni"@);
    lemma_if_set_contains(a2, f.f16c, "f16c"@, "avx512vnni"@);
    lemma_if_set_contains(a3, f.avx512f, "avx512f"@, "avx512vnni"@);
    lemma_if_set_contains(a4, f.avx512vnni, "avx512vnni"@, "avx512vnni"@);
    lemma_if_set_contains(a5, f.avxvnni, "avxvnni"@, "avx512vnni"@);
    assert(!a0.contains("avxvnni"@));
    lemma_if_set_contains(a0, f.avx2, "avx2"@, "avxvnni"@);
    lemma_if_set_contains(a1, f.fma, "fma"@, "avxvnni"@);
    lemma_if_set_contains(a2, f.f16c, "f16c"@, "avxvnni"@);
    lemma_if_set_contains(a3, f.avx512f, "avx512f"@, "avxvnni"@);
    lemma_if_set_contains(a4, f.avx512vnni, "avx512vnni"@, "avxvnni"@);
    lemma_if_set_contains(a5, f.avxvnni, "avxvnni"@, "avxvnni"@);
}

proof fn x86_ranks()
    ensures
        x86_rank("avx2"@) == 0,
        x86_rank("fma"@) == 1,
        x86_rank("f16c"@) == 2,
        x86_rank("avx512f"@) == 3,
        x86_rank("avx512vnni"@) == 4,
        x86_rank("avxvnni"@) == 5,
{
    reveal_strlit("avx2");
    reveal_strlit("fma");
    reveal_strlit("f16c");
    reveal_strlit("avx512f");
    reveal_strlit("avx512vnni");
    reveal_strlit("avxvnni");
    assert("avx2"@.len() == 4 && "fma"@.len() == 3 && "f16c"@.len() == 4 && "avx512f"@.len() == 7 && "avx512vnni"@.len() == 10 && "avxvnni"@.len() == 7);
    assert("avx2"@[0] == 'a' && "fma"@[0] == 'f' && "f16c"@[0] == 'f' && "avx512f"@[0] == 'a' && "avx512vnni"@[0] == 'a' && "avxvnni"@[0] == 'a');
    assert("fma"@[1] == 'm' && "f16c"@[1] == '1');
    assert("avx512f"@[3] == '5' && "avxvnni"@[3] == 'v');
}

proof fn x86_order(f: X86Features)
    ensures
        forall|i: int|
            0 <= i < isa_names(IsaProbe::X86(f)).len() ==> x86_rank(
                #[trigger] isa_names(IsaProbe::X86(f))[i],
            ) >= 0,
        forall|i: int, j: int|
            0 <= i < j < isa_names(IsaProbe::X86(f)).len() ==> x86_rank(
                #[trigger] isa_names(IsaProbe::X86(f))[i],
            ) < x86_rank(#[trigger] isa_names(IsaProbe::X86(f))[j]),
{
    x86_ranks();
    let a0 = Seq::<Seq<char>>::empty();
    let a1 = a0 + if_set(f.avx2, "avx2"@);
    let a2 = a1 + if_set(f.fma, "fma"@);
    let a3 = a2 + if_set(f.f16c, "f16c"@);
    let a4 = a3 + if_set(f.avx512f, "avx512f"@);
    let a5 = a4 + if_set(f.avx512vnni, "avx512vnni"@);
    let a6 = a5 + if_set(f.avxvnni, "avxvnni"@);
    assert(isa_names(IsaProbe::X86(f)) == a6) by {
        assert(a1 =~= if_set(f.avx2, "avx2"@));
    }
    assert(ranked_below(a0, |x: Seq<char>| x86_rank(x), 0)) by {
        reveal(ranked_below);
    }
    lemma_if_set_step(a0, f.avx2, "avx2"@, |x: Seq<char>| x86_rank(x), 0);
    lemma_if_set_step(a1, f.fma, "fma"@, |x: Seq<char>| x86_rank(x), 1);
    lemma_if_set_step(a2, f.f16c, "f16c"@, |x: Seq<char>| x86_rank(x), 2);
    lemma_if_set_step(a3, f.avx512f, "avx512f"@, |x: Seq<char>| x86_rank(x), 3);
    lemma_if_set_step(a4, f.avx512vnni, "avx512vnni"@, |x: Seq<char>| x86_rank(x), 4);
    lemma_if_set_step(a5, f.avxvnni, "avxvnni"@, |x: Seq<char>| x86_rank(x), 5);
    reveal(ranked_below);
}

/// On x86 the list holds each extension name exactly when its detection flag is set,
/// nothing else, in the probe's order (avx2, fma, f16c, avx512f, avx512vnni, avxvnni).
pub proof fn lemma_isa_names_x86(f: X86Features)
    ensures
        isa_names(IsaProbe::X86(f)).contains("avx2"@) <==> f.avx2,
        isa_names(IsaProbe::X86(f)).contains("fma"@) <==> f.fma,
        isa_names(IsaProbe::X86(f)).contains("f16c"@) <==> f.f16c,
        isa_names(IsaProbe::X86(f)).contains("avx512f"@) <==> f.avx512f,
        isa_names(IsaProbe::X86(f)).contains("avx512vnni"@) <==> f.avx512vnni,
        isa_names(IsaProbe::X86(f)).contains("avxvnni"@) <==> f.avxvnni,
        forall|i: int|
            0 <= i < isa_names(IsaProbe::X86(f)).len() ==> x86_rank(
                #[trigger] isa_names(IsaProbe::X86(f))[i],
            ) >= 0,
        forall|i: int, j: int|
            0 <= i < j < isa_names(IsaProbe::X86(f)).len() ==> x86_rank(
                #[trigger] isa_names(IsaProbe::X86(f))[i],
            ) < x86_rank(#[trigger] isa_names(IsaProbe::X86(f))[j]),
{
    x86_members(f);
    x86_order(f);
}

proof fn aarch64_members(f: Aarch64Features)
    ensures
        isa_names(IsaProbe::Aarch64(f)).contains("neon"@) <==> f.neon,
        isa_names(IsaProbe::Aarch64(f)).contains("dotprod"@) <==> f.dotprod,
        isa_names(IsaProbe::Aarch64(f)).contains("i8mm"@) <==> f.i8mm,
        isa_names(IsaProbe::Aarch64(f)).contains("fp16"@) <==> f.fp16,
        isa_names(IsaProbe::Aarch64(f)).contains("bf16"@) <==> f.bf16,
        isa_names(IsaProbe::Aarch64(f)).contains("sve"@) <==> f.sve,
        isa_names(IsaProbe::Aarch64(f)).contains("sve2"@) <==> f.sve2,
{
    reveal_strlit("neon");
    reveal_strlit("dotprod");
    reveal_strlit("i8mm");
    reveal_strlit("fp16");
    reveal_strlit("bf16");
    reveal_strlit("sve");
    reveal_strlit("sve2");
    assert("neon"@.len() == 4 && "dotprod"@.len() == 7 && "i8mm"@.len() == 4 && "fp16"@.len() == 4 && "bf16"@.len() == 4 && "sve"@.len() == 3 && "sve2"@.len() == 4);
    assert("neon"@[0] == 'n' && "dotprod"@[0] == 'd' && "i8mm"@[0] == 'i' && "fp16"@[0] == 'f' && "bf16"@[0] == 'b' && "sve"@[0] == 's' && "sve2"@[0] == 's');
    let a0 = Seq::<Seq<char>>::empty();
    let a1 = a0 + if_set(f.neon, "neon"@);
    let a2 = a1 + if_set(f.dotprod, "dotprod"@);
    let a3 = a2 + if_set(f.i8mm, "i8mm"@);
    let a4 = a3 + if_set(f.fp16, "fp16"@);
    let a5 = a4 + if_set(f.bf16, "bf16"@);
    let a6 = a5 + if_set(f.sve, "sve"@);
    let a7 = a6 + if_set(f.sve2, "sve2"@);
    assert(isa_names(IsaProbe::Aarch64(f)) == a7) by {
        assert(a1 =~= if_set(f.neon, "neon"@));
    }
    assert(!a0.contains("neon"@));
    lemma_if_set_contains(a0, f.neon, "neon"@, "neon"@);
    lemma_if_set_contains(a1, f.dotprod, "dotprod"@, "neon"@);
    lemma_if_set_contains(a2, f.i8mm, "i8mm"@, "neon"@);
    lemma_if_set_contains(a3, f.fp16, "fp16"@, "neon"@);
    lemma_if_set_contains(a4, f.bf16, "bf16"@, "neon"@);
    lemma_if_set_contains(a5, f.sve, "sve"@, "neon"@);
    lemma_if_set_contains(a6, f.sve2, "sve2"@, "neon"@);
    assert(!a0.contains("dotprod"@));
    lemma_if_set_contains(a0, f.neon, "neon"@, "dotprod"@);
    lemma_if_set_contains(a1, f.dotprod, "dotprod"@, "dotprod"@);
    lemma_if_set_contains(a2, f.i8mm, "i8mm"@, "dotprod"@);
    lemma_if_set_contains(a3, f.fp16, "fp16"@, "dotprod"@);
    lemma_if_set_contains(a4, f.bf16, "bf16"@, "dotprod"@);
    lemma_if_set_contains(a5, f.sve, "sve"@, "dotprod"@);
    lemma_if_set_contains(a6, f.sve2, "sve2"@, "dotprod"@);
    assert(!a0.contains("i8mm"@));
    lemma_if_set_contains(a0, f.neon, "neon"@, "i8mm"@);
    lemma_if_set_contains(a1, f.dotprod, "dotprod"@, "i8mm"@);
    lemma_if_set_contains(a2, f.i8mm, "i8mm"@, "i8mm"@);
    lemma_if_set_contains(a3, f.fp16, "fp16"@, "i8mm"@);
    lemma_if_set_contains(a4, f.bf16, "bf16"@, "i8mm"@);
    lemma_if_set_contains(a5, f.sve, "sve"@, "i8mm"@);
    lemma_if_set_contains(a6, f.sve2, "sve2"@, "i8mm"@);
    assert(!a0.contains("fp16"@));
    lemma_if_set_contains(a0, f.neon, "neon"@, "fp16"@);
    lemma_if_set_contains(a1, f.dotprod, "dotprod"@, "fp16"@);
    lemma_if_set_contains(a2, f.i8mm, "i8mm"@, "fp16"@);
    lemma_if_set_contains(a3, f.fp16, "fp16"@, "fp16"@);
    lemma_if_set_contains(a4, f.bf16, "bf16"@, "fp16"@);
    lemma_if_set_contains(a5, f.sve, "sve"@, "fp16"@);
    lemma_if_set_contains(a6, f.sve2, "sve2"@, "fp16"@);
    assert(!a0.contains("bf16"@));
    lemma_if_set_contains(a0, f.neon, "neon"@, "bf16"@);
    lemma_if_set_contains(a1, f.dotprod, "dotprod"@, "bf16"@);
    lemma_if_set_contains(a2, f.i8mm, "i8mm"@, "bf16"@);
    lemma_if_set_contains(a3, f.fp16, "fp16"@, "bf16"@);
    lemma_if_set_contains(a4, f.bf16, "bf16"@, "bf16"@);
    lemma_if_set_contains(a5, f.sve, "sve"@, "bf16"@);
    lemma_if_set_contains(a6, f.sve2, "sve2"@, "bf16"@);
    assert(!a0.contains("sve"@));
    lemma_if_set_contains(a0, f.neon, "neon"@, "sve"@);
    lemma_if_set_contains(a1, f.dotprod, "dotprod"@, "sve"@);
    lemma_if_set_contains(a2, f.i8mm, "i8mm"@, "sve"@);
    lemma_if_set_contains(a3, f.fp16, "fp16"@, "sve"@);
    lemma_if_set_contains(a4, f.bf16, "bf16"@, "sve"@);
    lemma_if_set_contains(a5, f.sve, "sve"@, "sve"@);
    lemma_if_set_contains(a6, f.sve2, "sve2"@, "sve"@);
    assert(!a0.contains("sve2"@));
    lemma_if_set_contains(a0, f.neon, "neon"@, "sve2"@);
    lemma_if_set_contains(a1, f.dotprod, "dotprod"@, "sve2"@);
    lemma_if_set_contains(a2, f.i8mm, "i8mm"@, "sve2"@);
    lemma_if_set_contains(a3, f.fp16, "fp16"@, "sve2"@);
    lemma_if_set_contains(a4, f.bf16, "bf16"@, "sve2"@);
    lemma_if_set_contains(a5, f.sve, "sve"@, "sve2"@);
    lemma_if_set_contains(a6, f.sve2, "sve2"@, "sve2"@);
}

proof fn aarch64_ranks()
    ensures
        aarch64_rank("neon"@) == 0,
        aarch64_rank("dotprod"@) == 1,
        aarch64_rank("i8mm"@) == 2,
        aarch64_rank("fp16"@) == 3,
        aarch64_rank("bf16"@) == 4,
        aarch64_rank("sve"@) == 5,
        aarch64_rank("sve2"@) == 6,
{
    reveal_strlit("neon");
    reveal_strlit("dotprod");
    reveal_strlit("i8mm");
    reveal_strlit("fp16");
    reveal_strlit("bf16");
    reveal_strlit("sve");
    reveal_strlit("sve2");
    assert("neon"@.len() == 4 && "dotprod"@.len() == 7 && "i8mm"@.len() == 4 && "fp16"@.len() == 4 && "bf16"@.len() == 4 && "sve"@.len() == 3 && "sve2"@.len() == 4);
    assert("neon"@[0] == 'n' && "dotprod"@[0] == 'd' && "i8mm"@[0] == 'i' && "fp16"@[0] == 'f' && "bf16"@[0] == 'b' && "sve"@[0] == 's' && "sve2"@[0] == 's');
}

proof fn aarch64_order(f: Aarch64Features)
    ensures
        forall|i: int|
            0 <= i < isa_names(IsaProbe::Aarch64(f)).len() ==> aarch64_rank(
                #[trigger] isa_names(IsaProbe::Aarch64(f))[i],
            ) >= 0,
        forall|i: int, j: int|
            0 <= i < j < isa_names(IsaProbe::Aarch64(f)).len() ==> aarch64_rank(
                #[trigger] isa_names(IsaProbe::Aarch64(f))[i],
            ) < aarch64_rank(#[trigger] isa_names(IsaProbe::Aarch64(f))[j]),
{
    aarch64_ranks();
    let a0 = Seq::<Seq<char>>::empty();
    let a1 = a0 + if_set(f.neon, "neon"@);
    let a2 = a1 + if_set(f.dotprod, "dotprod"@);
    let a3 = a2 + if_set(f.i8mm, "i8mm"@);
    let a4 = a3 + if_set(f.fp16, "fp16"@);
    let a5 = a4 + if_set(f.bf16, "bf16"@);
    let a6 = a5 + if_set(f.sve, "sve"@);
    let a7 = a6 + if_set(f.sve2, "sve2"@);
    assert(isa_names(IsaProbe::Aarch64(f)) == a7) by {
        assert(a1 =~= if_set(f.neon, "neon"@));
    }
    assert(ranked_below(a0, |x: Seq<char>| aarch64_rank(x), 0)) by {
        reveal(ranked_below);
    }
    lemma_if_set_step(a0, f.neon, "neon"@, |x: Seq<char>| aarch64_rank(x), 0);
    lemma_if_set_step(a1, f.dotprod, "dotprod"@, |x: Seq<char>| aarch64_rank(x), 1);
    lemma_if_set_step(a2, f.i8mm, "i8mm"@, |x: Seq<char>| aarch64_rank(x), 2);
    lemma_if_set_step(a3, f.fp16, "fp16"@, |x: Seq<char>| aarch64_rank(x), 3);
    lemma_if_set_step(a4, f.bf16, "bf16"@, |x: Seq<char>| aarch64_rank(x), 4);
    lemma_if_set_step(a5, f.sve, "sve"@, |x: Seq<char>| aarch64_rank(x), 5);
    lemma_if_set_step(a6, f.sve2, "sve2"@, |x: Seq<char>| aarch64_rank(x), 6);
    reveal(ranked_below);
}

/// On ARM64 the list holds each extension name exactly when its detection flag is set,
/// nothing else, in the probe's order (neon, dotprod, i8mm, fp16, bf16, sve, sve2).
pub proof fn lemma_isa_names_aarch64(f: Aarch64Features)
    ensures
        isa_names(IsaProbe::Aarch64(f)).contains("neon"@) <==> f.neon,
        isa_names(IsaProbe::Aarch64(f)).contains("dotprod"@) <==> f.dotprod,
        isa_names(IsaProbe::Aarch64(f)).contains("i8mm"@) <==> f.i8mm,
        isa_names(IsaProbe::Aarch64(f)).contains("fp16"@) <==> f.fp16,
        isa_names(IsaProbe::Aarch64(f)).contains("bf16"@) <==> f.bf16,
        isa_names(IsaProbe::Aarch64(f)).contains("sve"@) <==> f.sve,
        isa_names(IsaProbe::Aarch64(f)).contains("sve2"@) <==> f.sve2,
        forall|i: int|
            0 <= i < isa_names(IsaProbe::Aarch64(f)).len() ==> aarch64_rank(
                #[trigger] isa_names(IsaProbe::Aarch64(f))[i],
            ) >= 0,
        forall|i: int, j: int|
            0 <= i < j < isa_names(IsaProbe::Aarch64(f)).len() ==> aarch64_rank(
                #[trigger] isa_names(IsaProbe::Aarch64(f))[i],
            ) < aarch64_rank(#[trigger] isa_names(IsaProbe::Aarch64(f))[j]),
{
    aarch64_members(f);
    aarch64_order(f);
}

/// The text of a byte string read as UTF-8, each invalid sequence replaced by U+FFFD,
/// as std's `String::from_utf8_lossy` decodes it.
pub uninterp spec fn utf8_lossy(bytes: Seq<u8>) -> Seq<char>;

/// std's `String::from_utf8_lossy`: valid UTF-8 comes back as the text it encodes; its
/// replacement rules for invalid sequences are not restated here.
#[verifier::external_body]
fn from_utf8_lossy(bytes: &[u8]) -> (s: String)
    ensures
        s@ == utf8_lossy(bytes@),
        vstd::utf8::valid_utf8(bytes@) ==> s@ == vstd::utf8::decode_utf8(bytes@),
{
    String::from_utf8_lossy(bytes).into_owned()
}

/// What a command printed, trimmed, when it succeeded and printed something.
pub open spec fn command_output_spec(success: bool, text: Seq<char>) -> Option<Seq<char>> {
    if success && trim(text).len() > 0 {
        Some(trim(text))
    } else {
        None
    }
}

/// The useful output of a finished command, from its decoded standard output.
pub fn command_text(success: bool, text: &str) -> (r: Option<String>)
    ensures
        match command_output_spec(success, text@) {
            Some(t) => r is Some && r->0@ == t,
            None => r is None,
        },
{
    if !success {
        return None;
    }
    let t = trim_str(text);
    let v = to_chars(t.as_str());
    if v.len() == 0 {
        None
    } else {
        Some(t)
    }
}

/// The useful output of a finished command, from its raw standard output (decoded as
/// UTF-8, invalid sequences replaced).
pub fn command_output(success: bool, stdout: &[u8]) -> (r: Option<String>)
    ensures
        match command_output_spec(success, utf8_lossy(stdout@)) {
            Some(t) => r is Some && r->0@ == t,
            None => r is None,
        },
        vstd::utf8::valid_utf8(stdout@) ==> match command_output_spec(
            success,
            vstd::utf8::decode_utf8(stdout@),
        ) {
            Some(t) => r is Some && r->0@ == t,
            None => r is None,
        },
{
    let text = from_utf8_lossy(stdout);
    command_text(success, text.as_str())
}

/// A program and its arguments.
pub struct CommandLine {
    pub program: String,
    pub args: Vec<String>,
}

/// The PowerShell invocation that runs `script` without a profile and without prompts.
pub fn ps(script: &str) -> (c: CommandLine)
    ensures
        c.program@ == "powershell"@,
        views(c.args@) == seq!["-NoProfile"@, "-NonInteractive"@, "-Command"@, script@],
{
    let mut args: Vec<String> = Vec::new();
    args.push("-NoProfile".to_owned());
    args.push("-NonInteractive".to_owned());
    args.push("-Command".to_owned());
    args.push(script.to_owned());
    assert(views(args@) =~= seq!["-NoProfile"@, "-NonInteractive"@, "-Command"@, script@]);
    CommandLine { program: "powershell".to_owned(), args }
}

/// The registry value that holds the Windows power-mode overlay for the current power
/// source: the DC one on battery, the AC one otherwise.
pub fn overlay_value_name(on_ac: Option<bool>) -> (name: &'static str)
    ensures
        name@ == (if on_ac == Some(false) {
            "ActiveOverlayDcPowerScheme"@
        } else {
            "ActiveOverlayAcPowerScheme"@
        }),
{
    if on_ac == Some(false) {
        "ActiveOverlayDcPowerScheme"
    } else {
        "ActiveOverlayAcPowerScheme"
    }
}

/// The overlay GUID in the output of the registry query: its last word, in lower case.
pub open spec fn overlay_guid(reg_output: Option<Seq<char>>) -> Option<Seq<char>> {
    match reg_output {
        Some(s) => match last_token(s) {
            Some(t) => Some(ascii_lower(t)),
            None => None,
        },
        None => None,
    }
}

/// The power mode that an overlay GUID stands for; without an overlay, the plan.
pub open spec fn power_mode_spec(guid: Option<Seq<char>>, plan: Seq<char>) -> Seq<char> {
    match guid {
        Some(g) => if g == "ded574b5-45a0-4f42-8737-46345c09c238"@ {
            "Best performance"@
        } else if g == "3af9b8d9-7c97-431d-ad78-34a8bfea439f"@ {
            "Better performance"@
        } else if g == "961cc777-2547-4f9d-8174-7d86181b8a7a"@ {
            "Best power efficiency"@
        } else if g == "00000000-0000-0000-0000-000000000000"@ {
            plan
        } else {
            plan + " (overlay "@ + g + ")"@
        },
        None => plan,
    }
}

/// The view of an optional string slice.
pub open spec fn opt_view(s: Option<&str>) -> Option<Seq<char>> {
    match s {
        Some(x) => Some(x@),
        None => None,
    }
}

/// The Windows 11 power mode, from the output of the registry query for the overlay
/// scheme (`None` when the query failed) and the legacy power plan.
pub fn windows_power_mode(reg_output: Option<&str>, plan: &str) -> (mode: String)
    ensures
        mode@ == power_mode_spec(overlay_guid(opt_view(reg_output)), plan@),
{
    let guid: Option<String> = match reg_output {
        Some(s) => {
            let v = to_chars(s);
            match last_token_of(&v) {
                Some(t) => Some(to_ascii_lowercase(t.as_str())),
                None => None,
            }
        },
        None => None,
    };
    match guid {
        Some(g) => {
            let gv = to_chars(g.as_str());
            if chars_eq_str(&gv, "ded574b5-45a0-4f42-8737-46345c09c238") {
                "Best performance".to_owned()
            } else if chars_eq_str(&gv, "3af9b8d9-7c97-431d-ad78-34a8bfea439f") {
                "Better performance".to_owned()
            } else if chars_eq_str(&gv, "961cc777-2547-4f9d-8174-7d86181b8a7a") {
                "Best power efficiency".to_owned()
            } else if chars_eq_str(&gv, "00000000-0000-0000-0000-000000000000") {
                plan.to_owned()
            } else {
                let mut m = plan.to_owned();
                m.append(" (overlay ");
                m.append(g.as_str());
                m.append(")");
                m
            }
        },
        None => plan.to_owned(),
    }
}

} // verus!
