//! Reset-value patches of the RCC registers, and hexadecimal numbers of target files.
use crate::svd::number::spec_from_str_radix;
use crate::svd::parser::{periph_view, reg_view};
use crate::target::{PeripheralSpec, RegisterSpec};
use crate::text::{chars_of, concat3, has_prefix, str_eq, trim, trim_range};
use vstd::prelude::*;

verus! {

/// `s` with every leading repetition of `p` removed, as `str::trim_start_matches`.
pub open spec fn strip_all(s: Seq<char>, p: Seq<char>) -> Seq<char>
    decreases s.len(),
{
    if p.len() > 0 && has_prefix(s, p) {
        strip_all(s.subrange(p.len() as int, s.len() as int), p)
    } else {
        s
    }
}

/// A hexadecimal number of a target file: white space trimmed, then every leading `0x` and
/// then every leading `0X` removed; or the message of the error.
pub open spec fn spec_parse_hex(s: Seq<char>) -> Result<u64, Seq<char>> {
    match spec_from_str_radix(strip_all(strip_all(trim(s), seq!['0', 'x']), seq!['0', 'X']), 16) {
        Ok(v) => Ok(v),
        Err(e) => Err("invalid hex '"@ + s + "': "@ + e),
    }
}

/// Start of `x[a..b]` after removing every leading repetition of `c0 c1`.
fn strip_all_range(x: &[char], a: usize, b: usize, c0: char, c1: char) -> (r: usize)
    requires
        a <= b <= x@.len(),
    ensures
        a <= r <= b,
        x@.subrange(r as int, b as int) == strip_all(x@.subrange(a as int, b as int), seq![c0, c1]),
{
    let mut i = a;
    while b - i >= 2 && x[i] == c0 && x[i + 1] == c1
        invariant
            a <= i <= b,
            b <= x@.len(),
            strip_all(x@.subrange(a as int, b as int), seq![c0, c1]) == strip_all(
                x@.subrange(i as int, b as int),
                seq![c0, c1],
            ),
        decreases b - i,
    {
        let ghost s = x@.subrange(i as int, b as int);
        assert(s.subrange(0, 2) =~= seq![c0, c1]);
        assert(s.subrange(2, s.len() as int) =~= x@.subrange(i + 2, b as int));
        i = i + 2;
    }
    proof {
        let s = x@.subrange(i as int, b as int);
        if s.len() >= 2 && has_prefix(s, seq![c0, c1]) {
            assert(s[0] == x@[i as int] && s[1] == x@[i + 1]);
            assert(s.subrange(0, 2)[0] == s[0] && s.subrange(0, 2)[1] == s[1]);
        }
    }
    i
}

/// Reads a hexadecimal number of a target file (see `spec_parse_hex`).
pub fn parse_hex(s: &str) -> (r: Result<u64, String>)
    ensures
        match spec_parse_hex(s@) {
            Ok(v) => r == Ok::<u64, String>(v),
            Err(m) => r matches Err(e) && e@ == m,
        },
{
    let x = chars_of(s);
    let n = x.len();
    let (a, b) = trim_range(x.as_slice(), 0, n);
    assert(x@.subrange(0, n as int) =~= x@);
    let a1 = strip_all_range(x.as_slice(), a, b, '0', 'x');
    let a2 = strip_all_range(x.as_slice(), a1, b, '0', 'X');
    assert(x@.subrange(a2 as int, b as int) == strip_all(strip_all(trim(s@), seq!['0', 'x']), seq!['0', 'X']));
    match crate::svd::number::from_str_radix(x.as_slice(), a2, b, 16) {
        Ok(v) => Ok(v),
        Err(e) => {
            let head = concat3("invalid hex '", s, "': ");
            let msg = concat3(head.as_str(), e.as_str(), "");
            proof {
                reveal_strlit("");
                assert(msg@ =~= "invalid hex '"@ + s@ + "': "@ + e@);
            }
            Err(msg)
        },
    }
}

/// Peripherals after OR-ing `val` into the reset value of every register named `reg` of every
/// peripheral named "RCC".
pub open spec fn patch_view(
    ps: Seq<(Seq<char>, u64, Seq<(Seq<char>, u64, u32, u64)>)>,
    reg: Seq<char>,
    val: u64,
) -> Seq<(Seq<char>, u64, Seq<(Seq<char>, u64, u32, u64)>)> {
    ps.map_values(
        |p: (Seq<char>, u64, Seq<(Seq<char>, u64, u32, u64)>)|
            if p.0 == "RCC"@ {
                (p.0, p.1, p.2.map_values(|r: (Seq<char>, u64, u32, u64)| if r.0 == reg { (r.0, r.1, r.2, r.3 | val) } else { r }))
            } else {
                p
            },
    )
}

/// Registers after OR-ing `val` into the reset value of those named `reg`.
fn patched_registers(rs: &Vec<RegisterSpec>, reg: &str, val: u64) -> (r: Vec<RegisterSpec>)
    ensures
        r@.map_values(|x: RegisterSpec| reg_view(x)) == rs@.map_values(|x: RegisterSpec| reg_view(x)).map_values(
            |q: (Seq<char>, u64, u32, u64)| if q.0 == reg@ { (q.0, q.1, q.2, q.3 | val) } else { q },
        ),
{
    let ghost src = rs@.map_values(|x: RegisterSpec| reg_view(x));
    let ghost want = src.map_values(|q: (Seq<char>, u64, u32, u64)| if q.0 == reg@ { (q.0, q.1, q.2, q.3 | val) } else { q });
    let mut out: Vec<RegisterSpec> = Vec::new();
    let mut i: usize = 0;
    while i < rs.len()
        invariant
            i <= rs@.len(),
            src == rs@.map_values(|x: RegisterSpec| reg_view(x)),
            want == src.map_values(|q: (Seq<char>, u64, u32, u64)| if q.0 == reg@ { (q.0, q.1, q.2, q.3 | val) } else { q }),
            out@.map_values(|x: RegisterSpec| reg_view(x)) == want.subrange(0, i as int),
        decreases rs@.len() - i,
    {
        let r = &rs[i];
        let hit = str_eq(r.name.as_str(), reg);
        let nr = RegisterSpec {
            name: r.name.clone(),
            address: r.address,
            width_bits: r.width_bits,
            reset_value: if hit { r.reset_value | val } else { r.reset_value },
        };
        let ghost before = out@;
        out.push(nr);
        proof {
            assert(src[i as int] == reg_view(rs@[i as int]));
            assert(out@.map_values(|x: RegisterSpec| reg_view(x)) =~= before.map_values(|x: RegisterSpec| reg_view(x)).push(
                reg_view(nr),
            ));
            assert(want.subrange(0, i + 1) =~= want.subrange(0, i as int).push(want[i as int]));
        }
        i = i + 1;
    }
    assert(want.subrange(0, i as int) =~= want);
    out
}

/// OR-s `val` into the reset value of every register named `reg` of every peripheral named
/// "RCC".
pub fn apply_rcc_patch(ps: &mut Vec<PeripheralSpec>, reg: &str, val: u64)
    ensures
        final(ps)@.map_values(|p: PeripheralSpec| periph_view(p)) == patch_view(
            old(ps)@.map_values(|p: PeripheralSpec| periph_view(p)),
            reg@,
            val,
        ),
{
    proof {
        reveal_strlit("RCC");
    }
    let ghost src = ps@.map_values(|p: PeripheralSpec| periph_view(p));
    let ghost want = patch_view(src, reg@, val);
    let n = ps.len();
    let mut i: usize = 0;
    while i < n
        invariant
            n == ps@.len(),
            i <= n,
            src.len() == n,
            want == patch_view(src, reg@, val),
            forall|k: int| 0 <= k < i ==> periph_view(#[trigger] ps@[k]) == want[k],
            forall|k: int| i <= k < n ==> periph_view(#[trigger] ps@[k]) == src[k],
        decreases n - i,
    {
        assert(periph_view(ps@[i as int]) == src[i as int]);
        if str_eq(ps[i].name.as_str(), "RCC") {
            let regs = patched_registers(&ps[i].registers, reg, val);
            let np = PeripheralSpec { name: ps[i].name.clone(), base_address: ps[i].base_address, registers: regs };
            let ghost before = ps@;
            ps.set(i, np);
            assert forall|k: int| 0 <= k < n && k != i implies ps@[k] == before[k] by {}
        }
        i = i + 1;
    }
    assert(ps@.map_values(|p: PeripheralSpec| periph_view(p)) =~= want);
}

} // verus!
