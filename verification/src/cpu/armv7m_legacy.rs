//! Interpreting ARMv7-M (Thumb / Thumb-2) core.
use crate::bits::{with_bit, spec_rotr32, rotr32, spec_asr32, asr32, spec_sext8, sext8, spec_sext16, sext16, spec_swap_bytes32, swap_bytes32, popcount_below, count_ones_below, lemma_small_masks, lemma_small_masks32};
use crate::bus::traits::{SystemBus, ok_value, word_accesses, word_access, word_accesses_fail, lemma_word_accesses_extend};
use crate::cpu::{ArchitectureId, ArchitectureMemoryConfig, CpuArchitecture, CpuCore};
use crate::text::{hex_message, hex_message2};
use vstd::prelude::*;

verus! {

pub const FLASH_ALIAS_BASE: u64 = 0x0000_0000;

pub const PERIPH_BB_BASE: u64 = 0x4000_0000;

pub const PERIPH_BB_ALIAS_BASE: u64 = 0x4200_0000;

pub const PERIPH_BB_ALIAS_END: u64 = 0x4400_0000;

/// The ARMv7-M architecture description.
#[derive(Debug, Default)]
pub struct ArmV7MArchitecture;

impl CpuArchitecture for ArmV7MArchitecture {
    fn id(&self) -> (r: ArchitectureId)
        ensures
            r == ArchitectureId::ArmV7M,
    {
        ArchitectureId::ArmV7M
    }

    fn name(&self) -> (r: &'static str)
        ensures
            r@ == "ARMv7-M"@,
    {
        "ARMv7-M"
    }

    fn reset_vector_bits(&self) -> (r: u8)
        ensures
            r == 32,
    {
        32
    }

    open spec fn spec_memory_config(&self) -> ArchitectureMemoryConfig {
        ArchitectureMemoryConfig {
            flash_alias_base: Some(FLASH_ALIAS_BASE),
            periph_bitband_base: Some(PERIPH_BB_BASE),
            periph_bitband_alias_start: Some(PERIPH_BB_ALIAS_BASE),
            periph_bitband_alias_end: Some(PERIPH_BB_ALIAS_END),
        }
    }

    fn memory_config(&self) -> (r: ArchitectureMemoryConfig) {
        ArchitectureMemoryConfig {
            flash_alias_base: Some(FLASH_ALIAS_BASE),
            periph_bitband_base: Some(PERIPH_BB_BASE),
            periph_bitband_alias_start: Some(PERIPH_BB_ALIAS_BASE),
            periph_bitband_alias_end: Some(PERIPH_BB_ALIAS_END),
        }
    }
}

pub const DECODE_CACHE_SIZE: usize = 2048;

/// One remembered instruction fetch.
#[derive(Debug, Clone, Copy, PartialEq, Eq, Structural)]
pub struct DecodeCacheEntry {
    pub valid: bool,
    pub pc: u32,
    pub opcode: u16,
    pub width: u8,
    pub opcode2: u16,
    pub has_opcode2: bool,
}

/// The entry that remembers nothing.
pub open spec fn empty_entry() -> DecodeCacheEntry {
    DecodeCacheEntry { valid: false, pc: 0, opcode: 0, width: 0, opcode2: 0, has_opcode2: false }
}

/// A decode cache of `DECODE_CACHE_SIZE` entries that remember nothing.
pub fn empty_decode_cache() -> (v: Vec<DecodeCacheEntry>)
    ensures
        v@ == Seq::new(DECODE_CACHE_SIZE as nat, |i: int| empty_entry()),
{
    let mut v: Vec<DecodeCacheEntry> = Vec::new();
    let mut i: usize = 0;
    while i < DECODE_CACHE_SIZE
        invariant
            i <= DECODE_CACHE_SIZE,
            v@.len() == i,
            forall|j: int| 0 <= j < i ==> v@[j] == empty_entry(),
        decreases DECODE_CACHE_SIZE - i,
    {
        v.push(DecodeCacheEntry::empty());
        i = i + 1;
    }
    assert(v@ =~= Seq::new(DECODE_CACHE_SIZE as nat, |i: int| empty_entry()));
    v
}

impl DecodeCacheEntry {
    /// An entry that remembers nothing.
    pub fn empty() -> (r: Self)
        ensures
            r == empty_entry(),
    {
        DecodeCacheEntry { valid: false, pc: 0, opcode: 0, width: 0, opcode2: 0, has_opcode2: false }
    }
}

impl Default for DecodeCacheEntry {
    fn default() -> (r: Self)
        ensures
            r == empty_entry(),
    {
        DecodeCacheEntry::empty()
    }
}

/// Interpreting Cortex-M3 core: sixteen registers, xPSR, IT-block state and a
/// direct-mapped cache of fetched opcodes for code below 0x2000_0000.
#[derive(Debug)]
pub struct CortexM3 {
    pub arch: ArmV7MArchitecture,
    pub registers: [u32; 16],
    pub xpsr: u32,
    pub it_conds: [u8; 4],
    pub it_pos: u8,
    pub it_count: u8,
    pub decode_cache: Vec<DecodeCacheEntry>,
}

// ----------------------------------------------------------------------------
// Architectural semantics
// ----------------------------------------------------------------------------
/// N and Z set from `v`.
pub open spec fn nz(x: u32, v: u32) -> u32 {
    with_bit(with_bit(x, 30, v == 0), 31, v & 0x8000_0000 != 0)
}

pub open spec fn carry(x: u32, c: bool) -> u32 {
    with_bit(x, 29, c)
}

pub open spec fn overflow(x: u32, v: bool) -> u32 {
    with_bit(x, 28, v)
}

pub open spec fn thumb(x: u32, t: bool) -> u32 {
    with_bit(x, 24, t)
}

/// Flags after `res = lhs + rhs`.
pub open spec fn add_flags(x: u32, lhs: u32, rhs: u32, res: u32) -> u32 {
    overflow(
        carry(nz(x, res), lhs as int + rhs as int > u32::MAX),
        ((lhs ^ res) & (rhs ^ res)) & 0x8000_0000 != 0,
    )
}

/// Flags after `res = lhs - rhs`.
pub open spec fn sub_flags(x: u32, lhs: u32, rhs: u32, res: u32) -> u32 {
    overflow(carry(nz(x, res), lhs >= rhs), ((lhs ^ rhs) & (lhs ^ res)) & 0x8000_0000 != 0)
}

/// Whether condition code `cond` holds under the flags of `x`.
pub open spec fn cond_holds(x: u32, cond: u8) -> bool {
    let n = (x >> 31) & 1 == 1;
    let z = (x >> 30) & 1 == 1;
    let c = (x >> 29) & 1 == 1;
    let v = (x >> 28) & 1 == 1;
    if cond == 0x0 {
        z
    } else if cond == 0x1 {
        !z
    } else if cond == 0x2 {
        c
    } else if cond == 0x3 {
        !c
    } else if cond == 0x4 {
        n
    } else if cond == 0x5 {
        !n
    } else if cond == 0x6 {
        v
    } else if cond == 0x7 {
        !v
    } else if cond == 0x8 {
        c && !z
    } else if cond == 0x9 {
        !c || z
    } else if cond == 0xA {
        n == v
    } else if cond == 0xB {
        n != v
    } else if cond == 0xC {
        !z && (n == v)
    } else if cond == 0xD {
        z || (n != v)
    } else {
        cond == 0xE
    }
}

/// `r` with the PC advanced by `n` bytes.
pub open spec fn adv(r: Seq<u32>, n: u32) -> Seq<u32> {
    r.update(15, r[15].wrapping_add(n))
}

/// Expansion of a Thumb-2 modified immediate.
pub open spec fn spec_thumb_expand_imm12(imm12: u32) -> u32 {
    if ((imm12 >> 10) & 0x3) == 0 {
        let imm8 = imm12 & 0xFF;
        let sel = (imm12 >> 8) & 0x3;
        if sel == 0 {
            imm8
        } else if sel == 1 {
            (imm8 << 16) | imm8
        } else if sel == 2 {
            (imm8 << 24) | (imm8 << 8)
        } else {
            (imm8 << 24) | (imm8 << 16) | (imm8 << 8) | imm8
        }
    } else {
        spec_rotr32(0x80 | (imm12 & 0x7F), (imm12 >> 7) & 0x1F)
    }
}

/// Immediate shift of a register operand (LSL, LSR, ASR, ROR).
pub open spec fn spec_shift_imm(value: u32, shift_type: u16, imm5: u32) -> u32 {
    if shift_type == 0 {
        value.wrapping_shl(imm5)
    } else if shift_type == 1 {
        if imm5 == 0 || imm5 >= 32 {
            0
        } else {
            value >> imm5
        }
    } else if shift_type == 2 {
        if imm5 == 0 || imm5 >= 32 {
            if value & 0x8000_0000 != 0 {
                u32::MAX
            } else {
                0
            }
        } else {
            spec_asr32(value, imm5)
        }
    } else {
        spec_rotr32(value, imm5 % 32)
    }
}

/// Whether `value` is an EXC_RETURN magic value.
pub open spec fn spec_is_exc_return(value: u32) -> bool {
    value & 0xFFFF_FFE0 == 0xFFFF_FFE0
}

/// Width in bytes of the instruction whose first half-word is `opcode`.
pub open spec fn spec_instruction_width(opcode: u16) -> u32 {
    if opcode & 0xF800 == 0xE800 || opcode & 0xF000 == 0xF000 {
        4
    } else {
        2
    }
}

pub open spec fn spec_cache_index(pc: u64) -> int {
    (((pc >> 1) as usize) & 2047usize) as int
}

pub open spec fn spec_cacheable(pc: u64) -> bool {
    pc < 0x2000_0000
}

/// `raw` was read from `addr` by an access of `width` bytes (1, 2 or 4).
pub open spec fn raw_read<B: SystemBus>(b: B, addr: u64, width: u8, raw: u32, b2: B) -> bool {
    if width == 1 {
        raw < 256 && b.read8_post(addr, Some(raw as u8), b2)
    } else if width == 2 {
        raw < 65536 && b.read16_post(addr, Some(raw as u16), b2)
    } else {
        b.read32_post(addr, Some(raw), b2)
    }
}

/// A read of `width` bytes at `addr` failed.
pub open spec fn read_failed<B: SystemBus>(b: B, addr: u64, width: u8, b2: B) -> bool {
    if width == 1 {
        b.read8_post(addr, None, b2)
    } else if width == 2 {
        b.read16_post(addr, None, b2)
    } else {
        b.read32_post(addr, None, b2)
    }
}

/// The register value of a loaded datum: zero- or sign-extended.
pub open spec fn extend(raw: u32, width: u8, signed: bool) -> u32 {
    if signed && width == 1 {
        spec_sext8(raw)
    } else if signed && width == 2 {
        spec_sext16(raw)
    } else {
        raw
    }
}

/// A load into `rt` followed by PC += `n`; on a failed read nothing changes in the core.
pub open spec fn load_post<B: SystemBus>(
    s: CortexM3,
    b: B,
    addr: u64,
    width: u8,
    signed: bool,
    rt: int,
    n: u32,
    res: Option<bool>,
    s2: CortexM3,
    b2: B,
) -> bool {
    match res {
        Some(h) => h && exists|raw: u32|
            #[trigger] raw_read(b, addr, width, raw, b2) && s2.is_state(
                adv(s.registers@.update(rt, extend(raw, width, signed)), n),
                s.xpsr,
                s,
            ),
        None => read_failed(b, addr, width, b2) && s2.same(s),
    }
}

/// A store of the low `width` bytes of `value` followed by PC += `n`.
pub open spec fn store_post<B: SystemBus>(
    s: CortexM3,
    b: B,
    addr: u64,
    width: u8,
    value: u32,
    n: u32,
    res: Option<bool>,
    s2: CortexM3,
    b2: B,
) -> bool {
    let ok = res is Some;
    &&& if width == 1 {
        b.write8_post(addr, value as u8, ok, b2)
    } else if width == 2 {
        b.write16_post(addr, value as u16, ok, b2)
    } else {
        b.write32_post(addr, value, ok, b2)
    }
    &&& ok ==> res == Some(true) && s2.is_state(adv(s.registers@, n), s.xpsr, s)
    &&& !ok ==> s2.same(s)
}

/// Register and flag effect of the Thumb data-processing group (`opcode & 0xFC00 == 0x4000`).
pub open spec fn dp16(r: Seq<u32>, x: u32, opcode: u16) -> (Seq<u32>, u32) {
    let op = (opcode >> 6) & 0xF;
    let rm = ((opcode >> 3) & 0x7) as int;
    let rdn = (opcode & 0x7) as int;
    let a = r[rdn];
    let m = r[rm];
    let sh = m & 0xFF;
    if op == 0x0 {
        (r.update(rdn, a & m), nz(x, a & m))
    } else if op == 0x1 {
        (r.update(rdn, a ^ m), nz(x, a ^ m))
    } else if op == 0x2 {
        let res = if sh >= 32 { 0 } else { a << sh };
        (r.update(rdn, res), nz(x, res))
    } else if op == 0x3 {
        let res = if sh == 0 { a } else if sh >= 32 { 0 } else { a >> sh };
        (r.update(rdn, res), nz(x, res))
    } else if op == 0x4 {
        let res = if sh == 0 {
            a
        } else if sh >= 32 {
            if a & 0x8000_0000 != 0 { u32::MAX } else { 0 }
        } else {
            spec_asr32(a, sh)
        };
        (r.update(rdn, res), nz(x, res))
    } else if op == 0x5 {
        let cin: u32 = if (x >> 29) & 1 == 1 { 1 } else { 0 };
        let wide = a as int + m as int + cin as int;
        let res = a.wrapping_add(m).wrapping_add(cin);
        (
            r.update(rdn, res),
            overflow(
                carry(nz(x, res), wide > u32::MAX),
                ((a ^ res) & (m ^ res)) & 0x8000_0000 != 0,
            ),
        )
    } else if op == 0x6 {
        let cin: u32 = if (x >> 29) & 1 == 1 { 1 } else { 0 };
        let borrow = 1u32.wrapping_sub(cin);
        let rb = m.wrapping_add(borrow);
        let res = a.wrapping_sub(rb);
        (
            r.update(rdn, res),
            overflow(
                carry(nz(x, res), a as int >= m as int + borrow as int),
                ((a ^ rb) & (a ^ res)) & 0x8000_0000 != 0,
            ),
        )
    } else if op == 0x7 {
        let res = if sh == 0 { a } else { spec_rotr32(a, sh & 31) };
        (r.update(rdn, res), nz(x, res))
    } else if op == 0x8 {
        (r, nz(x, a & m))
    } else if op == 0x9 {
        let res = 0u32.wrapping_sub(m);
        (r.update(rdn, res), sub_flags(x, 0, m, res))
    } else if op == 0xA {
        (r, sub_flags(x, a, m, a.wrapping_sub(m)))
    } else if op == 0xB {
        (r, add_flags(x, a, m, a.wrapping_add(m)))
    } else if op == 0xC {
        (r.update(rdn, a | m), nz(x, a | m))
    } else if op == 0xD {
        (r.update(rdn, a.wrapping_mul(m)), nz(x, a.wrapping_mul(m)))
    } else if op == 0xE {
        (r.update(rdn, a & !m), nz(x, a & !m))
    } else {
        (r.update(rdn, !m), nz(x, !m))
    }
}

/// Effect of the special-data / branch-exchange group (`opcode & 0xFC00 == 0x4400`).
pub open spec fn special16(r: Seq<u32>, x: u32, opcode: u16) -> (Seq<u32>, u32) {
    let op = (opcode >> 8) & 0x3;
    let rm = ((opcode >> 3) & 0xF) as int;
    let rd = ((opcode & 0x7) | ((opcode >> 4) & 0x8)) as int;
    if op == 0 {
        let res = r[rd].wrapping_add(r[rm]);
        let r1 = r.update(rd, res);
        if rd == 15 {
            (r1.update(15, res & !1u32), x)
        } else {
            (adv(r1, 2), x)
        }
    } else if op == 1 {
        (adv(r, 2), sub_flags(x, r[rd], r[rm], r[rd].wrapping_sub(r[rm])))
    } else if op == 2 {
        let r1 = r.update(rd, r[rm]);
        if rd == 15 {
            (r1.update(15, r[rm] & !1u32), x)
        } else {
            (adv(r1, 2), x)
        }
    } else {
        let target = r[rm];
        let r1 = if opcode & 0x0080 != 0 {
            r.update(14, r[15].wrapping_add(2) | 1)
        } else {
            r
        };
        (r1.update(15, target & !1u32), thumb(x, target & 1 != 0))
    }
}

/// Sign-extended 11-bit branch offset, in bytes.
pub open spec fn b11_offset(opcode: u16) -> i32 {
    let imm11 = (opcode & 0x07FF) as i32;
    if imm11 >= 0x400 {
        ((imm11 - 2048) * 2) as i32
    } else {
        (imm11 * 2) as i32
    }
}

/// First dispatch stage of 16-bit instructions (`opcode & 0xF800` and the `0x4000`/`0x4400` groups).
pub open spec fn step16_a<B: SystemBus>(
    s: CortexM3,
    b: B,
    opcode: u16,
    res: Option<bool>,
    s2: CortexM3,
    b2: B,
) -> bool {
    let r = s.registers@;
    let x = s.xpsr;
    let hi = opcode & 0xF800;
    let rt8 = ((opcode >> 8) & 0x7) as int;
    let imm8 = (opcode & 0xFF) as u32;
    let imm5 = ((opcode >> 6) & 0x1F) as u32;
    let rn3 = ((opcode >> 3) & 0x7) as int;
    let rt3 = (opcode & 0x7) as int;
    let same_bus = b2 == b && res == Some(true);
    if hi == 0x4800 {
        load_post(s, b, (((r[15].wrapping_add(4)) & !3u32).wrapping_add(imm8 << 2)) as u64, 4, false, rt8, 2, res, s2, b2)
    } else if hi == 0xA000 {
        same_bus && s2.is_state(adv(r.update(rt8, ((r[15].wrapping_add(4)) & !3u32).wrapping_add(imm8 << 2)), 2), x, s)
    } else if hi == 0xA800 {
        same_bus && s2.is_state(adv(r.update(rt8, r[13].wrapping_add(imm8 << 2)), 2), x, s)
    } else if hi == 0x2000 {
        same_bus && s2.is_state(adv(r.update(rt8, imm8), 2), nz(x, imm8), s)
    } else if hi == 0x2800 {
        same_bus && s2.is_state(adv(r, 2), sub_flags(x, r[rt8], imm8, r[rt8].wrapping_sub(imm8)), s)
    } else if hi == 0x3000 {
        let v = r[rt8].wrapping_add(imm8);
        same_bus && s2.is_state(adv(r.update(rt8, v), 2), add_flags(x, v.wrapping_sub(imm8), imm8, v), s)
    } else if hi == 0x3800 {
        let v = r[rt8].wrapping_sub(imm8);
        same_bus && s2.is_state(adv(r.update(rt8, v), 2), sub_flags(x, v.wrapping_add(imm8), imm8, v), s)
    } else if hi == 0x6000 {
        store_post(s, b, r[rn3].wrapping_add(imm5 << 2) as u64, 4, r[rt3], 2, res, s2, b2)
    } else if hi == 0x6800 {
        load_post(s, b, r[rn3].wrapping_add(imm5 << 2) as u64, 4, false, rt3, 2, res, s2, b2)
    } else if hi == 0x7000 {
        store_post(s, b, r[rn3].wrapping_add(imm5) as u64, 1, r[rt3], 2, res, s2, b2)
    } else if hi == 0x7800 {
        load_post(s, b, r[rn3].wrapping_add(imm5) as u64, 1, false, rt3, 2, res, s2, b2)
    } else if hi == 0x8000 {
        store_post(s, b, r[rn3].wrapping_add(imm5 << 1) as u64, 2, r[rt3], 2, res, s2, b2)
    } else if hi == 0x8800 {
        load_post(s, b, r[rn3].wrapping_add(imm5 << 1) as u64, 2, false, rt3, 2, res, s2, b2)
    } else if hi == 0x9000 {
        store_post(s, b, r[13].wrapping_add(imm8 << 2) as u64, 4, r[rt8], 2, res, s2, b2)
    } else if hi == 0x9800 {
        load_post(s, b, r[13].wrapping_add(imm8 << 2) as u64, 4, false, rt8, 2, res, s2, b2)
    } else if hi == 0xE000 {
        same_bus && s2.is_state(r.update(15, r[15].wrapping_add(4).wrapping_add_signed(b11_offset(opcode))), x, s)
    } else if opcode & 0xFC00 == 0x4000 {
        let (r1, x1) = dp16(r, x, opcode);
        same_bus && s2.is_state(adv(r1, 2), x1, s)
    } else if opcode & 0xFC00 == 0x4400 {
        let (r1, x1) = special16(r, x, opcode);
        same_bus && s2.is_state(r1, x1, s)
    } else {
        b2 == b && res == Some(false) && s2.same(s)
    }
}

/// Indices below `n` of the bits set in `list`, in ascending order.
pub open spec fn sel(list: u32, n: nat) -> Seq<int>
    decreases n,
{
    if n == 0 {
        Seq::empty()
    } else if (list >> ((n - 1) as u32)) & 1 == 1 {
        sel(list, (n - 1) as nat).push(n - 1)
    } else {
        sel(list, (n - 1) as nat)
    }
}

pub proof fn lemma_sel_bounds(list: u32, n: nat)
    ensures
        sel(list, n).len() <= n,
        forall|k: int| 0 <= k < sel(list, n).len() ==> 0 <= #[trigger] sel(list, n)[k] < n,
    decreases n,
{
    if n > 0 {
        lemma_sel_bounds(list, (n - 1) as nat);
    }
}

pub proof fn lemma_sel_prefix(list: u32, m: nat, n: nat)
    requires
        m <= n,
    ensures
        sel(list, m).len() <= sel(list, n).len(),
        sel(list, n).take(sel(list, m).len() as int) =~= sel(list, m),
    decreases n,
{
    if m < n {
        lemma_sel_prefix(list, m, (n - 1) as nat);
    }
}

pub proof fn lemma_popcount_sel(list: u32, n: nat)
    ensures
        popcount_below(list, n) == sel(list, n).len(),
    decreases n,
{
    if n > 0 {
        lemma_popcount_sel(list, (n - 1) as nat);
    }
}

/// `base` advanced by `k` words (with 32-bit wrap-around).
pub open spec fn addr_after(base: u32, k: nat) -> u32
    decreases k,
{
    if k == 0 {
        base
    } else {
        addr_after(base, (k - 1) as nat).wrapping_add(4)
    }
}

/// Consecutive word stores of the registers `idx` from `base` upward.
pub open spec fn store_ops(r: Seq<u32>, idx: Seq<int>, base: u32) -> Seq<(u64, u32)> {
    Seq::new(idx.len(), |k: int| (addr_after(base, k as nat) as u64, r[idx[k]]))
}

/// Consecutive word loads of `vals` from `base` upward.
pub open spec fn word_ops(vals: Seq<u32>, base: u32) -> Seq<(u64, u32)> {
    Seq::new(vals.len(), |k: int| (addr_after(base, k as nat) as u64, vals[k]))
}

/// Registers and xPSR after loading `vals` into the registers `idx` in order; a load into
/// R15 clears bit 0 of the target and copies it into the Thumb bit.
pub open spec fn load_state(r: Seq<u32>, x: u32, idx: Seq<int>, vals: Seq<u32>) -> (Seq<u32>, u32)
    decreases vals.len(),
{
    if vals.len() == 0 || idx.len() == 0 {
        (r, x)
    } else {
        let (r1, x1) = load_state(r, x, idx.drop_last(), vals.drop_last());
        let i = idx.last();
        let v = vals.last();
        if i == 15 {
            (r1.update(15, v & !1u32), thumb(x1, v & 1 != 0))
        } else {
            (r1.update(i, v), x1)
        }
    }
}

/// Outcome of storing the registers selected by the low `n` bits of `list` from `base` upward:
/// on success `next` is the address after the last word; on failure some prefix was stored
/// and the next store failed.
pub open spec fn store_list_post<B: SystemBus>(
    r: Seq<u32>,
    b: B,
    base: u32,
    list: u32,
    n: nat,
    res: Option<u32>,
    b2: B,
) -> bool {
    let ops = store_ops(r, sel(list, n), base);
    match res {
        Some(next) => word_accesses(b, ops, false, b2) && next == addr_after(base, ops.len()),
        None => exists|k: int|
            0 <= k < ops.len() && #[trigger] word_accesses_fail(b, ops.take(k), ops[k], false, b2),
    }
}

/// Outcome of loading the registers selected by the low `n` bits of `list` from `base` upward.
pub open spec fn load_list_post<B: SystemBus>(
    r: Seq<u32>,
    x: u32,
    b: B,
    base: u32,
    list: u32,
    n: nat,
    res: Option<u32>,
    r2: Seq<u32>,
    x2: u32,
    b2: B,
) -> bool {
    let idx = sel(list, n);
    match res {
        Some(next) => exists|vals: Seq<u32>|
            vals.len() == idx.len() && #[trigger] word_accesses(b, word_ops(vals, base), true, b2)
                && (r2, x2) == load_state(r, x, idx, vals) && next == addr_after(base, vals.len()),
        None => exists|vals: Seq<u32>|
            vals.len() < idx.len() && #[trigger] word_accesses_fail(
                b,
                word_ops(vals, base),
                (addr_after(base, vals.len()) as u64, 0u32),
                true,
                b2,
            ) && (r2, x2) == load_state(r, x, idx.take(vals.len() as int), vals),
    }
}

/// Registers after an exception return that popped the frame `v` (R0-R3, R12, LR, PC, xPSR).
pub open spec fn frame_restore(r: Seq<u32>, v: Seq<u32>) -> Seq<u32> {
    r.update(0, v[0]).update(1, v[1]).update(2, v[2]).update(3, v[3]).update(12, v[4]).update(
        14,
        v[5],
    ).update(13, r[13].wrapping_add(32)).update(15, v[6] & !1u32)
}

/// Outcome of reading `count` consecutive words from `base`.
pub open spec fn read_words_post<B: SystemBus>(
    b: B,
    base: u32,
    count: nat,
    res: Option<Seq<u32>>,
    b2: B,
) -> bool {
    match res {
        Some(vals) => vals.len() == count && word_accesses(b, word_ops(vals, base), true, b2),
        None => exists|vals: Seq<u32>|
            vals.len() < count && #[trigger] word_accesses_fail(
                b,
                word_ops(vals, base),
                (addr_after(base, vals.len()) as u64, 0u32),
                true,
                b2,
            ),
    }
}

/// Outcome of writing `vals` to consecutive words from `base`.
pub open spec fn write_words_post<B: SystemBus>(
    b: B,
    base: u32,
    vals: Seq<u32>,
    ok: bool,
    b2: B,
) -> bool {
    if ok {
        word_accesses(b, word_ops(vals, base), false, b2)
    } else {
        exists|k: int|
            0 <= k < vals.len() && #[trigger] word_accesses_fail(
                b,
                word_ops(vals, base).take(k),
                word_ops(vals, base)[k],
                false,
                b2,
            )
    }
}

/// Exception return: the eight-word frame at SP is popped into R0-R3, R12, LR, PC and xPSR.
pub open spec fn exc_return_post<B: SystemBus>(
    r: Seq<u32>,
    x: u32,
    b: B,
    res: Option<bool>,
    r2: Seq<u32>,
    x2: u32,
    b2: B,
) -> bool {
    match res {
        Some(t) => t && exists|v: Seq<u32>|
            #[trigger] read_words_post(b, r[13], 8, Some(v), b2) && r2 == frame_restore(r, v) && x2
                == thumb(v[7], v[6] & 1 == 1),
        None => read_words_post(b, r[13], 8, None, b2) && r2 == r && x2 == x,
    }
}

/// Whether the first dispatch stage handles `opcode`.
pub open spec fn handled_a(opcode: u16) -> bool {
    let hi = opcode & 0xF800;
    hi == 0x4800 || hi == 0xA000 || hi == 0xA800 || hi == 0x2000 || hi == 0x2800 || hi == 0x3000
        || hi == 0x3800 || hi == 0x6000 || hi == 0x6800 || hi == 0x7000 || hi == 0x7800 || hi
        == 0x8000 || hi == 0x8800 || hi == 0x9000 || hi == 0x9800 || hi == 0xE000 || opcode
        & 0xFC00 == 0x4000 || opcode & 0xFC00 == 0x4400
}

/// PUSH {list, LR?}: SP drops by four bytes per register, then the registers are stored upward.
pub open spec fn push_post<B: SystemBus>(
    s: CortexM3,
    b: B,
    opcode: u16,
    res: Option<bool>,
    s2: CortexM3,
    b2: B,
) -> bool {
    let r = s.registers@;
    let list = (opcode & 0xFF) as u32;
    let lr = (opcode >> 8) & 1 == 1;
    let sp = push_sp(r, opcode);
    let r1 = r.update(13, sp);
    ||| exists|mid: B, a: u32|
        #[trigger] store_list_post(r1, b, sp, list, 8, Some(a), mid) && (if lr {
            mid.write32_post(a as u64, r1[14], res is Some, b2)
        } else {
            b2 == mid && res is Some
        }) && (res is Some ==> res == Some(true) && s2.is_state(adv(r1, 2), s.xpsr, s)) && (
        res is None ==> s2.is_state(r1, s.xpsr, s))
    ||| res is None && store_list_post(r1, b, sp, list, 8, None, b2) && s2.is_state(r1, s.xpsr, s)
}

/// Stack pointer after PUSH `opcode` reserved its words.
pub open spec fn push_sp(r: Seq<u32>, opcode: u16) -> u32 {
    let count = sel((opcode & 0xFF) as u32, 8).len() + if (opcode >> 8) & 1 == 1 {
        1int
    } else {
        0int
    };
    r[13].wrapping_sub((count * 4) as u32)
}

/// POP {list, PC?}: registers are loaded upward from SP; a popped EXC_RETURN value performs an
/// exception return.
pub open spec fn pop_post<B: SystemBus>(
    s: CortexM3,
    b: B,
    opcode: u16,
    res: Option<bool>,
    s2: CortexM3,
    b2: B,
) -> bool {
    let r = s.registers@;
    let x = s.xpsr;
    let list = (opcode & 0xFF) as u32;
    let pc_bit = (opcode >> 8) & 1 == 1;
    ||| res is None && exists|r2: Seq<u32>, x2: u32|
        #[trigger] load_list_post(r, x, b, r[13], list, 8, None, r2, x2, b2) && s2.is_state(
            r2,
            x2,
            s,
        )
    ||| exists|r2: Seq<u32>, x2: u32, mid: B, next: u32|
        #[trigger] load_list_post(r, x, b, r[13], list, 8, Some(next), r2, x2, mid) && if !pc_bit {
            b2 == mid && res == Some(true) && s2.is_state(adv(r2, 2).update(13, next), x2, s)
        } else {
            ||| res is None && mid.read32_post(next as u64, None, b2) && s2.is_state(r2, x2, s)
            ||| exists|target: u32, mid2: B|
                #[trigger] mid.read32_post(next as u64, Some(target), mid2) && if spec_is_exc_return(
                    target,
                ) {
                    let r3 = r2.update(13, next.wrapping_add(4));
                    &&& exc_return_post(r3, x2, mid2, res, s2.registers@, s2.xpsr, b2)
                    &&& s2.it_conds == s.it_conds
                    &&& s2.it_pos == s.it_pos
                    &&& s2.it_count == s.it_count
                    &&& s2.decode_cache@ == s.decode_cache@
                } else {
                    b2 == mid2 && res == Some(true) && s2.is_state(
                        r2.update(15, target & !1u32).update(13, next.wrapping_add(4)),
                        thumb(x2, target & 1 == 1),
                        s,
                    )
                }
        }
}

/// LDMIA/STMIA Rn!, {list} (16-bit): registers transferred upward from Rn, then Rn gets the
/// address after the last word.
pub open spec fn ldm_stm16_post<B: SystemBus>(
    s: CortexM3,
    b: B,
    opcode: u16,
    res: Option<bool>,
    s2: CortexM3,
    b2: B,
) -> bool {
    let r = s.registers@;
    let x = s.xpsr;
    let rn = ((opcode >> 8) & 0x7) as int;
    let list = (opcode & 0xFF) as u32;
    if opcode & 0x0800 == 0 {
        exists|a: Option<u32>|
            #[trigger] store_list_post(r, b, r[rn], list, 8, a, b2) && match a {
                Some(next) => res == Some(true) && s2.is_state(adv(r.update(rn, next), 2), x, s),
                None => res is None && s2.same(s),
            }
    } else {
        exists|a: Option<u32>, r2: Seq<u32>, x2: u32|
            #[trigger] load_list_post(r, x, b, r[rn], list, 8, a, r2, x2, b2) && match a {
                Some(next) => res == Some(true) && s2.is_state(adv(r2.update(rn, next), 2), x2, s),
                None => res is None && s2.is_state(r2, x2, s),
            }
    }
}

/// Remaining 16-bit dispatch stages, for opcodes the first stage leaves alone.
pub open spec fn step16_rest<B: SystemBus>(
    s: CortexM3,
    b: B,
    opcode: u16,
    res: Option<bool>,
    s2: CortexM3,
    b2: B,
) -> bool {
    let r = s.registers@;
    let x = s.xpsr;
    let rd = (opcode & 0x7) as int;
    let rn = ((opcode >> 3) & 0x7) as int;
    let rm = ((opcode >> 6) & 0x7) as int;
    let imm3 = ((opcode >> 6) & 0x7) as u32;
    let imm5 = ((opcode >> 6) & 0x1F) as u32;
    let ok_same = b2 == b && res == Some(true);
    let f = opcode & 0xFE00;
    let raddr = r[rn].wrapping_add(r[rm]) as u64;
    if f == 0x1C00 {
        let v = r[rn].wrapping_add(imm3);
        let r1 = r.update(rd, v);
        ok_same && s2.is_state(adv(r1, 2), add_flags(x, r1[rn], imm3, v), s)
    } else if f == 0x1E00 {
        let v = r[rn].wrapping_sub(imm3);
        let r1 = r.update(rd, v);
        ok_same && s2.is_state(adv(r1, 2), sub_flags(x, r1[rn], imm3, v), s)
    } else if f == 0x1A00 {
        let v = r[rn].wrapping_sub(r[rm]);
        let r1 = r.update(rd, v);
        ok_same && s2.is_state(adv(r1, 2), sub_flags(x, r1[rn], r1[rm], v), s)
    } else if f == 0x5000 {
        store_post(s, b, raddr, 4, r[rd], 2, res, s2, b2)
    } else if f == 0x5200 {
        store_post(s, b, raddr, 2, r[rd], 2, res, s2, b2)
    } else if f == 0x5400 {
        store_post(s, b, raddr, 1, r[rd], 2, res, s2, b2)
    } else if f == 0x5600 {
        load_post(s, b, raddr, 1, true, rd, 2, res, s2, b2)
    } else if f == 0x5800 {
        load_post(s, b, raddr, 4, false, rd, 2, res, s2, b2)
    } else if f == 0x5A00 {
        load_post(s, b, raddr, 2, false, rd, 2, res, s2, b2)
    } else if f == 0x5C00 {
        load_post(s, b, raddr, 1, false, rd, 2, res, s2, b2)
    } else if f == 0x5E00 {
        load_post(s, b, raddr, 2, true, rd, 2, res, s2, b2)
    } else if f == 0xB400 {
        push_post(s, b, opcode, res, s2, b2)
    } else if f == 0xBC00 {
        pop_post(s, b, opcode, res, s2, b2)
    } else if opcode & 0xF800 == 0x0800 {
        let v = if imm5 == 0 { 0 } else { r[rn] >> imm5 };
        ok_same && s2.is_state(adv(r.update(rd, v), 2), nz(x, v), s)
    } else if opcode & 0xF800 == 0x0000 {
        let v = r[rn] << imm5;
        ok_same && s2.is_state(adv(r.update(rd, v), 2), nz(x, v), s)
    } else if opcode & 0xF800 == 0x1800 {
        let v = r[rn].wrapping_add(r[rm]);
        ok_same && s2.is_state(adv(r.update(rd, v), 2), add_flags(x, r[rn], r[rm], v), s)
    } else if opcode & 0xF000 == 0xD000 && opcode & 0x0F00 != 0x0F00 {
        let cond = ((opcode >> 8) & 0xF) as u8;
        let imm8 = (opcode & 0xFF) as int;
        let off = ((if imm8 >= 128 { imm8 - 256 } else { imm8 }) * 2 + 4) as i32;
        ok_same && s2.is_state(
            if cond_holds(x, cond) {
                r.update(15, r[15].wrapping_add_signed(off))
            } else {
                adv(r, 2)
            },
            x,
            s,
        )
    } else if opcode & 0xF000 == 0xC000 {
        ldm_stm16_post(s, b, opcode, res, s2, b2)
    } else if opcode & 0xFF00 == 0xBF00 && opcode & 0xF == 0x8 {
        b2 == b && res == Some(true) && it_started(s, ((opcode >> 4) & 0xF) as u8, 1, s2)
    } else if opcode & 0xFF00 == 0xBF00 && opcode & 0xF != 0 {
        let mask = (opcode & 0xF) as u8;
        let cond = ((opcode >> 4) & 0xF) as u8;
        if mask == 0x4 || mask == 0xC {
            b2 == b && res == Some(true) && it_started(s, cond, 2, s2)
        } else {
            b2 == b && res is None && s2.same(s)
        }
    } else if opcode & 0xFFC0 == 0xB2C0 {
        ok_same && s2.is_state(adv(r.update(rd, r[rn] & 0xFF), 2), x, s)
    } else if opcode & 0xFFC0 == 0xB280 {
        ok_same && s2.is_state(adv(r.update(rd, r[rn] & 0xFFFF), 2), x, s)
    } else if opcode & 0xFFC0 == 0xBA00 {
        ok_same && s2.is_state(adv(r.update(rd, spec_swap_bytes32(r[rn])), 2), x, s)
    } else if opcode & 0xFFC0 == 0xBA40 {
        let v = r[rn];
        ok_same && s2.is_state(
            adv(r.update(rd, ((v & 0x00FF_00FF) << 8) | ((v & 0xFF00_FF00) >> 8)), 2),
            x,
            s,
        )
    } else if opcode & 0xFFC0 == 0xBAC0 {
        let v = r[rn];
        let low = ((v & 0x00FF) << 8) | ((v >> 8) & 0x00FF);
        ok_same && s2.is_state(adv(r.update(rd, spec_sext16(low)), 2), x, s)
    } else if opcode & 0xF500 == 0xB100 {
        let value = r[rd];
        let off = ((((opcode >> 3) & 0x1F) as u32) << 1 | (((opcode >> 9) & 1) as u32) << 6)
            as i32 + 4;
        let taken = if (opcode >> 11) & 1 == 0 { value == 0 } else { value != 0 };
        ok_same && s2.is_state(
            if taken {
                r.update(15, r[15].wrapping_add_signed(off as i32))
            } else {
                adv(r, 2)
            },
            x,
            s,
        )
    } else if opcode & 0xFF80 == 0xB080 {
        ok_same && s2.is_state(adv(r.update(13, r[13].wrapping_sub(((opcode & 0x7F) as u32) << 2)), 2), x, s)
    } else if opcode & 0xFF80 == 0xB000 {
        ok_same && s2.is_state(adv(r.update(13, r[13].wrapping_add(((opcode & 0x7F) as u32) << 2)), 2), x, s)
    } else if opcode == 0xB672 || opcode == 0xB662 || opcode == 0xBF00 || opcode == 0xBF30 {
        ok_same && s2.is_state(adv(r, 2), x, s)
    } else {
        b2 == b && res is None && s2.same(s)
    }
}

/// An IT block of `count` instructions under `cond` has been opened and the PC advanced.
pub open spec fn it_started(s: CortexM3, cond: u8, count: u8, s2: CortexM3) -> bool {
    &&& s2.registers@ == adv(s.registers@, 2)
    &&& s2.xpsr == s.xpsr
    &&& s2.decode_cache@ == s.decode_cache@
    &&& s2.it_pos == 0
    &&& s2.it_count == count
    &&& forall|i: int| 0 <= i < count ==> s2.it_conds[i] == cond
    &&& forall|i: int| count <= i < 4 ==> s2.it_conds[i] == s.it_conds[i]
}

/// Full semantics of a 16-bit instruction.
pub open spec fn step16_post<B: SystemBus>(
    s: CortexM3,
    b: B,
    opcode: u16,
    res: Option<bool>,
    s2: CortexM3,
    b2: B,
) -> bool {
    if handled_a(opcode) {
        step16_a(s, b, opcode, res, s2, b2)
    } else {
        step16_rest(s, b, opcode, res, s2, b2)
    }
}

// ----------------------------------------------------------------------------
// 32-bit (Thumb-2) instructions
// ----------------------------------------------------------------------------
/// LDR/STR forms decoded by the second dispatch stage: (kind, address, writeback).
/// A load or store of `width` bytes; `wb` is the new base-register value when written back.
pub open spec fn ldst32_post<B: SystemBus>(
    s: CortexM3,
    b: B,
    is_load: bool,
    addr: u32,
    width: u8,
    signed: bool,
    rt: int,
    rn: int,
    wb: Option<u32>,
    res: Option<bool>,
    s2: CortexM3,
    b2: B,
) -> bool {
    let r = s.registers@;
    if is_load {
        match res {
            Some(h) => h && exists|raw: u32|
                #[trigger] raw_read(b, addr as u64, width, raw, b2) && s2.is_state(
                    {
                        let r1 = r.update(rt, extend(raw, width, signed));
                        adv(
                            match wb {
                                Some(d) => r1.update(rn, r1[rn].wrapping_add(d)),
                                None => r1,
                            },
                            4,
                        )
                    },
                    s.xpsr,
                    s,
                ),
            None => read_failed(b, addr as u64, width, b2) && s2.same(s),
        }
    } else {
        let ok = res is Some;
        &&& if width == 1 {
            b.write8_post(addr as u64, r[rt] as u8, ok, b2)
        } else if width == 2 {
            b.write16_post(addr as u64, r[rt] as u16, ok, b2)
        } else {
            b.write32_post(addr as u64, r[rt], ok, b2)
        }
        &&& ok ==> res == Some(true) && s2.is_state(
            adv(
                match wb {
                    Some(a) => r.update(rn, a),
                    None => r,
                },
                4,
            ),
            s.xpsr,
            s,
        )
        &&& !ok ==> s2.same(s)
    }
}

/// Whether the first Thumb-2 stage handles the pair.
pub open spec fn handled_32a(opcode: u16) -> bool {
    opcode & 0xFF00 == 0xEA00 || opcode & 0xFF00 == 0xEB00 || opcode & 0xFFF0 == 0xE880 || opcode
        & 0xFFF0 == 0xE890 || opcode & 0xFFF0 == 0xE8A0 || opcode & 0xFFF0 == 0xE8B0 || opcode
        & 0xFFF0 == 0xE9C0 || opcode & 0xFFF0 == 0xE9D0
}

/// First Thumb-2 stage: shifted-register AND/ADD, LDM/STM, LDRD/STRD.
pub open spec fn step32_a<B: SystemBus>(
    s: CortexM3,
    b: B,
    opcode: u16,
    opcode2: u16,
    res: Option<bool>,
    s2: CortexM3,
    b2: B,
) -> bool {
    let r = s.registers@;
    let x = s.xpsr;
    let rn = (opcode & 0xF) as int;
    let rd = ((opcode2 >> 8) & 0xF) as int;
    let rm = (opcode2 & 0xF) as int;
    let imm5 = ((((opcode2 >> 12) & 0x7) as u32) << 2) | (((opcode2 >> 6) & 0x3) as u32);
    let shifted = spec_shift_imm(r[rm], (opcode2 >> 4) & 0x3, imm5);
    let f = opcode & 0xFFF0;
    if opcode & 0xFF00 == 0xEA00 {
        b2 == b && res == Some(true) && if rn == 15 {
            s2.is_state(adv(r, 4), nz(x, shifted), s)
        } else {
            s2.is_state(adv(r.update(rd, r[rn] & shifted), 4), x, s)
        }
    } else if opcode & 0xFF00 == 0xEB00 {
        let v = r[rn].wrapping_add(shifted);
        b2 == b && res == Some(true) && if rd == 15 {
            s2.is_state(adv(r, 4), add_flags(x, r[rn], shifted, v), s)
        } else {
            s2.is_state(adv(r.update(rd, v), 4), x, s)
        }
    } else if f == 0xE880 || f == 0xE890 || f == 0xE8A0 || f == 0xE8B0 {
        ldm_stm32_post(s, b, opcode, opcode2, res, s2, b2)
    } else if f == 0xE9C0 {
        strd_post(s, b, opcode, opcode2, res, s2, b2)
    } else {
        ldrd_post(s, b, opcode, opcode2, res, s2, b2)
    }
}

/// LDM/STM (Thumb-2, increment after), with optional write-back.
pub open spec fn ldm_stm32_post<B: SystemBus>(
    s: CortexM3,
    b: B,
    opcode: u16,
    opcode2: u16,
    res: Option<bool>,
    s2: CortexM3,
    b2: B,
) -> bool {
    let r = s.registers@;
    let x = s.xpsr;
    let rn = (opcode & 0xF) as int;
    let rd = ((opcode2 >> 8) & 0xF) as int;
    let f = opcode & 0xFFF0;
    let list = opcode2 as u32;
    let writeback = f == 0xE8A0 || f == 0xE8B0;
    let is_load = f == 0xE890 || f == 0xE8B0;
    let count = sel(list, 16).len();
    let fin = |r2: Seq<u32>|
        {
            let r3 = if writeback {
                r2.update(rn, r2[rn].wrapping_add((count * 4) as u32))
            } else {
                r2
            };
            if !is_load || (list & 0x8000) == 0 {
                adv(r3, 4)
            } else {
                r3
            }
        };
    if is_load {
        exists|a: Option<u32>, r2: Seq<u32>, x2: u32|
            #[trigger] load_list_post(r, x, b, r[rn], list, 16, a, r2, x2, b2) && match a {
                Some(_) => res == Some(true) && s2.is_state(fin(r2), x2, s),
                None => res is None && s2.is_state(r2, x2, s),
            }
    } else {
        exists|a: Option<u32>|
            #[trigger] store_list_post(r, b, r[rn], list, 16, a, b2) && match a {
                Some(_) => res == Some(true) && s2.is_state(fin(r), x, s),
                None => res is None && s2.same(s),
            }
    }
}

/// STRD with an immediate offset: two word stores.
pub open spec fn strd_post<B: SystemBus>(
    s: CortexM3,
    b: B,
    opcode: u16,
    opcode2: u16,
    res: Option<bool>,
    s2: CortexM3,
    b2: B,
) -> bool {
    let r = s.registers@;
    let x = s.xpsr;
    let rn = (opcode & 0xF) as int;
    let rd = ((opcode2 >> 8) & 0xF) as int;
    let rt = ((opcode2 >> 12) & 0xF) as int;
    let addr = r[rn].wrapping_add(((opcode2 & 0xFF) as u32) << 2);
    ||| res is None && b.write32_post(addr as u64, r[rt], false, b2) && s2.same(s)
    ||| exists|mid: B|
        #[trigger] b.write32_post(addr as u64, r[rt], true, mid) && mid.write32_post(
            addr.wrapping_add(4) as u64,
            r[rd],
            res is Some,
            b2,
        ) && (res is Some ==> res == Some(true) && s2.is_state(adv(r, 4), x, s)) && (res is None
            ==> s2.same(s))
}

/// LDRD with an immediate offset: two word loads.
pub open spec fn ldrd_post<B: SystemBus>(
    s: CortexM3,
    b: B,
    opcode: u16,
    opcode2: u16,
    res: Option<bool>,
    s2: CortexM3,
    b2: B,
) -> bool {
    let r = s.registers@;
    let x = s.xpsr;
    let rn = (opcode & 0xF) as int;
    let rd = ((opcode2 >> 8) & 0xF) as int;
    let rt = ((opcode2 >> 12) & 0xF) as int;
    let addr = r[rn].wrapping_add(((opcode2 & 0xFF) as u32) << 2);
    ||| res is None && b.read32_post(addr as u64, None, b2) && s2.same(s)
    ||| exists|v1: u32, mid: B|
        #[trigger] b.read32_post(addr as u64, Some(v1), mid) && match res {
            None => mid.read32_post(addr.wrapping_add(4) as u64, None, b2) && s2.is_state(
                r.update(rt, v1),
                x,
                s,
            ),
            Some(h) => h && exists|v2: u32|
                #[trigger] mid.read32_post(addr.wrapping_add(4) as u64, Some(v2), b2)
                    && s2.is_state(adv(r.update(rt, v1).update(rd, v2), 4), x, s),
        }
}

/// MUL/MLA/MLS with an unknown sub-opcode ends decoding without handling the instruction.
pub open spec fn mul_unknown(opcode: u16, opcode2: u16) -> bool {
    opcode & 0xF000 == 0xF000 && opcode & 0xFFF0 == 0xFB00 && opcode2 & 0x00F0 != 0x0000
        && opcode2 & 0x00F0 != 0x0010
}

/// Whether the load/store/multiply stage handles the pair.
pub open spec fn handled_32b(opcode: u16, opcode2: u16) -> bool {
    let f = opcode & 0xFFF0;
    let mid = opcode2 & 0x0F00;
    let low = opcode2 & 0x00F0;
    let sp = (opcode & 0xF) == 13;
    opcode & 0xF000 == 0xF000 && (f == 0xF880 || f == 0xF890 || f == 0xF990 || (f == 0xF910 && (
    mid == 0x0C00 || low == 0)) || f == 0xF8C0 || (f == 0xF840 && ((sp && mid == 0x0D00) || mid
        == 0x0C00 || low == 0)) || (f == 0xF850 && ((sp && mid == 0x0B00) || mid == 0x0C00 || low
        != 0)) || f == 0xF8D0 || (f == 0xF800 && (mid == 0x0C00 || low == 0)) || (f == 0xF810 && (
    mid == 0x0C00 || mid == 0x0B00 || low == 0)) || (f == 0xF820 && (mid == 0x0C00 || low == 0
        || low == 0x10)) || (f == 0xF830 && (mid == 0x0C00 || low == 0 || low == 0x10)) || f
        == 0xF8A0 || f == 0xF8B0 || ((f == 0xFA00 || f == 0xFA10 || f == 0xFA40 || f == 0xFA50)
        && (opcode == 0xFA0F || opcode == 0xFA1F || opcode == 0xFA4F || opcode == 0xFA5F) && (
    opcode2 & 0xFF00) == 0xF800) || f == 0xFBA0 || (f == 0xFB00 && (low == 0 || low == 0x10)) || (
    f == 0xFBB0 && opcode2 & 0xF0F0 == 0xF0F0))
}

/// Load/store (immediate and register offsets), extends, long multiply, multiply-accumulate,
/// unsigned divide.
pub open spec fn step32_b<B: SystemBus>(
    s: CortexM3,
    b: B,
    opcode: u16,
    opcode2: u16,
    res: Option<bool>,
    s2: CortexM3,
    b2: B,
) -> bool {
    let r = s.registers@;
    let x = s.xpsr;
    let f = opcode & 0xFFF0;
    let mid = opcode2 & 0x0F00;
    let low = opcode2 & 0x00F0;
    let rn = (opcode & 0xF) as int;
    let rt = ((opcode2 >> 12) & 0xF) as int;
    let rm = (opcode2 & 0xF) as int;
    let rd = ((opcode2 >> 8) & 0xF) as int;
    let imm12 = (opcode2 & 0x0FFF) as u32;
    let imm8 = (opcode2 & 0xFF) as u32;
    let sh = ((opcode2 >> 4) & 0x3) as u32;
    let a12 = r[rn].wrapping_add(imm12);
    let am8 = r[rn].wrapping_sub(imm8);
    let areg = r[rn].wrapping_add(r[rm] << sh);
    let sp = (opcode & 0xF) == 13;
    let same = b2 == b && res == Some(true);
    if f == 0xF880 {
        ldst32_post(s, b, false, a12, 1, false, rt, rn, None, res, s2, b2)
    } else if f == 0xF890 {
        ldst32_post(s, b, true, a12, 1, false, rt, rn, None, res, s2, b2)
    } else if f == 0xF990 {
        ldst32_post(s, b, true, a12, 1, true, rt, rn, None, res, s2, b2)
    } else if f == 0xF910 && mid == 0x0C00 {
        ldst32_post(s, b, true, am8, 1, true, rt, rn, None, res, s2, b2)
    } else if f == 0xF910 && low == 0 {
        ldst32_post(s, b, true, areg, 1, true, rt, rn, None, res, s2, b2)
    } else if f == 0xF8C0 {
        ldst32_post(s, b, false, a12, 4, false, rt, rn, None, res, s2, b2)
    } else if f == 0xF840 && sp && mid == 0x0D00 {
        ldst32_post(s, b, false, am8, 4, false, rt, rn, Some(am8), res, s2, b2)
    } else if f == 0xF840 && mid == 0x0C00 {
        ldst32_post(s, b, false, am8, 4, false, rt, rn, None, res, s2, b2)
    } else if f == 0xF840 && low == 0 {
        ldst32_post(s, b, false, areg, 4, false, rt, rn, None, res, s2, b2)
    } else if f == 0xF850 && sp && mid == 0x0B00 {
        ldst32_post(s, b, true, r[rn], 4, false, rt, rn, Some(imm8), res, s2, b2)
    } else if f == 0xF850 && mid == 0x0C00 {
        ldst32_post(s, b, true, am8, 4, false, rt, rn, None, res, s2, b2)
    } else if f == 0xF850 && low != 0 {
        ldst32_post(s, b, true, areg, 4, false, rt, rn, None, res, s2, b2)
    } else if f == 0xF8D0 {
        ldst32_post(s, b, true, a12, 4, false, rt, rn, None, res, s2, b2)
    } else if f == 0xF800 && mid == 0x0C00 {
        ldst32_post(s, b, false, am8, 1, false, rt, rn, None, res, s2, b2)
    } else if f == 0xF800 && low == 0 {
        ldst32_post(s, b, false, areg, 1, false, rt, rn, None, res, s2, b2)
    } else if f == 0xF810 && mid == 0x0C00 {
        ldst32_post(s, b, true, am8, 1, false, rt, rn, None, res, s2, b2)
    } else if f == 0xF810 && mid == 0x0B00 {
        ldst32_post(s, b, true, r[rn], 1, false, rt, rn, Some(imm8), res, s2, b2)
    } else if f == 0xF810 && low == 0 {
        ldst32_post(s, b, true, areg, 1, false, rt, rn, None, res, s2, b2)
    } else if f == 0xF820 && mid == 0x0C00 {
        ldst32_post(s, b, false, am8, 2, false, rt, rn, None, res, s2, b2)
    } else if f == 0xF820 && (low == 0 || low == 0x10) {
        ldst32_post(s, b, false, areg, 2, false, rt, rn, None, res, s2, b2)
    } else if f == 0xF830 && mid == 0x0C00 {
        ldst32_post(s, b, true, am8, 2, false, rt, rn, None, res, s2, b2)
    } else if f == 0xF830 && (low == 0 || low == 0x10) {
        ldst32_post(s, b, true, areg, 2, false, rt, rn, None, res, s2, b2)
    } else if f == 0xF8A0 {
        ldst32_post(s, b, false, a12, 2, false, rt, rn, None, res, s2, b2)
    } else if f == 0xF8B0 {
        ldst32_post(s, b, true, a12, 2, false, rt, rn, None, res, s2, b2)
    } else if f == 0xFA00 || f == 0xFA10 || f == 0xFA40 || f == 0xFA50 {
        let val = spec_rotr32(r[rm], ((((opcode2 >> 4) & 0x3) as u32) * 8) as u32);
        let v = if opcode == 0xFA0F {
            spec_sext16(val)
        } else if opcode == 0xFA1F {
            val & 0xFFFF
        } else if opcode == 0xFA4F {
            spec_sext8(val)
        } else {
            val & 0xFF
        };
        same && s2.is_state(adv(r.update(rd, v), 4), x, s)
    } else if f == 0xFBA0 {
        let p: u64 = ((r[rn] as u64) * (r[rm] as u64)) as u64;
        same && s2.is_state(
            adv(r.update(rt, (p & 0xFFFF_FFFF) as u32).update(rd, (p >> 32) as u32), 4),
            x,
            s,
        )
    } else if f == 0xFB00 {
        let v = if low == 0 {
            let m = r[rn].wrapping_mul(r[rm]);
            if rt != 15 {
                m.wrapping_add(r[rt])
            } else {
                m
            }
        } else {
            r[rt].wrapping_sub(r[rn].wrapping_mul(r[rm]))
        };
        same && s2.is_state(adv(r.update(rd, v), 4), x, s)
    } else {
        if r[rm] == 0 {
            b2 == b && res is None && s2.same(s)
        } else {
            same && s2.is_state(adv(r.update(rd, r[rn] / r[rm]), 4), x, s)
        }
    }
}

/// Thumb-2 modified immediate of the pair.
pub open spec fn imm32_of(opcode: u16, opcode2: u16) -> u32 {
    spec_thumb_expand_imm12(
        ((((opcode >> 10) & 1) as u32) << 11) | ((((opcode2 >> 12) & 0x7) as u32) << 8) | (opcode2
            & 0xFF) as u32,
    )
}

/// 16-bit immediate of MOVW/MOVT.
pub open spec fn imm16_of(opcode: u16, opcode2: u16) -> u32 {
    (((opcode & 0xF) as u32) << 12) | ((((opcode >> 10) & 1) as u32) << 11) | ((((opcode2 >> 12)
        & 0x7) as u32) << 8) | (opcode2 & 0xFF) as u32
}

/// Whether the bit-field / wide-immediate stage handles the pair.
pub open spec fn handled_32c(opcode: u16) -> bool {
    let g = opcode & 0xFBF0;
    opcode & 0xF000 == 0xF000 && (g == 0xF3C0 || g == 0xF360 || g == 0xF240 || g == 0xF2C0 || g
        == 0xF100 || g == 0xF1C0 || opcode & 0xFBE0 == 0xF1A0)
}

/// UBFX, BFI/BFC, MOVW, MOVT, ADD/RSB/SUB with a modified immediate.
pub open spec fn step32_c<B: SystemBus>(
    s: CortexM3,
    b: B,
    opcode: u16,
    opcode2: u16,
    res: Option<bool>,
    s2: CortexM3,
    b2: B,
) -> bool {
    let r = s.registers@;
    let x = s.xpsr;
    let g = opcode & 0xFBF0;
    let rn = (opcode & 0xF) as int;
    let rd = ((opcode2 >> 8) & 0xF) as int;
    let lsb = ((((opcode2 >> 12) & 0x7) as u32) << 2) | (((opcode2 >> 6) & 0x3) as u32);
    let same = b2 == b && res == Some(true);
    let imm32 = imm32_of(opcode, opcode2);
    if g == 0xF3C0 {
        let width = ((opcode2 & 0x1F) as u32) + 1;
        let mask = if width >= 32 { u32::MAX } else { ((1u32 << width) - 1) as u32 };
        same && s2.is_state(adv(r.update(rd, (r[rn] >> lsb) & mask), 4), x, s)
    } else if g == 0xF360 {
        let msb = (opcode2 & 0x1F) as u32;
        if msb < lsb {
            b2 == b && res is None && s2.same(s)
        } else {
            let width = (msb - lsb + 1) as u32;
            let fmask = if width >= 32 { u32::MAX } else { (((1u32 << width) - 1) as u32) << lsb };
            let v = if rn == 15 {
                r[rd] & !fmask
            } else {
                (r[rd] & !fmask) | ((r[rn] << lsb) & fmask)
            };
            same && s2.is_state(adv(r.update(rd, v), 4), x, s)
        }
    } else if g == 0xF240 {
        same && s2.is_state(adv(r.update(rd, imm16_of(opcode, opcode2)), 4), x, s)
    } else if g == 0xF2C0 {
        same && s2.is_state(
            adv(r.update(rd, (r[rd] & 0x0000_FFFF) | (imm16_of(opcode, opcode2) << 16)), 4),
            x,
            s,
        )
    } else if g == 0xF100 {
        let v = r[rn].wrapping_add(imm32);
        same && if rd == 15 {
            s2.is_state(adv(r, 4), add_flags(x, r[rn], imm32, v), s)
        } else {
            s2.is_state(adv(r.update(rd, v), 4), x, s)
        }
    } else if g == 0xF1C0 {
        same && s2.is_state(adv(r.update(rd, imm32.wrapping_sub(r[rn])), 4), x, s)
    } else {
        let v = r[rn].wrapping_sub(imm32);
        same && if rd == 15 {
            s2.is_state(adv(r, 4), sub_flags(x, r[rn], imm32, v), s)
        } else {
            let r1 = r.update(rd, v);
            s2.is_state(
                adv(r1, 4),
                if (opcode & 0x0010) != 0 {
                    sub_flags(x, r1[rn], imm32, v)
                } else {
                    x
                },
                s,
            )
        }
    }
}

/// Whether the CLZ / STMDB / table-branch stage handles the pair.
pub open spec fn handled_32d(opcode: u16, opcode2: u16) -> bool {
    (opcode & 0xFFB0 == 0xFAB0 && opcode2 & 0xF0F0 == 0xF080) || opcode & 0xFFF0 == 0xE920 || (
    opcode & 0xFFF0 == 0xE8D0 && opcode2 & 0xFFF0 == 0xF000)
}

/// CLZ, STMDB, TBB/TBH.
pub open spec fn step32_d<B: SystemBus>(
    s: CortexM3,
    b: B,
    opcode: u16,
    opcode2: u16,
    res: Option<bool>,
    s2: CortexM3,
    b2: B,
) -> bool {
    let r = s.registers@;
    let x = s.xpsr;
    let rn = (opcode & 0xF) as int;
    let rm = (opcode2 & 0xF) as int;
    let rd = ((opcode2 >> 8) & 0xF) as int;
    if opcode & 0xFFB0 == 0xFAB0 && opcode2 & 0xF0F0 == 0xF080 {
        b2 == b && res == Some(true) && s2.is_state(adv(r.update(rd, r[rm].leading_zeros()), 4), x, s)
    } else if opcode & 0xFFF0 == 0xE920 {
        stmdb_post(s, b, opcode, opcode2, res, s2, b2)
    } else {
        table_branch_post(s, b, opcode, opcode2, res, s2, b2)
    }
}

/// STMDB (PUSH.W): the registers of the list stored below the base, which is then lowered.
pub open spec fn stmdb_post<B: SystemBus>(
    s: CortexM3,
    b: B,
    opcode: u16,
    opcode2: u16,
    res: Option<bool>,
    s2: CortexM3,
    b2: B,
) -> bool {
    let r = s.registers@;
    let x = s.xpsr;
    let rn = (opcode & 0xF) as int;
    let list = opcode2 as u32;
    let dec = (sel(list, 16).len() * 4) as u32;
    let base = r[rn].wrapping_sub(dec);
    exists|a: Option<u32>|
        #[trigger] store_list_post(r, b, base, list, 16, a, b2) && match a {
            Some(_) => res == Some(true) && s2.is_state(adv(r.update(rn, base), 4), x, s),
            None => res is None && s2.same(s),
        }
}

/// Base of a TBB/TBH table: the register `Rn`, or the address after the instruction for the PC.
pub open spec fn table_base(r: Seq<u32>, opcode: u16) -> u32 {
    if (opcode & 0xF) == 15 {
        r[15].wrapping_add(4)
    } else {
        r[(opcode & 0xF) as int]
    }
}

/// TBB/TBH: a forward branch by twice the byte or halfword read from a table.
pub open spec fn table_branch_post<B: SystemBus>(
    s: CortexM3,
    b: B,
    opcode: u16,
    opcode2: u16,
    res: Option<bool>,
    s2: CortexM3,
    b2: B,
) -> bool {
    let r = s.registers@;
    let x = s.xpsr;
    let rn = (opcode & 0xF) as int;
    let rm = (opcode2 & 0xF) as int;
    let next_pc = r[15].wrapping_add(4);
    let base = table_base(r, opcode);
    if (opcode2 & 0x0010) == 0 {
        let addr = base.wrapping_add(r[rm]) as u64;
        match res {
            None => b.read8_post(addr, None, b2) && s2.same(s),
            Some(h) => h && exists|v: u8|
                #[trigger] b.read8_post(addr, Some(v), b2) && s2.is_state(
                    r.update(15, next_pc.wrapping_add((v as u32) << 1)),
                    x,
                    s,
                ),
        }
    } else {
        let addr = base.wrapping_add(r[rm] << 1) as u64;
        match res {
            None => b.read16_post(addr, None, b2) && s2.same(s),
            Some(h) => h && exists|v: u16|
                #[trigger] b.read16_post(addr, Some(v), b2) && s2.is_state(
                    r.update(15, next_pc.wrapping_add((v as u32) << 1)),
                    x,
                    s,
                ),
        }
    }
}

/// Sign-extended 21-bit conditional-branch offset of the pair.
pub open spec fn bcond_offset(opcode: u16, opcode2: u16) -> i32 {
    let imm21 = ((((opcode >> 10) & 1) as u32) << 20) | ((((opcode2 >> 11) & 1) as u32) << 19) | (((
    (opcode2 >> 13) & 1) as u32) << 18) | (((opcode & 0x3F) as u32) << 12) | (((opcode2 & 0x07FF)
        as u32) << 1);
    if imm21 >= 0x10_0000 {
        (imm21 as int - 0x20_0000) as i32
    } else {
        imm21 as i32
    }
}

/// Sign-extended 25-bit BL offset of the pair.
pub open spec fn bl_offset(opcode: u16, opcode2: u16) -> i32 {
    let sbit = ((opcode >> 10) & 1) as u32;
    let j1 = ((opcode2 >> 13) & 1) as u32;
    let j2 = ((opcode2 >> 11) & 1) as u32;
    let i1 = (!(j1 ^ sbit)) & 1;
    let i2 = (!(j2 ^ sbit)) & 1;
    let imm25 = (sbit << 24) | (i1 << 23) | (i2 << 22) | (((opcode & 0x03FF) as u32) << 12) | (((
    opcode2 & 0x07FF) as u32) << 1);
    if imm25 >= 0x100_0000 {
        (imm25 as int - 0x200_0000) as i32
    } else {
        imm25 as i32
    }
}

/// Last Thumb-2 stage: MRS/MSR/barriers, MOV/MVN/ORR/BIC/AND with a modified immediate,
/// conditional branch, BL; anything else is unimplemented.
pub open spec fn step32_e<B: SystemBus>(
    s: CortexM3,
    b: B,
    opcode: u16,
    opcode2: u16,
    res: Option<bool>,
    s2: CortexM3,
    b2: B,
) -> bool {
    let r = s.registers@;
    let x = s.xpsr;
    let rn = (opcode & 0xF) as int;
    let rd = ((opcode2 >> 8) & 0xF) as int;
    let imm32 = imm32_of(opcode, opcode2);
    let same = b2 == b && res == Some(true);
    let unimpl = b2 == b && res is None && s2.same(s);
    if opcode & 0xF800 != 0xF000 {
        unimpl
    } else if opcode == 0xF3EF && (opcode2 >> 8) == 0x80 {
        same && s2.is_state(adv(r.update(rd, 0), 4), x, s)
    } else if 0xF380 <= opcode <= 0xF38F && (opcode2 >> 8) == 0x88 {
        same && s2.is_state(adv(r, 4), x, s)
    } else if opcode == 0xF3BF && (opcode2 >> 8) == 0x8F {
        same && s2.is_state(adv(r, 4), x, s)
    } else if opcode2 & 0x8000 == 0 && opcode & 0xFBEF == 0xF04F {
        same && s2.is_state(adv(r.update(rd, imm32), 4), x, s)
    } else if opcode2 & 0x8000 == 0 && opcode & 0xFBEF == 0xF06F {
        same && s2.is_state(adv(r.update(rd, !imm32), 4), x, s)
    } else if opcode2 & 0x8000 == 0 && opcode & 0xFBE0 == 0xF040 {
        same && s2.is_state(adv(r.update(rd, r[rn] | imm32), 4), x, s)
    } else if opcode2 & 0x8000 == 0 && opcode & 0xFBE0 == 0xF020 {
        same && s2.is_state(adv(r.update(rd, r[rn] & !imm32), 4), x, s)
    } else if opcode2 & 0x8000 == 0 && opcode & 0xFBE0 == 0xF000 {
        let v = r[rn] & imm32;
        same && s2.is_state(
            adv(
                if rd != 15 {
                    r.update(rd, v)
                } else {
                    r
                },
                4,
            ),
            nz(x, v),
            s,
        )
    } else if opcode2 & 0xD000 == 0x8000 && ((opcode >> 6) & 0xF) < 0xE {
        let next_pc = r[15].wrapping_add(4);
        same && s2.is_state(
            r.update(
                15,
                if cond_holds(x, ((opcode >> 6) & 0xF) as u8) {
                    next_pc.wrapping_add_signed(bcond_offset(opcode, opcode2))
                } else {
                    next_pc
                },
            ),
            x,
            s,
        )
    } else if opcode2 & 0xD000 == 0xD000 {
        let next_pc = r[15].wrapping_add(4);
        same && s2.is_state(
            r.update(14, next_pc | 1).update(15, next_pc.wrapping_add_signed(bl_offset(opcode, opcode2))),
            x,
            s,
        )
    } else {
        unimpl
    }
}

/// Full semantics of a 32-bit instruction `opcode:opcode2` (the fast memory-clear loop aside).
pub open spec fn step32_post<B: SystemBus>(
    s: CortexM3,
    b: B,
    opcode: u16,
    opcode2: u16,
    res: Option<bool>,
    s2: CortexM3,
    b2: B,
) -> bool {
    if handled_32a(opcode) {
        step32_a(s, b, opcode, opcode2, res, s2, b2)
    } else if mul_unknown(opcode, opcode2) {
        res == Some(false) && b2 == b && s2.same(s)
    } else if handled_32b(opcode, opcode2) {
        step32_b(s, b, opcode, opcode2, res, s2, b2)
    } else if handled_32c(opcode) {
        step32_c(s, b, opcode, opcode2, res, s2, b2)
    } else if handled_32d(opcode, opcode2) {
        step32_d(s, b, opcode, opcode2, res, s2, b2)
    } else {
        step32_e(s, b, opcode, opcode2, res, s2, b2)
    }
}

/// `n` copies of the word `value`.
pub open spec fn repeat_word(value: u32, n: nat) -> Seq<u32> {
    Seq::new(n, |i: int| value)
}

/// Number of word stores of a `str.w rX, [rP], #4` loop that runs while `ptr < end`.
pub open spec fn clear_count(ptr: u32, end: u32) -> nat {
    if ptr < end {
        ((end - ptr + 3) / 4) as nat
    } else {
        0
    }
}

/// The memory-clear loop `str.w r3, [r2], #4; CMP r2, r0; bcc` run to completion: every word
/// from R2 up to R0 is set to R3, then R2 is past the end, the flags are those of the final
/// compare and execution continues after the branch.
pub open spec fn clear_loop_post<B: SystemBus>(
    s: CortexM3,
    b: B,
    res: Option<bool>,
    s2: CortexM3,
    b2: B,
) -> bool {
    let r = s.registers@;
    let ptr = r[2];
    let end = r[0];
    let n = clear_count(ptr, end);
    let fin = addr_after(ptr, n);
    &&& write_words_post(b, ptr, repeat_word(r[3], n), res is Some, b2)
    &&& match res {
        None => s2.same(s),
        Some(h) => h && s2.is_state(
            adv(r.update(2, fin), 8),
            sub_flags(s.xpsr, fin, end, fin.wrapping_sub(end)),
            s,
        ),
    }
}

/// After the compare half-word was read: the branch half-word is read and, when it is a BCC,
/// the loop runs.
pub open spec fn clear_after_compare<B: SystemBus>(
    s: CortexM3,
    b: B,
    pc: u64,
    res: Option<bool>,
    s2: CortexM3,
    b2: B,
) -> bool {
    ||| res is None && b.read16_post((pc + 6) as u64, None, b2) && s2.same(s)
    ||| exists|br: u16, b1: B|
        #[trigger] b.read16_post((pc + 6) as u64, Some(br), b1) && if br & 0xFF00 != 0xD300 {
            res == Some(false) && b2 == b1 && s2.same(s)
        } else {
            clear_loop_post(s, b1, res, s2, b2)
        }
}

/// The fast path for the memory-clear loop at `pc`: it applies only to `str.w r3, [r2], #4`
/// followed by `CMP r2, r0` and a BCC; otherwise nothing changes and the result is `false`.
pub open spec fn fast_clear_post<B: SystemBus>(
    s: CortexM3,
    b: B,
    pc: u64,
    opcode: u16,
    opcode2: u16,
    res: Option<bool>,
    s2: CortexM3,
    b2: B,
) -> bool {
    if opcode != 0xF842 || opcode2 != 0x3B04 {
        res == Some(false) && b2 == b && s2.same(s)
    } else {
        ||| res is None && b.read16_post((pc + 4) as u64, None, b2) && s2.same(s)
        ||| exists|second: u16, b1: B|
            #[trigger] b.read16_post((pc + 4) as u64, Some(second), b1) && if second != 0x4282 {
                res == Some(false) && b2 == b1 && s2.same(s)
            } else {
                clear_after_compare(s, b1, pc, res, s2, b2)
            }
    }
}

impl CortexM3 {
    /// Well-formedness: a full decode cache and an IT position inside the IT block buffer.
    pub open spec fn wf(&self) -> bool {
        &&& self.decode_cache@.len() == DECODE_CACHE_SIZE
        &&& self.it_count <= 4
        &&& self.it_pos <= self.it_count
    }

    pub open spec fn regs(&self) -> Seq<u32> {
        self.registers@
    }

    /// `self` has register file `r` and xPSR `x` and otherwise the state of `base`.
    pub open spec fn is_state(&self, r: Seq<u32>, x: u32, base: Self) -> bool {
        &&& self.registers@ == r
        &&& self.xpsr == x
        &&& self.it_conds == base.it_conds
        &&& self.it_pos == base.it_pos
        &&& self.it_count == base.it_count
        &&& self.decode_cache@ == base.decode_cache@
    }

    /// `self` equals `base` in every architectural field.
    pub open spec fn same(&self, base: Self) -> bool {
        self.is_state(base.registers@, base.xpsr, base)
    }

    pub fn new() -> (r: Self)
        ensures
            r.wf(),
            r.registers@ == Seq::new(16, |i: int| 0u32),
            r.xpsr == 0,
            r.it_pos == 0,
            r.it_count == 0,
            r.decode_cache@ == Seq::new(DECODE_CACHE_SIZE as nat, |i: int| empty_entry()),
    {
        let decode_cache = empty_decode_cache();
        let r = CortexM3 {
            arch: ArmV7MArchitecture,
            registers: [0; 16],
            xpsr: 0,
            it_conds: [0; 4],
            it_pos: 0,
            it_count: 0,
            decode_cache,
        };
        assert(r.registers@ =~= Seq::new(16, |i: int| 0u32));
        r
    }

    pub fn registers(&self) -> (r: &[u32; 16])
        ensures
            r@ == self.registers@,
    {
        &self.registers
    }

    /// Sets register `index` (R0..R15) to `value`.
    pub fn set_register(&mut self, index: usize, value: u32)
        requires
            index < 16,
        ensures
            final(self).is_state(old(self).registers@.update(index as int, value), old(self).xpsr, *old(self)),
    {
        self.registers[index] = value;
    }

    /// The program counter (R15).
    pub fn program_counter(&self) -> (r: u64)
        ensures
            r == self.registers@[15] as u64,
    {
        self.registers[15] as u64
    }

    /// The stack pointer (R13).
    pub fn stack_pointer(&self) -> (r: u64)
        ensures
            r == self.registers@[13] as u64,
    {
        self.registers[13] as u64
    }

    /// Whether an exception is active (xPSR exception number non-zero).
    pub fn in_exception(&self) -> (r: bool)
        ensures
            r == (self.xpsr & 0x1FF != 0),
    {
        (self.xpsr & 0x1FF) != 0
    }

    pub fn thumb_state(&self) -> (r: bool)
        ensures
            r == ((self.xpsr >> 24) & 1 == 1),
    {
        (self.xpsr >> 24) & 1 == 1
    }

    fn set_nz_flags(&mut self, value: u32)
        ensures
            final(self).is_state(old(self).registers@, nz(old(self).xpsr, value), *old(self)),
    {
        if value == 0 {
            self.xpsr |= 1 << 30;
        } else {
            self.xpsr &= !(1 << 30);
        }
        if value & 0x8000_0000 != 0 {
            self.xpsr |= 1 << 31;
        } else {
            self.xpsr &= !(1 << 31);
        }
    }

    fn set_carry_flag(&mut self, c: bool)
        ensures
            final(self).is_state(old(self).registers@, carry(old(self).xpsr, c), *old(self)),
    {
        if c {
            self.xpsr |= 1 << 29;
        } else {
            self.xpsr &= !(1 << 29);
        }
    }

    fn set_overflow_flag(&mut self, v: bool)
        ensures
            final(self).is_state(old(self).registers@, overflow(old(self).xpsr, v), *old(self)),
    {
        if v {
            self.xpsr |= 1 << 28;
        } else {
            self.xpsr &= !(1 << 28);
        }
    }

    fn set_thumb_bit(&mut self, t: bool)
        ensures
            final(self).is_state(old(self).registers@, thumb(old(self).xpsr, t), *old(self)),
    {
        if t {
            self.xpsr |= 1 << 24;
        } else {
            self.xpsr &= !(1 << 24);
        }
    }

    fn set_add_flags(&mut self, lhs: u32, rhs: u32, result: u32)
        ensures
            final(self).is_state(
                old(self).registers@,
                add_flags(old(self).xpsr, lhs, rhs, result),
                *old(self),
            ),
    {
        self.set_nz_flags(result);
        self.set_carry_flag((lhs as u64 + rhs as u64) > u32::MAX as u64);
        self.set_overflow_flag((((lhs ^ result) & (rhs ^ result)) & 0x8000_0000) != 0);
    }

    fn set_sub_flags(&mut self, lhs: u32, rhs: u32, result: u32)
        ensures
            final(self).is_state(
                old(self).registers@,
                sub_flags(old(self).xpsr, lhs, rhs, result),
                *old(self),
            ),
    {
        self.set_nz_flags(result);
        self.set_carry_flag(lhs >= rhs);
        self.set_overflow_flag((((lhs ^ rhs) & (lhs ^ result)) & 0x8000_0000) != 0);
    }

    fn condition_passed(&self, cond: u8) -> (r: bool)
        ensures
            r == cond_holds(self.xpsr, cond),
    {
        let n = (self.xpsr >> 31) & 1 == 1;
        let z = (self.xpsr >> 30) & 1 == 1;
        let c = (self.xpsr >> 29) & 1 == 1;
        let v = (self.xpsr >> 28) & 1 == 1;
        match cond {
            0x0 => z,
            0x1 => !z,
            0x2 => c,
            0x3 => !c,
            0x4 => n,
            0x5 => !n,
            0x6 => v,
            0x7 => !v,
            0x8 => c && !z,
            0x9 => !c || z,
            0xA => n == v,
            0xB => n != v,
            0xC => !z && (n == v),
            0xD => z || (n != v),
            0xE => true,
            _ => false,
        }
    }

    fn set_it_state(&mut self, first_cond: u8, count: u8)
        requires
            1 <= count <= 4,
        ensures
            final(self).registers@ == old(self).registers@,
            final(self).xpsr == old(self).xpsr,
            final(self).decode_cache@ == old(self).decode_cache@,
            final(self).it_conds[0] == first_cond,
            forall|i: int| 1 <= i < count ==> final(self).it_conds[i] == first_cond,
            forall|i: int| count <= i < 4 ==> final(self).it_conds[i] == old(self).it_conds[i],
            final(self).it_pos == 0,
            final(self).it_count == count,
    {
        self.it_conds[0] = first_cond;
        let mut i: usize = 1;
        while i < count as usize
            invariant
                1 <= i <= count <= 4,
                self.registers@ == old(self).registers@,
                self.xpsr == old(self).xpsr,
                self.decode_cache@ == old(self).decode_cache@,
                self.it_pos == old(self).it_pos,
                self.it_count == old(self).it_count,
                self.it_conds[0] == first_cond,
                forall|j: int| 1 <= j < i ==> self.it_conds[j] == first_cond,
                forall|j: int| i <= j < 4 ==> self.it_conds[j] == old(self).it_conds[j],
            decreases count as usize - i,
        {
            self.it_conds[i] = first_cond;
            i = i + 1;
        }
        self.it_pos = 0;
        self.it_count = count;
    }

    fn it_count_from_mask(mask: u8) -> (r: Option<u8>)
        ensures
            r == (if mask == 0x8 {
                Some(1u8)
            } else if mask == 0x4 || mask == 0xC {
                Some(2u8)
            } else {
                None
            }),
    {
        match mask {
            0x8 => Some(1),
            0x4 | 0xC => Some(2),
            _ => None,
        }
    }

    fn instruction_width(opcode: u16) -> (r: u32)
        ensures
            r == spec_instruction_width(opcode),
    {
        if opcode & 0xF800 == 0xE800 || opcode & 0xF000 == 0xF000 {
            4
        } else {
            2
        }
    }

    fn decode_cache_index(pc: u64) -> (r: usize)
        ensures
            r == spec_cache_index(pc),
            r < DECODE_CACHE_SIZE,
    {
        let r = ((pc >> 1) as usize) & 2047usize;
        assert(((pc >> 1) as usize) & 2047usize < 2048usize) by (bit_vector);
        r
    }

    fn is_fetch_cacheable(pc: u64) -> (r: bool)
        ensures
            r == spec_cacheable(pc),
    {
        pc < 0x2000_0000
    }

    /// Fetch of the first half-word at `pc`: from the decode cache when it holds a valid
    /// entry for `pc`, otherwise from the bus (then remembered when `pc` is cacheable).
    pub open spec fn fetch_post<B: SystemBus>(
        self,
        bus: B,
        pc: u64,
        r: Option<(u16, u32)>,
        s2: Self,
        bus2: B,
    ) -> bool {
        let idx = spec_cache_index(pc);
        let e = self.decode_cache@[idx];
        if spec_cacheable(pc) && e.valid && e.pc == pc as u32 {
            r == Some((e.opcode, e.width as u32)) && bus2 == bus && s2.same(self)
        } else {
            &&& s2.registers@ == self.registers@
            &&& s2.xpsr == self.xpsr
            &&& s2.it_conds == self.it_conds
            &&& s2.it_pos == self.it_pos
            &&& s2.it_count == self.it_count
            &&& match r {
                None => bus.read16_post(pc, None, bus2) && s2.decode_cache@ == self.decode_cache@,
                Some((op, w)) => {
                    &&& bus.read16_post(pc, Some(op), bus2)
                    &&& w == spec_instruction_width(op)
                    &&& s2.decode_cache@ == if spec_cacheable(pc) {
                        self.decode_cache@.update(
                            idx,
                            DecodeCacheEntry {
                                valid: true,
                                pc: pc as u32,
                                opcode: op,
                                width: w as u8,
                                opcode2: 0,
                                has_opcode2: false,
                            },
                        )
                    } else {
                        self.decode_cache@
                    }
                },
            }
        }
    }

    fn fetch_opcode<B: SystemBus>(&mut self, bus: &mut B, pc: u64) -> (r: Result<(u16, u32), String>)
        requires
            old(self).wf(),
            pc < 0x1_0000_0000,
        ensures
            final(self).wf(),
            old(self).fetch_post(*old(bus), pc, ok_value(r), *final(self), *final(bus)),
    {
        if Self::is_fetch_cacheable(pc) {
            let idx = Self::decode_cache_index(pc);
            let entry = self.decode_cache[idx];
            if entry.valid && entry.pc == pc as u32 {
                return Ok((entry.opcode, entry.width as u32));
            }
            let opcode = bus.read16(pc)?;
            let width = Self::instruction_width(opcode) as u8;
            self.decode_cache.set(
                idx,
                DecodeCacheEntry {
                    valid: true,
                    pc: pc as u32,
                    opcode,
                    width,
                    opcode2: 0,
                    has_opcode2: false,
                },
            );
            return Ok((opcode, width as u32));
        }
        let opcode = bus.read16(pc)?;
        Ok((opcode, Self::instruction_width(opcode)))
    }

    /// Fetch of the second half-word of a 32-bit instruction at `pc`.
    pub open spec fn fetch2_post<B: SystemBus>(
        self,
        bus: B,
        pc: u64,
        r: Option<u16>,
        s2: Self,
        bus2: B,
    ) -> bool {
        let idx = spec_cache_index(pc);
        let e = self.decode_cache@[idx];
        if spec_cacheable(pc) && e.valid && e.pc == pc as u32 && e.has_opcode2 {
            r == Some(e.opcode2) && bus2 == bus && s2.same(self)
        } else {
            &&& s2.registers@ == self.registers@
            &&& s2.xpsr == self.xpsr
            &&& s2.it_conds == self.it_conds
            &&& s2.it_pos == self.it_pos
            &&& s2.it_count == self.it_count
            &&& bus.read16_post((pc + 2) as u64, r, bus2)
            &&& s2.decode_cache@ == if r is Some && spec_cacheable(pc) && e.valid && e.pc
                == pc as u32 {
                self.decode_cache@.update(
                    idx,
                    DecodeCacheEntry { opcode2: r->Some_0, has_opcode2: true, ..e },
                )
            } else {
                self.decode_cache@
            }
        }
    }

    fn fetch_opcode2<B: SystemBus>(&mut self, bus: &mut B, pc: u64) -> (r: Result<u16, String>)
        requires
            old(self).wf(),
            pc < 0x1_0000_0000,
        ensures
            final(self).wf(),
            old(self).fetch2_post(*old(bus), pc, ok_value(r), *final(self), *final(bus)),
    {
        if Self::is_fetch_cacheable(pc) {
            let idx = Self::decode_cache_index(pc);
            let entry = self.decode_cache[idx];
            if entry.valid && entry.pc == pc as u32 && entry.has_opcode2 {
                return Ok(entry.opcode2);
            }
            let opcode2 = bus.read16(pc + 2)?;
            if self.decode_cache[idx].valid && self.decode_cache[idx].pc == pc as u32 {
                let mut e = self.decode_cache[idx];
                e.opcode2 = opcode2;
                e.has_opcode2 = true;
                self.decode_cache.set(idx, e);
            }
            return Ok(opcode2);
        }
        bus.read16(pc + 2)
    }

    fn thumb_expand_imm12(imm12: u32) -> (r: u32)
        ensures
            r == spec_thumb_expand_imm12(imm12),
    {
        if ((imm12 >> 10) & 0x3) == 0 {
            let imm8 = imm12 & 0xFF;
            let sel = (imm12 >> 8) & 0x3;
            if sel == 0 {
                imm8
            } else if sel == 1 {
                (imm8 << 16) | imm8
            } else if sel == 2 {
                (imm8 << 24) | (imm8 << 8)
            } else {
                (imm8 << 24) | (imm8 << 16) | (imm8 << 8) | imm8
            }
        } else {
            let unrotated = 0x80 | (imm12 & 0x7F);
            rotr32(unrotated, (imm12 >> 7) & 0x1F)
        }
    }

    fn shift_imm(value: u32, shift_type: u16, imm5: u32) -> (r: u32)
        ensures
            r == spec_shift_imm(value, shift_type, imm5),
    {
        if shift_type == 0 {
            value.wrapping_shl(imm5)
        } else if shift_type == 1 {
            if imm5 == 0 || imm5 >= 32 {
                0
            } else {
                value >> imm5
            }
        } else if shift_type == 2 {
            if imm5 == 0 || imm5 >= 32 {
                if value & 0x8000_0000 != 0 {
                    u32::MAX
                } else {
                    0
                }
            } else {
                asr32(value, imm5)
            }
        } else {
            rotr32(value, imm5 % 32)
        }
    }

    fn is_exc_return(value: u32) -> (r: bool)
        ensures
            r == spec_is_exc_return(value),
    {
        value & 0xFFFF_FFE0 == 0xFFFF_FFE0
    }

    fn load<B: SystemBus>(
        &mut self,
        bus: &mut B,
        addr: u32,
        width: u8,
        signed: bool,
        rt: usize,
        n: u32,
    ) -> (res: Result<bool, String>)
        requires
            old(self).wf(),
            rt < 16,
            width == 1 || width == 2 || width == 4,
        ensures
            final(self).wf(),
            load_post(*old(self), *old(bus), addr as u64, width, signed, rt as int, n, ok_value(res), *final(self), *final(bus)),
    {
        let raw: u32 = if width == 1 {
            bus.read8(addr as u64)? as u32
        } else if width == 2 {
            bus.read16(addr as u64)? as u32
        } else {
            bus.read32(addr as u64)?
        };
        let value = if signed && width == 1 {
            sext8(raw)
        } else if signed && width == 2 {
            sext16(raw)
        } else {
            raw
        };
        self.registers[rt] = value;
        self.registers[15] = self.registers[15].wrapping_add(n);
        assert(raw_read(*old(bus), addr as u64, width, raw, *bus));
        Ok(true)
    }

    fn store<B: SystemBus>(
        &mut self,
        bus: &mut B,
        addr: u32,
        width: u8,
        value: u32,
        n: u32,
    ) -> (res: Result<bool, String>)
        requires
            old(self).wf(),
            width == 1 || width == 2 || width == 4,
        ensures
            final(self).wf(),
            store_post(*old(self), *old(bus), addr as u64, width, value, n, ok_value(res), *final(self), *final(bus)),
    {
        if width == 1 {
            bus.write8(addr as u64, value as u8)?;
        } else if width == 2 {
            bus.write16(addr as u64, value as u16)?;
        } else {
            bus.write32(addr as u64, value)?;
        }
        self.registers[15] = self.registers[15].wrapping_add(n);
        Ok(true)
    }

    fn exec_dp16(&mut self, opcode: u16)
        requires
            opcode & 0xFC00 == 0x4000,
        ensures
            final(self).is_state(dp16(old(self).registers@, old(self).xpsr, opcode).0, dp16(old(self).registers@, old(self).xpsr, opcode).1, *old(self)),
    {
        proof { lemma_small_masks(); }
        let op = (opcode >> 6) & 0xF;
        let rm = ((opcode >> 3) & 0x7) as usize;
        let rdn = (opcode & 0x7) as usize;
        let a = self.registers[rdn];
        let m = self.registers[rm];
        let sh = m & 0xFF;
        if op == 0x0 {
            self.registers[rdn] = a & m;
            self.set_nz_flags(a & m);
        } else if op == 0x1 {
            self.registers[rdn] = a ^ m;
            self.set_nz_flags(a ^ m);
        } else if op == 0x2 {
            let res = if sh >= 32 { 0 } else { a << sh };
            self.registers[rdn] = res;
            self.set_nz_flags(res);
        } else if op == 0x3 {
            let res = if sh == 0 { a } else if sh >= 32 { 0 } else { a >> sh };
            self.registers[rdn] = res;
            self.set_nz_flags(res);
        } else if op == 0x4 {
            let res = if sh == 0 {
                a
            } else if sh >= 32 {
                if a & 0x8000_0000 != 0 { u32::MAX } else { 0 }
            } else {
                asr32(a, sh)
            };
            self.registers[rdn] = res;
            self.set_nz_flags(res);
        } else if op == 0x5 {
            let cin: u32 = if (self.xpsr >> 29) & 1 == 1 { 1 } else { 0 };
            let wide = a as u64 + m as u64 + cin as u64;
            let res = a.wrapping_add(m).wrapping_add(cin);
            self.registers[rdn] = res;
            self.set_nz_flags(res);
            self.set_carry_flag(wide > u32::MAX as u64);
            self.set_overflow_flag((((a ^ res) & (m ^ res)) & 0x8000_0000) != 0);
        } else if op == 0x6 {
            let cin: u32 = if (self.xpsr >> 29) & 1 == 1 { 1 } else { 0 };
            let borrow = 1u32.wrapping_sub(cin);
            let rb = m.wrapping_add(borrow);
            let res = a.wrapping_sub(rb);
            self.registers[rdn] = res;
            self.set_nz_flags(res);
            self.set_carry_flag((a as u64) >= (m as u64 + borrow as u64));
            self.set_overflow_flag((((a ^ rb) & (a ^ res)) & 0x8000_0000) != 0);
        } else if op == 0x7 {
            let res = if sh == 0 { a } else { rotr32(a, sh & 31) };
            self.registers[rdn] = res;
            self.set_nz_flags(res);
        } else if op == 0x8 {
            self.set_nz_flags(a & m);
        } else if op == 0x9 {
            let res = 0u32.wrapping_sub(m);
            self.registers[rdn] = res;
            self.set_sub_flags(0, m, res);
        } else if op == 0xA {
            self.set_sub_flags(a, m, a.wrapping_sub(m));
        } else if op == 0xB {
            self.set_add_flags(a, m, a.wrapping_add(m));
        } else if op == 0xC {
            self.registers[rdn] = a | m;
            self.set_nz_flags(a | m);
        } else if op == 0xD {
            self.registers[rdn] = a.wrapping_mul(m);
            self.set_nz_flags(a.wrapping_mul(m));
        } else if op == 0xE {
            self.registers[rdn] = a & !m;
            self.set_nz_flags(a & !m);
        } else {
            self.registers[rdn] = !m;
            self.set_nz_flags(!m);
        }
    }

    fn exec_special16(&mut self, opcode: u16)
        ensures
            final(self).is_state(special16(old(self).registers@, old(self).xpsr, opcode).0, special16(old(self).registers@, old(self).xpsr, opcode).1, *old(self)),
    {
        proof { lemma_small_masks(); }
        let op = (opcode >> 8) & 0x3;
        let rm = ((opcode >> 3) & 0xF) as usize;
        let rd = ((opcode & 0x7) | ((opcode >> 4) & 0x8)) as usize;
        assert(((opcode & 0x7) | ((opcode >> 4) & 0x8)) < 16) by (bit_vector);
        if op == 0 {
            let result = self.registers[rd].wrapping_add(self.registers[rm]);
            self.registers[rd] = result;
            if rd == 15 {
                self.registers[15] = result & !1;
            } else {
                self.registers[15] = self.registers[15].wrapping_add(2);
            }
        } else if op == 1 {
            let rhs = self.registers[rm];
            let result = self.registers[rd].wrapping_sub(rhs);
            self.set_sub_flags(self.registers[rd], rhs, result);
            self.registers[15] = self.registers[15].wrapping_add(2);
        } else if op == 2 {
            let value = self.registers[rm];
            self.registers[rd] = value;
            if rd == 15 {
                self.registers[15] = value & !1;
            } else {
                self.registers[15] = self.registers[15].wrapping_add(2);
            }
        } else {
            let target = self.registers[rm];
            if opcode & 0x0080 != 0 {
                self.registers[14] = self.registers[15].wrapping_add(2) | 1;
            }
            self.registers[15] = target & !1;
            self.set_thumb_bit(target & 1 != 0);
        }
    }

    /// Stores the registers selected by the low `n` bits of `list` to consecutive words.
    fn store_list<B: SystemBus>(&mut self, bus: &mut B, base: u32, list: u32, n: usize) -> (res: Result<u32, String>)
        requires
            old(self).wf(),
            n <= 16,
        ensures
            final(self).same(*old(self)),
            store_list_post(old(self).registers@, *old(bus), base, list, n as nat, ok_value(res), *final(bus)),
    {
        let ghost b0 = *bus;
        let ghost r0 = self.registers@;
        let mut address = base;
        let mut reg: usize = 0;
        proof { lemma_sel_bounds(list, n as nat); }
        while reg < n
            invariant
                reg <= n <= 16,
                self.same(*old(self)),
                r0 == self.registers@,
                b0 == *old(bus),
                word_accesses(b0, store_ops(r0, sel(list, reg as nat), base), false, *bus),
                address == addr_after(base, sel(list, reg as nat).len()),
            decreases n - reg,
        {
            let ghost prev = sel(list, reg as nat);
            let ghost mid = *bus;
            proof {
                lemma_sel_prefix(list, reg as nat, n as nat);
                lemma_sel_prefix(list, reg as nat + 1, n as nat);
                lemma_sel_bounds(list, reg as nat + 1);
            }
            if (list >> reg as u32) & 1 == 1 {
                let ghost op = (address as u64, self.registers@[reg as int]);
                let w = bus.write32(address as u64, self.registers[reg]);
                if let Err(e) = w {
                    proof {
                        let ops = store_ops(r0, sel(list, n as nat), base);
                        let k = prev.len() as int;
                        assert(sel(list, reg as nat + 1) == prev.push(reg as int));
                        assert(sel(list, n as nat).take(k + 1) =~= prev.push(reg as int));
                        assert(sel(list, n as nat).take(k + 1)[k] == reg as int);
                        assert(sel(list, n as nat)[k] == reg as int);
                        assert(ops.take(k) =~= store_ops(r0, prev, base));
                        assert(ops[k] == op);
                        assert(word_access(mid, op, false, false, *bus));
                        assert(word_accesses(b0, ops.take(k), false, mid));
                        assert(word_accesses_fail(b0, ops.take(k), ops[k], false, *bus));
                        assert(0 <= k < ops.len());
                        assert(store_list_post(r0, b0, base, list, n as nat, None, *bus));
                    }
                    return Err(e);
                }
                proof {
                    lemma_word_accesses_extend(b0, store_ops(r0, prev, base), false, mid, op, *bus);
                    assert(store_ops(r0, prev, base).push(op) =~= store_ops(r0, sel(list, reg as nat + 1), base));
                }
                address = address.wrapping_add(4);
            }
            reg = reg + 1;
        }
        Ok(address)
    }

    /// Loads the registers selected by the low `n` bits of `list` from consecutive words.
    fn load_list<B: SystemBus>(&mut self, bus: &mut B, base: u32, list: u32, n: usize) -> (res: Result<u32, String>)
        requires
            old(self).wf(),
            n <= 16,
        ensures
            final(self).wf(),
            final(self).it_conds == old(self).it_conds,
            final(self).it_pos == old(self).it_pos,
            final(self).it_count == old(self).it_count,
            final(self).decode_cache@ == old(self).decode_cache@,
            load_list_post(old(self).registers@, old(self).xpsr, *old(bus), base, list, n as nat, ok_value(res), final(self).registers@, final(self).xpsr, *final(bus)),
    {
        let ghost b0 = *bus;
        let ghost r0 = self.registers@;
        let ghost x0 = self.xpsr;
        let ghost mut vals: Seq<u32> = Seq::empty();
        let mut address = base;
        let mut reg: usize = 0;
        proof { lemma_sel_bounds(list, n as nat); }
        while reg < n
            invariant
                reg <= n <= 16,
                self.wf(),
                self.it_conds == old(self).it_conds,
                self.it_pos == old(self).it_pos,
                self.it_count == old(self).it_count,
                self.decode_cache@ == old(self).decode_cache@,
                r0 == old(self).registers@,
                x0 == old(self).xpsr,
                b0 == *old(bus),
                vals.len() == sel(list, reg as nat).len(),
                word_accesses(b0, word_ops(vals, base), true, *bus),
                (self.registers@, self.xpsr) == load_state(r0, x0, sel(list, reg as nat), vals),
                address == addr_after(base, vals.len()),
            decreases n - reg,
        {
            let ghost prev = sel(list, reg as nat);
            let ghost mid = *bus;
            proof {
                lemma_sel_prefix(list, reg as nat, n as nat);
                lemma_sel_prefix(list, reg as nat + 1, n as nat);
                lemma_sel_bounds(list, reg as nat + 1);
            }
            if (list >> reg as u32) & 1 == 1 {
                let rd = bus.read32(address as u64);
                match rd {
                    Err(e) => {
                        proof {
                            assert(sel(list, n as nat).take(vals.len() as int) =~= prev);
                            assert(word_access(mid, (addr_after(base, vals.len()) as u64, 0u32), true, false, *bus));
                            assert(word_accesses(b0, word_ops(vals, base), true, mid));
                            assert(word_accesses_fail(b0, word_ops(vals, base), (addr_after(base, vals.len()) as u64, 0u32), true, *bus));
                            assert(vals.len() < sel(list, n as nat).len());
                            assert(load_list_post(r0, x0, b0, base, list, n as nat, None, self.registers@, self.xpsr, *bus));
                        }
                        return Err(e);
                    },
                    Ok(value) => {
                        let ghost op = (address as u64, value);
                        let ghost nv = vals.push(value);
                        proof {
                            lemma_word_accesses_extend(b0, word_ops(vals, base), true, mid, op, *bus);
                            assert(word_ops(vals, base).push(op) =~= word_ops(nv, base));
                            assert(sel(list, reg as nat + 1) == prev.push(reg as int));
                            assert(nv.drop_last() =~= vals);
                            assert(prev.push(reg as int).drop_last() =~= prev);
                        }
                        if reg == 15 {
                            self.registers[15] = value & !1;
                            self.set_thumb_bit(value & 1 != 0);
                        } else {
                            self.registers[reg] = value;
                        }
                        proof { vals = nv; }
                        address = address.wrapping_add(4);
                    },
                }
            }
            reg = reg + 1;
        }
        Ok(address)
    }

    /// Reads `count` consecutive words starting at `base`.
    pub(crate) fn read_words<B: SystemBus>(bus: &mut B, base: u32, count: usize) -> (res: Result<Vec<u32>, String>)
        ensures
            read_words_post(*old(bus), base, count as nat, match res { Ok(v) => Some(v@), Err(_) => None }, *final(bus)),
    {
        let ghost b0 = *bus;
        let mut vals: Vec<u32> = Vec::new();
        let mut address = base;
        let mut i: usize = 0;
        while i < count
            invariant
                i <= count,
                vals@.len() == i,
                b0 == *old(bus),
                word_accesses(b0, word_ops(vals@, base), true, *bus),
                address == addr_after(base, i as nat),
            decreases count - i,
        {
            let ghost mid = *bus;
            match bus.read32(address as u64) {
                Err(e) => {
                    proof {
                        assert(word_access(mid, (addr_after(base, vals@.len()) as u64, 0u32), true, false, *bus));
                        assert(word_accesses_fail(b0, word_ops(vals@, base), (addr_after(base, vals@.len()) as u64, 0u32), true, *bus));
                    }
                    return Err(e);
                },
                Ok(v) => {
                    let ghost op = (address as u64, v);
                    proof {
                        lemma_word_accesses_extend(b0, word_ops(vals@, base), true, mid, op, *bus);
                        assert(word_ops(vals@, base).push(op) =~= word_ops(vals@.push(v), base));
                    }
                    vals.push(v);
                    address = address.wrapping_add(4);
                },
            }
            i = i + 1;
        }
        Ok(vals)
    }

    /// Writes `vals` to consecutive words starting at `base`.
    pub(crate) fn write_words<B: SystemBus>(bus: &mut B, base: u32, vals: &[u32]) -> (res: Result<(), String>)
        ensures
            write_words_post(*old(bus), base, vals@, res is Ok, *final(bus)),
    {
        let ghost b0 = *bus;
        let mut address = base;
        let mut i: usize = 0;
        while i < vals.len()
            invariant
                i <= vals@.len(),
                b0 == *old(bus),
                word_accesses(b0, word_ops(vals@, base).take(i as int), false, *bus),
                address == addr_after(base, i as nat),
            decreases vals@.len() - i,
        {
            let ghost mid = *bus;
            let ghost op = (address as u64, vals@[i as int]);
            match bus.write32(address as u64, vals[i]) {
                Err(e) => {
                    proof {
                        assert(word_ops(vals@, base)[i as int] == op);
                        assert(word_access(mid, op, false, false, *bus));
                        assert(word_accesses_fail(b0, word_ops(vals@, base).take(i as int), word_ops(vals@, base)[i as int], false, *bus));
                    }
                    return Err(e);
                },
                Ok(_) => {
                    proof {
                        lemma_word_accesses_extend(b0, word_ops(vals@, base).take(i as int), false, mid, op, *bus);
                        assert(word_ops(vals@, base).take(i as int).push(op) =~= word_ops(vals@, base).take(i as int + 1));
                    }
                    address = address.wrapping_add(4);
                },
            }
            i = i + 1;
        }
        proof {
            assert(word_ops(vals@, base).take(vals@.len() as int) =~= word_ops(vals@, base));
        }
        Ok(())
    }

    fn exception_return<B: SystemBus>(&mut self, bus: &mut B) -> (res: Result<bool, String>)
        requires
            old(self).wf(),
        ensures
            final(self).wf(),
            final(self).it_conds == old(self).it_conds,
            final(self).it_pos == old(self).it_pos,
            final(self).it_count == old(self).it_count,
            final(self).decode_cache@ == old(self).decode_cache@,
            exc_return_post(old(self).registers@, old(self).xpsr, *old(bus), ok_value(res), final(self).registers@, final(self).xpsr, *final(bus)),
    {
        let sp = self.registers[13];
        let frame = Self::read_words(bus, sp, 8)?;
        let pc = frame[6];
        self.registers[0] = frame[0];
        self.registers[1] = frame[1];
        self.registers[2] = frame[2];
        self.registers[3] = frame[3];
        self.registers[12] = frame[4];
        self.registers[14] = frame[5];
        self.registers[13] = sp.wrapping_add(32);
        self.registers[15] = pc & !1;
        self.xpsr = frame[7];
        self.set_thumb_bit(pc & 1 == 1);
        proof {
            assert(self.registers@ =~= frame_restore(old(self).registers@, frame@));
            assert(read_words_post(*old(bus), sp, 8, Some(frame@), *bus));
        }
        Ok(true)
    }

    fn push16<B: SystemBus>(&mut self, bus: &mut B, opcode: u16) -> (res: Result<bool, String>)
        requires
            old(self).wf(),
        ensures
            final(self).wf(),
            push_post(*old(self), *old(bus), opcode, ok_value(res), *final(self), *final(bus)),
    {
        let list = (opcode & 0xFF) as u32;
        let include_lr = (opcode >> 8) & 1 == 1;
        let mut count = count_ones_below(list, 8);
        proof { lemma_popcount_sel(list, 8); }
        if include_lr {
            count = count + 1;
        }
        let sp = self.registers[13].wrapping_sub(count * 4);
        self.registers[13] = sp;
        let ghost s1 = *self;
        let ghost b0 = *bus;
        let ghost r1 = old(self).registers@.update(13, sp);
        assert(s1.registers@ =~= r1);
        assert(sp == push_sp(old(self).registers@, opcode));
        let a = self.store_list(bus, sp, list, 8);
        assert(store_list_post(r1, b0, sp, list, 8, ok_value(a), *bus));
        let address = a?;
        let ghost mid = *bus;
        if include_lr {
            bus.write32(address as u64, self.registers[14])?;
        }
        self.registers[15] = self.registers[15].wrapping_add(2);
        Ok(true)
    }

    fn pop16<B: SystemBus>(&mut self, bus: &mut B, opcode: u16) -> (res: Result<bool, String>)
        requires
            old(self).wf(),
        ensures
            final(self).wf(),
            pop_post(*old(self), *old(bus), opcode, ok_value(res), *final(self), *final(bus)),
    {
        let list = (opcode & 0xFF) as u32;
        let include_pc = (opcode >> 8) & 1 == 1;
        let base = self.registers[13];
        let ghost b0 = *bus;
        let next = match self.load_list(bus, base, list, 8) {
            Ok(a) => a,
            Err(e) => {
                assert(load_list_post(old(self).registers@, old(self).xpsr, b0, base, list, 8, None, self.registers@, self.xpsr, *bus));
                return Err(e);
            },
        };
        let ghost r2 = self.registers@;
        let ghost x2 = self.xpsr;
        let ghost mid = *bus;
        assert(load_list_post(old(self).registers@, old(self).xpsr, b0, base, list, 8, Some(next), r2, x2, mid));
        if include_pc {
            let target = bus.read32(next as u64)?;
            let ghost mid2 = *bus;
            let address = next.wrapping_add(4);
            if Self::is_exc_return(target) {
                self.registers[13] = address;
                let returned = self.exception_return(bus)?;
                if returned {
                    return Ok(true);
                }
            }
            self.registers[15] = target & !1;
            self.set_thumb_bit(target & 1 == 1);
            self.registers[13] = address;
            assert(self.registers@ =~= r2.update(15, target & !1u32).update(13, next.wrapping_add(4)));
        } else {
            self.registers[15] = self.registers[15].wrapping_add(2);
            self.registers[13] = next;
        }
        Ok(true)
    }

    fn ldm_stm16<B: SystemBus>(&mut self, bus: &mut B, opcode: u16) -> (res: Result<bool, String>)
        requires
            old(self).wf(),
        ensures
            final(self).wf(),
            ldm_stm16_post(*old(self), *old(bus), opcode, ok_value(res), *final(self), *final(bus)),
    {
        proof { lemma_small_masks(); }
        let rn = ((opcode >> 8) & 0x7) as usize;
        let list = (opcode & 0xFF) as u32;
        let base = self.registers[rn];
        let ghost b0 = *bus;
        let ghost r0 = self.registers@;
        let ghost x0 = self.xpsr;
        if opcode & 0x0800 == 0 {
            let a = self.store_list(bus, base, list, 8);
            assert(store_list_post(r0, b0, base, list, 8, ok_value(a), *bus));
            let address = a?;
            self.registers[rn] = address;
        } else {
            let a = self.load_list(bus, base, list, 8);
            assert(load_list_post(r0, x0, b0, base, list, 8, ok_value(a), self.registers@, self.xpsr, *bus));
            let address = a?;
            self.registers[rn] = address;
        }
        self.registers[15] = self.registers[15].wrapping_add(2);
        Ok(true)
    }

    fn step16_rest<B: SystemBus>(&mut self, bus: &mut B, pc: u64, opcode: u16) -> (res: Result<bool, String>)
        requires
            old(self).wf(),
            !handled_a(opcode),
        ensures
            final(self).wf(),
            step16_rest(*old(self), *old(bus), opcode, ok_value(res), *final(self), *final(bus)),
    {
        proof { lemma_small_masks(); }
        let rd = (opcode & 0x7) as usize;
        let rn = ((opcode >> 3) & 0x7) as usize;
        let rm = ((opcode >> 6) & 0x7) as usize;
        let imm3 = ((opcode >> 6) & 0x7) as u32;
        let imm5 = ((opcode >> 6) & 0x1F) as u32;
        let raddr = self.registers[rn].wrapping_add(self.registers[rm]);
        match opcode & 0xFE00 {
            0x1C00 => {
                let result = self.registers[rn].wrapping_add(imm3);
                self.registers[rd] = result;
                self.set_add_flags(self.registers[rn], imm3, result);
                self.registers[15] = self.registers[15].wrapping_add(2);
                return Ok(true);
            },
            0x1E00 => {
                let result = self.registers[rn].wrapping_sub(imm3);
                self.registers[rd] = result;
                self.set_sub_flags(self.registers[rn], imm3, result);
                self.registers[15] = self.registers[15].wrapping_add(2);
                return Ok(true);
            },
            0x1A00 => {
                let result = self.registers[rn].wrapping_sub(self.registers[rm]);
                self.registers[rd] = result;
                self.set_sub_flags(self.registers[rn], self.registers[rm], result);
                self.registers[15] = self.registers[15].wrapping_add(2);
                return Ok(true);
            },
            0x5000 => {
                let v = self.registers[rd];
                return self.store(bus, raddr, 4, v, 2);
            },
            0x5200 => {
                let v = self.registers[rd];
                return self.store(bus, raddr, 2, v, 2);
            },
            0x5400 => {
                let v = self.registers[rd];
                return self.store(bus, raddr, 1, v, 2);
            },
            0x5600 => return self.load(bus, raddr, 1, true, rd, 2),
            0x5800 => return self.load(bus, raddr, 4, false, rd, 2),
            0x5A00 => return self.load(bus, raddr, 2, false, rd, 2),
            0x5C00 => return self.load(bus, raddr, 1, false, rd, 2),
            0x5E00 => return self.load(bus, raddr, 2, true, rd, 2),
            0xB400 => return self.push16(bus, opcode),
            0xBC00 => return self.pop16(bus, opcode),
            _ => {},
        }
        match opcode & 0xF800 {
            0x0800 => {
                let result = if imm5 == 0 { 0 } else { self.registers[rn] >> imm5 };
                self.registers[rd] = result;
                self.set_nz_flags(result);
                self.registers[15] = self.registers[15].wrapping_add(2);
                return Ok(true);
            },
            0x0000 => {
                let result = self.registers[rn] << imm5;
                self.registers[rd] = result;
                self.set_nz_flags(result);
                self.registers[15] = self.registers[15].wrapping_add(2);
                return Ok(true);
            },
            0x1800 => {
                let lhs = self.registers[rn];
                let rhs = self.registers[rm];
                let result = lhs.wrapping_add(rhs);
                self.registers[rd] = result;
                self.set_add_flags(lhs, rhs, result);
                self.registers[15] = self.registers[15].wrapping_add(2);
                return Ok(true);
            },
            _ => {},
        }
        if opcode & 0xF000 == 0xD000 && opcode & 0x0F00 != 0x0F00 {
            let cond = ((opcode >> 8) & 0xF) as u8;
            let imm8 = (opcode & 0xFF) as i32;
            let offset: i32 = (if imm8 >= 128 { imm8 - 256 } else { imm8 }) * 2 + 4;
            if self.condition_passed(cond) {
                self.registers[15] = self.registers[15].wrapping_add_signed(offset);
            } else {
                self.registers[15] = self.registers[15].wrapping_add(2);
            }
            return Ok(true);
        }
        if opcode & 0xF000 == 0xC000 {
            return self.ldm_stm16(bus, opcode);
        }
        if opcode & 0xFF00 == 0xBF00 && opcode & 0xF == 0x8 {
            let cond = ((opcode >> 4) & 0xF) as u8;
            self.set_it_state(cond, 1);
            self.registers[15] = self.registers[15].wrapping_add(2);
            return Ok(true);
        }
        if opcode & 0xFF00 == 0xBF00 && opcode & 0xF != 0 {
            let cond = ((opcode >> 4) & 0xF) as u8;
            let mask = (opcode & 0xF) as u8;
            let count = match Self::it_count_from_mask(mask) {
                Some(c) => c,
                None => {
                    return Err(hex_message2("unimplemented IT mask ", mask as u64, 1, " at PC ", pc, 8, ""));
                },
            };
            self.set_it_state(cond, count);
            self.registers[15] = self.registers[15].wrapping_add(2);
            return Ok(true);
        }
        match opcode & 0xFFC0 {
            0xB2C0 => {
                self.registers[rd] = self.registers[rn] & 0xFF;
                self.registers[15] = self.registers[15].wrapping_add(2);
                return Ok(true);
            },
            0xB280 => {
                self.registers[rd] = self.registers[rn] & 0xFFFF;
                self.registers[15] = self.registers[15].wrapping_add(2);
                return Ok(true);
            },
            0xBA00 => {
                self.registers[rd] = swap_bytes32(self.registers[rn]);
                self.registers[15] = self.registers[15].wrapping_add(2);
                return Ok(true);
            },
            0xBA40 => {
                let value = self.registers[rn];
                let lo = (value & 0x00FF_00FF) << 8;
                let hi = (value & 0xFF00_FF00) >> 8;
                self.registers[rd] = lo | hi;
                self.registers[15] = self.registers[15].wrapping_add(2);
                return Ok(true);
            },
            0xBAC0 => {
                let value = self.registers[rn];
                let low_half = ((value & 0x00FF) << 8) | ((value >> 8) & 0x00FF);
                self.registers[rd] = sext16(low_half);
                self.registers[15] = self.registers[15].wrapping_add(2);
                return Ok(true);
            },
            _ => {},
        }
        if opcode & 0xF500 == 0xB100 {
            let op = (opcode >> 11) & 1;
            let imm5b = ((opcode >> 3) & 0x1F) as u32;
            let ib = ((opcode >> 9) & 1) as u32;
            assert((imm5b << 1) | (ib << 6) < 128) by (bit_vector) requires imm5b < 32, ib < 2;
            let offset = ((imm5b << 1) | (ib << 6)) as i32 + 4;
            let value = self.registers[rd];
            let taken = if op == 0 { value == 0 } else { value != 0 };
            if taken {
                self.registers[15] = self.registers[15].wrapping_add_signed(offset);
            } else {
                self.registers[15] = self.registers[15].wrapping_add(2);
            }
            return Ok(true);
        }
        match opcode & 0xFF80 {
            0xB080 => {
                let imm7 = (opcode & 0x7F) as u32;
                self.registers[13] = self.registers[13].wrapping_sub(imm7 << 2);
                self.registers[15] = self.registers[15].wrapping_add(2);
                return Ok(true);
            },
            0xB000 => {
                let imm7 = (opcode & 0x7F) as u32;
                self.registers[13] = self.registers[13].wrapping_add(imm7 << 2);
                self.registers[15] = self.registers[15].wrapping_add(2);
                return Ok(true);
            },
            _ => {},
        }
        if opcode == 0xB672 || opcode == 0xB662 || opcode == 0xBF00 || opcode == 0xBF30 {
            self.registers[15] = self.registers[15].wrapping_add(2);
            return Ok(true);
        }
        Err(hex_message2("unimplemented Thumb instruction ", opcode as u64, 4, " at PC ", pc, 8, ""))
    }

    fn step16_fast<B: SystemBus>(&mut self, bus: &mut B, pc: u64, opcode: u16) -> (res: Result<bool, String>)
        requires
            old(self).wf(),
        ensures
            final(self).wf(),
            step16_post(*old(self), *old(bus), opcode, ok_value(res), *final(self), *final(bus)),
    {
        let handled = self.step16_a(bus, opcode)?;
        if handled {
            return Ok(true);
        }
        self.step16_rest(bus, pc, opcode)
    }

    fn ldst32<B: SystemBus>(
        &mut self,
        bus: &mut B,
        is_load: bool,
        addr: u32,
        width: u8,
        signed: bool,
        rt: usize,
        rn: usize,
        wb: Option<u32>,
    ) -> (res: Result<bool, String>)
        requires
            old(self).wf(),
            rt < 16,
            rn < 16,
            width == 1 || width == 2 || width == 4,
        ensures
            final(self).wf(),
            ldst32_post(*old(self), *old(bus), is_load, addr, width, signed, rt as int, rn as int, wb, ok_value(res), *final(self), *final(bus)),
    {
        if is_load {
            let raw: u32 = if width == 1 {
                bus.read8(addr as u64)? as u32
            } else if width == 2 {
                bus.read16(addr as u64)? as u32
            } else {
                bus.read32(addr as u64)?
            };
            let value = if signed && width == 1 {
                sext8(raw)
            } else if signed && width == 2 {
                sext16(raw)
            } else {
                raw
            };
            self.registers[rt] = value;
            if let Some(d) = wb {
                self.registers[rn] = self.registers[rn].wrapping_add(d);
            }
            self.registers[15] = self.registers[15].wrapping_add(4);
            assert(raw_read(*old(bus), addr as u64, width, raw, *bus));
            Ok(true)
        } else {
            let v = self.registers[rt];
            if width == 1 {
                bus.write8(addr as u64, v as u8)?;
            } else if width == 2 {
                bus.write16(addr as u64, v as u16)?;
            } else {
                bus.write32(addr as u64, v)?;
            }
            if let Some(a) = wb {
                self.registers[rn] = a;
            }
            self.registers[15] = self.registers[15].wrapping_add(4);
            Ok(true)
        }
    }

    /// LDM/STM with a 16-bit register list.
    fn ldm_stm32<B: SystemBus>(&mut self, bus: &mut B, opcode: u16, opcode2: u16) -> (res: Result<bool, String>)
        requires
            old(self).wf(),
            opcode & 0xFFF0 == 0xE880 || opcode & 0xFFF0 == 0xE890 || opcode & 0xFFF0 == 0xE8A0 || opcode & 0xFFF0 == 0xE8B0,
        ensures
            final(self).wf(),
            ldm_stm32_post(*old(self), *old(bus), opcode, opcode2, ok_value(res), *final(self), *final(bus)),
            res != Ok::<bool, String>(false),
    {
        proof { lemma_small_masks(); }
        let rn = (opcode & 0xF) as usize;
        let rd = ((opcode2 >> 8) & 0xF) as usize;
        let f = opcode & 0xFFF0;
        let list = opcode2 as u32;
        let writeback = f == 0xE8A0 || f == 0xE8B0;
        let is_load = f == 0xE890 || f == 0xE8B0;
        let count = count_ones_below(list, 16);
        proof { lemma_popcount_sel(list, 16); }
        let base = self.registers[rn];
        let ghost r0 = self.registers@;
        let ghost x0 = self.xpsr;
        let ghost b0 = *bus;
        if is_load {
            let a = self.load_list(bus, base, list, 16);
            assert(load_list_post(r0, x0, b0, r0[rn as int], list, 16, ok_value(a), self.registers@, self.xpsr, *bus));
            a?;
        } else {
            let a = self.store_list(bus, base, list, 16);
            assert(store_list_post(r0, b0, r0[rn as int], list, 16, ok_value(a), *bus));
            a?;
        }
        if writeback {
            self.registers[rn] = self.registers[rn].wrapping_add(count * 4);
        }
        if !is_load || (list & 0x8000) == 0 {
            self.registers[15] = self.registers[15].wrapping_add(4);
        }
        return Ok(true);
    }

    /// STRD: two word stores.
    fn strd32<B: SystemBus>(&mut self, bus: &mut B, opcode: u16, opcode2: u16) -> (res: Result<bool, String>)
        requires
            old(self).wf(),
            opcode & 0xFFF0 == 0xE9C0,
        ensures
            final(self).wf(),
            strd_post(*old(self), *old(bus), opcode, opcode2, ok_value(res), *final(self), *final(bus)),
            res != Ok::<bool, String>(false),
    {
        proof { lemma_small_masks(); }
        let rn = (opcode & 0xF) as usize;
        let rd = ((opcode2 >> 8) & 0xF) as usize;
        let f = opcode & 0xFFF0;
        let rt = ((opcode2 >> 12) & 0xF) as usize;
        let imm8 = (opcode2 & 0xFF) as u32;
        assert(imm8 << 2 <= 1020) by (bit_vector) requires imm8 < 256;
        let addr = self.registers[rn].wrapping_add(imm8 << 2);
        let ghost s0 = *self;
        let ghost b0 = *bus;
        bus.write32(addr as u64, self.registers[rt])?;
        let ghost mid = *bus;
        let w = bus.write32(addr.wrapping_add(4) as u64, self.registers[rd]);
        let ghost sr = s0.registers@;
        let ghost saddr = sr[(opcode & 0xF) as int].wrapping_add(((opcode2 & 0xFF) as u32) << 2);
        assert(b0.write32_post(saddr as u64, sr[((opcode2 >> 12) & 0xF) as int], true, mid));
        w?;
        self.registers[15] = self.registers[15].wrapping_add(4);
        return Ok(true);
    }

    /// LDRD: two word loads.
    fn ldrd32<B: SystemBus>(&mut self, bus: &mut B, opcode: u16, opcode2: u16) -> (res: Result<bool, String>)
        requires
            old(self).wf(),
            opcode & 0xFFF0 == 0xE9D0,
        ensures
            final(self).wf(),
            ldrd_post(*old(self), *old(bus), opcode, opcode2, ok_value(res), *final(self), *final(bus)),
            res != Ok::<bool, String>(false),
    {
        proof { lemma_small_masks(); }
        let rn = (opcode & 0xF) as usize;
        let rd = ((opcode2 >> 8) & 0xF) as usize;
        let f = opcode & 0xFFF0;
        let rt = ((opcode2 >> 12) & 0xF) as usize;
        let imm8 = (opcode2 & 0xFF) as u32;
        assert(imm8 << 2 <= 1020) by (bit_vector) requires imm8 < 256;
        let addr = self.registers[rn].wrapping_add(imm8 << 2);
        let ghost sr = self.registers@;
        let ghost saddr = sr[(opcode & 0xF) as int].wrapping_add(((opcode2 & 0xFF) as u32) << 2);
        let ghost b0 = *bus;
        let v1 = bus.read32(addr as u64)?;
        let ghost mid = *bus;
        assert(b0.read32_post(saddr as u64, Some(v1), mid));
        self.registers[rt] = v1;
        let v2 = bus.read32(addr.wrapping_add(4) as u64);
        assert(mid.read32_post(saddr.wrapping_add(4) as u64, ok_value(v2), *bus));
        let v2 = v2?;
        self.registers[rd] = v2;
        self.registers[15] = self.registers[15].wrapping_add(4);
        return Ok(true);
    }

    /// STMDB: store the list below the base and lower it.
    fn stmdb32<B: SystemBus>(&mut self, bus: &mut B, opcode: u16, opcode2: u16) -> (res: Result<bool, String>)
        requires
            old(self).wf(),
            opcode & 0xFFF0 == 0xE920,
        ensures
            final(self).wf(),
            stmdb_post(*old(self), *old(bus), opcode, opcode2, ok_value(res), *final(self), *final(bus)),
            res != Ok::<bool, String>(false),
    {
        proof { lemma_small_masks(); }
        let rn = (opcode & 0xF) as usize;
        let rd = ((opcode2 >> 8) & 0xF) as usize;
        let f = opcode & 0xFFF0;
        let list = opcode2 as u32;
        let count = count_ones_below(list, 16);
        proof { lemma_popcount_sel(list, 16); }
        let base = self.registers[rn].wrapping_sub(count * 4);
        let ghost r0 = self.registers@;
        let ghost b0 = *bus;
        let ghost sbase = r0[(opcode & 0xF) as int].wrapping_sub((sel(list, 16).len() * 4) as u32);
        assert(sbase == base);
        let a = self.store_list(bus, base, list, 16);
        assert(store_list_post(r0, b0, sbase, list, 16, ok_value(a), *bus));
        a?;
        self.registers[rn] = base;
        self.registers[15] = self.registers[15].wrapping_add(4);
        return Ok(true);
    }

    /// TBB/TBH.
    fn table_branch<B: SystemBus>(&mut self, bus: &mut B, opcode: u16, opcode2: u16) -> (res: Result<bool, String>)
        requires
            old(self).wf(),
        ensures
            final(self).wf(),
            table_branch_post(*old(self), *old(bus), opcode, opcode2, ok_value(res), *final(self), *final(bus)),
            res != Ok::<bool, String>(false),
    {
        proof { lemma_small_masks(); }
        let rn = (opcode & 0xF) as usize;
        let rm = (opcode2 & 0xF) as usize;
        let next_pc = self.registers[15].wrapping_add(4);
        let base = if rn == 15 { next_pc } else { self.registers[rn] };
        let ghost r = self.registers@;
        let ghost srm = r[(opcode2 & 0xF) as int];
        let ghost b0 = *bus;
        let ghost sbase = table_base(r, opcode);
        let ghost s0 = *self;
        if (opcode2 & 0x0010) == 0 {
            let v = bus.read8(base.wrapping_add(self.registers[rm]) as u64)?;
            self.registers[15] = next_pc.wrapping_add((v as u32) << 1);
            assert(b0.read8_post(sbase.wrapping_add(srm) as u64, Some(v), *bus));
            assert(self.is_state(r.update(15, r[15].wrapping_add(4).wrapping_add((v as u32) << 1)), s0.xpsr, s0));
            return Ok(true);
        } else {
            let v = bus.read16(base.wrapping_add(self.registers[rm] << 1) as u64)?;
            self.registers[15] = next_pc.wrapping_add((v as u32) << 1);
            assert(b0.read16_post(sbase.wrapping_add(srm << 1) as u64, Some(v), *bus));
            assert(self.is_state(r.update(15, r[15].wrapping_add(4).wrapping_add((v as u32) << 1)), s0.xpsr, s0));
            return Ok(true);
        }
    }

    fn step32_a<B: SystemBus>(&mut self, bus: &mut B, opcode: u16, opcode2: u16) -> (res: Result<bool, String>)
        requires
            old(self).wf(),
        ensures
            final(self).wf(),
            handled_32a(opcode) ==> step32_a(*old(self), *old(bus), opcode, opcode2, ok_value(res), *final(self), *final(bus)),
            !handled_32a(opcode) ==> *final(self) == *old(self) && *final(bus) == *old(bus) && res == Ok::<bool, String>(false),
            handled_32a(opcode) ==> res != Ok::<bool, String>(false),
    {
        proof { lemma_small_masks(); }
        let rn = (opcode & 0xF) as usize;
        let rd = ((opcode2 >> 8) & 0xF) as usize;
        let rm = (opcode2 & 0xF) as usize;
        let f = opcode & 0xFFF0;
        if opcode & 0xFF00 == 0xEA00 || opcode & 0xFF00 == 0xEB00 {
            let imm3 = ((opcode2 >> 12) & 0x7) as u32;
            let imm2 = ((opcode2 >> 6) & 0x3) as u32;
            let shift_type = (opcode2 >> 4) & 0x3;
            let shifted = Self::shift_imm(self.registers[rm], shift_type, (imm3 << 2) | imm2);
            if opcode & 0xFF00 == 0xEA00 {
                if rn == 15 {
                    self.set_nz_flags(shifted);
                } else {
                    self.registers[rd] = self.registers[rn] & shifted;
                }
            } else {
                let result = self.registers[rn].wrapping_add(shifted);
                if rd == 15 {
                    self.set_add_flags(self.registers[rn], shifted, result);
                } else {
                    self.registers[rd] = result;
                }
            }
            self.registers[15] = self.registers[15].wrapping_add(4);
            return Ok(true);
        }
        if f == 0xE880 || f == 0xE890 || f == 0xE8A0 || f == 0xE8B0 {
            return self.ldm_stm32(bus, opcode, opcode2);
        }
        if f == 0xE9C0 {
            return self.strd32(bus, opcode, opcode2);
        }
        if f == 0xE9D0 {
            return self.ldrd32(bus, opcode, opcode2);
        }
        Ok(false)
    }

    fn step32_b<B: SystemBus>(&mut self, bus: &mut B, pc: u64, opcode: u16, opcode2: u16) -> (res: Result<bool, String>)
        requires
            old(self).wf(),
        ensures
            final(self).wf(),
            handled_32b(opcode, opcode2) ==> step32_b(*old(self), *old(bus), opcode, opcode2, ok_value(res), *final(self), *final(bus)),
            !handled_32b(opcode, opcode2) ==> *final(self) == *old(self) && *final(bus) == *old(bus) && res == Ok::<bool, String>(false),
            handled_32b(opcode, opcode2) ==> res != Ok::<bool, String>(false),
    {
        proof { lemma_small_masks(); }
        if opcode & 0xF000 != 0xF000 {
            return Ok(false);
        }
        let f = opcode & 0xFFF0;
        let mid = opcode2 & 0x0F00;
        let low = opcode2 & 0x00F0;
        let rn = (opcode & 0xF) as usize;
        let rt = ((opcode2 >> 12) & 0xF) as usize;
        let rm = (opcode2 & 0xF) as usize;
        let rd = ((opcode2 >> 8) & 0xF) as usize;
        let imm12 = (opcode2 & 0x0FFF) as u32;
        let imm8 = (opcode2 & 0xFF) as u32;
        let sh = ((opcode2 >> 4) & 0x3) as u32;
        let a12 = self.registers[rn].wrapping_add(imm12);
        let am8 = self.registers[rn].wrapping_sub(imm8);
        let areg = self.registers[rn].wrapping_add(self.registers[rm] << sh);
        let sp = (opcode & 0xF) == 13;
        if f == 0xF880 {
            return self.ldst32(bus, false, a12, 1, false, rt, rn, None);
        }
        if f == 0xF890 {
            return self.ldst32(bus, true, a12, 1, false, rt, rn, None);
        }
        if f == 0xF990 {
            return self.ldst32(bus, true, a12, 1, true, rt, rn, None);
        }
        if f == 0xF910 && mid == 0x0C00 {
            return self.ldst32(bus, true, am8, 1, true, rt, rn, None);
        }
        if f == 0xF910 && low == 0 {
            return self.ldst32(bus, true, areg, 1, true, rt, rn, None);
        }
        if f == 0xF8C0 {
            return self.ldst32(bus, false, a12, 4, false, rt, rn, None);
        }
        if f == 0xF840 && sp && mid == 0x0D00 {
            return self.ldst32(bus, false, am8, 4, false, rt, rn, Some(am8));
        }
        if f == 0xF840 && mid == 0x0C00 {
            return self.ldst32(bus, false, am8, 4, false, rt, rn, None);
        }
        if f == 0xF840 && low == 0 {
            return self.ldst32(bus, false, areg, 4, false, rt, rn, None);
        }
        if f == 0xF850 && sp && mid == 0x0B00 {
            let addr = self.registers[rn];
            return self.ldst32(bus, true, addr, 4, false, rt, rn, Some(imm8));
        }
        if f == 0xF850 && mid == 0x0C00 {
            return self.ldst32(bus, true, am8, 4, false, rt, rn, None);
        }
        if f == 0xF850 && low != 0 {
            return self.ldst32(bus, true, areg, 4, false, rt, rn, None);
        }
        if f == 0xF8D0 {
            return self.ldst32(bus, true, a12, 4, false, rt, rn, None);
        }
        if f == 0xF800 && mid == 0x0C00 {
            return self.ldst32(bus, false, am8, 1, false, rt, rn, None);
        }
        if f == 0xF800 && low == 0 {
            return self.ldst32(bus, false, areg, 1, false, rt, rn, None);
        }
        if f == 0xF810 && mid == 0x0C00 {
            return self.ldst32(bus, true, am8, 1, false, rt, rn, None);
        }
        if f == 0xF810 && mid == 0x0B00 {
            let addr = self.registers[rn];
            return self.ldst32(bus, true, addr, 1, false, rt, rn, Some(imm8));
        }
        if f == 0xF810 && low == 0 {
            return self.ldst32(bus, true, areg, 1, false, rt, rn, None);
        }
        if f == 0xF820 && mid == 0x0C00 {
            return self.ldst32(bus, false, am8, 2, false, rt, rn, None);
        }
        if f == 0xF820 && (low == 0 || low == 0x10) {
            return self.ldst32(bus, false, areg, 2, false, rt, rn, None);
        }
        if f == 0xF830 && mid == 0x0C00 {
            return self.ldst32(bus, true, am8, 2, false, rt, rn, None);
        }
        if f == 0xF830 && (low == 0 || low == 0x10) {
            return self.ldst32(bus, true, areg, 2, false, rt, rn, None);
        }
        if f == 0xF8A0 {
            return self.ldst32(bus, false, a12, 2, false, rt, rn, None);
        }
        if f == 0xF8B0 {
            return self.ldst32(bus, true, a12, 2, false, rt, rn, None);
        }
        if (f == 0xFA00 || f == 0xFA10 || f == 0xFA40 || f == 0xFA50) && (opcode == 0xFA0F
            || opcode == 0xFA1F || opcode == 0xFA4F || opcode == 0xFA5F) && (opcode2 & 0xFF00)
            == 0xF800 {
            let rot = ((opcode2 >> 4) & 0x3) as u32;
            let val = rotr32(self.registers[rm], rot * 8);
            let result = if opcode == 0xFA0F {
                sext16(val)
            } else if opcode == 0xFA1F {
                val & 0xFFFF
            } else if opcode == 0xFA4F {
                sext8(val)
            } else {
                val & 0xFF
            };
            self.registers[rd] = result;
            self.registers[15] = self.registers[15].wrapping_add(4);
            return Ok(true);
        }
        if f == 0xFBA0 {
            let a: u64 = self.registers[rn] as u64;
            let m: u64 = self.registers[rm] as u64;
            assert(a * m <= 0xFFFF_FFFF * 0xFFFF_FFFF) by (nonlinear_arith)
                requires
                    a <= 0xFFFF_FFFF,
                    m <= 0xFFFF_FFFF,
            ;
            let product = a * m;
            self.registers[rt] = (product & 0xFFFF_FFFF) as u32;
            self.registers[rd] = (product >> 32) as u32;
            self.registers[15] = self.registers[15].wrapping_add(4);
            return Ok(true);
        }
        if f == 0xFB00 && (low == 0 || low == 0x10) {
            if low == 0 {
                let mut result = self.registers[rn].wrapping_mul(self.registers[rm]);
                if rt != 15 {
                    result = result.wrapping_add(self.registers[rt]);
                }
                self.registers[rd] = result;
            } else {
                self.registers[rd] = self.registers[rt].wrapping_sub(
                    self.registers[rn].wrapping_mul(self.registers[rm]),
                );
            }
            self.registers[15] = self.registers[15].wrapping_add(4);
            return Ok(true);
        }
        if f == 0xFBB0 && opcode2 & 0xF0F0 == 0xF0F0 {
            if self.registers[rm] == 0 {
                return Err(hex_message("division by zero at PC ", pc, 8, ""));
            }
            self.registers[rd] = self.registers[rn] / self.registers[rm];
            self.registers[15] = self.registers[15].wrapping_add(4);
            return Ok(true);
        }
        Ok(false)
    }

    fn step32_c<B: SystemBus>(&mut self, bus: &mut B, pc: u64, opcode: u16, opcode2: u16) -> (res: Result<bool, String>)
        requires
            old(self).wf(),
        ensures
            final(self).wf(),
            handled_32c(opcode) ==> step32_c(*old(self), *old(bus), opcode, opcode2, ok_value(res), *final(self), *final(bus)),
            !handled_32c(opcode) ==> *final(self) == *old(self) && *final(bus) == *old(bus) && res == Ok::<bool, String>(false),
            handled_32c(opcode) ==> res != Ok::<bool, String>(false),
    {
        proof { lemma_small_masks(); }
        if opcode & 0xF000 != 0xF000 {
            return Ok(false);
        }
        let g = opcode & 0xFBF0;
        let rn = (opcode & 0xF) as usize;
        let rd = ((opcode2 >> 8) & 0xF) as usize;
        let lsb = ((((opcode2 >> 12) & 0x7) as u32) << 2) | (((opcode2 >> 6) & 0x3) as u32);
        let i3 = ((opcode2 >> 12) & 0x7) as u32;
        let i2 = ((opcode2 >> 6) & 0x3) as u32;
        assert((i3 << 2) | i2 < 32) by (bit_vector) requires i3 < 8, i2 < 4;
        let imm12 = ((((opcode >> 10) & 1) as u32) << 11) | ((((opcode2 >> 12) & 0x7) as u32) << 8) | (opcode2 & 0xFF) as u32;
        let imm32 = Self::thumb_expand_imm12(imm12);
        if g == 0xF3C0 {
            let width = ((opcode2 & 0x1F) as u32) + 1;
            assert(width < 32 ==> (1u32 << width) >= 1) by (bit_vector);
            let mask = if width >= 32 { u32::MAX } else { (1u32 << width) - 1 };
            self.registers[rd] = (self.registers[rn] >> lsb) & mask;
            self.registers[15] = self.registers[15].wrapping_add(4);
            return Ok(true);
        }
        if g == 0xF360 {
            let msb = (opcode2 & 0x1F) as u32;
            if msb < lsb {
                return Err(hex_message("invalid bitfield at PC ", pc, 8, ""));
            }
            let width = msb - lsb + 1;
            assert(width < 32 ==> (1u32 << width) >= 1) by (bit_vector);
            let field_mask = if width >= 32 { u32::MAX } else { ((1u32 << width) - 1) << lsb };
            if rn == 15 {
                self.registers[rd] = self.registers[rd] & !field_mask;
            } else {
                let insert = (self.registers[rn] << lsb) & field_mask;
                self.registers[rd] = (self.registers[rd] & !field_mask) | insert;
            }
            self.registers[15] = self.registers[15].wrapping_add(4);
            return Ok(true);
        }
        if g == 0xF240 || g == 0xF2C0 {
            let imm16 = (((opcode & 0xF) as u32) << 12) | ((((opcode >> 10) & 1) as u32) << 11)
                | ((((opcode2 >> 12) & 0x7) as u32) << 8) | (opcode2 & 0xFF) as u32;
            if g == 0xF240 {
                self.registers[rd] = imm16;
            } else {
                self.registers[rd] = (self.registers[rd] & 0x0000_FFFF) | (imm16 << 16);
            }
            self.registers[15] = self.registers[15].wrapping_add(4);
            return Ok(true);
        }
        if g == 0xF100 {
            let result = self.registers[rn].wrapping_add(imm32);
            if rd == 15 {
                self.set_add_flags(self.registers[rn], imm32, result);
            } else {
                self.registers[rd] = result;
            }
            self.registers[15] = self.registers[15].wrapping_add(4);
            return Ok(true);
        }
        if g == 0xF1C0 {
            self.registers[rd] = imm32.wrapping_sub(self.registers[rn]);
            self.registers[15] = self.registers[15].wrapping_add(4);
            return Ok(true);
        }
        if opcode & 0xFBE0 == 0xF1A0 {
            let setflags = (opcode & 0x0010) != 0;
            let result = self.registers[rn].wrapping_sub(imm32);
            if rd == 15 {
                self.set_sub_flags(self.registers[rn], imm32, result);
            } else {
                self.registers[rd] = result;
                if setflags {
                    self.set_sub_flags(self.registers[rn], imm32, result);
                }
            }
            self.registers[15] = self.registers[15].wrapping_add(4);
            return Ok(true);
        }
        Ok(false)
    }

    fn step32_d<B: SystemBus>(&mut self, bus: &mut B, opcode: u16, opcode2: u16) -> (res: Result<bool, String>)
        requires
            old(self).wf(),
        ensures
            final(self).wf(),
            handled_32d(opcode, opcode2) ==> step32_d(*old(self), *old(bus), opcode, opcode2, ok_value(res), *final(self), *final(bus)),
            !handled_32d(opcode, opcode2) ==> *final(self) == *old(self) && *final(bus) == *old(bus) && res == Ok::<bool, String>(false),
            handled_32d(opcode, opcode2) ==> res != Ok::<bool, String>(false),
    {
        proof { lemma_small_masks(); }
        let rn = (opcode & 0xF) as usize;
        let rm = (opcode2 & 0xF) as usize;
        let rd = ((opcode2 >> 8) & 0xF) as usize;
        if opcode & 0xFFB0 == 0xFAB0 && opcode2 & 0xF0F0 == 0xF080 {
            self.registers[rd] = self.registers[rm].leading_zeros();
            self.registers[15] = self.registers[15].wrapping_add(4);
            return Ok(true);
        }
        if opcode & 0xFFF0 == 0xE920 {
            return self.stmdb32(bus, opcode, opcode2);
        }
        if opcode & 0xFFF0 == 0xE8D0 && opcode2 & 0xFFF0 == 0xF000 {
            return self.table_branch(bus, opcode, opcode2);
        }
        Ok(false)
    }

    fn step32_e<B: SystemBus>(&mut self, bus: &mut B, pc: u64, opcode: u16, opcode2: u16) -> (res: Result<bool, String>)
        requires
            old(self).wf(),
        ensures
            final(self).wf(),
            step32_e(*old(self), *old(bus), opcode, opcode2, ok_value(res), *final(self), *final(bus)),
    {
        proof { lemma_small_masks(); }
        let rn = (opcode & 0xF) as usize;
        let rd = ((opcode2 >> 8) & 0xF) as usize;
        if opcode & 0xF800 == 0xF000 {
            if opcode == 0xF3EF && (opcode2 >> 8) == 0x80 {
                self.registers[rd] = 0;
                self.registers[15] = self.registers[15].wrapping_add(4);
                return Ok(true);
            }
            if 0xF380 <= opcode && opcode <= 0xF38F && (opcode2 >> 8) == 0x88 {
                self.registers[15] = self.registers[15].wrapping_add(4);
                return Ok(true);
            }
            if opcode == 0xF3BF && (opcode2 >> 8) == 0x8F {
                self.registers[15] = self.registers[15].wrapping_add(4);
                return Ok(true);
            }
            if opcode2 & 0x8000 == 0 {
                let imm12 = ((((opcode >> 10) & 1) as u32) << 11) | ((((opcode2 >> 12) & 0x7) as u32) << 8) | (opcode2 & 0xFF) as u32;
                let imm32 = Self::thumb_expand_imm12(imm12);
                if opcode & 0xFBEF == 0xF04F {
                    self.registers[rd] = imm32;
                    self.registers[15] = self.registers[15].wrapping_add(4);
                    return Ok(true);
                }
                if opcode & 0xFBEF == 0xF06F {
                    self.registers[rd] = !imm32;
                    self.registers[15] = self.registers[15].wrapping_add(4);
                    return Ok(true);
                }
                if opcode & 0xFBE0 == 0xF040 {
                    self.registers[rd] = self.registers[rn] | imm32;
                    self.registers[15] = self.registers[15].wrapping_add(4);
                    return Ok(true);
                }
                if opcode & 0xFBE0 == 0xF020 {
                    self.registers[rd] = self.registers[rn] & !imm32;
                    self.registers[15] = self.registers[15].wrapping_add(4);
                    return Ok(true);
                }
                if opcode & 0xFBE0 == 0xF000 {
                    let result = self.registers[rn] & imm32;
                    self.set_nz_flags(result);
                    if rd != 15 {
                        self.registers[rd] = result;
                    }
                    self.registers[15] = self.registers[15].wrapping_add(4);
                    return Ok(true);
                }
            }
            if opcode2 & 0xD000 == 0x8000 {
                let cond = ((opcode >> 6) & 0xF) as u8;
                if cond < 0xE {
                    let sbit = ((opcode >> 10) & 1) as u32;
                    let imm6 = (opcode & 0x3F) as u32;
                    let j1 = ((opcode2 >> 13) & 1) as u32;
                    let j2 = ((opcode2 >> 11) & 1) as u32;
                    let imm11 = (opcode2 & 0x07FF) as u32;
                    let imm21 = (sbit << 20) | (j2 << 19) | (j1 << 18) | (imm6 << 12) | (imm11 << 1);
                    assert(imm21 < 0x20_0000) by (bit_vector) requires sbit < 2, j1 < 2, j2 < 2, imm6 < 64, imm11 < 2048, imm21 == (sbit << 20) | (j2 << 19) | (j1 << 18) | (imm6 << 12) | (imm11 << 1);
                    let offset: i32 = if imm21 >= 0x10_0000 { imm21 as i32 - 0x20_0000 } else { imm21 as i32 };
                    let next_pc = self.registers[15].wrapping_add(4);
                    if self.condition_passed(cond) {
                        self.registers[15] = next_pc.wrapping_add_signed(offset);
                    } else {
                        self.registers[15] = next_pc;
                    }
                    return Ok(true);
                }
            }
            if opcode2 & 0xD000 == 0xD000 {
                let sbit = ((opcode >> 10) & 1) as u32;
                let j1 = ((opcode2 >> 13) & 1) as u32;
                let j2 = ((opcode2 >> 11) & 1) as u32;
                let imm10 = (opcode & 0x03FF) as u32;
                let imm11 = (opcode2 & 0x07FF) as u32;
                let i1 = (!(j1 ^ sbit)) & 1;
                let i2 = (!(j2 ^ sbit)) & 1;
                assert(i1 < 2 && i2 < 2) by (bit_vector) requires i1 == (!(j1 ^ sbit)) & 1, i2 == (!(j2 ^ sbit)) & 1;
                let imm25 = (sbit << 24) | (i1 << 23) | (i2 << 22) | (imm10 << 12) | (imm11 << 1);
                assert(imm25 < 0x200_0000) by (bit_vector) requires sbit < 2, i1 < 2, i2 < 2, imm10 < 1024, imm11 < 2048, imm25 == (sbit << 24) | (i1 << 23) | (i2 << 22) | (imm10 << 12) | (imm11 << 1);
                let signed: i32 = if imm25 >= 0x100_0000 { imm25 as i32 - 0x200_0000 } else { imm25 as i32 };
                let next_pc = self.registers[15].wrapping_add(4);
                self.registers[14] = next_pc | 1;
                self.registers[15] = next_pc.wrapping_add_signed(signed);
                return Ok(true);
            }
        }
        Err(hex_message2("unimplemented Thumb instruction ", opcode as u64, 4, " at PC ", pc, 8, ""))
    }

    /// Writes `value` to `count` consecutive words starting at `base`.
    fn fill_words<B: SystemBus>(bus: &mut B, base: u32, value: u32, count: u32) -> (res: Result<(), String>)
        ensures
            write_words_post(*old(bus), base, repeat_word(value, count as nat), res is Ok, *final(bus)),
    {
        let ghost b0 = *bus;
        let ghost vals = repeat_word(value, count as nat);
        let mut address = base;
        let mut i: u32 = 0;
        while i < count
            invariant
                i <= count,
                b0 == *old(bus),
                vals == repeat_word(value, count as nat),
                word_accesses(b0, word_ops(vals, base).take(i as int), false, *bus),
                address == addr_after(base, i as nat),
            decreases count - i,
        {
            let ghost mid = *bus;
            let ghost op = (address as u64, value);
            match bus.write32(address as u64, value) {
                Err(e) => {
                    proof {
                        assert(word_ops(vals, base)[i as int] == op);
                        assert(word_access(mid, op, false, false, *bus));
                        assert(word_accesses_fail(b0, word_ops(vals, base).take(i as int), word_ops(vals, base)[i as int], false, *bus));
                    }
                    return Err(e);
                },
                Ok(_) => {
                    proof {
                        lemma_word_accesses_extend(b0, word_ops(vals, base).take(i as int), false, mid, op, *bus);
                        assert(word_ops(vals, base).take(i as int).push(op) =~= word_ops(vals, base).take(i as int + 1));
                    }
                    address = address.wrapping_add(4);
                },
            }
            i = i + 1;
        }
        proof {
            assert(word_ops(vals, base).take(count as int) =~= word_ops(vals, base));
        }
        Ok(())
    }

    /// Runs the memory-clear loop (`str.w r3, [r2], #4; CMP r2, r0; bcc`) in one step.
    fn clear_loop<B: SystemBus>(&mut self, bus: &mut B) -> (res: Result<bool, String>)
        requires
            old(self).wf(),
        ensures
            final(self).wf(),
            clear_loop_post(*old(self), *old(bus), ok_value(res), *final(self), *final(bus)),
    {
        let ptr = self.registers[2];
        let end = self.registers[0];
        let value = self.registers[3];
        let mut iterations: u32 = 0;
        if ptr < end {
            let d = end - ptr;
            iterations = d / 4;
            if d % 4 != 0 {
                iterations = iterations + 1;
            }
            assert(iterations == (end - ptr + 3) / 4);
        }
        Self::fill_words(bus, ptr, value, iterations)?;
        let fin = Self::advance_words(ptr, iterations);
        self.registers[2] = fin;
        let result = fin.wrapping_sub(end);
        self.set_sub_flags(fin, end, result);
        self.registers[15] = self.registers[15].wrapping_add(8);
        Ok(true)
    }

    /// `base` advanced by `count` words, wrapping around.
    fn advance_words(base: u32, count: u32) -> (r: u32)
        ensures
            r == addr_after(base, count as nat),
    {
        let mut a = base;
        let mut i: u32 = 0;
        while i < count
            invariant
                i <= count,
                a == addr_after(base, i as nat),
            decreases count - i,
        {
            a = a.wrapping_add(4);
            i = i + 1;
        }
        a
    }

    /// Fast path for the word-clear loop that `__aeabi_memclr` compiles to; `false` when the
    /// code at `pc` is not that loop.
    fn try_fast_memclr_loop<B: SystemBus>(
        &mut self,
        bus: &mut B,
        pc: u64,
        opcode: u16,
        opcode2: u16,
    ) -> (res: Result<bool, String>)
        requires
            old(self).wf(),
            pc < 0x1_0000_0000,
        ensures
            final(self).wf(),
            fast_clear_post(*old(self), *old(bus), pc, opcode, opcode2, ok_value(res), *final(self), *final(bus)),
    {
        if opcode != 0xF842 {
            return Ok(false);
        }
        if opcode2 != 0x3B04 {
            return Ok(false);
        }
        let ghost b0 = *bus;
        let second = bus.read16(pc + 4)?;
        let ghost b1 = *bus;
        assert(b0.read16_post((pc + 4) as u64, Some(second), b1));
        if second != 0x4282 {
            return Ok(false);
        }
        let branch = bus.read16(pc + 6);
        assert(b1.read16_post((pc + 6) as u64, ok_value(branch), *bus));
        let branch = branch?;
        let ghost b2 = *bus;
        assert(b1.read16_post((pc + 6) as u64, Some(branch), b2));
        if (branch & 0xFF00) != 0xD300 {
            return Ok(false);
        }
        self.clear_loop(bus)
    }

    fn step32_fast<B: SystemBus>(&mut self, bus: &mut B, pc: u64, opcode: u16, opcode2: u16) -> (res: Result<bool, String>)
        requires
            old(self).wf(),
        ensures
            final(self).wf(),
            step32_post(*old(self), *old(bus), opcode, opcode2, ok_value(res), *final(self), *final(bus)),
    {
        if self.step32_a(bus, opcode, opcode2)? {
            return Ok(true);
        }
        if opcode & 0xF000 == 0xF000 && opcode & 0xFFF0 == 0xFB00 && opcode2 & 0x00F0 != 0x0000 && opcode2 & 0x00F0 != 0x0010 {
            return Ok(false);
        }
        if self.step32_b(bus, pc, opcode, opcode2)? {
            return Ok(true);
        }
        if self.step32_c(bus, pc, opcode, opcode2)? {
            return Ok(true);
        }
        if self.step32_d(bus, opcode, opcode2)? {
            return Ok(true);
        }
        self.step32_e(bus, pc, opcode, opcode2)
    }

    fn step16_a<B: SystemBus>(&mut self, bus: &mut B, opcode: u16) -> (res: Result<bool, String>)
        requires
            old(self).wf(),
        ensures
            final(self).wf(),
            step16_a(*old(self), *old(bus), opcode, ok_value(res), *final(self), *final(bus)),
            !handled_a(opcode) ==> *final(self) == *old(self) && *final(bus) == *old(bus) && res == Ok::<bool, String>(false),
            handled_a(opcode) ==> res != Ok::<bool, String>(false),
    {
        proof { lemma_small_masks(); }
        let rt8 = ((opcode >> 8) & 0x7) as usize;
        let imm8 = (opcode & 0xFF) as u32;
        let imm5 = ((opcode >> 6) & 0x1F) as u32;
        let rn3 = ((opcode >> 3) & 0x7) as usize;
        let rt3 = (opcode & 0x7) as usize;
        assert(imm8 << 2 <= 1020) by (bit_vector) requires imm8 < 256;
        assert(imm5 << 2 <= 124 && imm5 << 1 <= 62) by (bit_vector) requires imm5 < 32;
        match opcode & 0xF800 {
            0x4800 => {
                let base = self.registers[15].wrapping_add(4) & !3;
                self.load(bus, base.wrapping_add(imm8 << 2), 4, false, rt8, 2)
            },
            0xA000 => {
                let base = self.registers[15].wrapping_add(4) & !3;
                self.registers[rt8] = base.wrapping_add(imm8 << 2);
                self.registers[15] = self.registers[15].wrapping_add(2);
                Ok(true)
            },
            0xA800 => {
                self.registers[rt8] = self.registers[13].wrapping_add(imm8 << 2);
                self.registers[15] = self.registers[15].wrapping_add(2);
                Ok(true)
            },
            0x2000 => {
                self.registers[rt8] = imm8;
                self.set_nz_flags(imm8);
                self.registers[15] = self.registers[15].wrapping_add(2);
                Ok(true)
            },
            0x2800 => {
                let result = self.registers[rt8].wrapping_sub(imm8);
                self.set_sub_flags(self.registers[rt8], imm8, result);
                self.registers[15] = self.registers[15].wrapping_add(2);
                Ok(true)
            },
            0x3000 => {
                let result = self.registers[rt8].wrapping_add(imm8);
                self.registers[rt8] = result;
                self.set_add_flags(self.registers[rt8].wrapping_sub(imm8), imm8, result);
                self.registers[15] = self.registers[15].wrapping_add(2);
                Ok(true)
            },
            0x3800 => {
                let result = self.registers[rt8].wrapping_sub(imm8);
                self.registers[rt8] = result;
                self.set_sub_flags(self.registers[rt8].wrapping_add(imm8), imm8, result);
                self.registers[15] = self.registers[15].wrapping_add(2);
                Ok(true)
            },
            0x6000 => {
                let v = self.registers[rt3];
                self.store(bus, self.registers[rn3].wrapping_add(imm5 << 2), 4, v, 2)
            },
            0x6800 => self.load(bus, self.registers[rn3].wrapping_add(imm5 << 2), 4, false, rt3, 2),
            0x7000 => {
                let v = self.registers[rt3];
                self.store(bus, self.registers[rn3].wrapping_add(imm5), 1, v, 2)
            },
            0x7800 => self.load(bus, self.registers[rn3].wrapping_add(imm5), 1, false, rt3, 2),
            0x8000 => {
                let v = self.registers[rt3];
                self.store(bus, self.registers[rn3].wrapping_add(imm5 << 1), 2, v, 2)
            },
            0x8800 => self.load(bus, self.registers[rn3].wrapping_add(imm5 << 1), 2, false, rt3, 2),
            0x9000 => {
                let v = self.registers[rt8];
                self.store(bus, self.registers[13].wrapping_add(imm8 << 2), 4, v, 2)
            },
            0x9800 => self.load(bus, self.registers[13].wrapping_add(imm8 << 2), 4, false, rt8, 2),
            0xE000 => {
                let imm11 = (opcode & 0x07FF) as i32;
                let signed: i32 = if imm11 >= 0x400 { (imm11 - 2048) * 2 } else { imm11 * 2 };
                let next_pc = self.registers[15].wrapping_add(4);
                self.registers[15] = next_pc.wrapping_add_signed(signed);
                Ok(true)
            },
            _ => {
                if opcode & 0xFC00 == 0x4000 {
                    self.exec_dp16(opcode);
                    self.registers[15] = self.registers[15].wrapping_add(2);
                    Ok(true)
                } else if opcode & 0xFC00 == 0x4400 {
                    self.exec_special16(opcode);
                    Ok(true)
                } else {
                    Ok(false)
                }
            },
        }
    }
}

/// A core state after reset: every register zero but SP and PC, which come from the vector
/// table (PC with bit 0 cleared), Thumb state, no IT block and an empty decode cache.
pub open spec fn reset_state(s: CortexM3, sp: u32, handler: u32, s2: CortexM3) -> bool {
    &&& s2.registers@ == Seq::new(16, |i: int| 0u32).update(13, sp).update(15, handler & !1u32)
    &&& s2.xpsr == 0x0100_0000
    &&& s2.it_conds == s.it_conds
    &&& s2.it_pos == 0
    &&& s2.it_count == 0
    &&& s2.decode_cache@ == Seq::new(DECODE_CACHE_SIZE as nat, |i: int| empty_entry())
}

/// Reset: the initial SP is read from `vtb` and the reset handler from `vtb + 4`.
pub open spec fn core_reset<B: SystemBus>(s: CortexM3, b: B, vtb: u64, ok: bool, s2: CortexM3, b2: B) -> bool {
    ||| !ok && b.read32_post(vtb, None, b2) && s2 == s
    ||| exists|sp: u32, b1: B|
        #[trigger] b.read32_post(vtb, Some(sp), b1) && {
            ||| !ok && b1.read32_post((vtb + 4) as u64, None, b2) && s2 == s
            ||| exists|h: u32|
                #[trigger] b1.read32_post((vtb + 4) as u64, Some(h), b2) && ok && reset_state(s, sp, h, s2)
        }
}

/// The eight-word frame pushed on exception entry: R0-R3, R12, LR, PC (bit 0 set) and xPSR.
pub open spec fn exception_frame(r: Seq<u32>, x: u32) -> Seq<u32> {
    seq![r[0], r[1], r[2], r[3], r[12], r[14], r[15] | 1, x]
}

/// Exception entry once the handler address `h` is known to be usable.
pub open spec fn exception_push<B: SystemBus>(s: CortexM3, b: B, n: u16, h: u32, r: Option<bool>, s2: CortexM3, b2: B) -> bool {
    let regs = s.registers@;
    let sp = regs[13].wrapping_sub(32);
    &&& write_words_post(b, sp, exception_frame(regs, s.xpsr), r is Some, b2)
    &&& match r {
        None => s2 == s,
        Some(t) => t && s2.is_state(
            regs.update(13, sp).update(14, 0xFFFF_FFF9).update(15, h & !1u32),
            ((s.xpsr & !0x1FFu32) | ((n as u32) & 0x1FF)) | 0x0100_0000,
            s,
        ),
    }
}

/// Exception entry: exception 0 and a vector that reads 0 or 0xFFFF_FFFF are not taken;
/// otherwise the frame is pushed and execution continues at the handler.
pub open spec fn core_exception<B: SystemBus>(
    s: CortexM3,
    b: B,
    vtb: u64,
    n: u16,
    r: Option<bool>,
    s2: CortexM3,
    b2: B,
) -> bool {
    if n == 0 {
        r == Some(false) && s2 == s && b2 == b
    } else {
        let va = (vtb + (n as u64) * 4) as u64;
        ||| r is None && b.read32_post(va, None, b2) && s2 == s
        ||| exists|h: u32, b1: B|
            #[trigger] b.read32_post(va, Some(h), b1) && if h == 0 || h == 0xFFFF_FFFF {
                r == Some(false) && b2 == b1 && s2 == s
            } else {
                exception_push(s, b1, n, h, r, s2, b2)
            }
    }
}

/// A 32-bit instruction at `pc` whose first half-word is `op`: the second half-word is
/// fetched, the memory-clear fast path is tried, then the instruction is executed.
pub open spec fn step_wide<B: SystemBus>(s: CortexM3, b: B, pc: u64, op: u16, ok: bool, s2: CortexM3, b2: B) -> bool {
    exists|f2: Option<u16>, s3: CortexM3, b3: B|
        #[trigger] s.fetch2_post(b, pc, f2, s3, b3) && match f2 {
            None => !ok && s2 == s3 && b2 == b3,
            Some(op2) => exists|m: Option<bool>, s4: CortexM3, b4: B|
                #[trigger] fast_clear_post(s3, b3, pc, op, op2, m, s4, b4) && match m {
                    None => !ok && s2 == s4 && b2 == b4,
                    Some(true) => ok && s2 == s4 && b2 == b4,
                    Some(false) => exists|res: Option<bool>|
                        #[trigger] step32_post(s4, b4, op, op2, res, s2, b2) && ok == (res == Some(true)),
                },
        }
}

/// The state with the IT position moved past the current instruction, inside an IT block.
pub open spec fn it_advance(s: CortexM3) -> CortexM3 {
    if s.it_pos < s.it_count {
        CortexM3 { it_pos: (s.it_pos + 1) as u8, ..s }
    } else {
        s
    }
}

/// After the fetch of `op` (width `w`): an instruction inside an IT block whose condition
/// fails is skipped; otherwise it is executed. A handled instruction is success; an
/// unhandled one, or a failed access, is an error.
pub open spec fn step_decoded<B: SystemBus>(s: CortexM3, b: B, pc: u64, op: u16, w: u32, ok: bool, s2: CortexM3, b2: B) -> bool {
    let in_it = s.it_pos < s.it_count;
    let s1 = it_advance(s);
    if in_it && !cond_holds(s.xpsr, s.it_conds[s.it_pos as int]) {
        ok && b2 == b && s2.is_state(adv(s.registers@, w), s.xpsr, s1)
    } else if w == 2 {
        exists|res: Option<bool>| #[trigger] step16_post(s1, b, op, res, s2, b2) && ok == (res == Some(true))
    } else {
        step_wide(s1, b, pc, op, ok, s2, b2)
    }
}

/// One step of the core: fetch at PC, then decode and execute.
pub open spec fn core_step<B: SystemBus>(s: CortexM3, b: B, ok: bool, s2: CortexM3, b2: B) -> bool {
    let pc = s.registers@[15] as u64;
    exists|f: Option<(u16, u32)>, s1: CortexM3, b1: B|
        #[trigger] s.fetch_post(b, pc, f, s1, b1) && match f {
            None => !ok && s2 == s1 && b2 == b1,
            Some(p) => step_decoded(s1, b1, pc, p.0, p.1, ok, s2, b2),
        }
}

impl<B: SystemBus> CpuCore<B> for CortexM3 {
    type Arch = ArmV7MArchitecture;

    open spec fn inv(&self) -> bool {
        self.wf()
    }

    open spec fn spec_arch(&self) -> ArmV7MArchitecture {
        self.arch
    }

    open spec fn spec_pc(&self) -> u64 {
        self.registers@[15] as u64
    }

    open spec fn spec_sp(&self) -> u64 {
        self.registers@[13] as u64
    }

    open spec fn spec_in_exception(&self) -> bool {
        self.xpsr & 0x1FF != 0
    }

    open spec fn step_post(&self, bus: B, ok: bool, after: Self, bus_after: B) -> bool {
        core_step(*self, bus, ok, after, bus_after)
    }

    open spec fn reset_post(
        &self,
        bus: B,
        vector_table_base: u64,
        ok: bool,
        after: Self,
        bus_after: B,
    ) -> bool {
        core_reset(*self, bus, vector_table_base, ok, after, bus_after)
    }

    open spec fn exception_post(
        &self,
        bus: B,
        vector_table_base: u64,
        exception_number: u16,
        r: Option<bool>,
        after: Self,
        bus_after: B,
    ) -> bool {
        core_exception(*self, bus, vector_table_base, exception_number, r, after, bus_after)
    }

    fn step(&mut self, bus: &mut B) -> (r: Result<(), String>) {
        let pc = self.registers[15] as u64;
        let ghost s0 = *self;
        let ghost b0 = *bus;
        let f = self.fetch_opcode(bus, pc);
        assert(s0.fetch_post(b0, pc, ok_value(f), *self, *bus));
        let (opcode, width) = match f {
            Ok(p) => p,
            Err(e) => return Err(e),
        };
        let ghost s1 = *self;
        let ghost b1 = *bus;
        if self.it_pos < self.it_count {
            let cond = self.it_conds[self.it_pos as usize];
            self.it_pos = self.it_pos + 1;
            if !self.condition_passed(cond) {
                self.registers[15] = self.registers[15].wrapping_add(width);
                return Ok(());
            }
        }
        assert(*self == it_advance(s1));
        if width == 2 {
            let res = self.step16_fast(bus, pc, opcode);
            assert(step16_post(it_advance(s1), b1, opcode, ok_value(res), *self, *bus));
            match res {
                Ok(true) => {
                    assert(step16_post(it_advance(s1), b1, opcode, Some(true), *self, *bus));
                    return Ok(());
                },
                Ok(false) => {},
                Err(e) => return Err(e),
            }
        } else {
            let ghost s2 = *self;
            let f2 = self.fetch_opcode2(bus, pc);
            let opcode2 = match f2 {
                Ok(o) => o,
                Err(e) => return Err(e),
            };
            let m = self.try_fast_memclr_loop(bus, pc, opcode, opcode2);
            match m {
                Ok(true) => return Ok(()),
                Ok(false) => {},
                Err(e) => return Err(e),
            }
            let res = self.step32_fast(bus, pc, opcode, opcode2);
            match res {
                Ok(true) => return Ok(()),
                Ok(false) => {},
                Err(e) => return Err(e),
            }
        }
        Err(hex_message2("unimplemented Thumb instruction ", opcode as u64, 4, " at PC ", pc, 8, ""))
    }

    fn reset(&mut self, bus: &mut B, vector_table_base: u64) -> (r: Result<(), String>) {
        let ghost b0 = *bus;
        let initial_sp = bus.read32(vector_table_base)?;
        let ghost b1 = *bus;
        assert(b0.read32_post(vector_table_base, Some(initial_sp), b1));
        let reset_handler = bus.read32(vector_table_base + 4)?;
        assert(b1.read32_post((vector_table_base + 4) as u64, Some(reset_handler), *bus));
        let mut regs: [u32; 16] = self.registers;
        let mut i: usize = 0;
        while i < 16
            invariant
                i <= 16,
                forall|j: int| 0 <= j < i ==> regs@[j] == 0,
            decreases 16 - i,
        {
            regs[i] = 0;
            i = i + 1;
        }
        regs[13] = initial_sp;
        regs[15] = reset_handler & !1;
        assert(regs@ =~= Seq::new(16, |i: int| 0u32).update(13, initial_sp).update(15, reset_handler & !1u32));
        self.registers = regs;
        assert(1u32 << 24 == 0x0100_0000) by (bit_vector);
        self.xpsr = 1 << 24;
        self.it_pos = 0;
        self.it_count = 0;
        self.decode_cache = empty_decode_cache();
        Ok(())
    }

    fn architecture(&self) -> &ArmV7MArchitecture {
        &self.arch
    }

    fn program_counter(&self) -> (r: u64) {
        self.registers[15] as u64
    }

    fn stack_pointer(&self) -> (r: u64) {
        self.registers[13] as u64
    }

    fn in_exception(&self) -> (r: bool) {
        (self.xpsr & 0x1FF) != 0
    }

    fn enter_exception(
        &mut self,
        bus: &mut B,
        vector_table_base: u64,
        exception_number: u16,
    ) -> (r: Result<bool, String>) {
        if exception_number == 0 {
            return Ok(false);
        }
        let vector_addr = vector_table_base + (exception_number as u64) * 4;
        let ghost b0 = *bus;
        let handler = bus.read32(vector_addr)?;
        let ghost b1 = *bus;
        assert(b0.read32_post(vector_addr, Some(handler), b1));
        if handler == 0 || handler == 0xFFFF_FFFF {
            return Ok(false);
        }
        let next_sp = self.registers[13].wrapping_sub(32);
        let frame: Vec<u32> = vec![
            self.registers[0],
            self.registers[1],
            self.registers[2],
            self.registers[3],
            self.registers[12],
            self.registers[14],
            self.registers[15] | 1,
            self.xpsr,
        ];
        assert(frame@ =~= exception_frame(self.registers@, self.xpsr));
        Self::write_words(bus, next_sp, frame.as_slice())?;
        self.registers[13] = next_sp;
        self.registers[14] = 0xFFFF_FFF9;
        self.registers[15] = handler & !1;
        self.xpsr = (self.xpsr & !0x1FF) | ((exception_number as u32) & 0x1FF);
        assert(1u32 << 24 == 0x0100_0000) by (bit_vector);
        self.xpsr = self.xpsr | (1 << 24);
        Ok(true)
    }
}

} // verus!
