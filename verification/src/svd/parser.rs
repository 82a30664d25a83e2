//! SVD device descriptions: the device name, its peripherals and their registers, with
//! `derivedFrom` peripherals given their parent's registers.
use crate::svd::number::{parse_u32, parse_u64, spec_parse_u64};
use crate::svd::xml::{collect_tag_blocks, collect_tag_blocks_with_attrs, first_at, first_tag_block, first_tag_text, spec_first_block, tag_blocks, TagBlock};
use crate::target::{PeripheralSpec, RegisterSpec};
use crate::text::{chars_of, concat3, str_eq, string_of};
use vstd::prelude::*;

verus! {

/// A device described by an SVD file.
#[derive(Debug, Clone, PartialEq, Eq)]
pub struct SvdDevice {
    pub name: String,
    pub peripherals: Vec<PeripheralSpec>,
}

/// A register as plain values: name, absolute address, width in bits, reset value.
pub open spec fn reg_view(r: RegisterSpec) -> (Seq<char>, u64, u32, u64) {
    (r.name@, r.address, r.width_bits, r.reset_value)
}

/// A peripheral as plain values: name, base address, registers.
pub open spec fn periph_view(p: PeripheralSpec) -> (Seq<char>, u64, Seq<(Seq<char>, u64, u32, u64)>) {
    (p.name@, p.base_address, p.registers@.map_values(|r: RegisterSpec| reg_view(r)))
}

/// The value of an optional number element: its default where it is missing.
pub open spec fn optional_number(x: Seq<char>, tag: Seq<char>, default: u64) -> Result<u64, Seq<char>> {
    match spec_first_block(x, tag) {
        None => Ok(default),
        Some(t) => spec_parse_u64(t),
    }
}

/// A `<register>` block of a peripheral at `base`: its name, its offset from the base, its
/// size (32 by default) and reset value (0 by default).
#[verifier::opaque]
pub open spec fn spec_parse_register(x: Seq<char>, base: u64) -> Result<(Seq<char>, u64, u32, u64), Seq<char>> {
    match spec_first_block(x, "name"@) {
        None => Err("register missing <name>"@),
        Some(name) => match spec_first_block(x, "addressOffset"@) {
            None => Err("register "@ + name + " missing <addressOffset>"@),
            Some(o) => match spec_parse_u64(o) {
                Err(e) => Err(e),
                Ok(off) => match optional_number(x, "size"@, 32) {
                    Err(e) => Err(e),
                    Ok(w) => match optional_number(x, "resetValue"@, 0) {
                        Err(e) => Err(e),
                        Ok(rv) => Ok((name, base.wrapping_add(off), w as u32, rv)),
                    },
                },
            },
        },
    }
}

/// The first `n` register blocks, or the first error.
pub open spec fn spec_parse_registers(blocks: Seq<Seq<char>>, base: u64, n: int) -> Result<Seq<(Seq<char>, u64, u32, u64)>, Seq<char>>
    decreases n,
{
    if n <= 0 {
        Ok(Seq::empty())
    } else {
        match spec_parse_registers(blocks, base, n - 1) {
            Err(e) => Err(e),
            Ok(rs) => match spec_parse_register(blocks[n - 1], base) {
                Err(e) => Err(e),
                Ok(r) => Ok(rs.push(r)),
            },
        }
    }
}

/// The register blocks of a peripheral: those of its first `<registers>` block, if any.
pub open spec fn register_blocks(x: Seq<char>) -> Seq<Seq<char>> {
    match spec_first_block(x, "registers"@) {
        None => Seq::empty(),
        Some(b) => tag_blocks(b, "register"@, 0).map_values(|t: (Seq<char>, Seq<char>)| t.0),
    }
}

/// A `<peripheral>` block: its name, base address and registers.
#[verifier::opaque]
pub open spec fn spec_parse_peripheral(x: Seq<char>) -> Result<(Seq<char>, u64, Seq<(Seq<char>, u64, u32, u64)>), Seq<char>> {
    match spec_first_block(x, "name"@) {
        None => Err("peripheral missing <name>"@),
        Some(name) => match spec_first_block(x, "baseAddress"@) {
            None => Err("peripheral "@ + name + " missing <baseAddress>"@),
            Some(b) => match spec_parse_u64(b) {
                Err(e) => Err(e),
                Ok(base) => match spec_parse_registers(register_blocks(x), base, register_blocks(x).len() as int) {
                    Err(e) => Err(e),
                    Ok(rs) => Ok((name, base, rs)),
                },
            },
        },
    }
}

/// The value of attribute `key` in attribute text `attrs`: the text between `key="` and the
/// next `"`.
pub open spec fn spec_parse_attr(attrs: Seq<char>, key: Seq<char>) -> Option<Seq<char>> {
    let needle = key + "=\""@;
    match first_at(attrs, needle, 0) {
        None => None,
        Some(p) => match first_at(attrs, seq!['"'], p + needle.len()) {
            None => None,
            Some(e) => Some(attrs.subrange(p + needle.len(), e)),
        },
    }
}

/// The first `n` peripheral blocks (content, attributes): the peripherals and their
/// `derivedFrom` parents, or the first error.
pub open spec fn spec_parse_peripherals(blocks: Seq<(Seq<char>, Seq<char>)>, n: int) -> Result<
    (Seq<(Seq<char>, u64, Seq<(Seq<char>, u64, u32, u64)>)>, Seq<Option<Seq<char>>>),
    Seq<char>,
>
    decreases n,
{
    if n <= 0 {
        Ok((Seq::empty(), Seq::empty()))
    } else {
        match spec_parse_peripherals(blocks, n - 1) {
            Err(e) => Err(e),
            Ok((ps, ds)) => match spec_parse_peripheral(blocks[n - 1].0) {
                Err(e) => Err(e),
                Ok(p) => Ok((ps.push(p), ds.push(spec_parse_attr(blocks[n - 1].1, "derivedFrom"@)))),
            },
        }
    }
}

/// The last index of `ps` whose peripheral is named `name`.
pub open spec fn last_named(ps: Seq<(Seq<char>, u64, Seq<(Seq<char>, u64, u32, u64)>)>, name: Seq<char>, n: int) -> Option<int>
    decreases n,
{
    if n <= 0 {
        None
    } else if ps[n - 1].0 == name {
        Some(n - 1)
    } else {
        last_named(ps, name, n - 1)
    }
}

pub(crate) proof fn lemma_last_named_bounds(ps: Seq<(Seq<char>, u64, Seq<(Seq<char>, u64, u32, u64)>)>, name: Seq<char>, n: int)
    ensures
        last_named(ps, name, n) matches Some(i) ==> 0 <= i < n,
    decreases n,
{
    if n > 0 && ps[n - 1].0 != name {
        lemma_last_named_bounds(ps, name, n - 1);
    }
}

/// Registers of a parent at `parent_base`, moved to `base`.
pub open spec fn rebase(rs: Seq<(Seq<char>, u64, u32, u64)>, parent_base: u64, base: u64) -> Seq<(Seq<char>, u64, u32, u64)> {
    rs.map_values(|r: (Seq<char>, u64, u32, u64)| (r.0, base.wrapping_add(r.1.wrapping_sub(parent_base)), r.2, r.3))
}

/// Peripherals after resolving `derivedFrom` for the first `n` of them, in order: one without
/// registers that names a parent (the last peripheral of that name) with registers gets the
/// parent's registers at its own base.
pub open spec fn resolve_derived(
    ps: Seq<(Seq<char>, u64, Seq<(Seq<char>, u64, u32, u64)>)>,
    derived: Seq<Option<Seq<char>>>,
    n: int,
) -> Seq<(Seq<char>, u64, Seq<(Seq<char>, u64, u32, u64)>)>
    decreases n,
{
    if n <= 0 {
        ps
    } else {
        let prev = resolve_derived(ps, derived, n - 1);
        let idx = n - 1;
        if prev[idx].2.len() > 0 {
            prev
        } else {
            match derived[idx] {
                None => prev,
                Some(pn) => match last_named(ps, pn, ps.len() as int) {
                    None => prev,
                    Some(pi) => if prev[pi].2.len() == 0 {
                        prev
                    } else {
                        prev.update(idx, (prev[idx].0, prev[idx].1, rebase(prev[pi].2, prev[pi].1, prev[idx].1)))
                    },
                },
            }
        }
    }
}

/// The device of an SVD file: name (default "unknown-device") and peripherals, from its
/// `<device>` block (or the whole text), or the message of the error.
pub open spec fn spec_parse_svd(xml: Seq<char>) -> Result<
    (Seq<char>, Seq<(Seq<char>, u64, Seq<(Seq<char>, u64, u32, u64)>)>),
    Seq<char>,
> {
    let device = match spec_first_block(xml, "device"@) {
        Some(d) => d,
        None => xml,
    };
    let name = match spec_first_block(device, "name"@) {
        Some(n) => n,
        None => "unknown-device"@,
    };
    match spec_first_block(device, "peripherals"@) {
        None => Err("missing <peripherals> block in SVD"@),
        Some(pb) => {
            let blocks = tag_blocks(pb, "peripheral"@, 0);
            if blocks.len() == 0 {
                Err("SVD does not define any <peripheral>"@)
            } else {
                match spec_parse_peripherals(blocks, blocks.len() as int) {
                    Err(e) => Err(e),
                    Ok((ps, ds)) => Ok((name, resolve_derived(ps, ds, ps.len() as int))),
                }
            }
        },
    }
}

/// The value of an optional number element of `xml`, or its default.
fn optional_u64(xml: &str, tag: &str, default: u64) -> (r: Result<u64, String>)
    ensures
        match optional_number(xml@, tag@, default) {
            Ok(v) => r == Ok::<u64, String>(v),
            Err(m) => r matches Err(e) && e@ == m,
        },
{
    match first_tag_text(xml, tag) {
        None => Ok(default),
        Some(t) => parse_u64(t.as_str()),
    }
}

/// Reads a `<register>` block of a peripheral at `base_address`.
fn parse_register(xml: &str, base_address: u64) -> (r: Result<RegisterSpec, String>)
    ensures
        match spec_parse_register(xml@, base_address) {
            Ok(v) => r matches Ok(reg) && reg_view(reg) == v,
            Err(m) => r matches Err(e) && e@ == m,
        },
{
    reveal(spec_parse_register);
    let name = match first_tag_text(xml, "name") {
        Some(n) => n,
        None => return Err("register missing <name>".to_owned()),
    };
    let offset_text = match first_tag_text(xml, "addressOffset") {
        Some(t) => t,
        None => return Err(concat3("register ", name.as_str(), " missing <addressOffset>")),
    };
    let offset = parse_u64(offset_text.as_str())?;
    let width = optional_u64(xml, "size", 32)?;
    let reset_value = optional_u64(xml, "resetValue", 0)?;
    Ok(RegisterSpec { name, address: base_address.wrapping_add(offset), width_bits: width as u32, reset_value })
}

/// Reads a `<peripheral>` block.
fn parse_peripheral(xml: &str) -> (r: Result<PeripheralSpec, String>)
    ensures
        match spec_parse_peripheral(xml@) {
            Ok(v) => r matches Ok(p) && periph_view(p) == v,
            Err(m) => r matches Err(e) && e@ == m,
        },
{
    reveal(spec_parse_peripheral);
    let name = match first_tag_text(xml, "name") {
        Some(n) => n,
        None => return Err("peripheral missing <name>".to_owned()),
    };
    let base_text = match first_tag_text(xml, "baseAddress") {
        Some(t) => t,
        None => return Err(concat3("peripheral ", name.as_str(), " missing <baseAddress>")),
    };
    let base_address = parse_u64(base_text.as_str())?;
    let blocks: Vec<String> = match first_tag_block(xml, "registers") {
        Some(b) => collect_tag_blocks(b.as_str(), "register"),
        None => Vec::new(),
    };
    let ghost rb = register_blocks(xml@);
    assert(blocks@.map_values(|s: String| s@) =~= rb);
    let mut registers: Vec<RegisterSpec> = Vec::new();
    let mut i: usize = 0;
    assert(registers@.map_values(|r: RegisterSpec| reg_view(r)) =~= Seq::empty());
    let ghost whole = spec_parse_peripheral(xml@);
    assert(whole == match spec_parse_registers(rb, base_address, rb.len() as int) {
        Err(e) => Err(e),
        Ok(rs) => Ok((name@, base_address, rs)),
    });
    while i < blocks.len()
        invariant
            whole == spec_parse_peripheral(xml@),
            whole == match spec_parse_registers(rb, base_address, rb.len() as int) {
                Err(e) => Err(e),
                Ok(rs) => Ok((name@, base_address, rs)),
            },
            i <= blocks@.len(),
            rb == blocks@.map_values(|s: String| s@),
            spec_parse_registers(rb, base_address, i as int) == Ok::<Seq<(Seq<char>, u64, u32, u64)>, Seq<char>>(
                registers@.map_values(|r: RegisterSpec| reg_view(r)),
            ),
        decreases blocks@.len() - i,
    {
        assert(rb[i as int] == blocks@[i as int]@);
        let reg = match parse_register(blocks[i].as_str(), base_address) {
            Ok(reg) => reg,
            Err(e) => {
                proof {
                    lemma_registers_error(rb, base_address, i + 1, rb.len() as int);
                }
                return Err(e);
            },
        };
        let ghost before = registers@;
        registers.push(reg);
        assert(registers@.map_values(|r: RegisterSpec| reg_view(r)) =~= before.map_values(|r: RegisterSpec| reg_view(r)).push(
            reg_view(reg),
        ));
        i = i + 1;
    }
    assert(blocks@.len() == rb.len());
    let p = PeripheralSpec { name, base_address, registers };
    Ok(p)
}

proof fn lemma_registers_error(blocks: Seq<Seq<char>>, base: u64, k: int, n: int)
    requires
        k <= n,
        spec_parse_registers(blocks, base, k) is Err,
    ensures
        spec_parse_registers(blocks, base, n) == spec_parse_registers(blocks, base, k),
    decreases n - k,
{
    if k < n {
        lemma_registers_error(blocks, base, k, n - 1);
    }
}

proof fn lemma_peripherals_error(blocks: Seq<(Seq<char>, Seq<char>)>, k: int, n: int)
    requires
        k <= n,
        spec_parse_peripherals(blocks, k) is Err,
    ensures
        spec_parse_peripherals(blocks, n) == spec_parse_peripherals(blocks, k),
    decreases n - k,
{
    if k < n {
        lemma_peripherals_error(blocks, k, n - 1);
    }
}

/// The value of attribute `key` in attribute text `attrs` (see `spec_parse_attr`).
pub fn parse_attr(attrs: &str, key: &str) -> (r: Option<String>)
    ensures
        match spec_parse_attr(attrs@, key@) {
            Some(v) => r matches Some(s) && s@ == v,
            None => r is None,
        },
{
    let a = chars_of(attrs);
    let alen = a.len();
    let mut needle = chars_of(key);
    needle.push('=');
    needle.push('"');
    proof {
        reveal_strlit("=\"");
        assert(needle@ =~= key@ + "=\""@);
    }
    let p = match crate::svd::xml::find_from(a.as_slice(), needle.as_slice(), 0) {
        Some(p) => p,
        None => return None,
    };
    proof {
        crate::svd::xml::lemma_first_at_bounds(a@, needle@, 0);
    }
    let start = p + needle.len();
    let quote: [char; 1] = ['"'];
    let e = match crate::svd::xml::find_from(a.as_slice(), quote.as_slice(), start) {
        Some(e) => e,
        None => {
            assert(quote@ =~= seq!['"']);
            return None;
        },
    };
    proof {
        assert(quote@ =~= seq!['"']);
        crate::svd::xml::lemma_first_at_bounds(a@, quote@, start as int);
    }
    let v = crate::svd::xml::slice_chars(a.as_slice(), start, e);
    Some(string_of(v.as_slice()))
}

/// Reads an SVD file (see `spec_parse_svd`).
pub fn parse_svd(xml: &str) -> (r: Result<SvdDevice, String>)
    ensures
        match spec_parse_svd(xml@) {
            Ok((name, ps)) => r matches Ok(d) && d.name@ == name && d.peripherals@.map_values(
                |p: PeripheralSpec| periph_view(p),
            ) == ps,
            Err(m) => r matches Err(e) && e@ == m,
        },
{
    proof {
        reveal_strlit("unknown-device");
    }
    let device: String = match first_tag_block(xml, "device") {
        Some(d) => d,
        None => xml.to_owned(),
    };
    let name: String = match first_tag_text(device.as_str(), "name") {
        Some(n) => n,
        None => "unknown-device".to_owned(),
    };
    let pblock = match first_tag_block(device.as_str(), "peripherals") {
        Some(b) => b,
        None => return Err("missing <peripherals> block in SVD".to_owned()),
    };
    let blocks = collect_tag_blocks_with_attrs(pblock.as_str(), "peripheral");
    if blocks.len() == 0 {
        return Err("SVD does not define any <peripheral>".to_owned());
    }
    let ghost sb = tag_blocks(pblock@, "peripheral"@, 0);
    let mut peripherals: Vec<PeripheralSpec> = Vec::new();
    let mut derived: Vec<Option<String>> = Vec::new();
    let mut i: usize = 0;
    assert(peripherals@.map_values(|p: PeripheralSpec| periph_view(p)) =~= Seq::empty());
    assert(derived@.map_values(|d: Option<String>| opt_view(d)) =~= Seq::empty());
    let ghost whole = spec_parse_svd(xml@);
    assert(whole == match spec_parse_peripherals(sb, sb.len() as int) {
        Err(e) => Err(e),
        Ok((ps, ds)) => Ok((name@, resolve_derived(ps, ds, ps.len() as int))),
    });
    while i < blocks.len()
        invariant
            whole == spec_parse_svd(xml@),
            whole == match spec_parse_peripherals(sb, sb.len() as int) {
                Err(e) => Err(e),
                Ok((ps, ds)) => Ok((name@, resolve_derived(ps, ds, ps.len() as int))),
            },
            i <= blocks@.len(),
            sb == blocks@.map_values(|b: TagBlock| (b.content@, b.attrs@)),
            peripherals@.len() == i,
            derived@.len() == i,
            spec_parse_peripherals(sb, i as int) == Ok::<
                (Seq<(Seq<char>, u64, Seq<(Seq<char>, u64, u32, u64)>)>, Seq<Option<Seq<char>>>),
                Seq<char>,
            >(
                (
                    peripherals@.map_values(|p: PeripheralSpec| periph_view(p)),
                    derived@.map_values(|d: Option<String>| opt_view(d)),
                ),
            ),
        decreases blocks@.len() - i,
    {
        assert(sb[i as int] == (blocks@[i as int].content@, blocks@[i as int].attrs@));
        let p = match parse_peripheral(blocks[i].content.as_str()) {
            Ok(p) => p,
            Err(e) => {
                proof {
                    lemma_peripherals_error(sb, i + 1, sb.len() as int);
                }
                return Err(e);
            },
        };
        let d = parse_attr(blocks[i].attrs.as_str(), "derivedFrom");
        let ghost pv = peripherals@;
        let ghost dv = derived@;
        peripherals.push(p);
        derived.push(d);
        proof {
            assert(peripherals@.map_values(|p: PeripheralSpec| periph_view(p)) =~= pv.map_values(
                |p: PeripheralSpec| periph_view(p),
            ).push(periph_view(p)));
            assert(derived@.map_values(|d: Option<String>| opt_view(d)) =~= dv.map_values(
                |d: Option<String>| opt_view(d),
            ).push(opt_view(d)));
        }
        i = i + 1;
    }
    resolve_all(&mut peripherals, &derived);
    Ok(SvdDevice { name, peripherals })
}

/// An optional string as plain characters.
pub open spec fn opt_view(d: Option<String>) -> Option<Seq<char>> {
    match d {
        Some(s) => Some(s@),
        None => None,
    }
}

/// The registers `rs` of a parent at `parent_base`, moved to `base`.
fn rebased(rs: &Vec<RegisterSpec>, parent_base: u64, base: u64) -> (r: Vec<RegisterSpec>)
    ensures
        r@.map_values(|x: RegisterSpec| reg_view(x)) == rebase(rs@.map_values(|x: RegisterSpec| reg_view(x)), parent_base, base),
{
    let ghost src = rs@.map_values(|x: RegisterSpec| reg_view(x));
    let mut out: Vec<RegisterSpec> = Vec::new();
    let mut i: usize = 0;
    while i < rs.len()
        invariant
            i <= rs@.len(),
            src == rs@.map_values(|x: RegisterSpec| reg_view(x)),
            out@.map_values(|x: RegisterSpec| reg_view(x)) == rebase(src, parent_base, base).subrange(0, i as int),
        decreases rs@.len() - i,
    {
        let r = &rs[i];
        let moved = RegisterSpec {
            name: r.name.clone(),
            address: base.wrapping_add(r.address.wrapping_sub(parent_base)),
            width_bits: r.width_bits,
            reset_value: r.reset_value,
        };
        let ghost before = out@;
        out.push(moved);
        proof {
            assert(src[i as int] == reg_view(rs@[i as int]));
            assert(out@.map_values(|x: RegisterSpec| reg_view(x)) =~= before.map_values(|x: RegisterSpec| reg_view(x)).push(
                reg_view(moved),
            ));
            assert(rebase(src, parent_base, base).subrange(0, i + 1) =~= rebase(src, parent_base, base).subrange(
                0,
                i as int,
            ).push(rebase(src, parent_base, base)[i as int]));
        }
        i = i + 1;
    }
    assert(rebase(src, parent_base, base).subrange(0, i as int) =~= rebase(src, parent_base, base));
    out
}

/// Resolves `derivedFrom` for every peripheral, in order (see `resolve_derived`).
fn resolve_all(ps: &mut Vec<PeripheralSpec>, derived: &Vec<Option<String>>)
    requires
        old(ps)@.len() == derived@.len(),
    ensures
        final(ps)@.map_values(|p: PeripheralSpec| periph_view(p)) == resolve_derived(
            old(ps)@.map_values(|p: PeripheralSpec| periph_view(p)),
            derived@.map_values(|d: Option<String>| opt_view(d)),
            old(ps)@.len() as int,
        ),
{
    let ghost ps0 = ps@.map_values(|p: PeripheralSpec| periph_view(p));
    let ghost ds = derived@.map_values(|d: Option<String>| opt_view(d));
    let n = ps.len();
    let mut idx: usize = 0;
    while idx < n
        invariant
            n == ps@.len(),
            n == derived@.len(),
            idx <= n,
            ps0.len() == n,
            ds == derived@.map_values(|d: Option<String>| opt_view(d)),
            ps@.map_values(|p: PeripheralSpec| periph_view(p)) == resolve_derived(ps0, ds, idx as int),
            forall|k: int| 0 <= k < n ==> (#[trigger] ps@[k]).name@ == ps0[k].0 && ps@[k].base_address == ps0[k].1,
        decreases n - idx,
    {
        let ghost prev = ps@.map_values(|p: PeripheralSpec| periph_view(p));
        assert(prev[idx as int] == periph_view(ps@[idx as int]));
        if ps[idx].registers.len() == 0 {
            match &derived[idx] {
                None => {},
                Some(parent_name) => {
                    assert(ds[idx as int] == Some(parent_name@));
                    let found = last_index_named_view(ps, parent_name.as_str(), Ghost(ps0));
                    proof {
                        lemma_last_named_bounds(ps0, parent_name@, ps0.len() as int);
                    }
                    match found {
                        None => {},
                        Some(pi) => {
                            assert(prev[pi as int] == periph_view(ps@[pi as int]));
                            if ps[pi].registers.len() > 0 {
                                let base = ps[idx].base_address;
                                let parent_base = ps[pi].base_address;
                                let regs = rebased(&ps[pi].registers, parent_base, base);
                                let old_p = &ps[idx];
                                let np = PeripheralSpec { name: old_p.name.clone(), base_address: base, registers: regs };
                                let ghost before = ps@;
                                ps.set(idx, np);
                                proof {
                                    assert(ps@.map_values(|p: PeripheralSpec| periph_view(p)) =~= prev.update(
                                        idx as int,
                                        (prev[idx as int].0, prev[idx as int].1, rebase(prev[pi as int].2, prev[pi as int].1, prev[idx as int].1)),
                                    ));
                                    assert forall|k: int| 0 <= k < n implies (#[trigger] ps@[k]).name@ == ps0[k].0
                                        && ps@[k].base_address == ps0[k].1 by {
                                        if k != idx {
                                            assert(ps@[k] == before[k]);
                                        }
                                    }
                                }
                            }
                        },
                    }
                },
            }
        }
        idx = idx + 1;
    }
}

/// Index of the last peripheral named `name`, by names fixed when the peripherals were read.
fn last_index_named_view(ps: &Vec<PeripheralSpec>, name: &str, Ghost(ps0): Ghost<Seq<(Seq<char>, u64, Seq<(Seq<char>, u64, u32, u64)>)>>) -> (r: Option<usize>)
    requires
        ps0.len() == ps@.len(),
        forall|k: int| 0 <= k < ps@.len() ==> (#[trigger] ps@[k]).name@ == ps0[k].0,
    ensures
        match last_named(ps0, name@, ps0.len() as int) {
            Some(i) => r == Some(i as usize),
            None => r is None,
        },
{
    let mut i: usize = ps.len();
    while i > 0
        invariant
            i <= ps@.len(),
            ps0.len() == ps@.len(),
            forall|k: int| 0 <= k < ps@.len() ==> (#[trigger] ps@[k]).name@ == ps0[k].0,
            last_named(ps0, name@, ps0.len() as int) == last_named(ps0, name@, i as int),
        decreases i,
    {
        assert(ps@[i - 1].name@ == ps0[i - 1].0);
        if str_eq(ps[i - 1].name.as_str(), name) {
            return Some(i - 1);
        }
        i = i - 1;
    }
    None
}

} // verus!
