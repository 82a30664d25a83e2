//! Board summaries for a front end: memory sizes, clock, and the bus peripherals and GPIO
//! ports a target offers.
use crate::target::{MemoryRegion, MemoryRegionKind, PeripheralSpec, TargetSpec};
use crate::targets::registry::{lemma_str_lt_total, lemma_str_lt_transitive, str_less, str_lt};
use crate::text::{ascii_upper, decimal, eq_ignore_ascii_case, eq_ignore_case, occurs_at_ignore_case, starts_with_ignore_ascii_case, string_of};
use vstd::prelude::*;
use vstd::seq_lib::to_multiset_build;
use vstd::seq_lib::to_multiset_insert;

verus! {

/// A bus peripheral: its name and base address.
#[derive(Debug, Clone)]
pub struct BusPeripheralInfo {
    pub name: String,
    pub base: u64,
}

/// What a front end shows of a board.
#[derive(Debug, Clone)]
pub struct BoardInfo {
    pub id: String,
    pub name: String,
    pub description: String,
    pub flash_kb: u32,
    pub ram_kb: u32,
    pub gpio_ports: Vec<String>,
    pub spi_peripherals: Vec<BusPeripheralInfo>,
    pub i2c_peripherals: Vec<BusPeripheralInfo>,
    pub usart_peripherals: Vec<BusPeripheralInfo>,
    pub fsmc_peripherals: Vec<BusPeripheralInfo>,
}

/// The bus a peripheral name belongs to (names compared up to ASCII case): 0 SPI, 1 I2C,
/// 2 USART or UART, 3 GPIO, 4 FSMC, 5 none.
pub open spec fn bus_class(name: Seq<char>) -> u8 {
    if occurs_at_ignore_case(name, "SPI"@, 0) {
        0
    } else if occurs_at_ignore_case(name, "I2C"@, 0) {
        1
    } else if occurs_at_ignore_case(name, "USART"@, 0) || occurs_at_ignore_case(name, "UART"@, 0) {
        2
    } else if occurs_at_ignore_case(name, "GPIO"@, 0) {
        3
    } else if eq_ignore_case(name, "FSMC"@) {
        4
    } else {
        5
    }
}

/// A bus peripheral as plain values.
pub open spec fn info_view(i: BusPeripheralInfo) -> (Seq<char>, u64) {
    (i.name@, i.base)
}

/// (name, base) of the first `n` peripherals of class `class`, in order.
pub open spec fn infos_of(ps: Seq<PeripheralSpec>, class: u8, n: int) -> Seq<(Seq<char>, u64)>
    decreases n,
{
    if n <= 0 {
        Seq::empty()
    } else if bus_class(ps[n - 1].name@) == class {
        infos_of(ps, class, n - 1).push((ps[n - 1].name@, ps[n - 1].base_address))
    } else {
        infos_of(ps, class, n - 1)
    }
}

/// `v` with `x` placed after the last entry whose base is not above `x`'s: one step of a
/// stable insertion sort.
pub open spec fn insert_stable(v: Seq<(Seq<char>, u64)>, x: (Seq<char>, u64)) -> Seq<(Seq<char>, u64)>
    decreases v.len(),
{
    if v.len() == 0 || v.last().1 <= x.1 {
        v.push(x)
    } else {
        insert_stable(v.drop_last(), x).push(v.last())
    }
}

/// `s` sorted by base address, entries with equal bases in their order in `s` (a stable sort).
pub open spec fn stable_sort_by_base(s: Seq<(Seq<char>, u64)>) -> Seq<(Seq<char>, u64)>
    decreases s.len(),
{
    if s.len() == 0 {
        s
    } else {
        insert_stable(stable_sort_by_base(s.drop_last()), s.last())
    }
}

proof fn lemma_insert_stable_at(v: Seq<(Seq<char>, u64)>, x: (Seq<char>, u64), k: int)
    requires
        0 <= k <= v.len(),
        k == 0 || v[k - 1].1 <= x.1,
        forall|j: int| k <= j < v.len() ==> (#[trigger] v[j]).1 > x.1,
    ensures
        insert_stable(v, x) == v.insert(k, x),
    decreases v.len(),
{
    if v.len() == k {
        assert(v.insert(k, x) =~= v.push(x));
    } else {
        assert(v.last() == v[v.len() - 1]);
        lemma_insert_stable_at(v.drop_last(), x, k);
        assert(v.insert(k, x) =~= v.drop_last().insert(k, x).push(v.last()));
    }
}

/// An ASCII letter.
pub open spec fn is_letter(c: char) -> bool {
    ('A' <= c && c <= 'Z') || ('a' <= c && c <= 'z')
}

/// The port letters (the fifth character of a GPIO peripheral's name, when it is a letter) of
/// the first `n` peripherals, in order.
pub open spec fn ports_of(ps: Seq<PeripheralSpec>, n: int) -> Seq<Seq<char>>
    decreases n,
{
    if n <= 0 {
        Seq::empty()
    } else {
        let name = ps[n - 1].name@;
        if bus_class(name) == 3 && name.len() > 4 && is_letter(name[4]) {
            ports_of(ps, n - 1).push(seq![name[4]])
        } else {
            ports_of(ps, n - 1)
        }
    }
}

/// Kilobytes (rounded down per region) of the first `n` regions of kind `kind`.
pub open spec fn kb_of(rs: Seq<MemoryRegion>, kind: MemoryRegionKind, n: int) -> int
    decreases n,
{
    if n <= 0 {
        0
    } else if rs[n - 1].kind == kind {
        kb_of(rs, kind, n - 1) + (rs[n - 1].range.end - rs[n - 1].range.start) / 1024
    } else {
        kb_of(rs, kind, n - 1)
    }
}

/// The regions of kind `kind` do not end before they start, and their sizes in kilobytes add
/// up within 64 bits.
pub open spec fn kb_countable(rs: Seq<MemoryRegion>, kind: MemoryRegionKind) -> bool {
    &&& forall|i: int| 0 <= i < rs.len() && (#[trigger] rs[i]).kind == kind ==> rs[i].range.start <= rs[i].range.end
    &&& forall|n: int| 0 <= n <= rs.len() ==> #[trigger] kb_of(rs, kind, n) <= u64::MAX
}

/// Sorted by base address.
pub open spec fn sorted_by_base(s: Seq<(Seq<char>, u64)>) -> bool {
    forall|i: int, j: int| 0 <= i < j < s.len() ==> (#[trigger] s[i]).1 <= (#[trigger] s[j]).1
}

/// Sorted in string order (repeats allowed).
pub open spec fn sorted_strings(s: Seq<Seq<char>>) -> bool {
    forall|i: int, j: int| 0 <= i < j < s.len() ==> !str_lt(#[trigger] s[j], #[trigger] s[i])
}

/// The bus peripherals of `v`, as plain values.
pub open spec fn infos_view(v: Seq<BusPeripheralInfo>) -> Seq<(Seq<char>, u64)> {
    v.map_values(|i: BusPeripheralInfo| info_view(i))
}

/// The strings of `v`, as plain characters.
pub open spec fn strings_view(v: Seq<String>) -> Seq<Seq<char>> {
    v.map_values(|s: String| s@)
}

/// The description line of a board.
pub open spec fn spec_description(flash_kb: u32, ram_kb: u32, mhz: u32) -> Seq<char> {
    decimal(flash_kb as nat) + " KB Flash, "@ + decimal(ram_kb as nat) + " KB SRAM, "@ + decimal(mhz as nat)
        + " MHz"@
}

/// The description line, through `format!` (integers in decimal, without leading zeros).
#[verifier::external_body]
fn description(flash_kb: u32, ram_kb: u32, mhz: u32) -> (s: String)
    ensures
        s@ == spec_description(flash_kb, ram_kb, mhz),
{
    format!("{} KB Flash, {} KB SRAM, {} MHz", flash_kb, ram_kb, mhz)
}

/// The bus class of a peripheral name.
fn class_of(name: &str) -> (r: u8)
    ensures
        r == bus_class(name@),
{
    proof {
        reveal_strlit("FSMC");
    }
    if starts_with_ignore_ascii_case(name, "SPI") {
        0
    } else if starts_with_ignore_ascii_case(name, "I2C") {
        1
    } else if starts_with_ignore_ascii_case(name, "USART") || starts_with_ignore_ascii_case(name, "UART") {
        2
    } else if starts_with_ignore_ascii_case(name, "GPIO") {
        3
    } else if eq_ignore_ascii_case(name, "FSMC") {
        4
    } else {
        5
    }
}

/// Inserts `x` after every entry whose base is not above its own.
fn insert_by_base(v: &mut Vec<BusPeripheralInfo>, x: BusPeripheralInfo)
    requires
        sorted_by_base(infos_view(old(v)@)),
    ensures
        sorted_by_base(infos_view(final(v)@)),
        infos_view(final(v)@) == insert_stable(infos_view(old(v)@), info_view(x)),
{
    let ghost v0 = infos_view(v@);
    let n = v.len();
    let mut k: usize = n;
    while k > 0 && v[k - 1].base > x.base
        invariant
            k <= n,
            n == v@.len(),
            v0 == infos_view(v@),
            forall|j: int| k <= j < n ==> (#[trigger] v0[j]).1 > x.base,
        decreases k,
    {
        assert(v0[k - 1] == info_view(v@[k - 1]));
        k = k - 1;
    }
    proof {
        if k > 0 {
            assert(v0[k - 1] == info_view(v@[k - 1]));
        }
    }
    let ghost xv = info_view(x);
    v.insert(k, x);
    let ghost v1 = infos_view(v@);
    assert(v1 =~= v0.insert(k as int, xv));
    proof {
        lemma_insert_stable_at(v0, xv, k as int);
    }
    assert forall|i: int, j: int| 0 <= i < j < v1.len() implies (#[trigger] v1[i]).1 <= (#[trigger] v1[j]).1 by {
        if i < k && j == k {
            assert(v1[i] == v0[i]);
            if k > 0 {
                assert(v0[i].1 <= v0[k - 1].1);
            }
        } else if i < k && j > k {
            assert(v1[i] == v0[i] && v1[j] == v0[j - 1]);
        } else if i == k {
            assert(v1[j] == v0[j - 1]);
        } else if i > k {
            assert(v1[i] == v0[i - 1] && v1[j] == v0[j - 1]);
        } else {
            assert(v1[i] == v0[i] && v1[j] == v0[j]);
        }
    }
}

/// Inserts `x` after every string that does not sort after it.
fn insert_string(v: &mut Vec<String>, x: String)
    requires
        sorted_strings(strings_view(old(v)@)),
    ensures
        sorted_strings(strings_view(final(v)@)),
        strings_view(final(v)@).to_multiset() == strings_view(old(v)@).to_multiset().insert(x@),
{
    let ghost v0 = strings_view(v@);
    let n = v.len();
    let mut k: usize = n;
    while k > 0 && str_less(x.as_str(), v[k - 1].as_str())
        invariant
            k <= n,
            n == v@.len(),
            v0 == strings_view(v@),
            forall|j: int| k <= j < n ==> str_lt(x@, #[trigger] v0[j]),
        decreases k,
    {
        assert(v0[k - 1] == v@[k - 1]@);
        k = k - 1;
    }
    proof {
        if k > 0 {
            assert(v0[k - 1] == v@[k - 1]@);
        }
    }
    let ghost xv = x@;
    v.insert(k, x);
    let ghost v1 = strings_view(v@);
    assert(v1 =~= v0.insert(k as int, xv));
    proof {
        to_multiset_insert(v0, k as int, xv);
    }
    assert forall|i: int, j: int| 0 <= i < j < v1.len() implies !str_lt(#[trigger] v1[j], #[trigger] v1[i]) by {
        if i < k && j == k {
            assert(v1[i] == v0[i]);
            if str_lt(xv, v0[i]) {
                if i < k - 1 {
                    assert(!str_lt(v0[k - 1], v0[i]));
                    lemma_str_lt_total(v0[k - 1], v0[i]);
                    if v0[k - 1] != v0[i] {
                        lemma_str_lt_transitive(xv, v0[i], v0[k - 1]);
                    }
                }
            }
        } else if i < k && j > k {
            assert(v1[i] == v0[i] && v1[j] == v0[j - 1]);
        } else if i == k {
            assert(v1[j] == v0[j - 1]);
            assert(str_lt(xv, v0[j - 1]));
            crate::targets::registry::lemma_str_lt_antisymmetric(xv, v0[j - 1]);
        } else if i > k {
            assert(v1[i] == v0[i - 1] && v1[j] == v0[j - 1]);
        } else {
            assert(v1[i] == v0[i] && v1[j] == v0[j]);
        }
    }
}

/// Kilobytes of the regions of kind `kind` (each rounded down), kept in 32 bits.
fn kb_from_memory_map(target: &TargetSpec, kind: MemoryRegionKind) -> (r: u32)
    requires
        kb_countable(target.memory_map@, kind),
    ensures
        r == kb_of(target.memory_map@, kind, target.memory_map@.len() as int) as u32,
{
    let rs = &target.memory_map;
    let mut total: u64 = 0;
    let mut i: usize = 0;
    while i < rs.len()
        invariant
            i <= rs@.len(),
            kb_countable(rs@, kind),
            total == kb_of(rs@, kind, i as int),
        decreases rs@.len() - i,
    {
        if rs[i].kind == kind {
            assert(kb_of(rs@, kind, i + 1) <= u64::MAX);
            total = total + (rs[i].range.end - rs[i].range.start) / 1024;
        }
        i = i + 1;
    }
    total as u32
}

/// The board summary of a target: its flash and RAM sizes, core clock, and its SPI, I2C and
/// USART peripherals (sorted by base address), GPIO ports (sorted) and FSMC peripherals.
pub fn board_info_from_target(id: &str, name: &str, target: &TargetSpec) -> (r: BoardInfo)
    requires
        kb_countable(target.memory_map@, MemoryRegionKind::Flash),
        kb_countable(target.memory_map@, MemoryRegionKind::Ram),
    ensures
        r.id@ == id@,
        r.name@ == name@,
        r.flash_kb == kb_of(target.memory_map@, MemoryRegionKind::Flash, target.memory_map@.len() as int) as u32,
        r.ram_kb == kb_of(target.memory_map@, MemoryRegionKind::Ram, target.memory_map@.len() as int) as u32,
        r.description@ == spec_description(r.flash_kb, r.ram_kb, target.core_clock_hz / 1_000_000),
        sorted_by_base(infos_view(r.spi_peripherals@)),
        infos_view(r.spi_peripherals@) == stable_sort_by_base(infos_of(target.peripherals@, 0, target.peripherals@.len() as int)),
        sorted_by_base(infos_view(r.i2c_peripherals@)),
        infos_view(r.i2c_peripherals@) == stable_sort_by_base(infos_of(target.peripherals@, 1, target.peripherals@.len() as int)),
        sorted_by_base(infos_view(r.usart_peripherals@)),
        infos_view(r.usart_peripherals@) == stable_sort_by_base(infos_of(target.peripherals@, 2, target.peripherals@.len() as int)),
        sorted_strings(strings_view(r.gpio_ports@)),
        strings_view(r.gpio_ports@).to_multiset() == ports_of(target.peripherals@, target.peripherals@.len() as int).to_multiset(),
        infos_view(r.fsmc_peripherals@) == infos_of(target.peripherals@, 4, target.peripherals@.len() as int),
{
    let ps = &target.peripherals;
    let mut spi: Vec<BusPeripheralInfo> = Vec::new();
    let mut i2c: Vec<BusPeripheralInfo> = Vec::new();
    let mut usart: Vec<BusPeripheralInfo> = Vec::new();
    let mut gpio_ports: Vec<String> = Vec::new();
    let mut fsmc: Vec<BusPeripheralInfo> = Vec::new();
    let mut i: usize = 0;
    assert(infos_view(spi@) =~= infos_of(ps@, 0, 0));
    assert(infos_view(i2c@) =~= infos_of(ps@, 1, 0));
    assert(infos_view(usart@) =~= infos_of(ps@, 2, 0));
    assert(strings_view(gpio_ports@) =~= ports_of(ps@, 0));
    assert(infos_view(fsmc@) =~= infos_of(ps@, 4, 0));
    while i < ps.len()
        invariant
            i <= ps@.len(),
            sorted_by_base(infos_view(spi@)),
            infos_view(spi@) == stable_sort_by_base(infos_of(ps@, 0, i as int)),
            sorted_by_base(infos_view(i2c@)),
            infos_view(i2c@) == stable_sort_by_base(infos_of(ps@, 1, i as int)),
            sorted_by_base(infos_view(usart@)),
            infos_view(usart@) == stable_sort_by_base(infos_of(ps@, 2, i as int)),
            sorted_strings(strings_view(gpio_ports@)),
            strings_view(gpio_ports@).to_multiset() == ports_of(ps@, i as int).to_multiset(),
            infos_view(fsmc@) == infos_of(ps@, 4, i as int),
        decreases ps@.len() - i,
    {
        let p = &ps[i];
        let class = class_of(p.name.as_str());
        let ghost pv = (p.name@, p.base_address);
        if class == 0 {
            let info = BusPeripheralInfo { name: p.name.clone(), base: p.base_address };
            insert_by_base(&mut spi, info);
            assert(infos_of(ps@, 0, i + 1).drop_last() =~= infos_of(ps@, 0, i as int));
        } else if class == 1 {
            let info = BusPeripheralInfo { name: p.name.clone(), base: p.base_address };
            insert_by_base(&mut i2c, info);
            assert(infos_of(ps@, 1, i + 1).drop_last() =~= infos_of(ps@, 1, i as int));
        } else if class == 2 {
            let info = BusPeripheralInfo { name: p.name.clone(), base: p.base_address };
            insert_by_base(&mut usart, info);
            assert(infos_of(ps@, 2, i + 1).drop_last() =~= infos_of(ps@, 2, i as int));
        } else if class == 3 {
            let n = p.name.as_str();
            if n.unicode_len() > 4 {
                let c = n.get_char(4);
                if ('A' <= c && c <= 'Z') || ('a' <= c && c <= 'z') {
                    let one: [char; 1] = [c];
                    let letter = string_of(one.as_slice());
                    assert(one@ =~= seq![c]);
                    insert_string(&mut gpio_ports, letter);
                    proof {
                        to_multiset_build(ports_of(ps@, i as int), seq![c]);
                    }
                }
            }
        } else if class == 4 {
            let info = BusPeripheralInfo { name: p.name.clone(), base: p.base_address };
            let ghost before = fsmc@;
            fsmc.push(info);
            assert(infos_view(fsmc@) =~= infos_view(before).push(pv));
        }
        i = i + 1;
    }
    let flash_kb = kb_from_memory_map(target, MemoryRegionKind::Flash);
    let ram_kb = kb_from_memory_map(target, MemoryRegionKind::Ram);
    let desc = description(flash_kb, ram_kb, target.core_clock_hz / 1_000_000);
    BoardInfo {
        id: id.to_owned(),
        name: name.to_owned(),
        description: desc,
        flash_kb,
        ram_kb,
        gpio_ports,
        spi_peripherals: spi,
        i2c_peripherals: i2c,
        usart_peripherals: usart,
        fsmc_peripherals: fsmc,
    }
}

} // verus!
