//! Command-line options of the emulator.
use crate::execution::{gpio_port_letter, spec_gpio_port_letter};
use crate::machine::meta::MmioWriteEvent;
use crate::svd::number::{from_str_radix, spec_from_str_radix};
use crate::text::{char_message, chars_of, concat3, decimal, decimal_message, eq_ignore_ascii_case, eq_ignore_case, hex_message2, spec_hex_message2, str_eq};
use vstd::prelude::*;

verus! {

/// The options: board file, step limit, and the no-GUI, fast and frame-dump switches.
#[derive(Debug, Clone)]
pub struct CliArgs {
    pub board_path: String,
    pub max_steps: Option<u64>,
    pub no_gui: bool,
    pub fast_mode: bool,
    pub dump_frames: bool,
}

/// The usage line.
pub open spec fn spec_help() -> Seq<char> {
    "usage: rsemu-cli [--board board.toml] [--max-steps N] [--no-gui] [--fast] [--dump-frames]"@
}

/// The options as plain values: board file, step limit, no GUI, fast, dump frames.
pub type CliModel = (Seq<char>, Option<u64>, bool, bool, bool);

/// The options after reading the arguments from position `i` on, starting from `acc`; or the
/// message that ends the run (an error, or the usage for `--help`).
pub open spec fn spec_parse_args(args: Seq<Seq<char>>, i: int, acc: CliModel) -> Result<CliModel, Seq<char>>
    decreases args.len() - i,
{
    if i < 0 || i >= args.len() {
        Ok(acc)
    } else {
        let a = args[i];
        if a == "--board"@ {
            if i + 1 < args.len() {
                spec_parse_args(args, i + 2, (args[i + 1], acc.1, acc.2, acc.3, acc.4))
            } else {
                Err("--board requires a path"@)
            }
        } else if a == "--max-steps"@ {
            if i + 1 < args.len() {
                match spec_from_str_radix(args[i + 1], 10) {
                    Ok(v) => spec_parse_args(args, i + 2, (acc.0, Some(v), acc.2, acc.3, acc.4)),
                    Err(_) => Err("invalid --max-steps value: "@ + args[i + 1]),
                }
            } else {
                Err("--max-steps requires an integer value"@)
            }
        } else if a == "--help"@ || a == "-h"@ {
            Err(spec_help())
        } else if a == "--no-gui"@ {
            spec_parse_args(args, i + 1, (acc.0, acc.1, true, acc.3, acc.4))
        } else if a == "--fast"@ {
            spec_parse_args(args, i + 1, (acc.0, acc.1, acc.2, true, acc.4))
        } else if a == "--dump-frames"@ {
            spec_parse_args(args, i + 1, (acc.0, acc.1, acc.2, acc.3, true))
        } else {
            Err("unknown argument: "@ + a + "\n\n"@ + spec_help())
        }
    }
}

/// The options of no argument: board file "board.toml", no step limit, switches off.
pub open spec fn default_options() -> CliModel {
    ("board.toml"@, None, false, false, false)
}

/// The options as plain values.
pub open spec fn cli_view(c: CliArgs) -> CliModel {
    (c.board_path@, c.max_steps, c.no_gui, c.fast_mode, c.dump_frames)
}

/// The usage line.
pub fn help_text() -> (r: String)
    ensures
        r@ == spec_help(),
{
    "usage: rsemu-cli [--board board.toml] [--max-steps N] [--no-gui] [--fast] [--dump-frames]".to_owned()
}

/// The arguments as plain characters.
pub open spec fn args_view(args: Seq<String>) -> Seq<Seq<char>> {
    args.map_values(|s: String| s@)
}

impl CliArgs {
    /// Reads the options from the arguments (the program name left out).
    pub fn from_args(args: &[String]) -> (r: Result<CliArgs, String>)
        ensures
            match spec_parse_args(args_view(args@), 0, default_options()) {
                Ok(m) => r matches Ok(c) && cli_view(c) == m,
                Err(msg) => r matches Err(e) && e@ == msg,
            },
    {
        let ghost av = args_view(args@);
        let mut board_path = "board.toml".to_owned();
        let mut max_steps: Option<u64> = None;
        let mut no_gui = false;
        let mut fast_mode = false;
        let mut dump_frames = false;
        let mut i: usize = 0;
        while i < args.len()
            invariant
                i <= args@.len(),
                av == args_view(args@),
                spec_parse_args(av, 0, default_options()) == spec_parse_args(
                    av,
                    i as int,
                    (board_path@, max_steps, no_gui, fast_mode, dump_frames),
                ),
            decreases args@.len() - i,
        {
            let a = args[i].as_str();
            assert(av[i as int] == a@);
            if str_eq(a, "--board") {
                if i + 1 < args.len() {
                    assert(av[i + 1] == args@[i + 1]@);
                    board_path = args[i + 1].clone();
                    i = i + 2;
                } else {
                    return Err("--board requires a path".to_owned());
                }
            } else if str_eq(a, "--max-steps") {
                if i + 1 < args.len() {
                    let value = args[i + 1].as_str();
                    assert(av[i + 1] == value@);
                    let digits = chars_of(value);
                    assert(digits@.subrange(0, digits@.len() as int) =~= digits@);
                    match from_str_radix(digits.as_slice(), 0, digits.len(), 10) {
                        Ok(v) => {
                            max_steps = Some(v);
                            i = i + 2;
                        },
                        Err(_) => {
                            let msg = concat3("invalid --max-steps value: ", value, "");
                            proof {
                                reveal_strlit("");
                                assert(msg@ =~= "invalid --max-steps value: "@ + value@);
                            }
                            return Err(msg);
                        },
                    }
                } else {
                    return Err("--max-steps requires an integer value".to_owned());
                }
            } else if str_eq(a, "--help") || str_eq(a, "-h") {
                return Err(help_text());
            } else if str_eq(a, "--no-gui") {
                no_gui = true;
                i = i + 1;
            } else if str_eq(a, "--fast") {
                fast_mode = true;
                i = i + 1;
            } else if str_eq(a, "--dump-frames") {
                dump_frames = true;
                i = i + 1;
            } else {
                let head = concat3("unknown argument: ", a, "\n\n");
                let help = help_text();
                let msg = concat3(head.as_str(), help.as_str(), "");
                proof {
                    reveal_strlit("");
                    assert(msg@ =~= "unknown argument: "@ + a@ + "\n\n"@ + spec_help());
                }
                return Err(msg);
            }
        }
        Ok(CliArgs { board_path, max_steps, no_gui, fast_mode, dump_frames })
    }
}

/// The pins `P<port><bit>` of the bits set among the low `n` bits of `mask`, lowest first.
pub open spec fn pin_names(port: char, mask: u32, n: int) -> Seq<Seq<char>>
    decreases n,
{
    if n <= 0 {
        Seq::empty()
    } else if (mask >> ((n - 1) as u32)) & 1 != 0 {
        pin_names(port, mask, n - 1).push(seq!['P', port] + decimal((n - 1) as nat))
    } else {
        pin_names(port, mask, n - 1)
    }
}

/// The items of `items` joined with ", ".
pub open spec fn joined(items: Seq<Seq<char>>) -> Seq<char>
    decreases items.len(),
{
    if items.len() == 0 {
        Seq::empty()
    } else if items.len() == 1 {
        items[0]
    } else {
        joined(items.drop_last()) + ", "@ + items.last()
    }
}

/// The pins of port `port` set in the low 16 bits of `mask`, joined with ", ".
fn pin_list(port: char, mask: u32) -> (r: String)
    ensures
        r@ == joined(pin_names(port, mask, 16)),
{
    proof {
        reveal_strlit("");
    }
    let mut out = "".to_owned();
    let mut count: usize = 0;
    let mut bit: u32 = 0;
    while bit < 16
        invariant
            bit <= 16,
            count == pin_names(port, mask, bit as int).len(),
            count <= bit,
            out@ == joined(pin_names(port, mask, bit as int)),
        decreases 16 - bit,
    {
        if (mask >> bit) & 1 != 0 {
            let head = char_message("P", port, "");
            let name = decimal_message(head.as_str(), bit as u8, "");
            proof {
                reveal_strlit("P");
                reveal_strlit("");
                assert((bit as u8) as nat == bit as nat);
                assert(name@ =~= seq!['P', port] + decimal(bit as nat));
            }
            let ghost items = pin_names(port, mask, bit as int).push(name@);
            if count == 0 {
                out = name;
                assert(out@ == joined(items));
            } else {
                out = concat3(out.as_str(), ", ", name.as_str());
                assert(items.drop_last() =~= pin_names(port, mask, bit as int));
            }
            count = count + 1;
        }
        bit = bit + 1;
    }
    out
}

/// The log line of a GPIO register write: the write itself, and for BSRR the pins set and
/// reset, for ODR the pins high.
pub open spec fn spec_gpio_line(e: MmioWriteEvent) -> Seq<char> {
    let base = spec_hex_message2("gpio."@ + e.peripheral@ + "."@ + e.register@ + " @ "@, e.addr, 8, " <= "@, e.value as u64, 8, ""@);
    match spec_gpio_port_letter(e.peripheral@) {
        None => base,
        Some(port) => if eq_ignore_case(e.register@, "BSRR"@) {
            base + " (set: ["@ + joined(pin_names(port, e.value & 0xFFFF, 16)) + "], reset: ["@ + joined(
                pin_names(port, (e.value >> 16u32) & 0xFFFF, 16),
            ) + "])"@
        } else if eq_ignore_case(e.register@, "ODR"@) {
            base + " (high: ["@ + joined(pin_names(port, e.value & 0xFFFF, 16)) + "])"@
        } else {
            base
        },
    }
}

/// The log line of a GPIO register write (see `spec_gpio_line`).
pub fn format_gpio_event(event: &MmioWriteEvent) -> (r: String)
    ensures
        r@ == spec_gpio_line(*event),
{
    proof {
        reveal_strlit("");
    }
    let p1 = concat3("gpio.", event.peripheral.as_str(), ".");
    let p2 = concat3(p1.as_str(), event.register.as_str(), " @ ");
    let base = hex_message2(p2.as_str(), event.addr, 8, " <= ", event.value as u64, 8, "");
    assert(p2@ =~= "gpio."@ + event.peripheral@ + "."@ + event.register@ + " @ "@);
    let port = match gpio_port_letter(event.peripheral.as_str()) {
        Some(p) => p,
        None => return base,
    };
    if eq_ignore_ascii_case(event.register.as_str(), "BSRR") {
        let set = pin_list(port, event.value & 0xFFFF);
        let rst = pin_list(port, (event.value >> 16u32) & 0xFFFF);
        let a = concat3(base.as_str(), " (set: [", set.as_str());
        let r = concat3(a.as_str(), "], reset: [", rst.as_str());
        let out = concat3(r.as_str(), "])", "");
        assert(out@ =~= base@ + " (set: ["@ + set@ + "], reset: ["@ + rst@ + "])"@);
        out
    } else if eq_ignore_ascii_case(event.register.as_str(), "ODR") {
        let high = pin_list(port, event.value & 0xFFFF);
        let a = concat3(base.as_str(), " (high: [", high.as_str());
        let out = concat3(a.as_str(), "])", "");
        assert(out@ =~= base@ + " (high: ["@ + high@ + "])"@);
        out
    } else {
        base
    }
}

} // verus!
