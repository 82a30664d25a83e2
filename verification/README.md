# rsemu

An emulator for STM32 microcontrollers (STM32F103, STM32F407) with pluggable
peripherals, written in Verus: the library under `src/` is verified, and its
functions carry contracts that state what they compute.

## Layout

- `src/cpu/`: the ARMv7-M Thumb/Thumb-2 interpreter (`armv7m_legacy`), the core
  wrapper (`armv7m`), the architecture descriptions, and the Cortex-M4 register
  state with its exception entry and return (`armv7em`), whose instructions an
  outside emulation engine runs, and the external-engine Cortex-M3 backend
  (`armv7m_external`).
- `src/machine.rs`, `src/machine/`: the machine: memory blocks, MMIO registers,
  SysTick, timers, the NVIC and the system bus the core runs on.
- `src/bus/`: bus controllers (SPI, I2C, UART, FSMC, GPIO, ADC/DAC, DMA) and the
  bus context that routes MMIO writes to attached devices.
- `src/peripherals/`: ST7789 and SSD1306 displays, LEDs, board peripheral
  descriptions.
- `src/svd/`, `src/targets/`: SVD files, target descriptions, the built-in
  STM32 targets and the target registry.
- `src/image.rs`: raw binaries and ELF32 firmware files.
- `src/clock.rs`, `src/pacer.rs`, `src/execution.rs`: the RCC clock model,
  real-time pacing and batch stepping.
- `src/board.rs`, `src/prefs.rs`, `src/sim.rs`, `src/cli.rs`, `src/console.rs`:
  what front ends show and keep, the command-line options and the serial console.
- `src/laws.rs`: properties that relate several operations.
- `app/`: the command-line program (board file, files, window, console), and the
  Cortex-M4 and the external Cortex-M3 backend on the unicorn engine
  (`app/engine_m4.rs`, `app/engine_m3.rs`).
- `tests/`: tests of the library.

## Running

```bash
rsemu --board examples/board.toml --no-gui --max-steps 1000000
```

Options: `--board <path>`, `--max-steps <n>`, `--no-gui`, `--fast`,
`--dump-frames`.
