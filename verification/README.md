# labwired

Building blocks of the LabWired firmware-simulation platform, with their
behaviour stated as contracts and proved with Verus.

## Layout

- `src/` — the verified library.
  - `scanner/` — the nRF52840 OBD-II scanner firmware logic: request frames,
    Mode 01/03/04 decoders, ISO-TP VIN reassembly, the scanner state and its
    flags, the poll-cycle decisions, the BLE telemetry payload, the OLED view
    and frame, and the MCP2515 driver's SPI transfers.
  - `bldc/` — the STM32 six-step BLDC controller's control-loop decisions and
    the ordered actions (outputs gated off before any fault is reported).
  - `peripherals/` — simulated devices: the MCP2515 register shell, the
    IO-Link master, the VEML7700 light sensor's register interface, the
    SPS30 particle sensor's protocol and CRC framing, the ESP32-C3 BLE
    baseband window, DNS for the virtual access point, and the seeded noise
    sources.
  - `jit.rs` — the RISC-V block compiler's WebAssembly emitter: LEB128,
    the integer-ALU instructions, branches and jumps, prologue and
    epilogue, each stated as the exact bytes it appends.
  - `physics/` — the digital parts of the motor models: inverter commands and
    leg resolution, Hall states, the H-bridge truth table, quadrature pins.
  - `inspect.rs` — side-effect-free register inspection against a
    peripheral's own or a supplied schema.
  - `bus.rs` — the join of the devices found on a machine to the manifest's
    declarations: the addressed matcher, bus-switch placement, stamped ids,
    one claim per declaration, and ids made from the placement otherwise.
  - `pad_routes.rs` — the RP2040 UART pad table and the STM32 SPI
    alternate-function tables.
  - `debug_probe.rs`, `validation.rs` — the debug probe's address syntax and
    the model-validation tallies.
- `tests/` — tests run against the compiled library.
- `app/` — what stays outside verification: floating-point motor physics,
  sensor levels and noise, JSON records, host networking, the validation-report program,
  and the firmware images' memory-mapped I/O.

## Not here

The machine itself (the system bus with its peripheral collections and the
walk that finds attached devices), the RISC-V decoder and the wasm module
builder and runtime around the emitter, the GPIO/SPI/UART/I2C/timer
peripheral models, and the light and particle level ramps are not part of
this crate: the pieces above take what those produce (found devices,
decoded instructions, GPIO layouts, light counts, measured words) as plain
values.
