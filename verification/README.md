# lcd_ili9225_rs

Driver logic for the ILI9225 TFT LCD controller (176x220 panels), written in
Verus and proved against its contracts.

The library never touches hardware. Each request of the driver (`init`,
`set_orientation`, `set_pixel`, `fill_contiguous`, ...) updates the panel
state and records, in a `Script`, the exact bus operations it needs: SPI
writes, DC/RS and reset pin levels, and delays. Its contracts state that
script exactly, for both transports:

- module wiring with a DC/RS pin (`SpiMode::WithDataCommandPin`), and
- the controller's own SPI protocol with start bytes (`SpiMode::Native`).

Layout:

- `src/config.rs` – `Config`, `ColorOrder`, `SpiMode`, `Orientation`, `Error`.
- `src/instruction.rs` – the register indices.
- `src/bus.rs` – bus operations, scripts, and how request outcomes chain.
- `src/driver.rs` – the panel state, the register programming, pixel writes.
- `src/graphics.rs` – clipping and filling as a draw target needs them; the
  one call into embedded-graphics-core (`Rectangle::intersection`).
- `src/laws.rs` – properties proved of the driver as a whole (the DC/RS
  protocol, native framing, buffering, offsets, register bit meanings, ...).
- `app/lib.rs` – the driver on embedded-hal devices: performs the scripts on
  the SPI device and pins, and implements embedded-graphics' `DrawTarget`.
