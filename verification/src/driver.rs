//! The ILI9225 driver: the panel's state and the bus operations that each
//! request performs.

use vstd::prelude::*;

use crate::bus::{
    be_bytes, be_words, chunks32, done, failed, lemma_be_words_step, lemma_chunks32_push2,
    lemma_sequence_step, lemma_sequence_stops, sequence, then, Action, BusOp, Outcome, Script,
};
use crate::config::{
    orientation_bits, ColorOrder, Config, Error, Orientation, SpiMode, ENTRY_MODE_BGR,
};
use crate::instruction::{register_index, Instruction};

verus! {

/// The state that the driver keeps about the panel.
pub ghost struct Panel {
    pub spi_mode: SpiMode,
    /// The driver owns a DC/RS pin.
    pub data_command_pin: bool,
    /// The driver owns a reset pin.
    pub reset_pin: bool,
    pub color_order: ColorOrder,
    pub inverted: bool,
    pub orientation: Orientation,
    pub display_enabled: bool,
    /// Global offset added to every window coordinate.
    pub dx: u16,
    pub dy: u16,
    pub width: u32,
    pub height: u32,
}

impl Panel {
    /// A driver in DC/RS mode has a DC/RS pin.
    pub open spec fn wf(self) -> bool {
        self.spi_mode == SpiMode::WithDataCommandPin ==> self.data_command_pin
    }

    /// The configuration that the panel is in.
    pub open spec fn config(self) -> Config {
        Config {
            spi_mode: self.spi_mode,
            color_order: self.color_order,
            orientation: self.orientation,
            inverted: self.inverted,
            display_enabled: self.display_enabled,
            width: self.width,
            height: self.height,
        }
    }
}

/// The start byte of a native SPI transfer: `0111 0 ID RS RW`.
pub open spec fn spec_start_byte(id: bool, rs: bool, rw: bool) -> u8 {
    (0x70int + (if id {
        4int
    } else {
        0int
    }) + (if rs {
        2int
    } else {
        0int
    }) + (if rw {
        1int
    } else {
        0int
    })) as u8
}

/// The bytes of the SPI transfer that sends a command byte.
pub open spec fn command_frame(mode: SpiMode, cmd: u8) -> Seq<u8> {
    match mode {
        SpiMode::WithDataCommandPin => seq![cmd],
        SpiMode::Native { id } => seq![spec_start_byte(id, false, false), cmd],
    }
}

/// The bytes of the SPI transfer that sends `data` as register or GRAM data.
pub open spec fn data_frame(mode: SpiMode, data: Seq<u8>) -> Seq<u8> {
    match mode {
        SpiMode::WithDataCommandPin => data,
        SpiMode::Native { id } => seq![spec_start_byte(id, true, false)] + data,
    }
}

/// Switching the controller to data: DC/RS high in DC/RS mode, nothing in native mode.
pub open spec fn start_data_out<S, R, T>(p: Panel) -> Outcome<S, R, T> {
    match p.spi_mode {
        SpiMode::WithDataCommandPin => if p.data_command_pin {
            done(seq![Action::DataCommand(true)])
        } else {
            failed(Error::MissingDataCommandPin)
        },
        SpiMode::Native { .. } => done(Seq::empty()),
    }
}

/// One data transfer; a native transfer holds at most 32 data bytes.
pub open spec fn write_data_out<S, R, T>(p: Panel, data: Seq<u8>) -> Outcome<S, R, T> {
    if p.spi_mode is Native && data.len() > 32 {
        failed(Error::NativeDataChunkTooLarge)
    } else {
        done(seq![Action::Write(data_frame(p.spi_mode, data))])
    }
}

/// A command byte, then its parameters (if any) as data.
pub open spec fn command_out<S, R, T>(p: Panel, cmd: u8, params: Seq<u8>) -> Outcome<S, R, T> {
    if p.spi_mode is WithDataCommandPin && !p.data_command_pin {
        failed(Error::MissingDataCommandPin)
    } else {
        let select: Seq<Action> = if p.spi_mode is WithDataCommandPin {
            seq![Action::DataCommand(false)]
        } else {
            Seq::empty()
        };
        let head: Outcome<S, R, T> = done(
            select.push(Action::Write(command_frame(p.spi_mode, cmd))),
        );
        if params.len() == 0 {
            head
        } else {
            then(head, then(start_data_out(p), write_data_out(p, params)))
        }
    }
}

/// Writing a 16-bit register: its index, then the value most significant byte first.
pub open spec fn register_out<S, R, T>(p: Panel, cmd: u8, value: u16) -> Outcome<S, R, T> {
    command_out(p, cmd, be_bytes(value))
}

/// The entry mode register for an orientation and colour order.
pub open spec fn entry_mode(o: Orientation, c: ColorOrder) -> u16 {
    orientation_bits(o) | (if c == ColorOrder::Bgr {
        ENTRY_MODE_BGR
    } else {
        0u16
    })
}

/// The display control 1 register: display on (`0x1017`) or off (`0x0012`),
/// with bit 2 (REV) flipped when inverted.
pub open spec fn display_control(on: bool, inverted: bool) -> u16 {
    (if on {
        0x1017u16
    } else {
        0x0012u16
    }) ^ (if inverted {
        4u16
    } else {
        0u16
    })
}

/// One step of a register programming sequence.
#[derive(Debug, Clone, Copy, PartialEq, Eq)]
pub enum Step {
    /// A command with a single parameter byte.
    Command(Instruction, u8),
    /// A 16-bit register write.
    Register(Instruction, u16),
    /// A pause, in milliseconds.
    DelayMs(u32),
}

/// What one step does on the wires.
pub open spec fn step_out<S, R, T>(p: Panel, s: Step) -> Outcome<S, R, T> {
    match s {
        Step::Command(i, b) => command_out(p, register_index(i), seq![b]),
        Step::Register(i, v) => register_out(p, register_index(i), v),
        Step::DelayMs(ms) => done(seq![Action::DelayMs(ms)]),
    }
}

/// Steps one after the other, up to the first that fails.
pub open spec fn steps_out<S, R, T>(p: Panel, steps: Seq<Step>) -> Outcome<S, R, T> {
    sequence(steps.map_values(|s: Step| step_out::<S, R, T>(p, s)))
}

/// The hardware reset pulse: RST high, 10 ms, low, 10 ms, high; nothing without a reset pin.
pub open spec fn reset_actions(p: Panel) -> Seq<Action> {
    if p.reset_pin {
        seq![
            Action::Reset(true),
            Action::DelayMs(10),
            Action::Reset(false),
            Action::DelayMs(10),
            Action::Reset(true),
        ]
    } else {
        Seq::empty()
    }
}

/// The power-on register sequence, from the first power control write to
/// the final display control write.
pub open spec fn init_steps(p: Panel) -> Seq<Step> {
    seq![
        Step::Command(Instruction::PowerCtrl1, 0x00),
        Step::Command(Instruction::PowerCtrl2, 0x00),
        Step::Command(Instruction::PowerCtrl3, 0x00),
        Step::Command(Instruction::PowerCtrl4, 0x00),
        Step::Command(Instruction::PowerCtrl5, 0x00),
        Step::DelayMs(50),
        Step::Register(Instruction::PowerCtrl2, 0x0018),
        Step::Register(Instruction::PowerCtrl3, 0x6121),
        Step::Register(Instruction::PowerCtrl4, 0x006F),
        Step::Register(Instruction::PowerCtrl5, 0x495F),
        Step::Register(Instruction::PowerCtrl1, 0x0800),
        Step::DelayMs(50),
        Step::Register(Instruction::PowerCtrl2, 0x103B),
        Step::DelayMs(50),
        Step::Register(Instruction::DriverOutputCtrl, 0x011C),
        Step::Register(Instruction::LcdAcDrivingCtrl, 0x0100),
        Step::Register(Instruction::EntryMode, entry_mode(p.orientation, p.color_order)),
        Step::Register(Instruction::DispCtrl1, 0x0000),
        Step::Register(Instruction::DispCtrl2, 0x0808),
        Step::Register(Instruction::FrameCycleCtrl, 0x1100),
        Step::Register(Instruction::InterfaceCtrl, 0x0000),
        Step::Register(Instruction::OscCtrl, 0x0D01),
        Step::Register(Instruction::VciRecycling, 0x0020),
        Step::Register(Instruction::RamAddrSet1, 0x0000),
        Step::Register(Instruction::RamAddRSet2, 0x0000),
        Step::DelayMs(20),
        Step::Register(Instruction::GateScanCtrl, 0x0000),
        Step::Register(Instruction::VerticalScrollCtrl1, 0x00DB),
        Step::Register(Instruction::VerticalScrollCtrl2, 0x0000),
        Step::Register(Instruction::VerticalScrollCtrl3, 0x0000),
        Step::Register(Instruction::PartialDrivingPos1, 0x00DB),
        Step::Register(Instruction::PartialDrivingPos2, 0x0000),
        Step::Register(Instruction::HorizontalWindowAddr1, 0x00AF),
        Step::Register(Instruction::HorizontalWindowAddr2, 0x0000),
        Step::Register(Instruction::VerticalWindowAddr1, 0x00DB),
        Step::Register(Instruction::VerticalWindowAddr2, 0x0000),
        Step::Register(Instruction::GammaCtrl1, 0x0000),
        Step::Register(Instruction::GammaCtrl2, 0x0808),
        Step::Register(Instruction::GammaCtrl3, 0x080A),
        Step::Register(Instruction::GammaCtrl4, 0x000A),
        Step::Register(Instruction::GammaCtrl5, 0x0A08),
        Step::Register(Instruction::GammaCtrl6, 0x0808),
        Step::Register(Instruction::GammaCtrl7, 0x0000),
        Step::Register(Instruction::GammaCtrl8, 0x0A00),
        Step::Register(Instruction::GammaCtrl9, 0x0710),
        Step::Register(Instruction::GammaCtrl10, 0x0710),
        Step::Register(Instruction::DispCtrl1, display_control(false, p.inverted)),
        Step::DelayMs(50),
        Step::Register(Instruction::DispCtrl1, display_control(p.display_enabled, p.inverted)),
    ]
}

/// Writing display control 1 for the panel's display and inversion settings.
pub open spec fn display_out<S, R, T>(p: Panel) -> Outcome<S, R, T> {
    register_out(
        p,
        register_index(Instruction::DispCtrl1),
        display_control(p.display_enabled, p.inverted),
    )
}

/// Writing the entry mode register for the panel's orientation and colour order.
pub open spec fn entry_mode_out<S, R, T>(p: Panel) -> Outcome<S, R, T> {
    register_out(p, register_index(Instruction::EntryMode), entry_mode(p.orientation, p.color_order))
}

/// Reset pulse, then the power-on sequence.
pub open spec fn init_out<S, R, T>(p: Panel) -> Outcome<S, R, T> {
    then(done(reset_actions(p)), steps_out(p, init_steps(p)))
}

/// The offset window fits the 16-bit address registers.
pub open spec fn window_fits(p: Panel, sx: u16, sy: u16, ex: u16, ey: u16) -> bool {
    &&& sx + p.dx <= u16::MAX
    &&& sy + p.dy <= u16::MAX
    &&& ex + p.dx <= u16::MAX
    &&& ey + p.dy <= u16::MAX
}

/// The register writes that set an address window: the window edges, then
/// the GRAM address at its top left corner, all shifted by the offset.
pub open spec fn window_steps(p: Panel, sx: u16, sy: u16, ex: u16, ey: u16) -> Seq<Step> {
    let x0 = (sx + p.dx) as u16;
    let y0 = (sy + p.dy) as u16;
    let x1 = (ex + p.dx) as u16;
    let y1 = (ey + p.dy) as u16;
    seq![
        Step::Register(Instruction::HorizontalWindowAddr2, x0),
        Step::Register(Instruction::HorizontalWindowAddr1, x1),
        Step::Register(Instruction::VerticalWindowAddr2, y0),
        Step::Register(Instruction::VerticalWindowAddr1, y1),
        Step::Register(Instruction::RamAddrSet1, x0),
        Step::Register(Instruction::RamAddRSet2, y0),
    ]
}

/// Setting an address window.
pub open spec fn window_out<S, R, T>(p: Panel, sx: u16, sy: u16, ex: u16, ey: u16) -> Outcome<
    S,
    R,
    T,
> {
    steps_out(p, window_steps(p, sx, sy, ex, ey))
}

/// One data transfer per word.
pub open spec fn word_writes(mode: SpiMode, words: Seq<u16>) -> Seq<Action> {
    Seq::new(words.len(), |i: int| Action::Write(data_frame(mode, be_bytes(words[i]))))
}

/// One data transfer per chunk.
pub open spec fn chunk_writes(mode: SpiMode, chunks: Seq<Seq<u8>>) -> Seq<Action> {
    chunks.map_values(|c: Seq<u8>| Action::Write(data_frame(mode, c)))
}

/// The bytes of `words` in transfers of 32 bytes, the rest (possibly none) last.
pub open spec fn buffered_writes(mode: SpiMode, words: Seq<u16>) -> Seq<Action> {
    chunk_writes(mode, chunks32(be_words(words)))
}

/// Selecting the GRAM data register and switching to data.
pub open spec fn gram_out<S, R, T>(p: Panel) -> Outcome<S, R, T> {
    then(command_out(p, register_index(Instruction::GramDataReg), Seq::empty()), start_data_out(p))
}

/// Pixel colours sent one transfer per pixel into the current window.
pub open spec fn pixels_out<S, R, T>(p: Panel, colors: Seq<u16>) -> Outcome<S, R, T> {
    then(gram_out(p), done(word_writes(p.spi_mode, colors)))
}

/// Pixel colours sent in transfers of up to 32 bytes into the current window.
pub open spec fn pixels_buffered_out<S, R, T>(p: Panel, colors: Seq<u16>) -> Outcome<S, R, T> {
    then(gram_out(p), done(buffered_writes(p.spi_mode, colors)))
}

/// One pixel: a one-pixel window, then its colour.
pub open spec fn set_pixel_out<S, R, T>(p: Panel, x: u16, y: u16, color: u16) -> Outcome<S, R, T> {
    then(window_out(p, x, y, x, y), pixels_out(p, seq![color]))
}

/// The configuration of `ILI9225::new`: that of `Config::new`, with the
/// colour order and inversion given.
pub open spec fn basic_config(rgb: bool, inverted: bool, width: u32, height: u32) -> Config {
    Config {
        spi_mode: SpiMode::WithDataCommandPin,
        color_order: if rgb {
            ColorOrder::Rgb
        } else {
            ColorOrder::Bgr
        },
        orientation: Orientation::Portrait,
        inverted,
        display_enabled: true,
        width,
        height,
    }
}

/// A configuration moved to native SPI: a native ID bit is kept, DC/RS mode becomes ID 0.
pub open spec fn native_config(c: Config) -> Config {
    Config {
        spi_mode: match c.spi_mode {
            SpiMode::Native { id } => SpiMode::Native { id },
            SpiMode::WithDataCommandPin => SpiMode::Native { id: false },
        },
        ..c
    }
}

/// The driver's state. It owns no device: each request records the bus
/// operations it needs in a [`Script`], and the owner of the SPI bus and of
/// the pins performs them in order.
pub struct ILI9225 {
    data_command_pin: bool,
    reset_pin: bool,
    spi_mode: SpiMode,
    color_order: ColorOrder,
    inverted: bool,
    orientation: Orientation,
    display_enabled: bool,
    dx: u16,
    dy: u16,
    width: u32,
    height: u32,
}

impl View for ILI9225 {
    type V = Panel;

    closed spec fn view(&self) -> Panel {
        Panel {
            spi_mode: self.spi_mode,
            data_command_pin: self.data_command_pin,
            reset_pin: self.reset_pin,
            color_order: self.color_order,
            inverted: self.inverted,
            orientation: self.orientation,
            display_enabled: self.display_enabled,
            dx: self.dx,
            dy: self.dy,
            width: self.width,
            height: self.height,
        }
    }
}

impl ILI9225 {
    /// Every driver is well-formed: in DC/RS mode it owns a DC/RS pin.
    #[verifier::type_invariant]
    spec fn well_formed(self) -> bool {
        self@.wf()
    }
}

/// Copies `data` to the end of `out`.
fn append_bytes(out: &mut Vec<u8>, data: &[u8])
    ensures
        final(out)@ == old(out)@ + data@,
{
    let n = data.len();
    for i in 0..n
        invariant
            n == data@.len(),
            out@ == old(out)@ + data@.take(i as int),
    {
        out.push(data[i]);
        assert(data@.take(i + 1) =~= data@.take(i as int).push(data@[i as int]));
    }
    assert(data@.take(n as int) =~= data@);
}

impl ILI9225 {
    /// A driver in DC/RS mode with the given colour order (`rgb`), inversion
    /// and size; the other settings are those of `Config::new`.
    pub fn new(reset_pin: bool, rgb: bool, inverted: bool, width: u32, height: u32) -> (d: Self)
        ensures
            d@.config() == basic_config(rgb, inverted, width, height),
            d@.data_command_pin,
            d@.reset_pin == reset_pin,
            d@.dx == 0,
            d@.dy == 0,
            d@.wf(),
    {
        let mut config = Config::new(width, height);
        config.color_order = if rgb {
            ColorOrder::Rgb
        } else {
            ColorOrder::Bgr
        };
        config.inverted = inverted;
        Self::new_with_config(reset_pin, config)
    }

    /// A driver with a DC/RS pin and the given configuration.
    pub fn new_with_config(reset_pin: bool, config: Config) -> (d: Self)
        ensures
            d@.config() == config,
            d@.data_command_pin,
            d@.reset_pin == reset_pin,
            d@.dx == 0,
            d@.dy == 0,
            d@.wf(),
    {
        ILI9225 {
            data_command_pin: true,
            reset_pin,
            spi_mode: config.spi_mode,
            color_order: config.color_order,
            inverted: config.inverted,
            orientation: config.orientation,
            display_enabled: config.display_enabled,
            dx: 0,
            dy: 0,
            width: config.width,
            height: config.height,
        }
    }

    /// A driver without a DC/RS pin, in native SPI mode: the ID bit of a
    /// native configuration is kept, a DC/RS configuration becomes ID 0.
    pub fn new_native_spi(reset_pin: bool, config: Config) -> (d: Self)
        ensures
            d@.config() == native_config(config),
            !d@.data_command_pin,
            d@.reset_pin == reset_pin,
            d@.dx == 0,
            d@.dy == 0,
            d@.wf(),
    {
        ILI9225 {
            data_command_pin: false,
            reset_pin,
            spi_mode: match config.spi_mode {
                SpiMode::Native { id } => SpiMode::Native { id },
                SpiMode::WithDataCommandPin => SpiMode::Native { id: false },
            },
            color_order: config.color_order,
            inverted: config.inverted,
            orientation: config.orientation,
            display_enabled: config.display_enabled,
            dx: 0,
            dy: 0,
            width: config.width,
            height: config.height,
        }
    }

    /// The start byte of a native SPI transfer.
    fn spi_start_byte(id: bool, rs: bool, rw: bool) -> (b: u8)
        ensures
            b == spec_start_byte(id, rs, rw),
    {
        let i: u8 = if id {
            1
        } else {
            0
        };
        let r: u8 = if rs {
            1
        } else {
            0
        };
        let w: u8 = if rw {
            1
        } else {
            0
        };
        assert(i <= 1 && r <= 1 && w <= 1 ==> (0b0111_0000u8 | (i << 2u8) | (r << 1u8) | w) == 0x70
            + 4 * i + 2 * r + w) by (bit_vector);
        0b0111_0000u8 | (i << 2u8) | (r << 1u8) | w
    }

    /// The entry mode register value.
    fn entry_mode_value(orientation: Orientation, color_order: ColorOrder) -> (v: u16)
        ensures
            v == entry_mode(orientation, color_order),
    {
        let mut value = orientation.bits();
        if color_order == ColorOrder::Bgr {
            value = value | ENTRY_MODE_BGR;
        } else {
            assert(value | 0u16 == value) by (bit_vector);
        }
        value
    }

    /// The display control 1 register value.
    fn display_control(on: bool, inverted: bool) -> (v: u16)
        ensures
            v == display_control(on, inverted),
    {
        let mut value: u16 = if on {
            0x1017
        } else {
            0x0012
        };
        if inverted {
            value = value ^ 4u16;
        } else {
            assert(value ^ 0u16 == value) by (bit_vector);
        }
        value
    }

    /// Switches the controller to data.
    fn start_data<S, R, T>(&self, script: &mut Script) -> (r: Result<(), Error<S, R, T>>)
        ensures
            final(script)@ == old(script)@ + start_data_out::<S, R, T>(self@).actions,
            r == start_data_out::<S, R, T>(self@).result,
    {
        match self.spi_mode {
            SpiMode::WithDataCommandPin => {
                if !self.data_command_pin {
                    return Err(Error::MissingDataCommandPin);
                }
                script.push(BusOp::DataCommand(true));
                Ok(())
            },
            SpiMode::Native { .. } => {
                assert(old(script)@ + Seq::<Action>::empty() =~= old(script)@);
                Ok(())
            },
        }
    }

    /// Sends `data` in one transfer.
    fn write_data<S, R, T>(&self, data: &[u8], script: &mut Script) -> (r: Result<(), Error<S, R, T>>)
        ensures
            final(script)@ == old(script)@ + write_data_out::<S, R, T>(self@, data@).actions,
            r == write_data_out::<S, R, T>(self@, data@).result,
    {
        match self.spi_mode {
            SpiMode::WithDataCommandPin => {
                let mut frame: Vec<u8> = Vec::new();
                append_bytes(&mut frame, data);
                assert(frame@ =~= data@);
                script.push(BusOp::Write(frame));
                Ok(())
            },
            SpiMode::Native { id } => {
                if data.len() > 32 {
                    return Err(Error::NativeDataChunkTooLarge);
                }
                let mut frame: Vec<u8> = Vec::new();
                frame.push(Self::spi_start_byte(id, true, false));
                append_bytes(&mut frame, data);
                assert(frame@ =~= data_frame(self@.spi_mode, data@));
                script.push(BusOp::Write(frame));
                Ok(())
            },
        }
    }

    /// Sends a command byte, then its parameters as data.
    fn write_command<S, R, T>(&self, command: Instruction, params: &[u8], script: &mut Script) -> (r:
        Result<(), Error<S, R, T>>)
        ensures
            final(script)@ == old(script)@ + command_out::<S, R, T>(
                self@,
                register_index(command),
                params@,
            ).actions,
            r == command_out::<S, R, T>(self@, register_index(command), params@).result,
    {
        let ghost p = self@;
        let ghost cmd = register_index(command);
        match self.spi_mode {
            SpiMode::WithDataCommandPin => {
                if !self.data_command_pin {
                    return Err(Error::MissingDataCommandPin);
                }
                script.push(BusOp::DataCommand(false));
                let code = command.code();
                let cmd_bytes = vec![code];
                assert(cmd_bytes@ =~= seq![code]);
                script.push(BusOp::Write(cmd_bytes));
                assert(script@ =~= old(script)@ + seq![Action::DataCommand(false), Action::Write(command_frame(p.spi_mode, cmd))]);
                if params.len() != 0 {
                    let s = self.start_data(script);
                    if s.is_err() {
                        return s;
                    }
                    let d = self.write_data(params, script);
                    assert(script@ =~= old(script)@ + command_out::<S, R, T>(
                        p,
                        cmd,
                        params@,
                    ).actions);
                    return d;
                }
            },
            SpiMode::Native { id } => {
                script.push(BusOp::Write(vec![Self::spi_start_byte(id, false, false), command.code()]));
                if params.len() != 0 {
                    let d = self.write_data(params, script);
                    assert(script@ =~= old(script)@ + command_out::<S, R, T>(
                        p,
                        cmd,
                        params@,
                    ).actions);
                    return d;
                }
            },
        }
        assert(script@ =~= old(script)@ + command_out::<S, R, T>(p, cmd, params@).actions);
        Ok(())
    }

    /// Writes a 16-bit register.
    fn write_register<S, R, T>(&self, command: Instruction, value: u16, script: &mut Script) -> (r:
        Result<(), Error<S, R, T>>)
        ensures
            final(script)@ == old(script)@ + register_out::<S, R, T>(
                self@,
                register_index(command),
                value,
            ).actions,
            r == register_out::<S, R, T>(self@, register_index(command), value).result,
    {
        let bytes = [(value / 256) as u8, (value % 256) as u8];
        assert(bytes@ =~= be_bytes(value));
        self.write_command(command, &bytes, script)
    }

    /// Sends one data word, most significant byte first.
    fn write_word<S, R, T>(&self, value: u16, script: &mut Script) -> (r: Result<(), Error<S, R, T>>)
        ensures
            final(script)@ == old(script)@ + seq![Action::Write(data_frame(self@.spi_mode, be_bytes(value)))],
            r is Ok,
    {
        let bytes = [(value / 256) as u8, (value % 256) as u8];
        assert(bytes@ =~= be_bytes(value));
        self.write_data(&bytes, script)
    }

    /// Performs one step of a programming sequence.
    fn run_step<S, R, T>(&self, step: Step, script: &mut Script) -> (r: Result<(), Error<S, R, T>>)
        ensures
            final(script)@ == old(script)@ + step_out::<S, R, T>(self@, step).actions,
            r == step_out::<S, R, T>(self@, step).result,
    {
        match step {
            Step::Command(command, byte) => {
                let bytes = [byte];
                assert(bytes@ =~= seq![byte]);
                self.write_command(command, &bytes, script)
            },
            Step::Register(command, value) => self.write_register(command, value, script),
            Step::DelayMs(ms) => {
                script.push(BusOp::DelayMs(ms));
                assert(old(script)@.push(Action::DelayMs(ms)) =~= old(script)@ + seq![Action::DelayMs(ms)]);
                Ok(())
            },
        }
    }

    /// Performs the steps in order, stopping at the first that fails.
    fn run_steps<S, R, T>(&self, steps: &Vec<Step>, script: &mut Script) -> (r: Result<(), Error<S, R, T>>)
        ensures
            final(script)@ == old(script)@ + steps_out::<S, R, T>(self@, steps@).actions,
            r == steps_out::<S, R, T>(self@, steps@).result,
    {
        let ghost outs = steps@.map_values(|s: Step| step_out::<S, R, T>(self@, s));
        let n = steps.len();
        assert(outs.take(0) =~= Seq::<Outcome<S, R, T>>::empty());
        for i in 0..n
            invariant
                n == steps@.len(),
                outs == steps@.map_values(|s: Step| step_out::<S, R, T>(self@, s)),
                sequence(outs.take(i as int)).result is Ok,
                script@ == old(script)@ + sequence(outs.take(i as int)).actions,
        {
            proof {
                lemma_sequence_step(outs, i as int);
            }
            let r = self.run_step(steps[i], script);
            assert(script@ =~= old(script)@ + sequence(outs.take(i + 1)).actions);
            if r.is_err() {
                proof {
                    lemma_sequence_stops(outs, i + 1);
                }
                return r;
            }
        }
        assert(outs.take(n as int) =~= outs);
        Ok(())
    }

    /// Pulses the reset pin, if the driver has one.
    pub fn hard_reset<S, R, T>(&self, script: &mut Script) -> (r: Result<(), Error<S, R, T>>)
        ensures
            final(script)@ == old(script)@ + reset_actions(self@),
            r is Ok,
    {
        if self.reset_pin {
            script.push(BusOp::Reset(true));
            script.push(BusOp::DelayMs(10));
            script.push(BusOp::Reset(false));
            script.push(BusOp::DelayMs(10));
            script.push(BusOp::Reset(true));
        }
        assert(script@ =~= old(script)@ + reset_actions(self@));
        Ok(())
    }

    /// The power-on register sequence for the current settings.
    fn init_sequence(&self) -> (steps: Vec<Step>)
        ensures
            steps@ == init_steps(self@),
    {
        let steps = vec![
            Step::Command(Instruction::PowerCtrl1, 0x00),
            Step::Command(Instruction::PowerCtrl2, 0x00),
            Step::Command(Instruction::PowerCtrl3, 0x00),
            Step::Command(Instruction::PowerCtrl4, 0x00),
            Step::Command(Instruction::PowerCtrl5, 0x00),
            Step::DelayMs(50),
            Step::Register(Instruction::PowerCtrl2, 0x0018),
            Step::Register(Instruction::PowerCtrl3, 0x6121),
            Step::Register(Instruction::PowerCtrl4, 0x006F),
            Step::Register(Instruction::PowerCtrl5, 0x495F),
            Step::Register(Instruction::PowerCtrl1, 0x0800),
            Step::DelayMs(50),
            Step::Register(Instruction::PowerCtrl2, 0x103B),
            Step::DelayMs(50),
            Step::Register(Instruction::DriverOutputCtrl, 0x011C),
            Step::Register(Instruction::LcdAcDrivingCtrl, 0x0100),
            Step::Register(
                Instruction::EntryMode,
                Self::entry_mode_value(self.orientation, self.color_order),
            ),
            Step::Register(Instruction::DispCtrl1, 0x0000),
            Step::Register(Instruction::DispCtrl2, 0x0808),
            Step::Register(Instruction::FrameCycleCtrl, 0x1100),
            Step::Register(Instruction::InterfaceCtrl, 0x0000),
            Step::Register(Instruction::OscCtrl, 0x0D01),
            Step::Register(Instruction::VciRecycling, 0x0020),
            Step::Register(Instruction::RamAddrSet1, 0x0000),
            Step::Register(Instruction::RamAddRSet2, 0x0000),
            Step::DelayMs(20),
            Step::Register(Instruction::GateScanCtrl, 0x0000),
            Step::Register(Instruction::VerticalScrollCtrl1, 0x00DB),
            Step::Register(Instruction::VerticalScrollCtrl2, 0x0000),
            Step::Register(Instruction::VerticalScrollCtrl3, 0x0000),
            Step::Register(Instruction::PartialDrivingPos1, 0x00DB),
            Step::Register(Instruction::PartialDrivingPos2, 0x0000),
            Step::Register(Instruction::HorizontalWindowAddr1, 0x00AF),
            Step::Register(Instruction::HorizontalWindowAddr2, 0x0000),
            Step::Register(Instruction::VerticalWindowAddr1, 0x00DB),
            Step::Register(Instruction::VerticalWindowAddr2, 0x0000),
            Step::Register(Instruction::GammaCtrl1, 0x0000),
            Step::Register(Instruction::GammaCtrl2, 0x0808),
            Step::Register(Instruction::GammaCtrl3, 0x080A),
            Step::Register(Instruction::GammaCtrl4, 0x000A),
            Step::Register(Instruction::GammaCtrl5, 0x0A08),
            Step::Register(Instruction::GammaCtrl6, 0x0808),
            Step::Register(Instruction::GammaCtrl7, 0x0000),
            Step::Register(Instruction::GammaCtrl8, 0x0A00),
            Step::Register(Instruction::GammaCtrl9, 0x0710),
            Step::Register(Instruction::GammaCtrl10, 0x0710),
            Step::Register(Instruction::DispCtrl1, Self::display_control(false, self.inverted)),
            Step::DelayMs(50),
            Step::Register(
                Instruction::DispCtrl1,
                Self::display_control(self.display_enabled, self.inverted),
            ),
        ];
        assert(steps@ =~= init_steps(self@));
        steps
    }

    /// Resets the panel and runs the power-on sequence, which leaves the
    /// display enabled or disabled as configured.
    pub fn init<S, R, T>(&self, script: &mut Script) -> (r: Result<(), Error<S, R, T>>)
        ensures
            final(script)@ == old(script)@ + init_out::<S, R, T>(self@).actions,
            r == init_out::<S, R, T>(self@).result,
            r is Ok,
    {
        proof {
            use_type_invariant(self);
            crate::laws::lemma_steps_succeed::<S, R, T>(self@, init_steps(self@));
        }
        self.hard_reset::<S, R, T>(script);
        let steps = self.init_sequence();
        let r = self.run_steps(&steps, script);
        assert(script@ =~= old(script)@ + init_out::<S, R, T>(self@).actions);
        r
    }

    /// Records whether the display is to be on and writes display control 1.
    pub fn set_display_enabled<S, R, T>(&mut self, enabled: bool, script: &mut Script) -> (r:
        Result<(), Error<S, R, T>>)
        ensures
            final(self)@ == (Panel { display_enabled: enabled, ..old(self)@ }),
            final(script)@ == old(script)@ + display_out::<S, R, T>(final(self)@).actions,
            r == display_out::<S, R, T>(final(self)@).result,
            r is Ok,
    {
        proof {
            use_type_invariant(&*self);
        }
        self.display_enabled = enabled;
        let value = Self::display_control(enabled, self.inverted);
        self.write_register(Instruction::DispCtrl1, value, script)
    }

    /// Turns the display on.
    pub fn enable_display<S, R, T>(&mut self, script: &mut Script) -> (r: Result<(), Error<S, R, T>>)
        ensures
            final(self)@ == (Panel { display_enabled: true, ..old(self)@ }),
            final(script)@ == old(script)@ + display_out::<S, R, T>(final(self)@).actions,
            r == display_out::<S, R, T>(final(self)@).result,
            r is Ok,
    {
        self.set_display_enabled(true, script)
    }

    /// Turns the display off.
    pub fn disable_display<S, R, T>(&mut self, script: &mut Script) -> (r: Result<(), Error<S, R, T>>)
        ensures
            final(self)@ == (Panel { display_enabled: false, ..old(self)@ }),
            final(script)@ == old(script)@ + display_out::<S, R, T>(final(self)@).actions,
            r == display_out::<S, R, T>(final(self)@).result,
            r is Ok,
    {
        self.set_display_enabled(false, script)
    }

    /// Records the orientation and writes the entry mode register.
    pub fn set_orientation<S, R, T>(&mut self, orientation: &Orientation, script: &mut Script) -> (r:
        Result<(), Error<S, R, T>>)
        ensures
            final(self)@ == (Panel { orientation: *orientation, ..old(self)@ }),
            final(script)@ == old(script)@ + entry_mode_out::<S, R, T>(final(self)@).actions,
            r == entry_mode_out::<S, R, T>(final(self)@).result,
            r is Ok,
    {
        proof {
            use_type_invariant(&*self);
        }
        self.orientation = *orientation;
        let value = Self::entry_mode_value(*orientation, self.color_order);
        self.write_register(Instruction::EntryMode, value, script)
    }

    /// Records the colour order and writes the entry mode register.
    pub fn set_color_order<S, R, T>(&mut self, color_order: ColorOrder, script: &mut Script) -> (r:
        Result<(), Error<S, R, T>>)
        ensures
            final(self)@ == (Panel { color_order, ..old(self)@ }),
            final(script)@ == old(script)@ + entry_mode_out::<S, R, T>(final(self)@).actions,
            r == entry_mode_out::<S, R, T>(final(self)@).result,
            r is Ok,
    {
        proof {
            use_type_invariant(&*self);
        }
        self.color_order = color_order;
        let value = Self::entry_mode_value(self.orientation, self.color_order);
        self.write_register(Instruction::EntryMode, value, script)
    }

    /// Records the inversion and rewrites display control 1.
    pub fn set_inverted<S, R, T>(&mut self, inverted: bool, script: &mut Script) -> (r: Result<
        (),
        Error<S, R, T>,
    >)
        ensures
            final(self)@ == (Panel { inverted, ..old(self)@ }),
            final(script)@ == old(script)@ + display_out::<S, R, T>(final(self)@).actions,
            r == display_out::<S, R, T>(final(self)@).result,
            r is Ok,
    {
        proof {
            use_type_invariant(&*self);
        }
        self.inverted = inverted;
        let enabled = self.display_enabled;
        self.set_display_enabled(enabled, script)
    }

    /// The current settings.
    pub fn config(&self) -> (c: Config)
        ensures
            c == self@.config(),
    {
        Config {
            spi_mode: self.spi_mode,
            color_order: self.color_order,
            orientation: self.orientation,
            inverted: self.inverted,
            display_enabled: self.display_enabled,
            width: self.width,
            height: self.height,
        }
    }

    /// Sets the global offset of the displayed image.
    pub fn set_offset(&mut self, dx: u16, dy: u16)
        ensures
            final(self)@ == (Panel { dx, dy, ..old(self)@ }),
    {
        proof {
            use_type_invariant(&*self);
        }
        self.dx = dx;
        self.dy = dy;
    }

    /// The drawable width.
    pub fn width(&self) -> (w: u32)
        ensures
            w == self@.width,
    {
        self.width
    }

    /// The drawable height.
    pub fn height(&self) -> (h: u32)
        ensures
            h == self@.height,
    {
        self.height
    }

    /// The drawable width and height.
    pub fn dimensions(&self) -> (d: (u32, u32))
        ensures
            d == (self@.width, self@.height),
    {
        (self.width, self.height)
    }

    /// Sets the address window, shifted by the offset.
    pub fn set_address_window<S, R, T>(
        &self,
        sx: u16,
        sy: u16,
        ex: u16,
        ey: u16,
        script: &mut Script,
    ) -> (r: Result<(), Error<S, R, T>>)
        requires
            window_fits(self@, sx, sy, ex, ey),
        ensures
            final(script)@ == old(script)@ + window_out::<S, R, T>(self@, sx, sy, ex, ey).actions,
            r == window_out::<S, R, T>(self@, sx, sy, ex, ey).result,
            r is Ok,
    {
        proof {
            use_type_invariant(self);
            crate::laws::lemma_steps_succeed::<S, R, T>(self@, window_steps(self@, sx, sy, ex, ey));
        }
        let x0 = sx + self.dx;
        let y0 = sy + self.dy;
        let x1 = ex + self.dx;
        let y1 = ey + self.dy;
        let steps = vec![
            Step::Register(Instruction::HorizontalWindowAddr2, x0),
            Step::Register(Instruction::HorizontalWindowAddr1, x1),
            Step::Register(Instruction::VerticalWindowAddr2, y0),
            Step::Register(Instruction::VerticalWindowAddr1, y1),
            Step::Register(Instruction::RamAddrSet1, x0),
            Step::Register(Instruction::RamAddRSet2, y0),
        ];
        assert(steps@ =~= window_steps(self@, sx, sy, ex, ey));
        self.run_steps(&steps, script)
    }

    /// Selects the GRAM data register and switches to data.
    fn start_gram<S, R, T>(&self, script: &mut Script) -> (r: Result<(), Error<S, R, T>>)
        ensures
            final(script)@ == old(script)@ + gram_out::<S, R, T>(self@).actions,
            r == gram_out::<S, R, T>(self@).result,
    {
        let none: [u8; 0] = [];
        assert(none@ =~= Seq::<u8>::empty());
        let c = self.write_command(Instruction::GramDataReg, &none, script);
        if c.is_err() {
            return c;
        }
        let d = self.start_data(script);
        assert(script@ =~= old(script)@ + gram_out::<S, R, T>(self@).actions);
        d
    }

    /// Sends each word in a transfer of its own.
    fn write_words<S, R, T>(&self, words: &[u16], script: &mut Script)
        ensures
            final(script)@ == old(script)@ + word_writes(self@.spi_mode, words@),
    {
        let n = words.len();
        for i in 0..n
            invariant
                n == words@.len(),
                script@ == old(script)@ + word_writes(self@.spi_mode, words@.take(i as int)),
        {
            let _ = self.write_word::<S, R, T>(words[i], script);
            assert(word_writes(self@.spi_mode, words@.take(i + 1)) =~= word_writes(
                self@.spi_mode,
                words@.take(i as int),
            ).push(Action::Write(data_frame(self@.spi_mode, be_bytes(words@[i as int])))));
            assert(script@ =~= old(script)@ + word_writes(self@.spi_mode, words@.take(i + 1)));
        }
        assert(words@.take(n as int) =~= words@);
    }

    /// Sends the words in transfers of 32 bytes, then the rest, which may be empty.
    fn write_words_buffered<S, R, T>(&self, words: &[u16], script: &mut Script) -> (r: Result<
        (),
        Error<S, R, T>,
    >)
        ensures
            final(script)@ == old(script)@ + buffered_writes(self@.spi_mode, words@),
            r is Ok,
    {
        let ghost mode = self@.spi_mode;
        let mut buffer: Vec<u8> = Vec::new();
        let ghost mut sent: Seq<Seq<u8>> = Seq::empty();
        let n = words.len();
        assert(words@.take(0) =~= Seq::<u16>::empty());
        assert(chunks32(be_words(words@.take(0))) =~= sent + seq![buffer@]);
        assert(chunk_writes(mode, sent) =~= Seq::<Action>::empty());
        assert(script@ =~= old(script)@ + chunk_writes(mode, sent));
        for i in 0..n
            invariant
                n == words@.len(),
                mode == self@.spi_mode,
                chunks32(be_words(words@.take(i as int))) == sent + seq![buffer@],
                buffer@.len() < 32,
                buffer@.len() % 2 == 0,
                script@ == old(script)@ + chunk_writes(mode, sent),
        {
            let word = words[i];
            let hi = (word / 256) as u8;
            let lo = (word % 256) as u8;
            proof {
                lemma_be_words_step(words@, i as int);
                lemma_chunks32_push2(be_words(words@.take(i as int)), sent, buffer@, hi, lo);
            }
            let ghost before = buffer@;
            buffer.push(hi);
            buffer.push(lo);
            assert(buffer@ =~= before + seq![hi, lo]);
            assert(be_bytes(words@[i as int]) =~= seq![hi, lo]);
            if buffer.len() >= 32 {
                let _ = self.write_data::<S, R, T>(buffer.as_slice(), script);
                proof {
                    assert(chunk_writes(mode, sent.push(buffer@)) =~= chunk_writes(mode, sent).push(
                        Action::Write(data_frame(mode, buffer@)),
                    ));
                    assert(sent + seq![buffer@, Seq::<u8>::empty()] =~= sent.push(buffer@) + seq![Seq::<u8>::empty()]);
                    sent = sent.push(buffer@);
                }
                buffer = Vec::new();
                assert(buffer@ =~= Seq::<u8>::empty());
            }
        }
        let _ = self.write_data::<S, R, T>(buffer.as_slice(), script);
        assert(words@.take(n as int) =~= words@);
        assert(chunk_writes(mode, sent + seq![buffer@]) =~= chunk_writes(mode, sent).push(
            Action::Write(data_frame(mode, buffer@)),
        ));
        Ok(())
    }
    /// Writes the colours into the current window, one transfer per pixel.
    pub fn write_pixels<S, R, T>(&self, colors: &[u16], script: &mut Script) -> (r: Result<
        (),
        Error<S, R, T>,
    >)
        ensures
            final(script)@ == old(script)@ + pixels_out::<S, R, T>(self@, colors@).actions,
            r == pixels_out::<S, R, T>(self@, colors@).result,
            r is Ok,
    {
        proof {
            use_type_invariant(self);
        }
        let g = self.start_gram(script);
        if g.is_err() {
            return g;
        }
        self.write_words::<S, R, T>(colors, script);
        assert(script@ =~= old(script)@ + pixels_out::<S, R, T>(self@, colors@).actions);
        Ok(())
    }

    /// Writes the colours into the current window, in transfers of up to 32 bytes.
    pub fn write_pixels_buffered<S, R, T>(&self, colors: &[u16], script: &mut Script) -> (r: Result<
        (),
        Error<S, R, T>,
    >)
        ensures
            final(script)@ == old(script)@ + pixels_buffered_out::<S, R, T>(self@, colors@).actions,
            r == pixels_buffered_out::<S, R, T>(self@, colors@).result,
            r is Ok,
    {
        proof {
            use_type_invariant(self);
        }
        let g = self.start_gram(script);
        if g.is_err() {
            return g;
        }
        let _ = self.write_words_buffered::<S, R, T>(colors, script);
        assert(script@ =~= old(script)@ + pixels_buffered_out::<S, R, T>(self@, colors@).actions);
        Ok(())
    }

    /// Sets the colour of one pixel.
    pub fn set_pixel<S, R, T>(&self, x: u16, y: u16, color: u16, script: &mut Script) -> (r: Result<
        (),
        Error<S, R, T>,
    >)
        requires
            window_fits(self@, x, y, x, y),
        ensures
            final(script)@ == old(script)@ + set_pixel_out::<S, R, T>(self@, x, y, color).actions,
            r == set_pixel_out::<S, R, T>(self@, x, y, color).result,
            r is Ok,
    {
        let w = self.set_address_window(x, y, x, y, script);
        if w.is_err() {
            return w;
        }
        let colors = [color];
        assert(colors@ =~= seq![color]);
        let r = self.write_pixels(&colors, script);
        assert(script@ =~= old(script)@ + set_pixel_out::<S, R, T>(self@, x, y, color).actions);
        r
    }

    /// Sets the window, then writes the colours into it, one transfer per pixel.
    pub fn set_pixels<S, R, T>(
        &self,
        sx: u16,
        sy: u16,
        ex: u16,
        ey: u16,
        colors: &[u16],
        script: &mut Script,
    ) -> (r: Result<(), Error<S, R, T>>)
        requires
            window_fits(self@, sx, sy, ex, ey),
        ensures
            final(script)@ == old(script)@ + then(
                window_out::<S, R, T>(self@, sx, sy, ex, ey),
                pixels_out(self@, colors@),
            ).actions,
            r == then(window_out::<S, R, T>(self@, sx, sy, ex, ey), pixels_out(self@, colors@)).result,
            r is Ok,
    {
        let w = self.set_address_window(sx, sy, ex, ey, script);
        if w.is_err() {
            return w;
        }
        let r = self.write_pixels(colors, script);
        assert(script@ =~= old(script)@ + then(
            window_out::<S, R, T>(self@, sx, sy, ex, ey),
            pixels_out(self@, colors@),
        ).actions);
        r
    }

    /// Sets the window, then writes the colours into it in transfers of up to 32 bytes.
    pub fn set_pixels_buffered<S, R, T>(
        &self,
        sx: u16,
        sy: u16,
        ex: u16,
        ey: u16,
        colors: &[u16],
        script: &mut Script,
    ) -> (r: Result<(), Error<S, R, T>>)
        requires
            window_fits(self@, sx, sy, ex, ey),
        ensures
            final(script)@ == old(script)@ + then(
                window_out::<S, R, T>(self@, sx, sy, ex, ey),
                pixels_buffered_out(self@, colors@),
            ).actions,
            r == then(
                window_out::<S, R, T>(self@, sx, sy, ex, ey),
                pixels_buffered_out(self@, colors@),
            ).result,
            r is Ok,
    {
        let w = self.set_address_window(sx, sy, ex, ey, script);
        if w.is_err() {
            return w;
        }
        let r = self.write_pixels_buffered(colors, script);
        assert(script@ =~= old(script)@ + then(
            window_out::<S, R, T>(self@, sx, sy, ex, ey),
            pixels_buffered_out(self@, colors@),
        ).actions);
        r
    }
    /// The global offset.
    pub fn offset(&self) -> (o: (u16, u16))
        ensures
            o == (self@.dx, self@.dy),
    {
        (self.dx, self.dy)
    }
}

} // verus!
