//! Properties of the driver as a whole: what its register values mean, what
//! its transfers look like on the wire, and what holds across requests.

use vstd::prelude::*;

use crate::bus::{
    be_bytes, be_words, chunks32, lemma_sequence_all_done, sequence, then, Action, Outcome,
};
use crate::config::{orientation_bits, ColorOrder, Config, Orientation, SpiMode};
use crate::driver::{
    buffered_writes, chunk_writes, command_out, data_frame, display_control, display_out,
    entry_mode, entry_mode_out, gram_out, init_out, init_steps, pixels_buffered_out, pixels_out,
    basic_config, native_config, reset_actions, set_pixel_out, spec_start_byte, start_data_out,
    step_out, steps_out, window_out, window_steps, word_writes, Panel, Step,
};
use crate::graphics::{
    area_colors, area_point, clear_out, draw_out, fill_out, kept_colors, min, on_screen, pixel_out,
    rect_contains, Rect, RawPixel,
};
use crate::instruction::{register_index, Instruction};

verus! {

// ----- register values -----

/// The start byte is `0111 0 ID RS RW`: its top five bits are `01110`, and
/// its three low bits are the ID, RS and R/W flags.
pub proof fn lemma_start_byte_bits(id: bool, rs: bool, rw: bool)
    ensures
        spec_start_byte(id, rs, rw) / 8 == 0x0E,
        (spec_start_byte(id, rs, rw) / 4) % 2 == (if id { 1int } else { 0 }),
        (spec_start_byte(id, rs, rw) / 2) % 2 == (if rs { 1int } else { 0 }),
        spec_start_byte(id, rs, rw) % 2 == (if rw { 1int } else { 0 }),
{
}

/// The entry mode register holds the orientation's ID1, ID0 and AM bits
/// (bits 5, 4, 3) and sets the BGR bit (bit 12) exactly for BGR colour order;
/// no other bit is set.
pub proof fn lemma_entry_mode_bits(o: Orientation, c: ColorOrder)
    ensures
        entry_mode(o, c) & 0x0038 == orientation_bits(o),
        (entry_mode(o, c) & 0x1000 != 0) <==> c == ColorOrder::Bgr,
        entry_mode(o, c) & !0x1038u16 == 0,
{
    let b = orientation_bits(o);
    let g: u16 = if c == ColorOrder::Bgr {
        0x1000
    } else {
        0
    };
    assert(b == 0x30 || b == 0x28 || b == 0 || b == 0x18) by {
        assert(0x20u16 | 0x10u16 == 0x30u16) by (bit_vector);
        assert(0x20u16 | 0x08u16 == 0x28u16) by (bit_vector);
        assert(0x10u16 | 0x08u16 == 0x18u16) by (bit_vector);
    }
    assert((b == 0x30 || b == 0x28 || b == 0 || b == 0x18) && (g == 0x1000 || g == 0) ==> {
        &&& (b | g) & 0x0038 == b
        &&& ((b | g) & 0x1000 != 0) == (g == 0x1000)
        &&& (b | g) & !0x1038u16 == 0
    }) by (bit_vector);
}

/// Display control 1 turns the display on (bit 12, with GON, DTE, D1 and
/// D0) exactly when asked to: `0x1017` on, `0x0012` off when not inverted;
/// inversion flips bit 2 (REV) and nothing else, whether the display is on
/// or off.
pub proof fn lemma_display_control_bits(on: bool, inverted: bool)
    ensures
        (display_control(on, inverted) & 0x1000 != 0) <==> on,
        display_control(false, false) == 0x0012,
        display_control(true, false) == 0x1017,
        display_control(on, true) == display_control(on, false) ^ 0x0004,
        display_control(on, true) != display_control(on, false),
{
    assert(0x1017u16 ^ 0x4u16 == 0x1013u16) by (bit_vector);
    assert(0x1017u16 ^ 0x0u16 == 0x1017u16) by (bit_vector);
    assert(0x0012u16 ^ 0x4u16 == 0x0016u16) by (bit_vector);
    assert(0x0012u16 ^ 0x0u16 == 0x0012u16) by (bit_vector);
    assert(0x1017u16 & 0x1000u16 != 0) by (bit_vector);
    assert(0x1013u16 & 0x1000u16 != 0) by (bit_vector);
    assert(0x0016u16 & 0x1000u16 == 0) by (bit_vector);
    assert(0x0012u16 & 0x1000u16 == 0) by (bit_vector);
}

// ----- settings -----

/// Each setter changes its own setting, which `config` then reports, and
/// nothing else; a well-formed driver stays well-formed.
pub proof fn lemma_settings_are_reported(
    p: Panel,
    enabled: bool,
    o: Orientation,
    c: ColorOrder,
    inverted: bool,
    dx: u16,
    dy: u16,
)
    ensures
        (Panel { display_enabled: enabled, ..p }).config() == (Config {
            display_enabled: enabled,
            ..p.config()
        }),
        (Panel { orientation: o, ..p }).config() == (Config { orientation: o, ..p.config() }),
        (Panel { color_order: c, ..p }).config() == (Config { color_order: c, ..p.config() }),
        (Panel { inverted, ..p }).config() == (Config { inverted, ..p.config() }),
        (Panel { dx, dy, ..p }).config() == p.config(),
        p.wf() ==> (Panel { display_enabled: enabled, ..p }).wf(),
        p.wf() ==> (Panel { orientation: o, ..p }).wf(),
        p.wf() ==> (Panel { color_order: c, ..p }).wf(),
        p.wf() ==> (Panel { inverted, ..p }).wf(),
        p.wf() ==> (Panel { dx, dy, ..p }).wf(),
{
}

/// An offset shifts every address window by the offset: with offset
/// `(dx, dy)` the window `(sx, sy)..(ex, ey)` is written as the window
/// `(sx + dx, sy + dy)..(ex + dx, ey + dy)` is without offset.
pub proof fn lemma_offset_shifts_window<S, R, T>(
    p: Panel,
    dx: u16,
    dy: u16,
    sx: u16,
    sy: u16,
    ex: u16,
    ey: u16,
)
    requires
        sx + dx <= u16::MAX,
        sy + dy <= u16::MAX,
        ex + dx <= u16::MAX,
        ey + dy <= u16::MAX,
    ensures
        window_out::<S, R, T>(Panel { dx, dy, ..p }, sx, sy, ex, ey) == window_out::<S, R, T>(
            Panel { dx: 0, dy: 0, ..p },
            (sx + dx) as u16,
            (sy + dy) as u16,
            (ex + dx) as u16,
            (ey + dy) as u16,
        ),
{
    let shifted = Panel { dx, dy, ..p };
    let plain = Panel { dx: 0, dy: 0, ..p };
    assert(window_steps(shifted, sx, sy, ex, ey) =~= window_steps(
        plain,
        (sx + dx) as u16,
        (sy + dy) as u16,
        (ex + dx) as u16,
        (ey + dy) as u16,
    ));
    let a = window_steps(shifted, sx, sy, ex, ey).map_values(|s: Step| step_out::<S, R, T>(shifted, s));
    let b = window_steps(shifted, sx, sy, ex, ey).map_values(|s: Step| step_out::<S, R, T>(plain, s));
    assert(a =~= b);
}

/// The power-on sequence ends by writing display control 1 with the
/// configured display state, so `init` leaves the display on or off as
/// configured; it writes the entry mode for the configured orientation and
/// colour order.
pub proof fn lemma_init_applies_config(p: Panel)
    ensures
        init_steps(p).last() == Step::Register(
            Instruction::DispCtrl1,
            display_control(p.display_enabled, p.inverted),
        ),
        init_steps(p).contains(
            Step::Register(Instruction::EntryMode, entry_mode(p.orientation, p.color_order)),
        ),
{
    assert(init_steps(p)[16] == Step::Register(
        Instruction::EntryMode,
        entry_mode(p.orientation, p.color_order),
    ));
}

// ----- a well-formed driver never fails on its own -----

/// A command with at most 32 parameter bytes succeeds on a well-formed driver.
pub proof fn lemma_command_succeeds<S, R, T>(p: Panel, cmd: u8, params: Seq<u8>)
    requires
        p.wf(),
        params.len() <= 32,
    ensures
        command_out::<S, R, T>(p, cmd, params).result is Ok,
{
}

/// On a well-formed driver (every `ILI9225` is one, by its type invariant)
/// no request fails on the driver's side: neither `MissingDataCommandPin` nor
/// `NativeDataChunkTooLarge` is ever reported; only the devices can fail.
pub proof fn lemma_requests_succeed<S, R, T>(
    p: Panel,
    sx: u16,
    sy: u16,
    ex: u16,
    ey: u16,
    color: u16,
    colors: Seq<u16>,
    pixels: Seq<RawPixel>,
    area: Rect,
    drawable: Rect,
)
    requires
        p.wf(),
    ensures
        init_out::<S, R, T>(p).result is Ok,
        display_out::<S, R, T>(p).result is Ok,
        entry_mode_out::<S, R, T>(p).result is Ok,
        window_out::<S, R, T>(p, sx, sy, ex, ey).result is Ok,
        pixels_out::<S, R, T>(p, colors).result is Ok,
        pixels_buffered_out::<S, R, T>(p, colors).result is Ok,
        set_pixel_out::<S, R, T>(p, sx, sy, color).result is Ok,
        draw_out::<S, R, T>(p, pixels).result is Ok,
        fill_out::<S, R, T>(p, area, drawable, colors).result is Ok,
        clear_out::<S, R, T>(p, color).result is Ok,
{
    lemma_steps_succeed::<S, R, T>(p, init_steps(p));
    lemma_steps_succeed::<S, R, T>(p, window_steps(p, sx, sy, ex, ey));
    lemma_steps_succeed::<S, R, T>(p, window_steps(p, sx, sy, sx, sy));
    let outs = pixels.map_values(|px: RawPixel| pixel_out::<S, R, T>(p, px));
    assert forall|i: int| 0 <= i < outs.len() implies (#[trigger] outs[i]).result is Ok by {
        let px = pixels[i];
        lemma_steps_succeed::<S, R, T>(
            p,
            window_steps(p, px.x as u16, px.y as u16, px.x as u16, px.y as u16),
        );
    }
    lemma_sequence_all_done(outs);
    if !(drawable.width == 0 && drawable.height == 0) {
        let x0 = drawable.x as u16;
        let y0 = drawable.y as u16;
        let x1 = (drawable.x + ((drawable.width - 1) as i32)) as u16;
        let y1 = (drawable.y + ((drawable.height - 1) as i32)) as u16;
        lemma_steps_succeed::<S, R, T>(p, window_steps(p, x0, y0, x1, y1));
    }
    let w = ((p.width as u16) - 1) as u16;
    let h = ((p.height as u16) - 1) as u16;
    lemma_steps_succeed::<S, R, T>(p, window_steps(p, 0, 0, w, h));
}

/// A programming sequence succeeds on a well-formed driver.
pub proof fn lemma_steps_succeed<S, R, T>(p: Panel, steps: Seq<Step>)
    requires
        p.wf(),
    ensures
        steps_out::<S, R, T>(p, steps).result is Ok,
{
    let outs = steps.map_values(|s: Step| step_out::<S, R, T>(p, s));
    assert forall|i: int| 0 <= i < outs.len() implies (#[trigger] outs[i]).result is Ok by {
        match steps[i] {
            Step::Command(c, b) => {},
            Step::Register(c, v) => {},
            Step::DelayMs(ms) => {},
        }
    }
    lemma_sequence_all_done(outs);
}

// ----- the wire -----

/// Every action of `acts` satisfies `ok`.
pub open spec fn all_actions(acts: Seq<Action>, ok: spec_fn(Action) -> bool) -> bool {
    forall|i: int| 0 <= i < acts.len() ==> ok(#[trigger] acts[i])
}

/// A native SPI transfer: no DC/RS pin is driven, and every transfer is a
/// write that starts with the start byte carrying the panel's ID bit and
/// R/W = 0; with RS = 0 it carries one command byte, with RS = 1 at most 32
/// data bytes.
pub open spec fn native_action(id: bool) -> spec_fn(Action) -> bool {
    |a: Action|
        match a {
            Action::DataCommand(_) => false,
            Action::Write(b) => b.len() >= 1 && ((b[0] == spec_start_byte(id, false, false)
                && b.len() == 2) || (b[0] == spec_start_byte(id, true, false) && b.len() <= 33)),
            _ => true,
        }
}

/// Chaining keeps a property that both parts have.
proof fn lemma_then_all_actions<S, R, T>(
    a: Outcome<S, R, T>,
    b: Outcome<S, R, T>,
    ok: spec_fn(Action) -> bool,
)
    requires
        all_actions(a.actions, ok),
        all_actions(b.actions, ok),
    ensures
        all_actions(then(a, b).actions, ok),
{
    if a.result is Ok {
        let c = a.actions + b.actions;
        assert forall|i: int| 0 <= i < c.len() implies ok(#[trigger] c[i]) by {
            if i < a.actions.len() {
                assert(c[i] == a.actions[i]);
            } else {
                assert(c[i] == b.actions[i - a.actions.len()]);
            }
        }
    }
}

/// A sequence keeps a property that all its steps have.
proof fn lemma_sequence_all_actions<S, R, T>(steps: Seq<Outcome<S, R, T>>, ok: spec_fn(Action) -> bool)
    requires
        forall|i: int| 0 <= i < steps.len() ==> all_actions((#[trigger] steps[i]).actions, ok),
    ensures
        all_actions(sequence(steps).actions, ok),
    decreases steps.len(),
{
    if steps.len() > 0 {
        lemma_sequence_all_actions(steps.drop_last(), ok);
        assert(all_actions(steps[steps.len() - 1].actions, ok));
        lemma_then_all_actions(sequence(steps.drop_last()), steps.last(), ok);
    }
}

/// `ok` holds of every action of the pieces that requests are made of:
/// commands with at most 32 parameter bytes, the switch to data, data
/// transfers of at most 32 bytes, pauses, and the reset pulse.
pub open spec fn pieces_keep<S, R, T>(p: Panel, ok: spec_fn(Action) -> bool) -> bool {
    &&& forall|cmd: u8, params: Seq<u8>|
        params.len() <= 32 ==> all_actions(
            (#[trigger] command_out::<S, R, T>(p, cmd, params)).actions,
            ok,
        )
    &&& all_actions(start_data_out::<S, R, T>(p).actions, ok)
    &&& forall|data: Seq<u8>|
        data.len() <= 32 ==> ok(Action::Write(#[trigger] data_frame(p.spi_mode, data)))
    &&& forall|a: Action| #![trigger ok(a)] a is DelayMs ==> ok(a)
    &&& all_actions(reset_actions(p), ok)
}

/// Programming sequences keep what their pieces keep.
proof fn lemma_steps_keep<S, R, T>(p: Panel, ok: spec_fn(Action) -> bool, steps: Seq<Step>)
    requires
        pieces_keep::<S, R, T>(p, ok),
    ensures
        all_actions(steps_out::<S, R, T>(p, steps).actions, ok),
{
    let outs = steps.map_values(|s: Step| step_out::<S, R, T>(p, s));
    assert forall|i: int| 0 <= i < outs.len() implies all_actions((#[trigger] outs[i]).actions, ok) by {
        match steps[i] {
            Step::Command(c, b) => {
                assert(all_actions(command_out::<S, R, T>(p, register_index(c), seq![b]).actions, ok));
            },
            Step::Register(c, v) => {
                assert(all_actions(command_out::<S, R, T>(p, register_index(c), be_bytes(v)).actions, ok));
            },
            Step::DelayMs(ms) => {
                assert(ok(Action::DelayMs(ms)));
            },
        }
    }
    lemma_sequence_all_actions(outs, ok);
}

/// Pixel data keep what their pieces keep.
proof fn lemma_pixels_keep<S, R, T>(p: Panel, ok: spec_fn(Action) -> bool, colors: Seq<u16>)
    requires
        pieces_keep::<S, R, T>(p, ok),
    ensures
        all_actions(pixels_out::<S, R, T>(p, colors).actions, ok),
        all_actions(pixels_buffered_out::<S, R, T>(p, colors).actions, ok),
{
    assert(all_actions(command_out::<S, R, T>(p, register_index(Instruction::GramDataReg), Seq::empty()).actions, ok));
    lemma_then_all_actions(
        command_out::<S, R, T>(p, register_index(Instruction::GramDataReg), Seq::empty()),
        start_data_out::<S, R, T>(p),
        ok,
    );
    let words = word_writes(p.spi_mode, colors);
    assert forall|i: int| 0 <= i < words.len() implies ok(#[trigger] words[i]) by {
        assert(ok(Action::Write(data_frame(p.spi_mode, be_bytes(colors[i])))));
    }
    lemma_then_all_actions(gram_out::<S, R, T>(p), Outcome { actions: words, result: Ok(()) }, ok);
    let chunks = chunks32(be_words(colors));
    lemma_chunks32_short(be_words(colors));
    let bw = buffered_writes(p.spi_mode, colors);
    assert forall|i: int| 0 <= i < bw.len() implies ok(#[trigger] bw[i]) by {
        assert(chunks[i].len() <= 32);
        assert(ok(Action::Write(data_frame(p.spi_mode, chunks[i]))));
    }
    lemma_then_all_actions(gram_out::<S, R, T>(p), Outcome { actions: bw, result: Ok(()) }, ok);
}

/// Every request keeps what its pieces keep.
pub proof fn lemma_requests_keep<S, R, T>(
    p: Panel,
    ok: spec_fn(Action) -> bool,
    sx: u16,
    sy: u16,
    ex: u16,
    ey: u16,
    color: u16,
    colors: Seq<u16>,
    pixels: Seq<RawPixel>,
    area: Rect,
    drawable: Rect,
)
    requires
        pieces_keep::<S, R, T>(p, ok),
    ensures
        all_actions(init_out::<S, R, T>(p).actions, ok),
        all_actions(display_out::<S, R, T>(p).actions, ok),
        all_actions(entry_mode_out::<S, R, T>(p).actions, ok),
        all_actions(window_out::<S, R, T>(p, sx, sy, ex, ey).actions, ok),
        all_actions(pixels_out::<S, R, T>(p, colors).actions, ok),
        all_actions(pixels_buffered_out::<S, R, T>(p, colors).actions, ok),
        all_actions(set_pixel_out::<S, R, T>(p, sx, sy, color).actions, ok),
        all_actions(draw_out::<S, R, T>(p, pixels).actions, ok),
        all_actions(fill_out::<S, R, T>(p, area, drawable, colors).actions, ok),
        all_actions(clear_out::<S, R, T>(p, color).actions, ok),
{
    let reset = Outcome::<S, R, T> { actions: reset_actions(p), result: Ok(()) };
    lemma_steps_keep::<S, R, T>(p, ok, init_steps(p));
    lemma_then_all_actions(reset, steps_out::<S, R, T>(p, init_steps(p)), ok);
    assert(all_actions(display_out::<S, R, T>(p).actions, ok)) by {
        assert(all_actions(command_out::<S, R, T>(
            p,
            register_index(Instruction::DispCtrl1),
            be_bytes(display_control(p.display_enabled, p.inverted)),
        ).actions, ok));
    }
    assert(all_actions(entry_mode_out::<S, R, T>(p).actions, ok)) by {
        assert(all_actions(command_out::<S, R, T>(
            p,
            register_index(Instruction::EntryMode),
            be_bytes(entry_mode(p.orientation, p.color_order)),
        ).actions, ok));
    }
    lemma_steps_keep::<S, R, T>(p, ok, window_steps(p, sx, sy, ex, ey));
    lemma_pixels_keep::<S, R, T>(p, ok, colors);
    lemma_steps_keep::<S, R, T>(p, ok, window_steps(p, sx, sy, sx, sy));
    lemma_pixels_keep::<S, R, T>(p, ok, seq![color]);
    lemma_then_all_actions(
        window_out::<S, R, T>(p, sx, sy, sx, sy),
        pixels_out::<S, R, T>(p, seq![color]),
        ok,
    );
    let outs = pixels.map_values(|px: RawPixel| pixel_out::<S, R, T>(p, px));
    assert forall|i: int| 0 <= i < outs.len() implies all_actions((#[trigger] outs[i]).actions, ok) by {
        let px = pixels[i];
        if on_screen(p, px.x, px.y) {
            let x = px.x as u16;
            let y = px.y as u16;
            lemma_steps_keep::<S, R, T>(p, ok, window_steps(p, x, y, x, y));
            lemma_pixels_keep::<S, R, T>(p, ok, seq![px.color]);
            lemma_then_all_actions(
                window_out::<S, R, T>(p, x, y, x, y),
                pixels_out::<S, R, T>(p, seq![px.color]),
                ok,
            );
        }
    }
    lemma_sequence_all_actions(outs, ok);
    if !(drawable.width == 0 && drawable.height == 0) {
        let x0 = drawable.x as u16;
        let y0 = drawable.y as u16;
        let x1 = (drawable.x + ((drawable.width - 1) as i32)) as u16;
        let y1 = (drawable.y + ((drawable.height - 1) as i32)) as u16;
        lemma_steps_keep::<S, R, T>(p, ok, window_steps(p, x0, y0, x1, y1));
        lemma_pixels_keep::<S, R, T>(p, ok, area_colors(area, drawable, colors));
        lemma_then_all_actions(
            window_out::<S, R, T>(p, x0, y0, x1, y1),
            pixels_buffered_out::<S, R, T>(p, area_colors(area, drawable, colors)),
            ok,
        );
    }
    let w = ((p.width as u16) - 1) as u16;
    let h = ((p.height as u16) - 1) as u16;
    let fill = Seq::new((p.width * p.height) as nat, |i: int| color);
    lemma_steps_keep::<S, R, T>(p, ok, window_steps(p, 0, 0, w, h));
    lemma_pixels_keep::<S, R, T>(p, ok, fill);
    lemma_then_all_actions(
        window_out::<S, R, T>(p, 0, 0, w, h),
        pixels_buffered_out::<S, R, T>(p, fill),
        ok,
    );
}

/// In native SPI mode the pieces of the requests are native transfers.
pub proof fn lemma_native_pieces<S, R, T>(p: Panel, id: bool)
    requires
        p.spi_mode == (SpiMode::Native { id }),
    ensures
        pieces_keep::<S, R, T>(p, native_action(id)),
{
    assert forall|cmd: u8, params: Seq<u8>| params.len() <= 32 implies all_actions(
        (#[trigger] command_out::<S, R, T>(p, cmd, params)).actions,
        native_action(id),
    ) by {
        let out = command_out::<S, R, T>(p, cmd, params);
        assert forall|i: int| 0 <= i < out.actions.len() implies native_action(id)(
            #[trigger] out.actions[i],
        ) by {
            if params.len() > 0 && i == 1 {
                assert(out.actions[1] == Action::Write(seq![spec_start_byte(id, true, false)] + params));
            }
        }
    }
}

/// A transfer that drives a pin the driver owns: DC/RS only with a DC/RS
/// pin, RST only with a reset pin.
pub open spec fn pin_action(p: Panel) -> spec_fn(Action) -> bool {
    |a: Action|
        match a {
            Action::DataCommand(_) => p.data_command_pin,
            Action::Reset(_) => p.reset_pin,
            _ => true,
        }
}

/// In native SPI mode the driver never drives a DC/RS pin, and every SPI
/// transfer it makes starts with the start byte that carries the panel's ID
/// bit and R/W = 0: a command transfer (RS = 0) of one index byte, or a data
/// transfer (RS = 1) of at most 32 bytes.
pub proof fn lemma_native_transfers<S, R, T>(
    p: Panel,
    id: bool,
    sx: u16,
    sy: u16,
    ex: u16,
    ey: u16,
    color: u16,
    colors: Seq<u16>,
    pixels: Seq<RawPixel>,
    area: Rect,
    drawable: Rect,
)
    requires
        p.spi_mode == (SpiMode::Native { id }),
    ensures
        all_actions(init_out::<S, R, T>(p).actions, native_action(id)),
        all_actions(display_out::<S, R, T>(p).actions, native_action(id)),
        all_actions(entry_mode_out::<S, R, T>(p).actions, native_action(id)),
        all_actions(window_out::<S, R, T>(p, sx, sy, ex, ey).actions, native_action(id)),
        all_actions(pixels_out::<S, R, T>(p, colors).actions, native_action(id)),
        all_actions(pixels_buffered_out::<S, R, T>(p, colors).actions, native_action(id)),
        all_actions(set_pixel_out::<S, R, T>(p, sx, sy, color).actions, native_action(id)),
        all_actions(draw_out::<S, R, T>(p, pixels).actions, native_action(id)),
        all_actions(fill_out::<S, R, T>(p, area, drawable, colors).actions, native_action(id)),
        all_actions(clear_out::<S, R, T>(p, color).actions, native_action(id)),
{
    lemma_native_pieces::<S, R, T>(p, id);
    lemma_requests_keep::<S, R, T>(
        p,
        native_action(id),
        sx,
        sy,
        ex,
        ey,
        color,
        colors,
        pixels,
        area,
        drawable,
    );
}

/// The driver drives only the pins it owns: the DC/RS pin only when it has
/// one, and the reset pin only when it has one.
pub proof fn lemma_only_owned_pins<S, R, T>(
    p: Panel,
    sx: u16,
    sy: u16,
    ex: u16,
    ey: u16,
    color: u16,
    colors: Seq<u16>,
    pixels: Seq<RawPixel>,
    area: Rect,
    drawable: Rect,
)
    ensures
        all_actions(init_out::<S, R, T>(p).actions, pin_action(p)),
        all_actions(display_out::<S, R, T>(p).actions, pin_action(p)),
        all_actions(entry_mode_out::<S, R, T>(p).actions, pin_action(p)),
        all_actions(window_out::<S, R, T>(p, sx, sy, ex, ey).actions, pin_action(p)),
        all_actions(pixels_out::<S, R, T>(p, colors).actions, pin_action(p)),
        all_actions(pixels_buffered_out::<S, R, T>(p, colors).actions, pin_action(p)),
        all_actions(set_pixel_out::<S, R, T>(p, sx, sy, color).actions, pin_action(p)),
        all_actions(draw_out::<S, R, T>(p, pixels).actions, pin_action(p)),
        all_actions(fill_out::<S, R, T>(p, area, drawable, colors).actions, pin_action(p)),
        all_actions(clear_out::<S, R, T>(p, color).actions, pin_action(p)),
{
    assert forall|cmd: u8, params: Seq<u8>| params.len() <= 32 implies all_actions(
        (#[trigger] command_out::<S, R, T>(p, cmd, params)).actions,
        pin_action(p),
    ) by {
        let out = command_out::<S, R, T>(p, cmd, params);
        assert forall|i: int| 0 <= i < out.actions.len() implies pin_action(p)(
            #[trigger] out.actions[i],
        ) by {}
    }
    lemma_requests_keep::<S, R, T>(p, pin_action(p), sx, sy, ex, ey, color, colors, pixels, area, drawable);
}

// ----- the DC/RS protocol -----

/// The level of the DC/RS pin before the `i`-th action, as the actions
/// before it last drove it.
pub open spec fn dc_level(acts: Seq<Action>, i: int) -> Option<bool>
    decreases i,
{
    if i <= 0 {
        None
    } else {
        match acts[i - 1] {
            Action::DataCommand(level) => Some(level),
            _ => dc_level(acts, i - 1),
        }
    }
}

/// The transfer is a single byte.
pub open spec fn is_one_byte_write(a: Action) -> bool {
    match a {
        Action::Write(b) => b.len() == 1,
        _ => false,
    }
}

/// The DC/RS protocol: every transfer is made after the DC/RS pin was driven
/// (within the same request); a transfer made with DC/RS low is one register
/// index byte, right after the pin went low; everything else goes with DC/RS
/// high, as data.
pub open spec fn dc_protocol(acts: Seq<Action>) -> bool {
    forall|i: int|
        #![trigger acts[i]]
        0 <= i < acts.len() && acts[i] is Write ==> {
            &&& dc_level(acts, i) is Some
            &&& dc_level(acts, i) == Some(false) ==> is_one_byte_write(acts[i]) && i >= 1 && acts[i
                - 1] == Action::DataCommand(false)
        }
}

proof fn lemma_dc_level_prefix(a: Seq<Action>, b: Seq<Action>, i: int)
    requires
        0 <= i <= a.len(),
    ensures
        dc_level(a + b, i) == dc_level(a, i),
    decreases i,
{
    if i > 0 {
        assert((a + b)[i - 1] == a[i - 1]);
        lemma_dc_level_prefix(a, b, i - 1);
    }
}

proof fn lemma_dc_level_suffix(a: Seq<Action>, b: Seq<Action>, j: int)
    requires
        0 <= j <= b.len(),
        dc_level(b, j) is Some,
    ensures
        dc_level(a + b, a.len() + j) == dc_level(b, j),
    decreases j,
{
    assert((a + b)[a.len() + j - 1] == b[j - 1]);
    if !(b[j - 1] is DataCommand) {
        lemma_dc_level_suffix(a, b, j - 1);
    }
}

/// Two requests that each follow the protocol follow it one after the other.
proof fn lemma_dc_concat(a: Seq<Action>, b: Seq<Action>)
    requires
        dc_protocol(a),
        dc_protocol(b),
    ensures
        dc_protocol(a + b),
{
    let c = a + b;
    assert forall|i: int| #![trigger c[i]] 0 <= i < c.len() && c[i] is Write implies {
        &&& dc_level(c, i) is Some
        &&& dc_level(c, i) == Some(false) ==> is_one_byte_write(c[i]) && i >= 1 && c[i - 1]
            == Action::DataCommand(false)
    } by {
        if i < a.len() {
            assert(c[i] == a[i]);
            lemma_dc_level_prefix(a, b, i);
            if i >= 1 {
                assert(c[i - 1] == a[i - 1]);
            }
        } else {
            let j = i - a.len();
            assert(c[i] == b[j]);
            assert(b[j] is Write);
            lemma_dc_level_suffix(a, b, j);
            if j >= 1 {
                assert(c[i - 1] == b[j - 1]);
            }
        }
    }
}

proof fn lemma_dc_then<S, R, T>(a: Outcome<S, R, T>, b: Outcome<S, R, T>)
    requires
        dc_protocol(a.actions),
        dc_protocol(b.actions),
    ensures
        dc_protocol(then(a, b).actions),
{
    if a.result is Ok {
        lemma_dc_concat(a.actions, b.actions);
    }
}

proof fn lemma_dc_sequence<S, R, T>(steps: Seq<Outcome<S, R, T>>)
    requires
        forall|i: int| 0 <= i < steps.len() ==> dc_protocol((#[trigger] steps[i]).actions),
    ensures
        dc_protocol(sequence(steps).actions),
    decreases steps.len(),
{
    if steps.len() > 0 {
        lemma_dc_sequence(steps.drop_last());
        assert(dc_protocol(steps[steps.len() - 1].actions));
        lemma_dc_then(sequence(steps.drop_last()), steps.last());
    }
}

proof fn lemma_dc_level_data(g: Seq<Action>, w: Seq<Action>, j: int)
    requires
        dc_level(g, g.len() as int) == Some(true),
        forall|k: int| 0 <= k < w.len() ==> (#[trigger] w[k]) is Write,
        0 <= j <= w.len(),
    ensures
        dc_level(g + w, g.len() + j) == Some(true),
    decreases j,
{
    if j == 0 {
        lemma_dc_level_prefix(g, w, g.len() as int);
    } else {
        assert((g + w)[g.len() + j - 1] == w[j - 1]);
        lemma_dc_level_data(g, w, j - 1);
    }
}

/// Data transfers made after the pin went high follow the protocol.
proof fn lemma_dc_data(g: Seq<Action>, w: Seq<Action>)
    requires
        dc_protocol(g),
        dc_level(g, g.len() as int) == Some(true),
        forall|k: int| 0 <= k < w.len() ==> (#[trigger] w[k]) is Write,
    ensures
        dc_protocol(g + w),
{
    let c = g + w;
    assert forall|i: int| #![trigger c[i]] 0 <= i < c.len() && c[i] is Write implies {
        &&& dc_level(c, i) is Some
        &&& dc_level(c, i) == Some(false) ==> is_one_byte_write(c[i]) && i >= 1 && c[i - 1]
            == Action::DataCommand(false)
    } by {
        if i < g.len() {
            assert(c[i] == g[i]);
            lemma_dc_level_prefix(g, w, i);
            if i >= 1 {
                assert(c[i - 1] == g[i - 1]);
            }
        } else {
            lemma_dc_level_data(g, w, i - g.len());
        }
    }
}

/// Commands follow the protocol in DC/RS mode.
proof fn lemma_dc_command<S, R, T>(p: Panel, cmd: u8, params: Seq<u8>)
    requires
        p.spi_mode == SpiMode::WithDataCommandPin,
    ensures
        dc_protocol(command_out::<S, R, T>(p, cmd, params).actions),
        p.data_command_pin && params.len() == 0 ==> command_out::<S, R, T>(p, cmd, params).actions
            == seq![Action::DataCommand(false), Action::Write(seq![cmd])],
{
    let acts = command_out::<S, R, T>(p, cmd, params).actions;
    if p.data_command_pin {
        assert(dc_level(acts, 0) == None::<bool>);
        assert(dc_level(acts, 1) == Some(false));
        if params.len() > 0 {
            assert(dc_level(acts, 2) == Some(false));
            assert(dc_level(acts, 3) == Some(true));
        }
    }
}

proof fn lemma_dc_steps<S, R, T>(p: Panel, steps: Seq<Step>)
    requires
        p.spi_mode == SpiMode::WithDataCommandPin,
    ensures
        dc_protocol(steps_out::<S, R, T>(p, steps).actions),
{
    let outs = steps.map_values(|s: Step| step_out::<S, R, T>(p, s));
    assert forall|i: int| 0 <= i < outs.len() implies dc_protocol((#[trigger] outs[i]).actions) by {
        match steps[i] {
            Step::Command(c, b) => lemma_dc_command::<S, R, T>(p, register_index(c), seq![b]),
            Step::Register(c, v) => lemma_dc_command::<S, R, T>(p, register_index(c), be_bytes(v)),
            Step::DelayMs(ms) => {},
        }
    }
    lemma_dc_sequence(outs);
}

proof fn lemma_dc_pixels<S, R, T>(p: Panel, colors: Seq<u16>)
    requires
        p.spi_mode == SpiMode::WithDataCommandPin,
    ensures
        dc_protocol(pixels_out::<S, R, T>(p, colors).actions),
        dc_protocol(pixels_buffered_out::<S, R, T>(p, colors).actions),
{
    let g = gram_out::<S, R, T>(p);
    lemma_dc_command::<S, R, T>(p, register_index(Instruction::GramDataReg), Seq::empty());
    if p.data_command_pin {
        let ga = g.actions;
        assert(ga =~= seq![
            Action::DataCommand(false),
            Action::Write(seq![register_index(Instruction::GramDataReg)]),
            Action::DataCommand(true),
        ]);
        assert(dc_level(ga, 3) == Some(true));
        assert(dc_level(ga, 1) == Some(false));
        assert(dc_level(ga, 0) == None::<bool>);
        let words = word_writes(p.spi_mode, colors);
        assert forall|k: int| 0 <= k < words.len() implies (#[trigger] words[k]) is Write by {}
        lemma_dc_data(ga, words);
        let bw = buffered_writes(p.spi_mode, colors);
        assert forall|k: int| 0 <= k < bw.len() implies (#[trigger] bw[k]) is Write by {}
        lemma_dc_data(ga, bw);
    }
}

/// In DC/RS mode every request follows the DC/RS protocol: each transfer is
/// made after the request drove the DC/RS pin; with the pin low it is a single
/// register index byte right after the pin went low; all other transfers are
/// data, made with the pin high.
pub proof fn lemma_dc_protocol<S, R, T>(
    p: Panel,
    sx: u16,
    sy: u16,
    ex: u16,
    ey: u16,
    color: u16,
    colors: Seq<u16>,
    pixels: Seq<RawPixel>,
    area: Rect,
    drawable: Rect,
)
    requires
        p.spi_mode == SpiMode::WithDataCommandPin,
    ensures
        dc_protocol(init_out::<S, R, T>(p).actions),
        dc_protocol(display_out::<S, R, T>(p).actions),
        dc_protocol(entry_mode_out::<S, R, T>(p).actions),
        dc_protocol(window_out::<S, R, T>(p, sx, sy, ex, ey).actions),
        dc_protocol(pixels_out::<S, R, T>(p, colors).actions),
        dc_protocol(pixels_buffered_out::<S, R, T>(p, colors).actions),
        dc_protocol(set_pixel_out::<S, R, T>(p, sx, sy, color).actions),
        dc_protocol(draw_out::<S, R, T>(p, pixels).actions),
        dc_protocol(fill_out::<S, R, T>(p, area, drawable, colors).actions),
        dc_protocol(clear_out::<S, R, T>(p, color).actions),
{
    let reset = Outcome::<S, R, T> { actions: reset_actions(p), result: Ok(()) };
    lemma_dc_steps::<S, R, T>(p, init_steps(p));
    lemma_dc_then(reset, steps_out::<S, R, T>(p, init_steps(p)));
    lemma_dc_command::<S, R, T>(
        p,
        register_index(Instruction::DispCtrl1),
        be_bytes(display_control(p.display_enabled, p.inverted)),
    );
    lemma_dc_command::<S, R, T>(
        p,
        register_index(Instruction::EntryMode),
        be_bytes(entry_mode(p.orientation, p.color_order)),
    );
    lemma_dc_steps::<S, R, T>(p, window_steps(p, sx, sy, ex, ey));
    lemma_dc_pixels::<S, R, T>(p, colors);
    lemma_dc_steps::<S, R, T>(p, window_steps(p, sx, sy, sx, sy));
    lemma_dc_pixels::<S, R, T>(p, seq![color]);
    lemma_dc_then(window_out::<S, R, T>(p, sx, sy, sx, sy), pixels_out::<S, R, T>(p, seq![color]));
    let outs = pixels.map_values(|px: RawPixel| pixel_out::<S, R, T>(p, px));
    assert forall|i: int| 0 <= i < outs.len() implies dc_protocol((#[trigger] outs[i]).actions) by {
        let px = pixels[i];
        if on_screen(p, px.x, px.y) {
            let x = px.x as u16;
            let y = px.y as u16;
            lemma_dc_steps::<S, R, T>(p, window_steps(p, x, y, x, y));
            lemma_dc_pixels::<S, R, T>(p, seq![px.color]);
            lemma_dc_then(window_out::<S, R, T>(p, x, y, x, y), pixels_out::<S, R, T>(p, seq![px.color]));
        }
    }
    lemma_dc_sequence(outs);
    if !(drawable.width == 0 && drawable.height == 0) {
        let x0 = drawable.x as u16;
        let y0 = drawable.y as u16;
        let x1 = (drawable.x + ((drawable.width - 1) as i32)) as u16;
        let y1 = (drawable.y + ((drawable.height - 1) as i32)) as u16;
        lemma_dc_steps::<S, R, T>(p, window_steps(p, x0, y0, x1, y1));
        lemma_dc_pixels::<S, R, T>(p, area_colors(area, drawable, colors));
        lemma_dc_then(
            window_out::<S, R, T>(p, x0, y0, x1, y1),
            pixels_buffered_out::<S, R, T>(p, area_colors(area, drawable, colors)),
        );
    }
    let w = ((p.width as u16) - 1) as u16;
    let h = ((p.height as u16) - 1) as u16;
    let fill = Seq::new((p.width * p.height) as nat, |i: int| color);
    lemma_dc_steps::<S, R, T>(p, window_steps(p, 0, 0, w, h));
    lemma_dc_pixels::<S, R, T>(p, fill);
    lemma_dc_then(window_out::<S, R, T>(p, 0, 0, w, h), pixels_buffered_out::<S, R, T>(p, fill));
}

/// Every chunk of a chunked stream holds at most 32 bytes, and the chunks
/// put together give the stream back.
pub proof fn lemma_chunks32_short(bytes: Seq<u8>)
    ensures
        forall|i: int|
            0 <= i < chunks32(bytes).len() ==> (#[trigger] chunks32(bytes)[i]).len() <= 32,
        chunks32(bytes).flatten() == bytes,
    decreases bytes.len(),
{
    if bytes.len() < 32 {
        seq![bytes].lemma_flatten_one_element();
    } else {
        lemma_chunks32_short(bytes.skip(32));
        let rest = chunks32(bytes.skip(32));
        let all = chunks32(bytes);
        assert(all =~= seq![bytes.take(32)] + rest);
        assert forall|i: int| 0 <= i < all.len() implies (#[trigger] all[i]).len() <= 32 by {
            if i > 0 {
                assert(all[i] == rest[i - 1]);
            }
        }
        assert(all.drop_first() =~= rest);
        assert(all.flatten() == bytes.take(32) + rest.flatten());
        assert(bytes.take(32) + bytes.skip(32) =~= bytes);
    }
}

/// The data bytes that a transfer carries: all its bytes in DC/RS mode, all
/// but the start byte in native mode; nothing for other actions.
pub open spec fn payload(mode: SpiMode, a: Action) -> Seq<u8> {
    match a {
        Action::Write(b) => match mode {
            SpiMode::WithDataCommandPin => b,
            SpiMode::Native { .. } => b.drop_first(),
        },
        _ => Seq::empty(),
    }
}

/// The data bytes of a list of transfers, in order.
pub open spec fn data_stream(mode: SpiMode, acts: Seq<Action>) -> Seq<u8>
    decreases acts.len(),
{
    if acts.len() == 0 {
        Seq::empty()
    } else {
        data_stream(mode, acts.drop_last()) + payload(mode, acts.last())
    }
}

proof fn lemma_data_stream_concat(mode: SpiMode, a: Seq<Action>, b: Seq<Action>)
    ensures
        data_stream(mode, a + b) == data_stream(mode, a) + data_stream(mode, b),
    decreases b.len(),
{
    if b.len() == 0 {
        assert(a + b =~= a);
        assert(data_stream(mode, a) + data_stream(mode, b) =~= data_stream(mode, a));
    } else {
        lemma_data_stream_concat(mode, a, b.drop_last());
        assert((a + b).drop_last() =~= a + b.drop_last());
        assert(data_stream(mode, a) + data_stream(mode, b) =~= data_stream(mode, a) + data_stream(
            mode,
            b.drop_last(),
        ) + payload(mode, b.last()));
    }
}

proof fn lemma_word_writes_stream(mode: SpiMode, words: Seq<u16>)
    ensures
        data_stream(mode, word_writes(mode, words)) == be_words(words),
    decreases words.len(),
{
    if words.len() > 0 {
        lemma_word_writes_stream(mode, words.drop_last());
        assert(word_writes(mode, words).drop_last() =~= word_writes(mode, words.drop_last()));
        assert(payload(mode, word_writes(mode, words).last()) =~= be_bytes(words.last()));
    }
}

proof fn lemma_chunk_writes_stream(mode: SpiMode, chunks: Seq<Seq<u8>>)
    ensures
        data_stream(mode, chunk_writes(mode, chunks)) == chunks.flatten(),
    decreases chunks.len(),
{
    if chunks.len() > 0 {
        lemma_chunk_writes_stream(mode, chunks.drop_first());
        assert(chunk_writes(mode, chunks) =~= seq![Action::Write(data_frame(mode, chunks[0]))]
            + chunk_writes(mode, chunks.drop_first()));
        lemma_data_stream_concat(
            mode,
            seq![Action::Write(data_frame(mode, chunks[0]))],
            chunk_writes(mode, chunks.drop_first()),
        );
        let one = seq![Action::Write(data_frame(mode, chunks[0]))];
        assert(one.drop_last() =~= Seq::<Action>::empty());
        assert(payload(mode, Action::Write(data_frame(mode, chunks[0]))) =~= chunks[0]);
        assert(data_stream(mode, one) =~= chunks[0]) by {
            assert(data_stream(mode, one) == data_stream(mode, one.drop_last()) + payload(mode, one.last()));
            assert(data_stream(mode, Seq::<Action>::empty()) == Seq::<u8>::empty());
        }
        assert(chunks.flatten() == chunks[0] + chunks.drop_first().flatten());
    }
}

/// Buffering does not change the pixel data: sent one transfer per pixel or
/// in transfers of up to 32 bytes, the data bytes are the colours, each most
/// significant byte first, in order.
pub proof fn lemma_buffering_keeps_data(mode: SpiMode, colors: Seq<u16>)
    ensures
        data_stream(mode, word_writes(mode, colors)) == be_words(colors),
        data_stream(mode, buffered_writes(mode, colors)) == be_words(colors),
{
    lemma_word_writes_stream(mode, colors);
    lemma_chunk_writes_stream(mode, chunks32(be_words(colors)));
    lemma_chunks32_short(be_words(colors));
}

// ----- drawing -----

/// Pixels that all lie off the panel cause no bus traffic.
pub proof fn lemma_offscreen_pixels_do_nothing<S, R, T>(p: Panel, pixels: Seq<RawPixel>)
    requires
        forall|i: int| 0 <= i < pixels.len() ==> !on_screen(p, #[trigger] pixels[i].x, pixels[i].y),
    ensures
        draw_out::<S, R, T>(p, pixels).actions == Seq::<Action>::empty(),
        draw_out::<S, R, T>(p, pixels).result is Ok,
    decreases pixels.len(),
{
    if pixels.len() > 0 {
        lemma_offscreen_pixels_do_nothing::<S, R, T>(p, pixels.drop_last());
        let outs = pixels.map_values(|px: RawPixel| pixel_out::<S, R, T>(p, px));
        assert(outs.drop_last() =~= pixels.drop_last().map_values(
            |px: RawPixel| pixel_out::<S, R, T>(p, px),
        ));
        assert(!on_screen(p, pixels[pixels.len() - 1].x, pixels[pixels.len() - 1].y));
        assert(Seq::<Action>::empty() + Seq::<Action>::empty() =~= Seq::<Action>::empty());
    }
}

/// When the drawable part is the whole area, the colours go out as given, up
/// to the number of pixels of the area.
pub proof fn lemma_fill_inside_keeps_colors(area: Rect, colors: Seq<u16>)
    ensures
        area_colors(area, area, colors) == colors.take(
            min(area.width * area.height, colors.len() as int),
        ),
{
    let n = min(area.width * area.height, colors.len() as int);
    lemma_kept_all(area, colors, n);
}

proof fn lemma_kept_all(area: Rect, colors: Seq<u16>, n: int)
    requires
        0 <= n <= area.width * area.height,
        n <= colors.len(),
    ensures
        kept_colors(area, area, colors, n) == colors.take(n),
    decreases n,
{
    if n > 0 {
        lemma_kept_all(area, colors, n - 1);
        let k = n - 1;
        assert(area.width > 0) by {
            if area.width == 0 {
                assert(area.width * area.height == 0) by (nonlinear_arith)
                    requires
                        area.width == 0,
                ;
            }
        }
        let w = area.width as int;
        let h = area.height as int;
        let q = k / w;
        let r = k % w;
        vstd::arithmetic::div_mod::lemma_fundamental_div_mod(k, w);
        vstd::arithmetic::div_mod::lemma_mod_bound(k, w);
        assert(0 <= q < h) by (nonlinear_arith)
            requires
                k == w * q + r,
                0 <= r < w,
                0 <= k < w * h,
                w > 0,
        ;
        assert(rect_contains(area, area_point(area, k).0, area_point(area, k).1));
        assert(colors.take(n) =~= colors.take(n - 1).push(colors[n - 1]));
    }
}

// ----- register tables, construction, windows, clipping -----

/// The register a step writes and the parameter bytes it sends; none for a pause.
pub open spec fn step_write(s: Step) -> Option<(u8, Seq<u8>)> {
    match s {
        Step::Command(i, b) => Some((register_index(i), seq![b])),
        Step::Register(i, v) => Some((register_index(i), be_bytes(v))),
        Step::DelayMs(_) => None,
    }
}

/// How long a step pauses, in milliseconds; none for a register write.
pub open spec fn step_pause(s: Step) -> Option<u32> {
    match s {
        Step::DelayMs(ms) => Some(ms),
        _ => None,
    }
}

/// The power-on sequence, register by register with the datasheet's
/// register numbers: five power control writes of one zero byte, the power
/// settings with their pauses, driver output control `0x011C` (SS set, 220
/// lines), LCD AC driving `0x0100`, the entry mode of the settings, display
/// off, porches, frame cycle, interface, oscillator, VCI recycling, GRAM
/// address 0, gate scan, vertical scroll, partial driving, the window
/// `0..0xAF` by `0..0xDB`, the ten gamma registers, display control off with
/// the inversion bit, 50 ms, and display control as configured.
pub proof fn lemma_init_register_table(p: Panel)
    ensures
        init_steps(p).len() == 49,
        step_write(init_steps(p)[0]) == Some((0x10u8, seq![0x00u8])),
        step_write(init_steps(p)[1]) == Some((0x11u8, seq![0x00u8])),
        step_write(init_steps(p)[2]) == Some((0x12u8, seq![0x00u8])),
        step_write(init_steps(p)[3]) == Some((0x13u8, seq![0x00u8])),
        step_write(init_steps(p)[4]) == Some((0x14u8, seq![0x00u8])),
        step_write(init_steps(p)[5]) == None::<(u8, Seq<u8>)> && step_pause(init_steps(p)[5]) == Some(50u32),
        step_write(init_steps(p)[6]) == Some((0x11u8, seq![0x00u8, 0x18u8])),
        step_write(init_steps(p)[7]) == Some((0x12u8, seq![0x61u8, 0x21u8])),
        step_write(init_steps(p)[8]) == Some((0x13u8, seq![0x00u8, 0x6Fu8])),
        step_write(init_steps(p)[9]) == Some((0x14u8, seq![0x49u8, 0x5Fu8])),
        step_write(init_steps(p)[10]) == Some((0x10u8, seq![0x08u8, 0x00u8])),
        step_write(init_steps(p)[11]) == None::<(u8, Seq<u8>)> && step_pause(init_steps(p)[11]) == Some(50u32),
        step_write(init_steps(p)[12]) == Some((0x11u8, seq![0x10u8, 0x3Bu8])),
        step_write(init_steps(p)[13]) == None::<(u8, Seq<u8>)> && step_pause(init_steps(p)[13]) == Some(50u32),
        step_write(init_steps(p)[14]) == Some((0x01u8, seq![0x01u8, 0x1Cu8])),
        step_write(init_steps(p)[15]) == Some((0x02u8, seq![0x01u8, 0x00u8])),
        step_write(init_steps(p)[16]) == Some((0x03u8, be_bytes(entry_mode(p.orientation, p.color_order)))),
        step_write(init_steps(p)[17]) == Some((0x07u8, seq![0x00u8, 0x00u8])),
        step_write(init_steps(p)[18]) == Some((0x08u8, seq![0x08u8, 0x08u8])),
        step_write(init_steps(p)[19]) == Some((0x0Bu8, seq![0x11u8, 0x00u8])),
        step_write(init_steps(p)[20]) == Some((0x0Cu8, seq![0x00u8, 0x00u8])),
        step_write(init_steps(p)[21]) == Some((0x0Fu8, seq![0x0Du8, 0x01u8])),
        step_write(init_steps(p)[22]) == Some((0x15u8, seq![0x00u8, 0x20u8])),
        step_write(init_steps(p)[23]) == Some((0x20u8, seq![0x00u8, 0x00u8])),
        step_write(init_steps(p)[24]) == Some((0x21u8, seq![0x00u8, 0x00u8])),
        step_write(init_steps(p)[25]) == None::<(u8, Seq<u8>)> && step_pause(init_steps(p)[25]) == Some(20u32),
        step_write(init_steps(p)[26]) == Some((0x30u8, seq![0x00u8, 0x00u8])),
        step_write(init_steps(p)[27]) == Some((0x31u8, seq![0x00u8, 0xDBu8])),
        step_write(init_steps(p)[28]) == Some((0x32u8, seq![0x00u8, 0x00u8])),
        step_write(init_steps(p)[29]) == Some((0x33u8, seq![0x00u8, 0x00u8])),
        step_write(init_steps(p)[30]) == Some((0x34u8, seq![0x00u8, 0xDBu8])),
        step_write(init_steps(p)[31]) == Some((0x35u8, seq![0x00u8, 0x00u8])),
        step_write(init_steps(p)[32]) == Some((0x36u8, seq![0x00u8, 0xAFu8])),
        step_write(init_steps(p)[33]) == Some((0x37u8, seq![0x00u8, 0x00u8])),
        step_write(init_steps(p)[34]) == Some((0x38u8, seq![0x00u8, 0xDBu8])),
        step_write(init_steps(p)[35]) == Some((0x39u8, seq![0x00u8, 0x00u8])),
        step_write(init_steps(p)[36]) == Some((0x50u8, seq![0x00u8, 0x00u8])),
        step_write(init_steps(p)[37]) == Some((0x51u8, seq![0x08u8, 0x08u8])),
        step_write(init_steps(p)[38]) == Some((0x52u8, seq![0x08u8, 0x0Au8])),
        step_write(init_steps(p)[39]) == Some((0x53u8, seq![0x00u8, 0x0Au8])),
        step_write(init_steps(p)[40]) == Some((0x54u8, seq![0x0Au8, 0x08u8])),
        step_write(init_steps(p)[41]) == Some((0x55u8, seq![0x08u8, 0x08u8])),
        step_write(init_steps(p)[42]) == Some((0x56u8, seq![0x00u8, 0x00u8])),
        step_write(init_steps(p)[43]) == Some((0x57u8, seq![0x0Au8, 0x00u8])),
        step_write(init_steps(p)[44]) == Some((0x58u8, seq![0x07u8, 0x10u8])),
        step_write(init_steps(p)[45]) == Some((0x59u8, seq![0x07u8, 0x10u8])),
        step_write(init_steps(p)[46]) == Some((0x07u8, be_bytes(display_control(false, p.inverted)))),
        step_write(init_steps(p)[47]) == None::<(u8, Seq<u8>)> && step_pause(init_steps(p)[47]) == Some(50u32),
        step_write(init_steps(p)[48]) == Some((0x07u8, be_bytes(display_control(p.display_enabled, p.inverted)))),
{
    assert(init_steps(p).len() == 49);
    assert forall|i: int| 0 <= i < 49 implies #[trigger] step_write(init_steps(p)[i]) == step_write(
        init_steps(p)[i],
    ) by {}
    assert(be_bytes(0x0018) =~= seq![0x00u8, 0x18u8]);
    assert(be_bytes(0x6121) =~= seq![0x61u8, 0x21u8]);
    assert(be_bytes(0x006F) =~= seq![0x00u8, 0x6Fu8]);
    assert(be_bytes(0x495F) =~= seq![0x49u8, 0x5Fu8]);
    assert(be_bytes(0x0800) =~= seq![0x08u8, 0x00u8]);
    assert(be_bytes(0x103B) =~= seq![0x10u8, 0x3Bu8]);
    assert(be_bytes(0x011C) =~= seq![0x01u8, 0x1Cu8]);
    assert(be_bytes(0x0100) =~= seq![0x01u8, 0x00u8]);
    assert(be_bytes(0x0000) =~= seq![0x00u8, 0x00u8]);
    assert(be_bytes(0x0808) =~= seq![0x08u8, 0x08u8]);
    assert(be_bytes(0x1100) =~= seq![0x11u8, 0x00u8]);
    assert(be_bytes(0x0D01) =~= seq![0x0Du8, 0x01u8]);
    assert(be_bytes(0x0020) =~= seq![0x00u8, 0x20u8]);
    assert(be_bytes(0x00DB) =~= seq![0x00u8, 0xDBu8]);
    assert(be_bytes(0x00AF) =~= seq![0x00u8, 0xAFu8]);
    assert(be_bytes(0x080A) =~= seq![0x08u8, 0x0Au8]);
    assert(be_bytes(0x000A) =~= seq![0x00u8, 0x0Au8]);
    assert(be_bytes(0x0A08) =~= seq![0x0Au8, 0x08u8]);
    assert(be_bytes(0x0A00) =~= seq![0x0Au8, 0x00u8]);
    assert(be_bytes(0x0710) =~= seq![0x07u8, 0x10u8]);
}

/// `new_native_spi` changes only the transport of the configuration it is
/// given: the same colour order, orientation, inversion, display state and
/// size, and native SPI with the given ID bit (ID 0 for a DC/RS configuration).
pub proof fn lemma_native_config_keeps_settings(c: Config)
    ensures
        native_config(c).color_order == c.color_order,
        native_config(c).orientation == c.orientation,
        native_config(c).inverted == c.inverted,
        native_config(c).display_enabled == c.display_enabled,
        native_config(c).width == c.width,
        native_config(c).height == c.height,
        native_config(c).spi_mode is Native,
        c.spi_mode is Native ==> native_config(c).spi_mode == c.spi_mode,
        c.spi_mode is WithDataCommandPin ==> native_config(c).spi_mode == (SpiMode::Native {
            id: false,
        }),
{
}

/// `ILI9225::new` gives DC/RS mode, portrait orientation and the display
/// enabled, with the size, inversion and colour order given (`rgb` for RGB,
/// otherwise BGR).
pub proof fn lemma_basic_config_settings(rgb: bool, inverted: bool, width: u32, height: u32)
    ensures
        basic_config(rgb, inverted, width, height).spi_mode == SpiMode::WithDataCommandPin,
        basic_config(rgb, inverted, width, height).orientation == Orientation::Portrait,
        basic_config(rgb, inverted, width, height).display_enabled,
        basic_config(rgb, inverted, width, height).inverted == inverted,
        basic_config(rgb, inverted, width, height).width == width,
        basic_config(rgb, inverted, width, height).height == height,
        (basic_config(rgb, inverted, width, height).color_order == ColorOrder::Rgb) == rgb,
{
}

/// An address window is six register writes, whatever the transport: the
/// horizontal edges `sx + dx` (register 0x37) and `ex + dx` (0x36), the
/// vertical edges `sy + dy` (0x39) and `ey + dy` (0x38), then the GRAM
/// address `sx + dx` (0x20) and `sy + dy` (0x21). They depend on the panel
/// only through its offset.
pub proof fn lemma_window_registers(p: Panel, q: Panel, sx: u16, sy: u16, ex: u16, ey: u16)
    requires
        sx + p.dx <= u16::MAX,
        sy + p.dy <= u16::MAX,
        ex + p.dx <= u16::MAX,
        ey + p.dy <= u16::MAX,
    ensures
        window_steps(p, sx, sy, ex, ey).len() == 6,
        step_write(window_steps(p, sx, sy, ex, ey)[0]) == Some((0x37u8, be_bytes((sx + p.dx) as u16))),
        step_write(window_steps(p, sx, sy, ex, ey)[1]) == Some((0x36u8, be_bytes((ex + p.dx) as u16))),
        step_write(window_steps(p, sx, sy, ex, ey)[2]) == Some((0x39u8, be_bytes((sy + p.dy) as u16))),
        step_write(window_steps(p, sx, sy, ex, ey)[3]) == Some((0x38u8, be_bytes((ey + p.dy) as u16))),
        step_write(window_steps(p, sx, sy, ex, ey)[4]) == Some((0x20u8, be_bytes((sx + p.dx) as u16))),
        step_write(window_steps(p, sx, sy, ex, ey)[5]) == Some((0x21u8, be_bytes((sy + p.dy) as u16))),
        q.dx == p.dx && q.dy == p.dy ==> window_steps(q, sx, sy, ex, ey) == window_steps(
            p,
            sx,
            sy,
            ex,
            ey,
        ),
{
}

/// A pixel is on the panel exactly when `0 <= x < width` and
/// `0 <= y < height`, the size being read as an `i32` (a size above
/// `i32::MAX` wraps to a negative one, which holds no pixel).
pub proof fn lemma_on_screen_bounds(p: Panel, x: i32, y: i32)
    ensures
        p.width <= i32::MAX && p.height <= i32::MAX ==> (on_screen(p, x, y) <==> (0 <= x < p.width
            && 0 <= y < p.height)),
        p.width > i32::MAX || p.height > i32::MAX ==> !on_screen(p, x, y),
{
    let w = p.width;
    let h = p.height;
    assert(w > 0x7fff_ffffu32 ==> (w as i32) < 0) by (bit_vector);
    assert(h > 0x7fff_ffffu32 ==> (h as i32) < 0) by (bit_vector);
}

/// Drawing one pixel on the panel sets that pixel, and one off the panel
/// does nothing; drawing two lists one after the other is drawing the first,
/// then (unless it failed) the second.
pub proof fn lemma_draw_pixels<S, R, T>(p: Panel, px: RawPixel, a: Seq<RawPixel>, b: Seq<RawPixel>)
    requires
        p.width <= i32::MAX,
        p.height <= i32::MAX,
    ensures
        0 <= px.x < p.width && 0 <= px.y < p.height ==> draw_out::<S, R, T>(p, seq![px])
            == set_pixel_out::<S, R, T>(p, px.x as u16, px.y as u16, px.color),
        !(0 <= px.x < p.width && 0 <= px.y < p.height) ==> draw_out::<S, R, T>(p, seq![px]).actions
            == Seq::<Action>::empty(),
        draw_out::<S, R, T>(p, a + b) == then(draw_out::<S, R, T>(p, a), draw_out::<S, R, T>(p, b)),
{
    lemma_on_screen_bounds(p, px.x, px.y);
    let one = seq![px].map_values(|q: RawPixel| pixel_out::<S, R, T>(p, q));
    assert(one.drop_last() =~= Seq::<Outcome<S, R, T>>::empty());
    assert(sequence(one.drop_last()) == crate::bus::done::<S, R, T>(Seq::empty()));
    assert(one.last() == pixel_out::<S, R, T>(p, px));
    let o = pixel_out::<S, R, T>(p, px);
    assert(Seq::<Action>::empty() + o.actions =~= o.actions);
    assert(draw_out::<S, R, T>(p, seq![px]) == then(crate::bus::done::<S, R, T>(Seq::empty()), o));
    lemma_draw_concat::<S, R, T>(p, a, b);
}

proof fn lemma_draw_concat<S, R, T>(p: Panel, a: Seq<RawPixel>, b: Seq<RawPixel>)
    ensures
        draw_out::<S, R, T>(p, a + b) == then(draw_out::<S, R, T>(p, a), draw_out::<S, R, T>(p, b)),
    decreases b.len(),
{
    let f = |q: RawPixel| pixel_out::<S, R, T>(p, q);
    if b.len() == 0 {
        assert(a + b =~= a);
        let da = draw_out::<S, R, T>(p, a);
        assert(da.actions + Seq::<Action>::empty() =~= da.actions);
        assert(b.map_values(f) =~= Seq::<Outcome<S, R, T>>::empty());
    } else {
        lemma_draw_concat::<S, R, T>(p, a, b.drop_last());
        assert((a + b).drop_last() =~= a + b.drop_last());
        assert((a + b).map_values(f).drop_last() =~= (a + b.drop_last()).map_values(f));
        assert(b.map_values(f).drop_last() =~= b.drop_last().map_values(f));
        let da = draw_out::<S, R, T>(p, a);
        let db = draw_out::<S, R, T>(p, b.drop_last());
        let last = pixel_out::<S, R, T>(p, b.last());
        assert(then(then(da, db), last) == then(da, then(db, last))) by {
            if da.result is Ok && db.result is Ok {
                assert(da.actions + db.actions + last.actions =~= da.actions + (db.actions
                    + last.actions));
            }
        }
    }
}

/// Whether the `k`-th pixel of `area` (row by row from its top left corner)
/// lies in `d`, by coordinates.
pub open spec fn pixel_in(area: Rect, d: Rect, k: int) -> bool {
    let px = area.x + k % (area.width as int);
    let py = area.y + k / (area.width as int);
    &&& d.width > 0
    &&& d.height > 0
    &&& d.x <= px < d.x + d.width
    &&& d.y <= py < d.y + d.height
}

/// Filling keeps, in order, exactly the colours whose pixels lie in the
/// drawable part: of the first `min(width * height, colors.len())` colours,
/// paired row by row with the pixels of `area`, the `k`-th is sent if and
/// only if its pixel lies in `d`.
pub proof fn lemma_area_colors_keep_inside(area: Rect, d: Rect, colors: Seq<u16>)
    ensures
        area_colors(area, d, colors) == Seq::new(
            min(area.width * area.height, colors.len() as int) as nat,
            |k: int| k,
        ).filter_map(
            |k: int|
                if pixel_in(area, d, k) {
                    Some(colors[k])
                } else {
                    None
                },
        ),
{
    lemma_kept_colors_filter(area, d, colors, min(area.width * area.height, colors.len() as int));
}

proof fn lemma_kept_colors_filter(area: Rect, d: Rect, colors: Seq<u16>, n: int)
    requires
        n >= 0,
    ensures
        kept_colors(area, d, colors, n) == Seq::new(n as nat, |k: int| k).filter_map(
            |k: int|
                if pixel_in(area, d, k) {
                    Some(colors[k])
                } else {
                    None
                },
        ),
    decreases n,
{
    let f = |k: int|
        if pixel_in(area, d, k) {
            Some(colors[k])
        } else {
            None
        };
    let ids = Seq::new(n as nat, |k: int| k);
    if n == 0 {
        assert(ids =~= Seq::<int>::empty());
    } else {
        lemma_kept_colors_filter(area, d, colors, n - 1);
        assert(ids.drop_last() =~= Seq::new((n - 1) as nat, |k: int| k));
        assert(ids.last() == n - 1);
        let prev = ids.drop_last().filter_map(f);
        if pixel_in(area, d, n - 1) {
            assert(prev + seq![colors[n - 1]] =~= prev.push(colors[n - 1]));
        }
    }
}

/// The reset pulse is RST high, 10 ms, RST low, 10 ms, RST high; a driver
/// without a reset pin sends none.
pub proof fn lemma_reset_pulse(p: Panel)
    ensures
        p.reset_pin ==> reset_actions(p).len() == 5 && reset_actions(p)[0] == Action::Reset(true)
            && reset_actions(p)[1] == Action::DelayMs(10) && reset_actions(p)[2] == Action::Reset(
            false,
        ) && reset_actions(p)[3] == Action::DelayMs(10) && reset_actions(p)[4] == Action::Reset(true),
        !p.reset_pin ==> reset_actions(p).len() == 0,
{
}

/// The configuration a driver reports is its settings, field by field.
pub proof fn lemma_config_fields(p: Panel)
    ensures
        p.config().spi_mode == p.spi_mode,
        p.config().color_order == p.color_order,
        p.config().orientation == p.orientation,
        p.config().inverted == p.inverted,
        p.config().display_enabled == p.display_enabled,
        p.config().width == p.width,
        p.config().height == p.height,
{
}

/// Clearing a panel whose size fits 16 bits sets the window from `(0, 0)`
/// to `(width - 1, height - 1)` and sends `width * height` pixels of the colour.
pub proof fn lemma_clear_covers_panel(p: Panel, color: u16)
    requires
        1 <= p.width <= u16::MAX,
        1 <= p.height <= u16::MAX,
    ensures
        crate::graphics::clear_window(p) == ((p.width - 1) as u16, (p.height - 1) as u16),
        p.width * p.height <= u32::MAX ==> Seq::new((p.width * p.height) as nat, |i: int| color).len()
            == p.width * p.height,
{
    let w = p.width;
    let h = p.height;
    assert(1 <= w <= 0xffffu32 ==> (w as u16) == w) by (bit_vector);
    assert(1 <= h <= 0xffffu32 ==> (h as u16) == h) by (bit_vector);
}

/// The window of a drawable part whose corners fit 16 bits runs from its
/// top left pixel `(x, y)` to its bottom right pixel `(x + width - 1, y + height - 1)`.
pub proof fn lemma_fill_window_corners(d: Rect)
    requires
        d.width > 0,
        d.height > 0,
        0 <= d.x,
        0 <= d.y,
        d.x + d.width - 1 <= u16::MAX,
        d.y + d.height - 1 <= u16::MAX,
    ensures
        crate::graphics::fill_window(d) == (
            d.x as u16,
            d.y as u16,
            (d.x + d.width - 1) as u16,
            (d.y + d.height - 1) as u16,
        ),
{
    let x = d.x;
    let y = d.y;
    assert(0 <= x <= 0xffffi32 ==> (x as u16) == x) by (bit_vector);
    assert(0 <= y <= 0xffffi32 ==> (y as u16) == y) by (bit_vector);
    let w = d.width;
    let h = d.height;
    assert(1 <= w <= 0x10000u32 ==> ((w - 1) as i32) == w - 1) by (bit_vector);
    assert(1 <= h <= 0x10000u32 ==> ((h - 1) as i32) == h - 1) by (bit_vector);
    let fx = (x + ((w - 1) as i32)) as i32;
    let fy = (y + ((h - 1) as i32)) as i32;
    assert(0 <= fx <= 0xffffi32 ==> (fx as u16) == fx) by (bit_vector);
    assert(0 <= fy <= 0xffffi32 ==> (fy as u16) == fy) by (bit_vector);
}

} // verus!
