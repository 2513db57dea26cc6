//! What holds of every machine: general statements about decoding, loading
//! and single cycles, each proved from the definitions in `state`.

use crate::insts::{decode, Instruction};
use crate::state::{
    bit, loaded, Fatal, Notice, Query, State, HEIGHT, MEMORY_SIZE, PROGRAM_START, WIDTH,
};
use vstd::prelude::*;

verus! {

/// Adding an immediate wraps: after `7xkk`, `Vx` holds `(Vx + kk) mod 256`,
/// whatever `Vx` and `kk` were.
pub proof fn law_add_immediate_wraps(s: State, raw: u16, x: u8, kk: u8, pressed: bool, byte: u8)
    requires
        s.wf(),
        s.fetch() == Some(raw),
        decode(raw) == Instruction::AddRegister(x, kk),
    ensures
        s.cycle(pressed, byte) is Ok,
        s.cycle(pressed, byte)->Ok_0.reg(x as int) == (s.reg(x as int) + kk) % 256,
{
}

/// After `8xy4` the flag register holds the whole sum modulo 256, not a
/// carry of 0 or 1, and so does `Vx`.
pub proof fn law_add_leaves_sum_in_flag(
    s: State,
    raw: u16,
    x: u16,
    y: u16,
    pressed: bool,
    byte: u8,
)
    requires
        s.wf(),
        s.fetch() == Some(raw),
        decode(raw) == Instruction::ADD(x, y),
    ensures
        s.cycle(pressed, byte) is Ok,
        s.cycle(pressed, byte)->Ok_0.reg(15) == (s.reg(x as int) + s.reg(y as int)) % 256,
        s.cycle(pressed, byte)->Ok_0.reg(x as int) == (s.reg(x as int) + s.reg(y as int)) % 256,
{
}

/// After `8xy5` with `x` other than the flag register itself, the flag is 1
/// if `Vx` was greater than `Vy` and 0 if it was not, and `Vx` holds the
/// difference modulo 256.
pub proof fn law_sub_flags_no_borrow(s: State, raw: u16, x: u16, y: u16, pressed: bool, byte: u8)
    requires
        s.wf(),
        s.fetch() == Some(raw),
        decode(raw) == Instruction::SUB(x, y),
        x != 15,
    ensures
        s.cycle(pressed, byte) is Ok,
        s.cycle(pressed, byte)->Ok_0.reg(15) == 1 <==> s.reg(x as int) > s.reg(y as int),
        s.cycle(pressed, byte)->Ok_0.reg(15) == 0 <==> s.reg(x as int) <= s.reg(y as int),
        s.cycle(pressed, byte)->Ok_0.reg(x as int) == (s.reg(x as int) - s.reg(y as int)) % 256,
{
}

/// A loaded program reads back: every byte of the image that fits into
/// memory stands at its place from `PROGRAM_START` on, and every byte of
/// memory outside the image is as it was.
pub proof fn law_loaded_program_reads_back(memory: Seq<u8>, image: Seq<u8>)
    requires
        memory.len() == MEMORY_SIZE,
    ensures
        loaded(memory, image).len() == MEMORY_SIZE,
        forall|k: int|
            0 <= k < image.len() && PROGRAM_START + k < MEMORY_SIZE ==> #[trigger] loaded(
                memory,
                image,
            )[PROGRAM_START + k] == image[k],
        forall|a: int|
            0 <= a < MEMORY_SIZE && !(PROGRAM_START <= a < PROGRAM_START + image.len())
                ==> #[trigger] loaded(memory, image)[a] == memory[a],
        image.len() < MEMORY_SIZE - PROGRAM_START ==> loaded(memory, image).subrange(
            PROGRAM_START as int,
            PROGRAM_START + image.len(),
        ) == image,
{
    if image.len() < MEMORY_SIZE - PROGRAM_START {
        assert(loaded(memory, image).subrange(
            PROGRAM_START as int,
            PROGRAM_START + image.len(),
        ) =~= image);
    }
}

/// A jump lands on its target: after `1nnn`, fetched at any program counter,
/// the next opcode is fetched at `nnn`, and nothing else has changed.
pub proof fn law_jump_lands_on_target(s: State, raw: u16, nnn: u16, pressed: bool, byte: u8)
    requires
        s.wf(),
        s.fetch() == Some(raw),
        decode(raw) == Instruction::Jump(nnn),
    ensures
        s.cycle(pressed, byte) == Ok::<State, Fatal>(s.at(nnn as int)),
        s.cycle(pressed, byte)->Ok_0.pc == nnn,
{
}

/// A return undoes a call: a call followed at once by a return brings the
/// machine to the opcode after the call, with the stack as it was.
pub proof fn law_return_follows_call(s: State, nnn: u16, pressed: bool, byte: u8)
    requires
        s.wf(),
        s.fetch() is Some,
    ensures
        s.apply(Instruction::Call(nnn), pressed, byte) is Ok,
        s.apply(Instruction::Call(nnn), pressed, byte)->Ok_0.apply(
            Instruction::Ret,
            pressed,
            byte,
        ) == Ok::<State, Fatal>(s.next()),
{
    let called = s.apply(Instruction::Call(nnn), pressed, byte)->Ok_0;
    assert(called.stack.drop_last() =~= s.stack);
}

/// While the key is up, the wait for it changes nothing at all: the same
/// opcode is fetched again in the next cycle.
pub proof fn law_wait_key_repeats(s: State, raw: u16, x: u16, byte: u8)
    requires
        s.wf(),
        s.fetch() == Some(raw),
        decode(raw) == Instruction::WaitKey(x),
    ensures
        s.cycle(false, byte) == Ok::<State, Fatal>(s),
{
}

/// A cycle does not count the timers down: they change only where the
/// instruction sets them.
pub proof fn law_cycle_leaves_timers(s: State, pressed: bool, byte: u8)
    requires
        s.wf(),
        s.cycle(pressed, byte) is Ok,
    ensures
        !(decode(s.fetch()->Some_0) is SetDelay) ==> s.cycle(pressed, byte)->Ok_0.delay == s.delay,
        !(decode(s.fetch()->Some_0) is SetSound) ==> s.cycle(pressed, byte)->Ok_0.sound == s.sound,
{
}

/// A cycle depends on the host only through what it asks: with nothing
/// asked, neither the key state nor the random byte matters; with a key
/// asked, the random byte does not; with a random byte asked, the key state
/// does not.
pub proof fn law_cycle_depends_on_query(
    s: State,
    pressed: bool,
    byte: u8,
    other_pressed: bool,
    other_byte: u8,
)
    requires
        s.wf(),
    ensures
        s.cycle_query() is Nothing ==> s.cycle(pressed, byte) == s.cycle(other_pressed, other_byte),
        s.cycle_query() is Key ==> s.cycle(pressed, byte) == s.cycle(pressed, other_byte),
        s.cycle_query() is Random ==> s.cycle(pressed, byte) == s.cycle(other_pressed, byte),
{
}

/// The key that is asked about is one of the sixteen that the host knows.
pub proof fn law_query_names_a_key(s: State, inst: Instruction)
    requires
        s.wf(),
        inst.well_formed(),
    ensures
        s.query(inst) matches Query::Key(k) ==> k < 16,
{
}

/// Clearing the screen leaves every pixel off.
pub proof fn law_clear_screen_darkens(s: State, pressed: bool, byte: u8, x: int, y: int)
    requires
        s.wf(),
    ensures
        s.apply(Instruction::ClearScreen, pressed, byte) is Ok,
        !s.apply(Instruction::ClearScreen, pressed, byte)->Ok_0.lit(x, y),
{
}

/// While the screen is cleared the host is told of every pixel once, column
/// by column, that it is off.
pub proof fn law_clear_screen_tells_every_pixel(s: State)
    ensures
        s.notifications(Instruction::ClearScreen).len() == WIDTH * HEIGHT,
        forall|x: int, y: int|
            0 <= x < WIDTH && 0 <= y < HEIGHT ==> s.notifications(Instruction::ClearScreen)[HEIGHT
                * x + y] == (Notice { x, y, on: false }),
{
    assert forall|x: int, y: int| 0 <= x < WIDTH && 0 <= y < HEIGHT implies s.notifications(
        Instruction::ClearScreen,
    )[HEIGHT * x + y] == (Notice { x, y, on: false }) by {
        let k = HEIGHT * x + y;
        assert(k / (HEIGHT as int) == x && k % (HEIGHT as int) == y);
    }
}

/// What is told of a pixel while a sprite is drawn: the pixel lies on the
/// screen under a set bit of the sprite, and its new state is the inverse of
/// the old one.
pub open spec fn tells_of_drawn_pixel(s: State, x0: int, y0: int, rows: int, call: Notice) -> bool {
    &&& 0 <= call.x < WIDTH
    &&& 0 <= call.y < HEIGHT
    &&& s.sprite_covers(x0, y0, rows, call.x, call.y)
    &&& call.on == !s.screen[call.x][call.y]
}

proof fn lemma_row_calls(s: State, x0: int, y0: int, rows: int, r: int, cols: int)
    requires
        0 <= r < rows,
        0 <= cols <= 8,
    ensures
        forall|k: int|
            0 <= k < s.row_calls(x0, y0 + r, s.memory[s.i + r], cols).len()
                ==> tells_of_drawn_pixel(
                s,
                x0,
                y0,
                rows,
                #[trigger] s.row_calls(x0, y0 + r, s.memory[s.i + r], cols)[k],
            ),
        forall|x: int|
            0 <= x < WIDTH && 0 <= y0 + r < HEIGHT && x - x0 < cols && #[trigger] s.sprite_covers(
                x0,
                y0,
                rows,
                x,
                y0 + r,
            ) ==> s.row_calls(x0, y0 + r, s.memory[s.i + r], cols).contains(
                Notice { x, y: y0 + r, on: !s.screen[x][y0 + r] },
            ),
    decreases cols,
{
    let byte = s.memory[s.i + r];
    let y = y0 + r;
    if cols > 0 {
        lemma_row_calls(s, x0, y0, rows, r, cols - 1);
        let earlier = s.row_calls(x0, y, byte, cols - 1);
        let all = s.row_calls(x0, y, byte, cols);
        let x = x0 + cols - 1;
        if bit(byte, (8 - cols) as u8) && 0 <= x < WIDTH && 0 <= y < HEIGHT {
            let last = Notice { x, y, on: !s.screen[x][y] };
            assert(all == earlier.push(last));
            assert(tells_of_drawn_pixel(s, x0, y0, rows, last));
            assert(all[all.len() - 1] == last);
            assert forall|c: int|
                0 <= c < WIDTH && 0 <= y0 + r < HEIGHT && c - x0 < cols && #[trigger] s.sprite_covers(
                    x0,
                    y0,
                    rows,
                    c,
                    y0 + r,
                ) implies all.contains(
                Notice { x: c, y: y0 + r, on: !s.screen[c][y0 + r] },
            ) by {
                let call = Notice { x: c, y: y0 + r, on: !s.screen[c][y0 + r] };
                if c == x {
                    assert(all[all.len() - 1] == call);
                } else {
                    assert(earlier.contains(call));
                    let k = choose|k: int| 0 <= k < earlier.len() && earlier[k] == call;
                    assert(all[k] == call);
                }
            }
        } else {
            assert(all == earlier);
        }
    }
}

proof fn lemma_sprite_calls(s: State, x0: int, y0: int, rows: int, done: int)
    requires
        0 <= done <= rows,
    ensures
        forall|k: int|
            0 <= k < s.sprite_calls(x0, y0, done).len() ==> tells_of_drawn_pixel(
                s,
                x0,
                y0,
                rows,
                #[trigger] s.sprite_calls(x0, y0, done)[k],
            ),
        forall|x: int, y: int|
            0 <= x < WIDTH && 0 <= y < HEIGHT && y - y0 < done && #[trigger] s.sprite_covers(
                x0,
                y0,
                rows,
                x,
                y,
            ) ==> s.sprite_calls(x0, y0, done).contains(
                Notice { x, y, on: !s.screen[x][y] },
            ),
    decreases done,
{
    if done > 0 {
        lemma_sprite_calls(s, x0, y0, rows, done - 1);
        lemma_row_calls(s, x0, y0, rows, done - 1, 8);
        let above = s.sprite_calls(x0, y0, done - 1);
        let row = s.row_calls(x0, y0 + done - 1, s.memory[s.i + done - 1], 8);
        let all = s.sprite_calls(x0, y0, done);
        assert(all == above + row);
        assert forall|x: int, y: int|
            0 <= x < WIDTH && 0 <= y < HEIGHT && y - y0 < done && #[trigger] s.sprite_covers(
                x0,
                y0,
                rows,
                x,
                y,
            ) implies all.contains(Notice { x, y, on: !s.screen[x][y] }) by {
            let call = Notice { x, y, on: !s.screen[x][y] };
            if y - y0 == done - 1 {
                assert(row.contains(call));
                let k = choose|k: int| 0 <= k < row.len() && row[k] == call;
                assert(all[above.len() + k] == call);
            } else {
                assert(above.contains(call));
                let k = choose|k: int| 0 <= k < above.len() && above[k] == call;
                assert(all[k] == call);
            }
        }
    }
}

/// The host is told of exactly the pixels that a drawing changes: each
/// notification names a pixel of the screen under a set bit of the sprite
/// together with its new state, and every such pixel is told of.
pub proof fn law_draw_tells_the_changed_pixels(s: State, x: u16, y: u16, n: u16)
    requires
        s.wf(),
        Instruction::Draw(x, y, n).well_formed(),
    ensures
        ({
            let x0 = s.reg(x as int) as int % WIDTH as int;
            let y0 = s.reg(y as int) as int % HEIGHT as int;
            let told = s.notifications(Instruction::Draw(x, y, n));
            &&& forall|k: int|
                0 <= k < told.len() ==> tells_of_drawn_pixel(s, x0, y0, n as int, #[trigger] told[k])
            &&& forall|cx: int, cy: int|
                0 <= cx < WIDTH && 0 <= cy < HEIGHT && #[trigger] s.sprite_covers(
                    x0,
                    y0,
                    n as int,
                    cx,
                    cy,
                )
                    ==> told.contains(
                    Notice { x: cx, y: cy, on: !s.screen[cx][cy] },
                )
        }),
{
    let x0 = s.reg(x as int) as int % WIDTH as int;
    let y0 = s.reg(y as int) as int % HEIGHT as int;
    lemma_sprite_calls(s, x0, y0, n as int, State::sprite_rows(y0, n as int));
}

/// What a host with the history `told` was last told of the pixel at column
/// `x`, row `y`, if it was ever told of it.
pub open spec fn last_told(told: Seq<Notice>, x: int, y: int) -> Option<bool>
    decreases told.len(),
{
    if told.len() == 0 {
        None
    } else if told.last().x == x && told.last().y == y {
        Some(told.last().on)
    } else {
        last_told(told.drop_last(), x, y)
    }
}

/// A host with the history `told` is in step with the screen: every pixel is
/// as the host was last told, and a pixel that it was never told of is off.
pub open spec fn in_step(screen: Seq<Seq<bool>>, told: Seq<Notice>) -> bool {
    forall|x: int, y: int|
        0 <= x < WIDTH && 0 <= y < HEIGHT ==> #[trigger] screen[x][y] == (last_told(told, x, y)
            == Some(true))
}

proof fn lemma_last_told_after(told: Seq<Notice>, more: Seq<Notice>, x: int, y: int)
    ensures
        last_told(told + more, x, y) == (if last_told(more, x, y) is Some {
            last_told(more, x, y)
        } else {
            last_told(told, x, y)
        }),
    decreases more.len(),
{
    if more.len() == 0 {
        assert(told + more =~= told);
    } else {
        assert((told + more).drop_last() =~= told + more.drop_last());
        assert((told + more).last() == more.last());
        lemma_last_told_after(told, more.drop_last(), x, y);
    }
}

proof fn lemma_last_told_cleared(cells: int, x: int, y: int)
    requires
        0 <= cells,
        0 <= x,
        0 <= y < HEIGHT,
    ensures
        last_told(State::clear_calls(cells), x, y) == (if HEIGHT * x + y < cells {
            Some(false)
        } else {
            None
        }),
    decreases cells,
{
    if cells > 0 {
        let all = State::clear_calls(cells);
        assert(all.drop_last() =~= State::clear_calls(cells - 1));
        let k = cells - 1;
        assert(all.last() == (Notice { x: k / (HEIGHT as int), y: k % (HEIGHT as int), on: false }));
        assert((k / (HEIGHT as int) == x && k % (HEIGHT as int) == y) <==> k == HEIGHT * x + y);
        lemma_last_told_cleared(cells - 1, x, y);
    }
}

proof fn lemma_last_told_row(s: State, x0: int, yr: int, byte: u8, cols: int, x: int, y: int)
    requires
        0 <= cols <= 8,
    ensures
        last_told(s.row_calls(x0, yr, byte, cols), x, y) == (if y == yr && 0 <= x - x0 < cols
            && bit(byte, (7 - (x - x0)) as u8) && 0 <= x < WIDTH && 0 <= y < HEIGHT {
            Some(!s.screen[x][y])
        } else {
            None
        }),
    decreases cols,
{
    if cols > 0 {
        lemma_last_told_row(s, x0, yr, byte, cols - 1, x, y);
        let earlier = s.row_calls(x0, yr, byte, cols - 1);
        let cx = x0 + cols - 1;
        if bit(byte, (8 - cols) as u8) && 0 <= cx < WIDTH && 0 <= yr < HEIGHT {
            let all = earlier.push(Notice { x: cx, y: yr, on: !s.screen[cx][yr] });
            assert(s.row_calls(x0, yr, byte, cols) == all);
            assert(all.drop_last() =~= earlier);
        }
    }
}

proof fn lemma_last_told_sprite(s: State, x0: int, y0: int, n: int, rows: int, x: int, y: int)
    requires
        0 <= rows <= n,
    ensures
        last_told(s.sprite_calls(x0, y0, rows), x, y) == (if y - y0 < rows && s.sprite_covers(
            x0,
            y0,
            n,
            x,
            y,
        ) && 0 <= x < WIDTH && 0 <= y < HEIGHT {
            Some(!s.screen[x][y])
        } else {
            None
        }),
    decreases rows,
{
    if rows > 0 {
        lemma_last_told_sprite(s, x0, y0, n, rows - 1, x, y);
        let above = s.sprite_calls(x0, y0, rows - 1);
        let row = s.row_calls(x0, y0 + rows - 1, s.memory[s.i + rows - 1], 8);
        lemma_last_told_row(s, x0, y0 + rows - 1, s.memory[s.i + rows - 1], 8, x, y);
        lemma_last_told_after(above, row, x, y);
    }
}

/// Writing a pixel keeps the host in step with the screen.
pub proof fn law_plot_keeps_host_in_step(
    s: State,
    told: Seq<Notice>,
    x: int,
    y: int,
    force_off: bool,
)
    requires
        s.wf(),
        in_step(s.screen, told),
    ensures
        in_step(s.plot(x, y, force_off).screen, told + s.plot_calls(x, y, force_off)),
{
    let after = s.plot(x, y, force_off).screen;
    let more = s.plot_calls(x, y, force_off);
    assert forall|cx: int, cy: int| 0 <= cx < WIDTH && 0 <= cy < HEIGHT implies #[trigger] after[cx][cy]
        == (last_told(told + more, cx, cy) == Some(true)) by {
        lemma_last_told_after(told, more, cx, cy);
        assert(s.screen[cx][cy] == (last_told(told, cx, cy) == Some(true)));
        if 0 <= x < WIDTH && 0 <= y < HEIGHT {
            assert(more.drop_last() =~= Seq::<Notice>::empty());
            assert(last_told(more.drop_last(), cx, cy) is None);
        }
    }
}

/// Every instruction keeps the host in step with the screen: a host that
/// was told of every pixel written so far is, after the notifications of the
/// instruction, told of every pixel again.
pub proof fn law_apply_keeps_host_in_step(
    s: State,
    told: Seq<Notice>,
    inst: Instruction,
    pressed: bool,
    byte: u8,
)
    requires
        s.wf(),
        inst.well_formed(),
        in_step(s.screen, told),
        s.apply(inst, pressed, byte) is Ok,
    ensures
        in_step(s.apply(inst, pressed, byte)->Ok_0.screen, told + s.notifications(inst)),
{
    let after = s.apply(inst, pressed, byte)->Ok_0.screen;
    let more = s.notifications(inst);
    assert forall|cx: int, cy: int| 0 <= cx < WIDTH && 0 <= cy < HEIGHT implies #[trigger] after[cx][cy]
        == (last_told(told + more, cx, cy) == Some(true)) by {
        lemma_last_told_after(told, more, cx, cy);
        assert(s.screen[cx][cy] == (last_told(told, cx, cy) == Some(true)));
        match inst {
            Instruction::ClearScreen => {
                lemma_last_told_cleared(WIDTH * HEIGHT, cx, cy);
            },
            Instruction::Draw(x, y, n) => {
                let x0 = s.reg(x as int) as int % WIDTH as int;
                let y0 = s.reg(y as int) as int % HEIGHT as int;
                lemma_last_told_sprite(
                    s,
                    x0,
                    y0,
                    n as int,
                    State::sprite_rows(y0, n as int),
                    cx,
                    cy,
                );
            },
            _ => {},
        }
    }
}

/// Drawing the same sprite twice at the same place restores the screen.
pub proof fn law_draw_twice_restores(s: State, x0: int, y0: int, n: int)
    requires
        s.wf(),
    ensures
        s.drawn(x0, y0, n).drawn(x0, y0, n) == s,
{
    assert(s.drawn(x0, y0, n).drawn(x0, y0, n).screen =~~= s.screen);
}

/// The machine keeps its sizes: whatever an instruction with operands in
/// range does to a machine, the result is a machine again.
pub proof fn law_apply_keeps_sizes(s: State, inst: Instruction, pressed: bool, byte: u8)
    requires
        s.wf(),
        inst.well_formed(),
        s.apply(inst, pressed, byte) is Ok,
    ensures
        s.apply(inst, pressed, byte)->Ok_0.wf(),
{
}

} // verus!
