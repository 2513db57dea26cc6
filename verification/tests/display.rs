use chip8::insts::Instruction;
use chip8::state::{Fatal, FONT};
use chip8::vm::{KeyboardHandler, PixelHandler, RandomHandler, VM};

struct Recorder {
    calls: Vec<(usize, usize, bool)>,
}

impl PixelHandler for Recorder {
    fn set_pixel(&mut self, x: usize, y: usize, on: bool) {
        assert!(x < 64 && y < 32);
        self.calls.push((x, y, on));
    }
}

struct NoKeys;

impl KeyboardHandler for NoKeys {
    fn is_pressed(&mut self, _key: u8) -> bool {
        false
    }
}

struct Zero;

impl RandomHandler for Zero {
    fn random(&mut self) -> u8 {
        0
    }
}

type Screen = VM<Recorder, NoKeys, Zero>;

fn screen_machine(program: &[u8]) -> Screen {
    let mut vm = VM::new(Recorder { calls: Vec::new() }, NoKeys, Zero);
    vm.setmemory(program.to_vec());
    vm
}

fn steps(vm: &mut Screen, cycles: usize) {
    for _ in 0..cycles {
        assert_eq!(vm.process(), Ok(()));
    }
}

fn lit_pixels(vm: &Screen) -> Vec<(usize, usize)> {
    let mut lit = Vec::new();
    for y in 0..32 {
        for x in 0..64 {
            if vm.pixel(x, y) {
                lit.push((x, y));
            }
        }
    }
    lit
}

/// The pixels of a sprite at `(x0, y0)`, row by row, as far as they are on the screen.
fn sprite_pixels(rows: &[u8], x0: usize, y0: usize) -> Vec<(usize, usize)> {
    let mut lit = Vec::new();
    for (r, byte) in rows.iter().enumerate() {
        for c in 0..8 {
            if byte & (0x80 >> c) != 0 && x0 + c < 64 && y0 + r < 32 {
                lit.push((x0 + c, y0 + r));
            }
        }
    }
    lit
}

#[test]
fn clear_screen_on_a_new_machine() {
    let mut vm = screen_machine(&[0x00, 0xE0]);
    steps(&mut vm, 1);
    assert!(lit_pixels(&vm).is_empty());
    assert_eq!(vm.pixelhandler.calls.len(), 64 * 32);
    assert!(vm.pixelhandler.calls.iter().all(|c| !c.2));
    let mut seen = vm.pixelhandler.calls.iter().map(|c| (c.0, c.1)).collect::<Vec<_>>();
    seen.sort();
    seen.dedup();
    assert_eq!(seen.len(), 64 * 32);
    assert_eq!(vm.program_counter(), 0x202);
}

#[test]
fn clear_screen_goes_column_by_column() {
    let mut vm = screen_machine(&[0x00, 0xE0]);
    steps(&mut vm, 1);
    for (k, call) in vm.pixelhandler.calls.iter().enumerate() {
        assert_eq!(*call, (k / 32, k % 32, false));
    }
    assert_eq!(vm.pixelhandler.calls[33], (1, 1, false));
    assert_eq!(vm.pixelhandler.calls[2047], (63, 31, false));
}

#[test]
fn clear_screen_after_drawing() {
    let mut vm = screen_machine(&[0xD0, 0x05, 0x00, 0xE0]);
    steps(&mut vm, 1);
    assert!(!lit_pixels(&vm).is_empty());
    vm.pixelhandler.calls.clear();
    steps(&mut vm, 1);
    assert!(lit_pixels(&vm).is_empty());
    assert_eq!(vm.pixelhandler.calls.len(), 64 * 32);
    assert!(vm.pixelhandler.calls.iter().all(|c| !c.2));
    assert_eq!(vm.registers(), [0u8; 16]);
}

#[test]
fn draw_the_glyph_of_zero() {
    // VF <- 7; draw 5 rows at (V0, V0) = (0, 0) with I = 0
    let mut vm = screen_machine(&[0x6F, 0x07, 0xD0, 0x05]);
    steps(&mut vm, 2);
    let expected = vec![
        (0, 0), (1, 0), (2, 0), (3, 0),
        (0, 1), (3, 1),
        (0, 2), (3, 2),
        (0, 3), (3, 3),
        (0, 4), (1, 4), (2, 4), (3, 4),
    ];
    assert_eq!(lit_pixels(&vm), expected);
    assert_eq!(lit_pixels(&vm), sprite_pixels(&FONT[0..5], 0, 0));
    assert_eq!(vm.registers()[15], 7);
    assert_eq!(vm.index(), 0);
    assert_eq!(vm.program_counter(), 0x204);
    let told: Vec<(usize, usize, bool)> = expected.iter().map(|p| (p.0, p.1, true)).collect();
    assert_eq!(vm.pixelhandler.calls, told);
}

#[test]
fn draw_every_glyph() {
    for digit in 0..16usize {
        let mut vm = screen_machine(&[0x61, 10, 0x62, 20, 0xA0, (5 * digit) as u8, 0xD1, 0x25]);
        steps(&mut vm, 4);
        assert_eq!(lit_pixels(&vm), sprite_pixels(&FONT[5 * digit..5 * digit + 5], 10, 20));
    }
}

#[test]
fn draw_twice_restores_the_screen() {
    let mut vm = screen_machine(&[0x6F, 0x01, 0xD0, 0x05, 0xD0, 0x05]);
    steps(&mut vm, 3);
    assert!(lit_pixels(&vm).is_empty());
    assert_eq!(vm.registers()[15], 1);
    assert_eq!(vm.pixelhandler.calls.len(), 28);
    assert!(vm.pixelhandler.calls[..14].iter().all(|c| c.2));
    assert!(vm.pixelhandler.calls[14..].iter().all(|c| !c.2));
}

#[test]
fn draw_leaves_clear_bits_alone() {
    // glyph 0 at (0, 0), then glyph 1 (0x20 0x60 0x20 0x20 0x70) over it
    let mut vm = screen_machine(&[0xD0, 0x05, 0xA0, 0x05, 0xD0, 0x05]);
    steps(&mut vm, 3);
    let expected = vec![
        (0, 0), (1, 0), (3, 0),
        (0, 1), (1, 1), (2, 1), (3, 1),
        (0, 2), (2, 2), (3, 2),
        (0, 3), (2, 3), (3, 3),
        (0, 4), 
    ];
    assert_eq!(lit_pixels(&vm), expected);
}

#[test]
fn draw_wraps_the_origin() {
    let mut vm = screen_machine(&[0x61, 64 + 3, 0x62, 32 + 2, 0xD1, 0x25]);
    steps(&mut vm, 3);
    assert_eq!(lit_pixels(&vm), sprite_pixels(&FONT[0..5], 3, 2));
    let mut vm = screen_machine(&[0x61, 255, 0x62, 255, 0xD1, 0x21]);
    steps(&mut vm, 3);
    assert_eq!(lit_pixels(&vm), vec![(63, 31)]);
}

#[test]
fn draw_is_cut_at_the_right_edge() {
    let mut vm = screen_machine(&[0x61, 62, 0x62, 0, 0xD1, 0x25]);
    steps(&mut vm, 3);
    let expected = vec![(62, 0), (63, 0), (62, 1), (62, 2), (62, 3), (62, 4), (63, 4)];
    assert_eq!(lit_pixels(&vm), expected);
    assert_eq!(vm.pixelhandler.calls.len(), expected.len());
}

#[test]
fn draw_is_cut_at_the_bottom() {
    let mut vm = screen_machine(&[0x61, 0, 0x62, 30, 0xD1, 0x25]);
    steps(&mut vm, 3);
    let expected = vec![(0, 30), (1, 30), (2, 30), (3, 30), (0, 31), (3, 31)];
    assert_eq!(lit_pixels(&vm), expected);
    assert_eq!(vm.pixelhandler.calls.len(), expected.len());
}

#[test]
fn draw_with_no_rows_draws_nothing() {
    let mut vm = screen_machine(&[0xAF, 0xFF, 0xD0, 0x00]);
    steps(&mut vm, 2);
    assert!(lit_pixels(&vm).is_empty());
    assert!(vm.pixelhandler.calls.is_empty());
    assert_eq!(vm.program_counter(), 0x204);
}

#[test]
fn draw_reads_the_sprite_at_the_index() {
    let mut vm = screen_machine(&[0xA2, 0x06, 0x61, 8, 0xD1, 0x12, 0b1000_0001, 0b0101_1010]);
    steps(&mut vm, 3);
    assert_eq!(
        lit_pixels(&vm),
        vec![(8, 8), (15, 8), (9, 9), (11, 9), (12, 9), (14, 9)]
    );
    assert_eq!(
        vm.pixelhandler.calls,
        vec![
            (8, 8, true),
            (15, 8, true),
            (9, 9, true),
            (11, 9, true),
            (12, 9, true),
            (14, 9, true)
        ]
    );
}

#[test]
fn draw_reads_no_further_than_the_row_under_the_screen() {
    // I = 0xFFE, y = 31, three rows asked: the rows at 31 and 32 are read, the third is not.
    let mut vm = screen_machine(&[0xAF, 0xFE, 0x62, 31, 0xD1, 0x23]);
    vm.memory[0xFFE] = 0xFF;
    vm.memory[0xFFF] = 0xFF;
    steps(&mut vm, 3);
    assert_eq!(lit_pixels(&vm), (0..8).map(|x| (x, 31)).collect::<Vec<_>>());
}

#[test]
fn draw_past_memory_is_fatal() {
    let mut vm = screen_machine(&[0xAF, 0xFF, 0x62, 31, 0xD1, 0x22]);
    vm.memory[0xFFF] = 0xFF;
    steps(&mut vm, 2);
    assert_eq!(vm.process(), Err(Fatal::AccessOutOfRange));
    assert!(lit_pixels(&vm).is_empty());
    assert!(vm.pixelhandler.calls.is_empty());
    assert_eq!(vm.program_counter(), 0x204);

    let mut vm = screen_machine(&[0xAF, 0xFF, 0xD1, 0x21]);
    vm.memory[0xFFF] = 0x80;
    steps(&mut vm, 2);
    assert_eq!(lit_pixels(&vm), vec![(0, 0)]);
}

#[test]
fn update_pixel_inverts() {
    let mut vm = screen_machine(&[]);
    vm.update_pixel(5, 6, false);
    assert!(vm.pixel(5, 6));
    assert_eq!(lit_pixels(&vm), vec![(5, 6)]);
    vm.update_pixel(5, 6, false);
    assert!(!vm.pixel(5, 6));
    assert_eq!(vm.pixelhandler.calls, vec![(5, 6, true), (5, 6, false)]);
}

#[test]
fn update_pixel_forces_off() {
    let mut vm = screen_machine(&[]);
    vm.update_pixel(63, 31, true);
    assert!(!vm.pixel(63, 31));
    vm.update_pixel(63, 31, false);
    assert!(vm.pixel(63, 31));
    vm.update_pixel(63, 31, true);
    assert!(!vm.pixel(63, 31));
    assert_eq!(vm.pixelhandler.calls, vec![(63, 31, false), (63, 31, true), (63, 31, false)]);
}

#[test]
fn update_pixel_outside_the_screen_is_ignored() {
    let mut vm = screen_machine(&[]);
    vm.update_pixel(64, 0, false);
    vm.update_pixel(0, 32, false);
    vm.update_pixel(64, 32, true);
    vm.update_pixel(usize::MAX, usize::MAX, false);
    assert!(lit_pixels(&vm).is_empty());
    assert!(vm.pixelhandler.calls.is_empty());
    assert!(!vm.pixel(64, 0));
    assert!(!vm.pixel(0, 32));
}

#[test]
fn execute_draw_directly() {
    let mut vm = screen_machine(&[]);
    assert_eq!(vm.execute(Instruction::Draw(0, 0, 5), false, 0), Ok(()));
    assert_eq!(lit_pixels(&vm), sprite_pixels(&FONT[0..5], 0, 0));
    assert_eq!(vm.execute(Instruction::ClearScreen, false, 0), Ok(()));
    assert!(lit_pixels(&vm).is_empty());
    assert_eq!(vm.program_counter(), 0x204);
}
