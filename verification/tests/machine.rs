use chip8::chip_machine::CHIPMachine;
use chip8::memory::Memory;
use chip8::processor::Processor;

#[test]
fn new_processor_is_zeroed() {
    let p = Processor::new(64, 32);
    assert_eq!(p.pc, 0x200);
    assert_eq!(p.sp, 0);
    assert_eq!(p.i, 0);
    assert_eq!(p.ram.len(), 4096);
    assert_eq!(p.stack.len(), 16);
    assert_eq!(p.v.len(), 16);
    assert_eq!(p.keypad.len(), 16);
    assert_eq!(p.pixels.len(), 64 * 32);
    assert!(p.ram.iter().all(|&b| b == 0));
    assert!(p.pixels.iter().all(|&b| !b));
}

#[test]
fn load_places_image_at_load_address() {
    let mut p = Processor::new(64, 32);
    p.load(vec![0xAB, 0xCD, 0xEF]);
    assert_eq!(p.ram[0x200], 0xAB);
    assert_eq!(p.ram[0x201], 0xCD);
    assert_eq!(p.ram[0x202], 0xEF);
    assert_eq!(p.ram[0x203], 0x00);
}

#[test]
fn load_truncates_past_the_end_of_memory() {
    let mut p = Processor::new(64, 32);
    let data = vec![0x7Fu8; 4000];
    p.load(data);
    assert_eq!(p.ram[0x200], 0x7F);
    assert_eq!(p.ram[4095], 0x7F);
    // Nothing below the load address was touched.
    assert_eq!(p.ram[0x1FF], 0x00);
}

#[test]
fn fetch_reads_big_endian() {
    let mut p = Processor::new(64, 32);
    p.load(vec![0xD1, 0x23]);
    assert_eq!(p.get_instruction(), 0xD123);
}

#[test]
fn tick_executes_load_immediate() {
    let mut p = Processor::new(64, 32);
    p.load(vec![0x60, 0x42]);
    p.tick();
    assert_eq!(p.v[0], 0x42);
    assert_eq!(p.pc, 0x202);
}

#[test]
fn tick_on_unknown_opcode_advances_only_the_counter() {
    let mut p = Processor::new(64, 32);
    p.load(vec![0x80, 0x09]);
    let v_before = p.v.clone();
    p.tick();
    assert_eq!(p.v, v_before);
    assert_eq!(p.pc, 0x202);
}

#[test]
fn skip_when_equal_advances_four_bytes() {
    let mut p = Processor::new(64, 32);
    p.load(vec![0x30, 0x42, 0x00, 0x00, 0x61, 0x99]);
    p.v[0] = 0x42;
    p.tick();
    assert_eq!(p.pc, 0x204);
    // The next fetch reads the instruction four bytes past the skip.
    p.tick();
    assert_eq!(p.v[1], 0x99);
}

#[test]
fn skip_when_unequal_advances_two_bytes() {
    let mut p = Processor::new(64, 32);
    p.load(vec![0x30, 0x42]);
    p.v[0] = 0x41;
    p.tick();
    assert_eq!(p.pc, 0x202);
}

#[test]
fn call_then_return_resumes_after_the_call() {
    let mut p = Processor::new(64, 32);
    // A call to 0x300 executes next at 0x302 on this machine; the return
    // instruction stands there.
    p.load(vec![0x23, 0x00]);
    p.ram[0x302] = 0x00;
    p.ram[0x303] = 0xEE;
    p.tick();
    assert_eq!(p.pc, 0x302);
    assert_eq!(p.sp, 1);
    p.tick();
    assert_eq!(p.pc, 0x202);
    assert_eq!(p.sp, 0);
}

#[test]
fn jump_lands_two_bytes_past_the_target() {
    let mut p = Processor::new(64, 32);
    p.load(vec![0x13, 0x00]);
    p.tick();
    assert_eq!(p.pc, 0x302);
}

#[test]
fn tick_clears_display() {
    let mut p = Processor::new(64, 32);
    // Draw one sprite row, then clear the screen, both through tick.
    p.load(vec![0xD0, 0x11, 0x00, 0xE0]);
    p.ram[0x300] = 0xFF;
    p.i = 0x300;
    p.tick();
    assert!(p.pixels.iter().any(|&b| b));
    p.tick();
    assert!(p.pixels.iter().all(|&b| !b));
    assert_eq!(p.pc, 0x204);
}

#[test]
fn memory_starts_zeroed_and_fetches() {
    let mut m = Memory::new();
    assert_eq!(m.pc, 0x200);
    assert_eq!(m.ram.len(), 4096);
    assert_eq!(m.stack.len(), 16);
    m.ram[0x200] = 0xAB;
    m.ram[0x201] = 0xCD;
    assert_eq!(m.get_instruction(), 0xABCD);
}

#[test]
fn machine_new_is_not_running() {
    let m = CHIPMachine::new(64, 32);
    assert!(!m.running);
    assert_eq!(m.cpu.pixels.len(), 64 * 32);
}

#[test]
fn machine_cycle_runs_one_step() {
    let mut m = CHIPMachine::new(64, 32);
    m.cpu.load(vec![0x60, 0x42]);
    m.cycle();
    assert_eq!(m.cpu.v[0], 0x42);
    assert_eq!(m.cpu.pc, 0x202);
}

#[test]
fn machine_reset_start_time_keeps_state() {
    let mut m = CHIPMachine::new(64, 32);
    m.cpu.load(vec![0x60, 0x42]);
    m.cycle();
    m.reset_start_time();
    assert_eq!(m.cpu.v[0], 0x42);
    assert!(!m.running);
}

#[test]
fn machine_draw_maps_pixels_to_colors() {
    let mut m = CHIPMachine::new(64, 32);
    m.cpu.pixels[0] = true;
    let mut screen = vec![0u8; 4 * 64 * 32];
    m.draw(&mut screen);
    assert_eq!(&screen[0..4], &[0x2a, 0x9d, 0x8f, 0xFF]);
    assert_eq!(&screen[4..8], &[0x26, 0x46, 0x53, 0xFF]);
    assert_eq!(screen.len(), 4 * 64 * 32);
}
