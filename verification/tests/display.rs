use chip8::processor::Processor;

fn fresh() -> Processor {
    Processor::new(64, 32)
}

#[test]
fn clear_display_turns_every_pixel_off() {
    let mut p = fresh();
    // Put some content on screen first.
    p.ram[0x300] = 0xFF;
    p.i = 0x300;
    p.v[0] = 0;
    p.v[1] = 0;
    p.op_Dxyn((0xD, 0x0, 0x1, 0x1));
    assert!(p.pixels.iter().any(|&b| b));
    p.op_00E0();
    assert!(p.pixels.iter().all(|&b| !b));
    assert_eq!(p.pixels.len(), 64 * 32);
}

#[test]
fn draw_wraps_around_the_right_edge() {
    let mut p = fresh();
    p.ram[0x300] = 0xFF;
    p.i = 0x300;
    p.v[0] = 60;
    p.v[1] = 0;
    p.op_Dxyn((0xD, 0x0, 0x1, 0x1));
    let on_columns = [60usize, 61, 62, 63, 0, 1, 2, 3];
    for col in 0..64usize {
        let expected = on_columns.contains(&col);
        assert_eq!(p.pixels[col], expected, "column {}", col);
    }
    for idx in 64..p.pixels.len() {
        assert!(!p.pixels[idx]);
    }
}

#[test]
fn draw_twice_clears_and_reports_collision() {
    let mut p = fresh();
    p.ram[0x300] = 0xFF;
    p.i = 0x300;
    p.v[0] = 60;
    p.v[1] = 0;
    p.op_Dxyn((0xD, 0x0, 0x1, 0x1));
    assert_eq!(p.v[0xF], 0);
    assert!(p.pixels.iter().any(|&b| b));
    p.op_Dxyn((0xD, 0x0, 0x1, 0x1));
    assert_eq!(p.v[0xF], 1);
    assert!(p.pixels.iter().all(|&b| !b));
}

#[test]
fn draw_vertical_wrap_and_multiple_rows() {
    let mut p = fresh();
    p.ram[0x300] = 0x80;
    p.ram[0x301] = 0x80;
    p.i = 0x300;
    p.v[0] = 0;
    p.v[1] = 31;
    p.op_Dxyn((0xD, 0x0, 0x1, 0x2));
    // Row 31 and, wrapped, row 0 have their first pixel set.
    assert!(p.pixels[31 * 64]);
    assert!(p.pixels[0]);
}

#[test]
fn draw_collision_only_where_pixels_overlap() {
    let mut p = fresh();
    p.ram[0x300] = 0xF0;
    p.ram[0x301] = 0x0F;
    p.i = 0x300;
    p.v[0] = 0;
    p.v[1] = 0;
    p.op_Dxyn((0xD, 0x0, 0x1, 0x1));
    assert_eq!(p.v[0xF], 0);
    // The second byte shares no columns with the first, so no collision.
    p.i = 0x301;
    p.op_Dxyn((0xD, 0x0, 0x1, 0x1));
    assert_eq!(p.v[0xF], 0);
    for col in 0..8 {
        assert!(p.pixels[col], "column {}", col);
    }
}

#[test]
fn draw_publishes_scratch_to_visible_buffer() {
    let mut p = fresh();
    p.ram[0x300] = 0x80;
    p.i = 0x300;
    p.op_Dxyn((0xD, 0x0, 0x1, 0x1));
    assert_eq!(p.pixels[0], true);
    // The visible buffer equals the scratch buffer after publication: a
    // second draw at another spot keeps the first pixel visible.
    p.v[2] = 8;
    p.op_Dxyn((0xD, 0x2, 0x1, 0x1));
    assert!(p.pixels[0] && p.pixels[8]);
}
