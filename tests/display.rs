use wasm4_gol::{
    draw_instructions, shift_u16, CellState, DrawColors, DrawColorsBuilder, DrawColorsIndex,
    DrawCommand, Game, GlobalDrawColors, GlobalPalette, Palette, PaletteColor, Screen, Surface,
    Text, TextHorizontalAlignment, TextVerticalAligment,
};

#[test]
fn draw_colors_pack_by_nibbles() {
    let colors = DrawColors::builder()
        .with_index(DrawColorsIndex::I1, PaletteColor::P2)
        .with_index(DrawColorsIndex::I2, PaletteColor::P4)
        .with_index(DrawColorsIndex::I4, PaletteColor::P1)
        .build();
    assert_eq!(colors.to_u16(), 0x1042);
    assert_eq!(DrawColors::from_u16(0x1042), colors);
    assert_eq!(DrawColors::from_u16(0xabcd).get_index(DrawColorsIndex::I1), 0xd);
    assert_eq!(DrawColors::from_u16(0xabcd).get_index(DrawColorsIndex::I4), 0xa);
    assert_eq!(DrawColors::from_u16(0xabcd).to_u16(), 0xabcd);
    assert_eq!(DrawColors::default().to_u16(), 0);
    assert_eq!(DrawColorsBuilder::new().build(), DrawColors::default());
}

#[test]
fn shift_moves_bits() {
    assert_eq!(shift_u16(3, 4), 0x30);
    assert_eq!(shift_u16(0xf, 12), 0xf000);
    assert_eq!(shift_u16(0xff, 12), 0xf000);
}

#[test]
fn register_set_index_keeps_other_slots() {
    let mut reg = GlobalDrawColors::new();
    reg.set(DrawColors::from_u16(0x4321));
    reg.set_index(DrawColorsIndex::I3, PaletteColor::Transparent);
    assert_eq!(reg.register, 0x4021);
    assert_eq!(reg.get().get_index(DrawColorsIndex::I2), 2);
    reg.reset();
    assert_eq!(reg.register, 0);
}

#[test]
fn render_draws_one_square_per_cell() {
    let mut game = Game::with_size(3, 2);
    game.set_cell_state(1, 1, CellState::Alive);
    let mut surface = Surface::new();
    surface.draw_colors.register = 0x0030;
    game.render_grid(&mut surface);
    assert_eq!(surface.commands.len(), 6);
    match &surface.commands[4] {
        DrawCommand::Rect { x, y, width, height, colors } => {
            assert_eq!((*x, *y, *width, *height), (2, 2, 2, 2));
            assert_eq!(*colors, 0x0031);
        }
        other => panic!("expected a rectangle, got {:?}", other),
    }
    match &surface.commands[5] {
        DrawCommand::Rect { x, y, colors, .. } => {
            assert_eq!((*x, *y), (4, 2));
            assert_eq!(*colors, 0x0034);
        }
        other => panic!("expected a rectangle, got {:?}", other),
    }
    assert_eq!(surface.draw_colors.register, 0x0034);
}

#[test]
fn text_lines_are_laid_out() {
    let mut surface = Surface::new();
    Text::new(b"ab\ncdef".to_vec())
        .with_horizontal_alignment(TextHorizontalAlignment::Center)
        .with_vertical_alignment(TextVerticalAligment::Bottom)
        .with_line_separation(2)
        .with_padding_y(-2)
        .with_x(1)
        .with_y(3)
        .with_padding_x(4)
        .draw(&mut surface);
    assert_eq!(surface.commands.len(), 2);
    match &surface.commands[1] {
        DrawCommand::Text { text, x, y, .. } => {
            assert_eq!(text, b"cdef");
            // (20 - 4) / 2 * 8 + 4 + 1
            assert_eq!(*x, 69);
            // 160 - 16 - 2 - 2 + 3 + 10
            assert_eq!(*y, 153);
        }
        other => panic!("expected text, got {:?}", other),
    }
}

#[test]
fn paddings_by_alignment() {
    assert_eq!(TextHorizontalAlignment::Left.get_padding_x(b"abc"), 0);
    assert_eq!(TextHorizontalAlignment::Center.get_padding_x(b"abc"), 64);
    assert_eq!(TextHorizontalAlignment::Right.get_padding_x(b"abc"), 136);
    assert_eq!(TextHorizontalAlignment::Center.get_padding_x(&[b'x'; 23]), -8);
    assert_eq!(TextVerticalAligment::Top.get_padding_y(3, 2), 0);
    assert_eq!(TextVerticalAligment::Middle.get_padding_y(1, 0), 76);
    assert_eq!(TextVerticalAligment::Bottom.get_padding_y(4, 2), 122);
    let t = Text::new(b"x".to_vec()).with_vertical_alignment(TextVerticalAligment::Middle);
    assert_eq!(t.vertical_padding(2), 72);
}

#[test]
fn empty_lines_are_kept() {
    let mut surface = Surface::new();
    Text::new(b"\na\n".to_vec()).draw(&mut surface);
    assert_eq!(surface.commands.len(), 3);
}

#[test]
fn instructions_leave_second_slot_transparent() {
    let mut surface = Surface::new();
    surface.draw_colors.register = 0x0034;
    draw_instructions(&mut surface);
    assert_eq!(surface.draw_colors.register, 0x0002);
    // Two title lines, the greeting, four lines of controls.
    assert_eq!(surface.commands.len(), 7);
    match &surface.commands[3] {
        DrawCommand::Text { text, colors, .. } => {
            assert_eq!(text[0], 0x80);
            assert_eq!(*colors, 0x0042);
        }
        other => panic!("expected text, got {:?}", other),
    }
}

#[test]
fn palette_register_round_trip() {
    let p = Palette::new([0xe0f8cf, 0x86c06c, 0x306850, 0x071821]);
    let mut reg = GlobalPalette::new(p);
    assert_eq!(reg.get(), p);
    reg.set(Palette::new([1, 2, 3, 4]));
    assert_eq!(reg.colors, [1, 2, 3, 4]);
}

#[test]
fn screen_is_square() {
    let s = Screen::get();
    assert_eq!((s.width, s.height), (160, 160));
}

#[test]
fn banner_follows_grid_in_first_ticks_only() {
    let mut game = Game::with_size(2, 2);
    let mut surface = Surface::new();
    let mut engine = wasm4_gol::Engine::new();
    let raw = wasm4_gol::RawInput { gamepads: [0; 4], mouse_x: 0, mouse_y: 0, mouse_buttons: 0 };
    wasm4_gol::update(&mut engine, &mut game, &mut surface, raw);
    assert_eq!(surface.commands.len(), 4 + 7);
    match &surface.commands[4] {
        DrawCommand::Text { text, x, y, .. } => {
            assert_eq!(text, b"Game of Life");
            assert_eq!((*x, *y), (32, 2));
        }
        other => panic!("expected text, got {:?}", other),
    }
    engine.frame_count = 600;
    surface.commands.clear();
    wasm4_gol::update(&mut engine, &mut game, &mut surface, raw);
    assert_eq!(surface.commands.len(), 4);
}
