use chiprs::draw::{ShapeDrawer, BORDER_WIDTH, FOREGROUND, LINE_SIZE};
use chiprs::emulator::Emulator;
use chiprs::instruction::Instruction;

const WIDTH: usize = 20;
const HEIGHT: usize = 12;

fn marked(buffer: &[u32]) -> Vec<(usize, usize)> {
    let mut places = Vec::new();
    for (i, pixel) in buffer.iter().enumerate() {
        if *pixel == FOREGROUND {
            places.push((i % WIDTH, i / WIDTH));
        } else {
            assert_eq!(*pixel, 7);
        }
    }
    places
}

fn block(from_x: usize, to_x: usize, from_y: usize, to_y: usize) -> Vec<(usize, usize)> {
    let mut places = Vec::new();
    for y in from_y..to_y {
        for x in from_x..to_x {
            places.push((x, y));
        }
    }
    places
}

#[test]
fn rect_paints_the_enlarged_pixel() {
    let drawer = ShapeDrawer::new(WIDTH);
    assert_eq!(drawer.width(), WIDTH);
    let mut buffer = vec![7u32; WIDTH * HEIGHT];
    drawer.rect(&mut buffer, 2, 1, 3);
    assert_eq!(marked(&buffer), block(6, 9, 3, 6));
}

#[test]
fn rect_of_scale_zero_paints_nothing() {
    let drawer = ShapeDrawer::new(WIDTH);
    let mut buffer = vec![7u32; WIDTH * HEIGHT];
    drawer.rect(&mut buffer, 2, 1, 0);
    assert_eq!(marked(&buffer), vec![]);
}

#[test]
fn vertical_line_is_four_pixels_wide() {
    let drawer = ShapeDrawer::new(WIDTH);
    let mut buffer = vec![7u32; WIDTH * HEIGHT];
    drawer.vertical_line(&mut buffer, 5, 2, 9);
    assert_eq!(LINE_SIZE, 4);
    assert_eq!(marked(&buffer), block(5, 9, 2, 9));
}

#[test]
fn horizontal_line_is_four_pixels_high() {
    let drawer = ShapeDrawer::new(WIDTH);
    let mut buffer = vec![7u32; WIDTH * HEIGHT];
    drawer.horizontal_line(&mut buffer, (3, 17), 6);
    assert_eq!(marked(&buffer), block(3, 17, 6, 10));
    let mut buffer = vec![7u32; WIDTH * HEIGHT];
    drawer.horizontal_line(&mut buffer, (9, 9), 6);
    assert_eq!(marked(&buffer), vec![]);
}

#[test]
fn border_is_two_pixels_thick() {
    let drawer = ShapeDrawer::new(WIDTH);
    let mut buffer = vec![7u32; WIDTH * HEIGHT];
    drawer.border(&mut buffer, 1, 2, 11, 10);
    assert_eq!(BORDER_WIDTH, 2);
    let expected: Vec<(usize, usize)> = block(1, 11, 2, 10)
        .into_iter()
        .filter(|(x, y)| *x < 3 || *x >= 9 || *y < 4 || *y >= 8)
        .collect();
    assert_eq!(marked(&buffer), expected);
    assert_eq!(buffer[5 + 5 * WIDTH], 7);
}

#[test]
fn border_leaves_out_what_is_beyond_the_buffer() {
    let drawer = ShapeDrawer::new(WIDTH);
    let mut buffer = vec![7u32; WIDTH * HEIGHT];
    drawer.border(&mut buffer, 0, 8, WIDTH, 20);
    let expected: Vec<(usize, usize)> = block(0, WIDTH, 8, HEIGHT)
        .into_iter()
        .filter(|(x, y)| *x < 2 || *x >= WIDTH - 2 || *y < 10)
        .collect();
    assert_eq!(marked(&buffer), expected);
}

#[test]
fn a_small_border_is_filled() {
    let drawer = ShapeDrawer::new(WIDTH);
    let mut buffer = vec![7u32; WIDTH * HEIGHT];
    drawer.border(&mut buffer, 4, 4, 7, 5);
    assert_eq!(marked(&buffer), block(4, 7, 4, 5));
}

#[test]
fn the_screen_is_painted_enlarged() {
    let mut emu = Emulator::new();
    emu.execute(Instruction::SetVxNN { x: 0, nn: 62 }, 0).unwrap();
    emu.execute(Instruction::SetVxNN { x: 1, nn: 30 }, 0).unwrap();
    emu.execute(Instruction::Draw { x: 0, y: 1, n: 5 }, 0).unwrap();
    let scale = 3;
    let width = 64 * scale + 10;
    let height = 32 * scale + 5;
    let drawer = ShapeDrawer::new(width);
    let mut buffer = vec![0u32; width * height];
    drawer.screen(&mut buffer, emu.get_screen(), scale);
    let mut lit = 0;
    for y in 0..height {
        for x in 0..width {
            let on = x < 64 * scale && y < 32 * scale && emu.get_screen()[x / scale + 64 * (y / scale)];
            assert_eq!(buffer[x + y * width], if on { FOREGROUND } else { 0 });
            if on {
                lit += 1;
            }
        }
    }
    assert_eq!(lit, 14 * scale * scale);
}
