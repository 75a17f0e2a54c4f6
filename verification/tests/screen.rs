use batpu_host::controller::Controller;
use batpu_host::screen::{pixel_color, Bitmap, Color, FrameBuffer};

const ON: [u8; 3] = [242, 176, 111];
const OFF: [u8; 3] = [158, 92, 56];

#[test]
fn the_two_colours() {
    assert_eq!(pixel_color(true), Color { red: 242, green: 176, blue: 111 });
    assert_eq!(pixel_color(false), Color { red: 158, green: 92, blue: 56 });
}

#[test]
fn a_new_screen_is_blank_and_clean() {
    let screen = FrameBuffer::new(32, 32).unwrap();
    assert_eq!(screen.width(), 32);
    assert_eq!(screen.height(), 32);
    assert!(!screen.image_updated());
    for y in 0..32 {
        for x in 0..32 {
            assert!(!screen.pixel(x, y));
        }
    }
}

#[test]
fn a_screen_too_large_for_its_bitmap_is_refused() {
    assert!(FrameBuffer::new(u32::MAX, u32::MAX).is_none());
}

#[test]
fn pixels_are_packed_row_by_row_eight_to_a_byte() {
    let screen = FrameBuffer::new(10, 4).unwrap();
    assert_eq!(screen.get_index(0, 0), (0, 0));
    assert_eq!(screen.get_index(7, 0), (0, 7));
    assert_eq!(screen.get_index(8, 0), (1, 0));
    assert_eq!(screen.get_index(0, 1), (1, 2));
    assert_eq!(screen.get_index(9, 3), (4, 7));
}

#[test]
fn writing_a_pixel_changes_that_pixel_alone() {
    let mut screen = FrameBuffer::new(5, 3).unwrap();
    screen.set_pixel(2, 1, true);
    screen.set_pixel(4, 2, true);
    assert!(screen.image_updated());
    for y in 0..3 {
        for x in 0..5 {
            assert_eq!(screen.pixel(x, y), (x, y) == (2, 1) || (x, y) == (4, 2));
        }
    }
    screen.set_pixel(2, 1, false);
    for y in 0..3 {
        for x in 0..5 {
            assert_eq!(screen.pixel(x, y), (x, y) == (4, 2));
        }
    }
}

#[test]
fn a_clean_screen_is_not_rendered() {
    let mut screen = FrameBuffer::new(2, 2).unwrap();
    assert_eq!(screen.update_screen(false), None);
    assert!(!screen.image_updated());
}

#[test]
fn the_picture_is_flipped_top_to_bottom() {
    let mut screen = FrameBuffer::new(2, 3).unwrap();
    screen.set_pixel(0, 0, true);
    screen.set_pixel(1, 2, true);
    let bitmap = screen.update_screen(false).unwrap();
    let mut data = Vec::new();
    for row in [[OFF, ON], [OFF, OFF], [ON, OFF]] {
        for pixel in row {
            data.extend_from_slice(&pixel);
        }
    }
    assert_eq!(bitmap, Bitmap { width: 2, height: 3, data });
    assert!(!screen.image_updated());
}

#[test]
fn rendering_twice_rasterises_once() {
    let mut screen = FrameBuffer::new(4, 4).unwrap();
    screen.set_pixel(1, 1, true);
    assert!(screen.update_screen(false).is_some());
    assert!(screen.update_screen(false).is_none());
    assert!(screen.pixel(1, 1));
}

#[test]
fn a_forced_render_shows_a_clean_screen() {
    let mut screen = FrameBuffer::new(1, 2).unwrap();
    screen.set_pixel(0, 1, true);
    screen.disable_image_updated();
    assert!(!screen.image_updated());
    let bitmap = screen.update_screen(true).unwrap();
    assert_eq!(bitmap.data, [ON, OFF].concat());
    assert!(screen.update_screen(false).is_none());
}

#[test]
fn an_empty_screen_renders_an_empty_bitmap() {
    let mut screen = FrameBuffer::new(0, 7).unwrap();
    let bitmap = screen.update_screen(true).unwrap();
    assert_eq!(bitmap, Bitmap { width: 0, height: 7, data: Vec::new() });
}

#[test]
fn each_index_sets_its_own_button() {
    let mut expected = Controller::new();
    assert_eq!(expected, Controller {
        left: false, down: false, right: false, up: false,
        b: false, a: false, select: false, start: false,
    });
    let mut controller = Controller::new();
    controller.set_controller_value(0, true);
    expected.left = true;
    assert_eq!(controller, expected);
    controller.set_controller_value(1, true);
    expected.down = true;
    assert_eq!(controller, expected);
    controller.set_controller_value(2, true);
    expected.right = true;
    assert_eq!(controller, expected);
    controller.set_controller_value(3, true);
    expected.up = true;
    assert_eq!(controller, expected);
    controller.set_controller_value(4, true);
    expected.b = true;
    assert_eq!(controller, expected);
    controller.set_controller_value(5, true);
    expected.a = true;
    assert_eq!(controller, expected);
    controller.set_controller_value(6, true);
    expected.select = true;
    assert_eq!(controller, expected);
    controller.set_controller_value(7, true);
    expected.start = true;
    assert_eq!(controller, expected);
    controller.set_controller_value(3, false);
    expected.up = false;
    assert_eq!(controller, expected);
}
