use rusty_ray_tracer::graphics2d::canvas::{get_2dbuffer_index, Canvas};

#[test]
fn calc_2dbuffer_index() {
    assert_eq!(Some(0), get_2dbuffer_index(0, 0, 8, 8));
    assert_eq!(Some(1), get_2dbuffer_index(1, 0, 8, 8));
    assert_eq!(Some(8), get_2dbuffer_index(0, 1, 8, 8));
    assert_eq!(Some(9), get_2dbuffer_index(1, 1, 8, 8));
    assert_eq!(Some(63), get_2dbuffer_index(7, 7, 8, 8));
}

#[test]
fn buffer_index_outside_the_canvas() {
    assert_eq!(None, get_2dbuffer_index(8, 0, 8, 8));
    assert_eq!(None, get_2dbuffer_index(0, 8, 8, 8));
    assert_eq!(None, get_2dbuffer_index(0, 0, 0, 0));
    assert_eq!(
        Some(65534 * 65535 + 65534),
        get_2dbuffer_index(65534, 65534, 65535, 65535)
    );
}

#[test]
fn canvas_new() {
    let canvas = Canvas::<[f32; 4]>::new(10, 20);
    assert_eq!(10, canvas.width);
    assert_eq!(20, canvas.height);
    assert_eq!(200, canvas.raw_buffer.len());

    let canvas = Canvas::<[f32; 4]>::new(960, 540);
    assert_eq!(960, canvas.width);
    assert_eq!(540, canvas.height);
}

#[test]
fn canvas_debug_fmt() {
    let canvas = Canvas::<[f32; 4]>::new(2, 2);
    assert_eq!("Canvas { width: 2, height: 2, raw_buffer: [[0.0, 0.0, 0.0, 0.0], [0.0, 0.0, 0.0, 0.0], [0.0, 0.0, 0.0, 0.0], [0.0, 0.0, 0.0, 0.0]] }", format!("{:?}", canvas));
}

#[test]
fn canvas_pixels_are_blank_then_hold_what_is_set() {
    let mut canvas = Canvas::<[f32; 4]>::new(8, 8);
    for y in 0..canvas.height {
        for x in 0..canvas.width {
            assert_eq!([0.0, 0.0, 0.0, 0.0], canvas.get_pixel_at(x, y));
        }
    }
    canvas.set_pixel_at(3, 5, [1.0, 0.5, 0.25, 0.0]);
    for y in 0..canvas.height {
        for x in 0..canvas.width {
            let expected = if x == 3 && y == 5 {
                [1.0, 0.5, 0.25, 0.0]
            } else {
                [0.0, 0.0, 0.0, 0.0]
            };
            assert_eq!(expected, canvas.get_pixel_at(x, y));
        }
    }
    assert_eq!([1.0, 0.5, 0.25, 0.0], canvas.raw_buffer[5 * 8 + 3]);
}
