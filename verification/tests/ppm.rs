use rusty_ray_tracer::asset_types::ppm::{
    decimal_text, get_colors_string_prefix, get_last_line_length, is_join_forming_long_line,
    should_start_new_line, COMPONENTS_PER_COLOR, PPM,
};
use rusty_ray_tracer::graphics2d::canvas::Canvas;

fn color(r: f32, g: f32, b: f32) -> [f32; 4] {
    [r, g, b, 1.0]
}

fn components(color: [f32; 4]) -> [u32; 3] {
    [color[0], color[1], color[2]]
        .map(|c| num::clamp(c, 0.0, 1.0))
        .map(|c| f32::round(c * 255.0) as u32)
}

fn ppm_from(canvas: &Canvas<[f32; 4]>) -> PPM {
    PPM::from_canvas(canvas, components)
}

#[test]
fn ppm_new() {
    {
        let ppm = PPM::new(16, 9, 255, vec![0u32; 432]);
        assert_eq!("P3", ppm.version);
        assert_eq!(16, ppm.width);
        assert_eq!(9, ppm.height);
        assert_eq!(255, ppm.max_color);
        assert_eq!(16 * 9 * 3, ppm.colors.len());
        assert!(ppm.colors.iter().all(|&c| c == 0u32));
    }
    {
        let ppm = ppm_from(&Canvas::new(16, 9));
        assert_eq!("P3", ppm.version);
        assert_eq!(16, ppm.width);
        assert_eq!(9, ppm.height);
        assert_eq!(255, ppm.max_color);
        assert_eq!(16 * 9 * 3, ppm.colors.len());
        assert!(ppm.colors.iter().all(|&c| c == 0u32));
    }
}

#[test]
fn new_with_data() {
    let mut canvas = Canvas::new(4, 3);
    canvas.set_pixel_at(0, 0, color(1.0, 0.0, 0.0));
    canvas.set_pixel_at(1, 1, color(0.0, 1.0, 0.0));
    canvas.set_pixel_at(2, 2, color(0.0, 0.0, 1.0));
    let ppm = ppm_from(&canvas);
    assert_eq!("P3", ppm.version);
    assert_eq!(4, ppm.width);
    assert_eq!(3, ppm.height);
    assert_eq!(255, ppm.max_color);
    assert_eq!(4 * 3 * 3, ppm.colors.len());

    assert_eq!(ppm.colors[0 * 3 + 0], 255);
    assert_eq!(ppm.colors[0 * 3 + 1], 0);
    assert_eq!(ppm.colors[0 * 3 + 2], 0);

    assert_eq!(ppm.colors[5 * 3 + 0], 0);
    assert_eq!(ppm.colors[5 * 3 + 1], 255);
    assert_eq!(ppm.colors[5 * 3 + 2], 0);

    assert_eq!(ppm.colors[10 * 3 + 0], 0);
    assert_eq!(ppm.colors[10 * 3 + 1], 0);
    assert_eq!(ppm.colors[10 * 3 + 2], 255);
}

#[test]
fn new_with_oor_data() {
    let mut canvas = Canvas::new(4, 3);
    canvas.set_pixel_at(0, 0, color(3.0, 0.5, -0.2));
    canvas.set_pixel_at(1, 1, color(-1.0, 1.5, 0.0));
    canvas.set_pixel_at(2, 2, color(-0.5, 0.2, 1.5));
    let ppm = ppm_from(&canvas);
    assert_eq!("P3", ppm.version);
    assert_eq!(4, ppm.width);
    assert_eq!(3, ppm.height);
    assert_eq!(255, ppm.max_color);
    assert_eq!(4 * 3 * 3, ppm.colors.len());

    assert_eq!(ppm.colors[0 * 3 + 0], 255);
    assert_eq!(ppm.colors[0 * 3 + 1], 128);
    assert_eq!(ppm.colors[0 * 3 + 2], 0);

    assert_eq!(ppm.colors[5 * 3 + 0], 0);
    assert_eq!(ppm.colors[5 * 3 + 1], 255);
    assert_eq!(ppm.colors[5 * 3 + 2], 0);

    assert_eq!(ppm.colors[10 * 3 + 0], 0);
    assert_eq!(ppm.colors[10 * 3 + 1], 51);
    assert_eq!(ppm.colors[10 * 3 + 2], 255);
}

#[test]
fn is_color_index_new_line() {
    let ppm = PPM::new(4, 3, 255, vec![0u32; 144]);
    let mut i = 0;
    for _y in 0..3 {
        assert_eq!(true, ppm.is_color_index_new_line(i));
        i += 1;
        for _o in 1..(4 * COMPONENTS_PER_COLOR) {
            assert_eq!(false, ppm.is_color_index_new_line(i));
            i += 1;
        }
    }
    assert_eq!(4 * 3 * 3, i);
}

#[test]
fn ppm_test() {
    {
        assert_eq!(0, get_last_line_length(&"".to_string()));
        assert_eq!(6, get_last_line_length(&"FooBar".to_string()));
        assert_eq!(3, get_last_line_length(&"Foo\nBar".to_string()));
        assert_eq!(0, get_last_line_length(&"Foo\nBar\n".to_string()));
        assert_eq!(
            23,
            get_last_line_length(
                &"P3\n4 3\n255\n0 0 0 0 0 0 0 0 0 0 0 0\n0 0 0 0 0 0 0 0 0 0 0 0".to_string()
            )
        );
    }
    {
        assert_eq!(
            false,
            is_join_forming_long_line(&"".to_string(), " 255".to_string().len())
        );
        assert_eq!(
            false,
            is_join_forming_long_line(&"FooBar".to_string(), " 255".to_string().len())
        );
        assert_eq!(
            false,
            is_join_forming_long_line(&"Foo\nBar".to_string(), " 255".to_string().len())
        );
        assert_eq!(
            false,
            is_join_forming_long_line(&"Foo\nBar\n".to_string(), " 255".to_string().len())
        );
        assert_eq!(
            false,
            is_join_forming_long_line(
                &"\
P3
4 3
255
0 0 0 0 0 0 0 0 0 0 0 0
0 0 0 0 0 0 0 0 0 0 0 0"
                    .to_string(),
                "255".to_string().len()
            )
        );
        assert_eq!(
            false,
            is_join_forming_long_line(
                &"\
P3
8 2
255
255 255 255 255 255 255 255 255 255 255 255 255 255 255 255 255 255
255 255 255 255 255 255 255 
255 255 255 255 255 255 255 255 255 255 255 255 255 255 255 255 255"
                    .to_string(),
                " 0".to_string().len()
            )
        );
        assert_eq!(
            true,
            is_join_forming_long_line(
                &"\
P3
8 2
255
255 255 255 255 255 255 255 255 255 255 255 255 255 255 255 255 255
255 255 255 255 255 255 255 
255 255 255 255 255 255 255 255 255 255 255 255 255 255 255 255 255"
                    .to_string(),
                " 16".to_string().len()
            )
        );
        assert_eq!(
            true,
            is_join_forming_long_line(
                &"\
P3
8 2
255
255 255 255 255 255 255 255 255 255 255 255 255 255 255 255 255 255
255 255 255 255 255 255 255 
255 255 255 255 255 255 255 255 255 255 255 255 255 255 255 255 255"
                    .to_string(),
                " 255".to_string().len()
            )
        );
    }
}

#[test]
fn start_new_line_for_new_row() {
    let ppm = PPM::new(4, 3, 255, vec![0u32; 144]);
    let mut acc = String::new();
    let mut i = 0;
    for _y in 0..3 {
        assert_eq!(true, should_start_new_line(&ppm, i, &acc, 4));
        acc += "\n255";
        i += 1;
        for _o in 1..4 * 3 {
            assert_eq!(false, should_start_new_line(&ppm, i, &acc, 4));
            acc += " 255";
            i += 1;
        }
    }
    assert_eq!(4 * 3 * 3, i);
}

#[test]
fn start_new_line_for_long_lines() {
    let ppm = PPM::new(8, 3, 255, vec![0u32; 144]);
    let mut acc = String::new();
    let mut i = 0;
    for _y in 0..3 {
        assert_eq!(true, should_start_new_line(&ppm, i, &acc, 4));
        acc += "\n255";
        i += 1;
        for o in 1..8 * 3 {
            let new_line = o == 17;
            assert_eq!(new_line, should_start_new_line(&ppm, i, &acc, 4));
            if new_line {
                acc += "\n255";
            } else {
                acc += " 255";
            }
            i += 1;
        }
    }
    assert_eq!(8 * 3 * 3, i);
}

#[test]
fn get_newline_for_new_row() {
    let ppm = PPM::new(4, 3, 255, vec![0u32; 144]);
    let mut acc = String::new();
    let mut i = 0;
    for _y in 0..3 {
        assert_eq!(
            "\n",
            get_colors_string_prefix(&ppm, i, &acc, &"255".to_string())
        );
        acc += "\n255";
        i += 1;
        for _o in 1..4 * 3 {
            assert_eq!(
                " ",
                get_colors_string_prefix(&ppm, i, &acc, &"255".to_string())
            );
            acc += " 255";
            i += 1;
        }
    }
    assert_eq!(4 * 3 * 3, i);
}

#[test]
fn get_newline_for_long_lines() {
    let ppm = PPM::new(8, 3, 255, vec![0u32; 144]);
    let mut acc = String::new();
    let mut i = 0;
    for _y in 0..3 {
        assert_eq!(
            "\n",
            get_colors_string_prefix(&ppm, i, &acc, &"255".to_string())
        );
        acc += "\n255";
        i += 1;
        for o in 1..8 * 3 {
            let new_line = if o == 17 { "\n" } else { " " };
            assert_eq!(
                new_line,
                get_colors_string_prefix(&ppm, i, &acc, &"255".to_string())
            );
            acc += &(new_line.to_owned() + "255");
            i += 1;
        }
    }
    assert_eq!(8 * 3 * 3, i);
}

#[test]
fn display_black() {
    let ppm = ppm_from(&Canvas::new(4, 3));
    let ppm_text = ppm.to_string();
    assert_eq!(
        "\
P3
4 3
255
0 0 0 0 0 0 0 0 0 0 0 0
0 0 0 0 0 0 0 0 0 0 0 0
0 0 0 0 0 0 0 0 0 0 0 0",
        ppm_text
    );
}

#[test]
fn display_with_data() {
    let mut canvas = Canvas::new(4, 3);
    canvas.set_pixel_at(0, 0, color(1.0, 0.0, 0.0));
    canvas.set_pixel_at(1, 1, color(0.0, 1.0, 0.0));
    canvas.set_pixel_at(2, 2, color(0.0, 0.0, 1.0));
    let ppm = ppm_from(&canvas);
    let ppm_text = ppm.to_string();
    assert_eq!(
        "\
P3
4 3
255
255 0 0 0 0 0 0 0 0 0 0 0
0 0 0 0 255 0 0 0 0 0 0 0
0 0 0 0 0 0 0 0 255 0 0 0",
        ppm_text
    );
}

#[test]
fn display_with_oor_data() {
    let mut canvas = Canvas::new(4, 3);
    canvas.set_pixel_at(0, 0, color(1.5, 0.0, 0.0));
    canvas.set_pixel_at(1, 1, color(0.0, 0.5, 0.0));
    canvas.set_pixel_at(2, 2, color(-0.5, 0.0, 1.0));
    let ppm = ppm_from(&canvas);
    let ppm_text = ppm.to_string();
    assert_eq!(
        "\
P3
4 3
255
255 0 0 0 0 0 0 0 0 0 0 0
0 0 0 0 128 0 0 0 0 0 0 0
0 0 0 0 0 0 0 0 255 0 0 0",
        ppm_text
    );
}

#[test]
fn display_with_long_line_data() {
    let mut canvas = Canvas::new(16, 16);
    for d in 0..16 {
        canvas.set_pixel_at(
            d,
            d,
            color(0.06666 * f32::from(d), 0.06666 * f32::from(15 - d), 0.0),
        );
    }
    let ppm = ppm_from(&canvas);
    let ppm_text = ppm.to_string();
    assert_eq!(
        "\
P3
16 16
255
0 255 0 0 0 0 0 0 0 0 0 0 0 0 0 0 0 0 0 0 0 0 0 0 0 0 0 0 0 0 0 0 0 0
0 0 0 0 0 0 0 0 0 0 0 0 0 0
0 0 0 17 238 0 0 0 0 0 0 0 0 0 0 0 0 0 0 0 0 0 0 0 0 0 0 0 0 0 0 0 0
0 0 0 0 0 0 0 0 0 0 0 0 0 0 0
0 0 0 0 0 0 34 221 0 0 0 0 0 0 0 0 0 0 0 0 0 0 0 0 0 0 0 0 0 0 0 0 0
0 0 0 0 0 0 0 0 0 0 0 0 0 0 0
0 0 0 0 0 0 0 0 0 51 204 0 0 0 0 0 0 0 0 0 0 0 0 0 0 0 0 0 0 0 0 0 0
0 0 0 0 0 0 0 0 0 0 0 0 0 0 0
0 0 0 0 0 0 0 0 0 0 0 0 68 187 0 0 0 0 0 0 0 0 0 0 0 0 0 0 0 0 0 0 0
0 0 0 0 0 0 0 0 0 0 0 0 0 0 0
0 0 0 0 0 0 0 0 0 0 0 0 0 0 0 85 170 0 0 0 0 0 0 0 0 0 0 0 0 0 0 0 0
0 0 0 0 0 0 0 0 0 0 0 0 0 0 0
0 0 0 0 0 0 0 0 0 0 0 0 0 0 0 0 0 0 102 153 0 0 0 0 0 0 0 0 0 0 0 0 0
0 0 0 0 0 0 0 0 0 0 0 0 0 0 0
0 0 0 0 0 0 0 0 0 0 0 0 0 0 0 0 0 0 0 0 0 119 136 0 0 0 0 0 0 0 0 0 0
0 0 0 0 0 0 0 0 0 0 0 0 0 0 0
0 0 0 0 0 0 0 0 0 0 0 0 0 0 0 0 0 0 0 0 0 0 0 0 136 119 0 0 0 0 0 0 0
0 0 0 0 0 0 0 0 0 0 0 0 0 0 0
0 0 0 0 0 0 0 0 0 0 0 0 0 0 0 0 0 0 0 0 0 0 0 0 0 0 0 153 102 0 0 0 0
0 0 0 0 0 0 0 0 0 0 0 0 0 0 0
0 0 0 0 0 0 0 0 0 0 0 0 0 0 0 0 0 0 0 0 0 0 0 0 0 0 0 0 0 0 170 85 0
0 0 0 0 0 0 0 0 0 0 0 0 0 0 0
0 0 0 0 0 0 0 0 0 0 0 0 0 0 0 0 0 0 0 0 0 0 0 0 0 0 0 0 0 0 0 0 0 187
68 0 0 0 0 0 0 0 0 0 0 0 0 0
0 0 0 0 0 0 0 0 0 0 0 0 0 0 0 0 0 0 0 0 0 0 0 0 0 0 0 0 0 0 0 0 0 0 0
0 204 51 0 0 0 0 0 0 0 0 0 0
0 0 0 0 0 0 0 0 0 0 0 0 0 0 0 0 0 0 0 0 0 0 0 0 0 0 0 0 0 0 0 0 0 0 0
0 0 0 0 221 34 0 0 0 0 0 0 0
0 0 0 0 0 0 0 0 0 0 0 0 0 0 0 0 0 0 0 0 0 0 0 0 0 0 0 0 0 0 0 0 0 0 0
0 0 0 0 0 0 0 238 17 0 0 0 0
0 0 0 0 0 0 0 0 0 0 0 0 0 0 0 0 0 0 0 0 0 0 0 0 0 0 0 0 0 0 0 0 0 0 0
0 0 0 0 0 0 0 0 0 0 255 0 0",
        ppm_text
    );
}

#[test]
fn picture_of_a_canvas_holds_three_components_for_each_pixel() {
    let mut canvas = Canvas::<u8>::new(3, 2);
    canvas.set_pixel_at(2, 0, 7);
    canvas.set_pixel_at(0, 1, 9);
    let ppm = PPM::from_canvas(&canvas, |p| [u32::from(p), u32::from(p) + 1, 100]);
    assert_eq!(3, ppm.width);
    assert_eq!(2, ppm.height);
    assert_eq!(255, ppm.max_color);
    assert_eq!(
        vec![0, 1, 100, 0, 1, 100, 7, 8, 100, 9, 10, 100, 0, 1, 100, 0, 1, 100],
        ppm.colors
    );
    assert_eq!("P3\n3 2\n255\n0 1 100 0 1 100 7 8 100\n9 10 100 0 1 100 0 1 100", ppm.to_string());
}

#[test]
fn display_of_a_picture_without_pixels_is_its_header() {
    assert_eq!("P3\n0 0\n255", PPM::new(0, 0, 255, vec![]).to_string());
    assert_eq!("P3\n7 0\n65535", PPM::new(7, 0, 65535, vec![]).to_string());
}

#[test]
fn decimal_text_writes_every_digit() {
    assert_eq!("0", decimal_text(0));
    assert_eq!("9", decimal_text(9));
    assert_eq!("10", decimal_text(10));
    assert_eq!("255", decimal_text(255));
    assert_eq!("1234567890", decimal_text(1_234_567_890));
    assert_eq!("4294967295", decimal_text(u32::MAX));
    for n in [0u32, 7, 42, 100, 999, 1000, 65535, 4_000_000_000] {
        assert_eq!(n.to_string(), decimal_text(n));
    }
}

#[test]
fn last_line_length_counts_bytes() {
    assert_eq!(2, get_last_line_length(&"\u{e9}".to_string()));
    assert_eq!(4, get_last_line_length(&"a\n\u{1F600}".to_string()));
    assert_eq!(0, get_last_line_length(&"\n".to_string()));
}

#[test]
fn long_line_starts_at_seventy_bytes() {
    let sixty_six = "x".repeat(66);
    assert_eq!(false, is_join_forming_long_line(&sixty_six, 3));
    assert_eq!(true, is_join_forming_long_line(&sixty_six, 4));
    assert_eq!(true, is_join_forming_long_line(&sixty_six, usize::MAX));
    let ppm = PPM::new(100, 1, 255, vec![]);
    assert_eq!(" ", get_colors_string_prefix(&ppm, 1, &sixty_six, &"25".to_string()));
    assert_eq!("\n", get_colors_string_prefix(&ppm, 1, &sixty_six, &"255".to_string()));
    assert_eq!("\n", get_colors_string_prefix(&ppm, 300, &"".to_string(), &"0".to_string()));
    assert_eq!(true, should_start_new_line(&ppm, 0, &"".to_string(), 0));
    assert_eq!(300, ppm.get_stride());
}
