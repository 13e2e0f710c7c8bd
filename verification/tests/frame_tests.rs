use ascii_cube::cube::{edges, vertices};
use ascii_cube::frame::{frame_points, frame_text};
use ascii_cube::line::WalkPoint;
use ascii_cube::screen::{Sample, Screen, CELLS, HEIGHT, WIDTH};

const CAMERA_DISTANCE: f32 = 60.0;
const ZOOM: f32 = 40.0;

fn rotate_x(i: f32, j: f32, k: f32, a: f32, b: f32, c: f32) -> f32 {
    j * a.sin() * b.sin() * c.cos() - k * a.cos() * b.sin() * c.cos()
        + j * a.cos() * c.sin()
        + k * a.sin() * c.sin()
        + i * b.cos() * c.cos()
}

fn rotate_y(i: f32, j: f32, k: f32, a: f32, b: f32, c: f32) -> f32 {
    j * a.cos() * c.cos() + k * a.sin() * c.cos() - j * a.sin() * b.sin() * c.sin()
        + k * a.cos() * b.sin() * c.sin()
        - i * b.cos() * c.sin()
}

fn rotate_z(i: f32, j: f32, k: f32, a: f32, b: f32) -> f32 {
    k * a.cos() * b.cos() - j * a.sin() * b.cos() + i * b.sin()
}

/// Rotates and projects a point: screen column, screen row, reciprocal depth.
fn project(x: f32, y: f32, z: f32, a: f32, b: f32, c: f32) -> (isize, isize, f32) {
    let rx = rotate_x(x, y, z, a, b, c);
    let ry = rotate_y(x, y, z, a, b, c);
    let rz = rotate_z(x, y, z, a, b) + CAMERA_DISTANCE;
    let ooz = 1.0 / rz;
    let xp = (WIDTH as f32 / 2.0 + ZOOM * ooz * rx * 2.0) as isize;
    let yp = (HEIGHT as f32 / 2.0 + ZOOM * ooz * ry) as isize;
    (xp, yp, ooz)
}

/// A rasterizer that keeps reciprocal depths as floats and walks the edges
/// itself; the library's frames are held against it.
fn float_frame(a: f32, b: f32, c: f32) -> Vec<char> {
    let corners = vertices();
    let mut z_buffer: Vec<f32> = vec![0.0; WIDTH * HEIGHT];
    let mut buffer: Vec<char> = vec![' '; WIDTH * HEIGHT];
    for (from, to) in edges() {
        let (x0, y0, z0) = (corners[from].x as f32, corners[from].y as f32, corners[from].z as f32);
        let (x1, y1, z1) = (corners[to].x as f32, corners[to].y as f32, corners[to].z as f32);
        let steps = ((x1 - x0).abs()).max((y1 - y0).abs()).max((z1 - z0).abs()) as usize;
        for i in 0..=steps {
            let t = i as f32 / steps as f32;
            let (xp, yp, ooz) =
                project(x0 + (x1 - x0) * t, y0 + (y1 - y0) * t, z0 + (z1 - z0) * t, a, b, c);
            let idx = xp + yp * WIDTH as isize;
            if idx >= 0 && (idx as usize) < WIDTH * HEIGHT {
                if ooz > z_buffer[idx as usize] {
                    z_buffer[idx as usize] = ooz;
                    buffer[idx as usize] = '0';
                }
            }
        }
    }
    buffer
}

fn sample_at(point: &WalkPoint, a: f32, b: f32, c: f32) -> Sample {
    let t = point.step as f32 / point.steps as f32;
    let (x0, y0, z0) = (point.from.x as f32, point.from.y as f32, point.from.z as f32);
    let (x1, y1, z1) = (point.to.x as f32, point.to.y as f32, point.to.z as f32);
    let (xp, yp, ooz) =
        project(x0 + (x1 - x0) * t, y0 + (y1 - y0) * t, z0 + (z1 - z0) * t, a, b, c);
    Sample::edge(xp as i64, yp as i64, ooz.to_bits())
}

fn library_frame(screen: &mut Screen, a: f32, b: f32, c: f32) -> Vec<char> {
    let samples: Vec<Sample> = frame_points().iter().map(|p| sample_at(p, a, b, c)).collect();
    screen.render(&samples);
    (0..CELLS).map(|cell| screen.glyph_at(cell)).collect()
}

#[test]
fn frame_has_twenty_one_samples_on_each_of_twelve_edges() {
    let points = frame_points();
    let corners = vertices();
    let pairs = edges();
    assert_eq!(points.len(), 252);
    for (e, (from, to)) in pairs.iter().enumerate() {
        for i in 0..21 {
            assert_eq!(
                points[e * 21 + i],
                WalkPoint { from: corners[*from], to: corners[*to], step: i as u32, steps: 20 }
            );
        }
    }
}

#[test]
fn frame_points_are_the_same_every_time() {
    assert_eq!(frame_points(), frame_points());
}

#[test]
fn rotation_by_zero_angles_keeps_every_corner() {
    for corner in vertices() {
        let (x, y, z) = (corner.x as f32, corner.y as f32, corner.z as f32);
        assert_eq!(rotate_x(x, y, z, 0.0, 0.0, 0.0), x);
        assert_eq!(rotate_y(x, y, z, 0.0, 0.0, 0.0), y);
        assert_eq!(rotate_z(x, y, z, 0.0, 0.0), z);
    }
}

#[test]
fn corner_at_zero_angles_lands_on_column_91_row_27() {
    let (xp, yp, ooz) = project(10.0, 10.0, 10.0, 0.0, 0.0, 0.0);
    assert_eq!(ooz, 1.0 / 70.0);
    assert!((ooz - 0.0142857).abs() < 1.0e-7);
    assert_eq!(xp, 91);
    assert_eq!(yp, 27);
    let mut screen = Screen::new();
    screen.plot(Sample::edge(xp as i64, yp as i64, ooz.to_bits()));
    assert_eq!(screen.glyph_at(91 + 27 * 160), '0');
    assert_eq!(screen.depth_at(91 + 27 * 160), ooz.to_bits() as i32);
    for cell in 0..CELLS {
        if cell != 4411 {
            assert_eq!(screen.glyph_at(cell), ' ');
            assert_eq!(screen.depth_at(cell), 0);
        }
    }
}

#[test]
fn reciprocal_depth_is_positive_and_falls_with_distance() {
    let mut previous = f32::INFINITY;
    let mut previous_key = i32::MAX;
    for tenth in 1..2000 {
        let z = tenth as f32 / 10.0;
        let ooz = 1.0 / z;
        assert!(ooz > 0.0);
        assert!(ooz < previous);
        let key = Sample::edge(0, 0, ooz.to_bits()).depth;
        assert!(key > 0);
        assert!(key < previous_key);
        previous = ooz;
        previous_key = key;
    }
}

#[test]
fn frame_at_zero_angles_matches_float_rasterizer() {
    let mut screen = Screen::new();
    let frame = library_frame(&mut screen, 0.0, 0.0, 0.0);
    assert_eq!(frame, float_frame(0.0, 0.0, 0.0));
    assert_eq!(frame[91 + 27 * 160], '0');
    assert!(frame.iter().filter(|g| **g == '0').count() > 40);
}

#[test]
fn frames_of_a_turning_cube_match_float_rasterizer() {
    let step: f32 = 0.6 * std::f32::consts::PI / 180.0;
    let mut screen = Screen::new();
    let (mut a, mut b, mut c) = (0.0f32, 0.0f32, 0.0f32);
    for _ in 0..300 {
        let frame = library_frame(&mut screen, a, b, c);
        assert_eq!(frame, float_frame(a, b, c));
        a += step;
        b += step;
        c += step;
    }
}

#[test]
fn frames_at_unequal_angles_match_float_rasterizer() {
    let mut screen = Screen::new();
    let angles: [(f32, f32, f32); 5] = [
        (0.3, 1.1, 2.9),
        (-0.7, 0.0, 4.0),
        (3.1415927, 1.5707964, 0.0),
        (100.0, -250.5, 17.25),
        (1.0e-3, 2.0e-3, 3.0e-3),
    ];
    for (a, b, c) in angles.iter() {
        let frame = library_frame(&mut screen, *a, *b, *c);
        assert_eq!(frame, float_frame(*a, *b, *c));
    }
}

#[test]
fn same_angles_give_the_same_frame_twice() {
    let mut screen = Screen::new();
    let first = library_frame(&mut screen, 0.4, 0.5, 0.6);
    let second = library_frame(&mut screen, 0.4, 0.5, 0.6);
    assert_eq!(first, second);
}

#[test]
fn text_of_a_blank_screen() {
    let screen = Screen::new();
    let text = frame_text(&screen);
    assert_eq!(text.len(), 3 + 44 * 161);
    let mut expected = String::from("\x1b[H");
    for _ in 0..44 {
        expected.push_str(&" ".repeat(160));
        expected.push('\n');
    }
    assert_eq!(text.iter().collect::<String>(), expected);
}

#[test]
fn text_starts_with_cursor_home() {
    let screen = Screen::new();
    let text = frame_text(&screen);
    assert_eq!(text[0], '\x1b');
    assert_eq!(text[1], '[');
    assert_eq!(text[2], 'H');
}

#[test]
fn text_breaks_the_line_after_every_row() {
    let mut screen = Screen::new();
    screen.plot(Sample { column: 0, row: 0, depth: 1, glyph: 'a' });
    screen.plot(Sample { column: 159, row: 0, depth: 1, glyph: 'b' });
    screen.plot(Sample { column: 0, row: 1, depth: 1, glyph: 'c' });
    screen.plot(Sample { column: 159, row: 43, depth: 1, glyph: 'd' });
    screen.plot(Sample { column: 91, row: 27, depth: 1, glyph: 'e' });
    let text = frame_text(&screen);
    assert_eq!(text[3], 'a');
    assert_eq!(text[3 + 159], 'b');
    assert_eq!(text[3 + 160], '\n');
    assert_eq!(text[3 + 161], 'c');
    assert_eq!(text[3 + 27 * 161 + 91], 'e');
    assert_eq!(text[3 + 43 * 161 + 159], 'd');
    assert_eq!(text[3 + 43 * 161 + 160], '\n');
    assert_eq!(text.len(), 3 + 43 * 161 + 161);
    let body: String = text[3..].iter().collect();
    let lines: Vec<&str> = body.split('\n').collect();
    assert_eq!(lines.len(), 45);
    assert_eq!(lines[44], "");
    for (row, line) in lines[..44].iter().enumerate() {
        assert_eq!(line.chars().count(), 160);
        for (column, glyph) in line.chars().enumerate() {
            assert_eq!(glyph, screen.glyph_at(row * 160 + column));
        }
    }
}
