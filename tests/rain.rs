use matrix_rain::cell::Cell;
use matrix_rain::color::{gradient, tint, Hue, Rgb, Tail};
use matrix_rain::matrix::{command_for, Command, Matrix};
use matrix_rain::render::{glyph_at, generate_random_str, plan_frame, Stroke, BLANK};

const BLACK: Rgb = Rgb { r: 0, g: 0, b: 0 };

fn rain(cols: u16, rows: u16, max_cells: usize) -> Matrix {
    Matrix::new(cols, rows, BLACK, 70, max_cells, 30, Hue::Blue)
}

fn strokes(m: &Matrix) -> Vec<Stroke> {
    plan_frame(&m.cells, m.tail.length, m.cols, m.rows)
}

fn is_glyph(g: u8) -> bool {
    g.is_ascii_alphabetic()
}

#[test]
fn tail_follows_cell_over_ticks() {
    let mut m = rain(80, 30, 100);
    assert_eq!(m.tail.length, 10);
    assert!(m.admit_cell(5, 0));
    for _ in 0..5 {
        m.tick();
    }
    let c = m.cells[0];
    assert_eq!((c.y, c.distance, c.alive), (5, 5, true));
    assert_eq!(c.visible(m.tail.length), 5);
    let expected: Vec<Stroke> = (0..5u16)
        .map(|k| Stroke::Paint { col: 5, row: 1 + k, shade: k })
        .collect();
    assert_eq!(strokes(&m), expected);
    for _ in 0..7 {
        m.tick();
    }
    let c = m.cells[0];
    assert_eq!((c.y, c.distance), (12, 12));
    let s = strokes(&m);
    let erases: Vec<&Stroke> = s.iter().filter(|s| matches!(s, Stroke::Erase { .. })).collect();
    assert_eq!(erases, vec![&Stroke::Erase { col: 5, row: 1 }]);
    assert_eq!(s.len(), 11);
    assert_eq!(s[0], Stroke::Paint { col: 5, row: 3, shade: 0 });
    assert_eq!(s[9], Stroke::Paint { col: 5, row: 12, shade: 9 });
}

#[test]
fn spawn_at_capacity_keeps_pool() {
    let mut m = rain(80, 30, 1);
    assert!(m.admit_cell(3, 2));
    let before = m.cells.clone();
    m.spawn();
    m.spawn();
    assert_eq!(m.cells.len(), 1);
    assert_eq!(m.cells, before);
}

#[test]
fn cell_dies_on_reaching_rows() {
    let mut m = rain(80, 30, 100);
    m.cells.push(Cell { distance: 28, alive: true, x: 7, y: 28 });
    m.tick();
    assert!(m.cells[0].alive);
    assert_eq!(m.cells[0].y, 29);
    m.tick();
    assert!(!m.cells[0].alive);
    assert_eq!(m.cells[0].y, 30);
    assert_eq!(strokes(&m), vec![Stroke::Erase { col: 7, row: 20 }]);
    for _ in 0..20 {
        m.tick();
        assert!(!m.cells[0].alive);
    }
}

#[test]
fn distance_never_decreases() {
    let mut m = rain(40, 12, 10);
    assert!(m.admit_cell(1, 1));
    let mut last = 0u16;
    for _ in 0..40 {
        m.tick();
        let d = m.cells[0].distance;
        assert!(d >= last);
        assert!(m.cells[0].visible(m.tail.length) <= m.tail.length);
        last = d;
    }
}

#[test]
fn dead_cell_erased_once_per_frame_until_purged() {
    let mut m = rain(80, 30, 100);
    m.cells.push(Cell { distance: 30, alive: false, x: 4, y: 30 });
    for frame in 0..10u16 {
        let draws = m.print();
        assert_eq!(draws.len(), 1);
        assert_eq!((draws[0].col, draws[0].row, draws[0].glyph), (4, 20 + frame, BLANK));
        assert_eq!(m.cells.len(), 1);
        m.tick();
    }
    assert_eq!(m.cells[0].y, 40);
    let draws = m.print();
    assert!(draws.is_empty());
    assert!(m.cells.is_empty());
}

#[test]
fn spawn_adds_fresh_cells_within_cap() {
    let mut m = rain(80, 30, 5);
    m.spawn();
    assert!(!m.cells.is_empty());
    assert!(m.cells.len() <= 5);
    for c in &m.cells {
        assert_eq!(c.distance, 0);
        assert!(c.alive);
        assert!(c.x < 80);
        assert!(c.y <= 3);
    }
    for _ in 0..20 {
        m.spawn();
        assert!(m.cells.len() <= 5);
    }
    assert_eq!(m.cells.len(), 5);
}

#[test]
fn spawn_on_empty_screen_does_nothing() {
    let mut m = rain(0, 30, 5);
    m.spawn();
    assert!(m.cells.is_empty());
    let mut m = rain(80, 0, 5);
    m.spawn();
    assert!(m.cells.is_empty());
}

#[test]
fn recolor_keeps_length_and_cells() {
    let mut m = rain(80, 30, 100);
    assert!(m.admit_cell(2, 2));
    m.tick();
    let cells = m.cells.clone();
    m.recolor(Hue::Red);
    assert_eq!(m.tail.length, 10);
    assert_eq!(m.tail.gradiant_colors.len(), 10);
    assert_eq!(m.cells, cells);
    assert_eq!(m.tail.gradiant_colors[9], Rgb { r: 220, g: 0, b: 0 });
}

#[test]
fn print_twice_plans_same_strokes() {
    let mut m = rain(80, 30, 100);
    assert!(m.admit_cell(2, 0));
    for _ in 0..14 {
        m.tick();
    }
    m.cells.push(Cell { distance: 35, alive: false, x: 9, y: 35 });
    m.cells.push(Cell { distance: 45, alive: false, x: 8, y: 45 });
    let first = m.print();
    let second = m.print();
    assert_eq!(first.len(), 12);
    assert_eq!(first.len(), second.len());
    for (a, b) in first.iter().zip(second.iter()) {
        assert_eq!((a.col, a.row, a.fg, a.bg), (b.col, b.row, b.fg, b.bg));
    }
    assert_eq!(m.cells.len(), 2);
}

#[test]
fn gradient_blue_ramp() {
    let g = gradient(Hue::Blue, 10);
    assert_eq!(g.len(), 10);
    assert_eq!(g[0], Rgb { r: 0, g: 0, b: 22 });
    assert_eq!(g[4], Rgb { r: 0, g: 0, b: 110 });
    assert_eq!(g[9], Rgb { r: 0, g: 0, b: 220 });
    assert_eq!(gradient(Hue::Green, 3)[1], Rgb { r: 0, g: 146, b: 0 });
    assert!(gradient(Hue::Red, 0).is_empty());
    assert_eq!(tint(Hue::Green, 7), Rgb { r: 0, g: 7, b: 0 });
}

#[test]
fn tail_length_at_least_one() {
    assert_eq!(Tail::new(0, Hue::Blue).length, 1);
    assert_eq!(Tail::new(2, Hue::Blue).length, 1);
    assert_eq!(Tail::new(3, Hue::Blue).length, 1);
    assert_eq!(Tail::new(31, Hue::Blue).length, 10);
    let t = Tail::new(2, Hue::Red);
    assert_eq!(t.gradiant_colors, vec![Rgb { r: 220, g: 0, b: 0 }]);
}

#[test]
fn glyph_alphabet() {
    assert_eq!(glyph_at(0), b'A');
    assert_eq!(glyph_at(25), b'Z');
    assert_eq!(glyph_at(26), b'a');
    assert_eq!(glyph_at(51), b'z');
    for _ in 0..200 {
        assert!(is_glyph(generate_random_str()));
    }
}

#[test]
fn print_paints_in_gradient_colors() {
    let mut m = rain(80, 30, 100);
    assert!(m.admit_cell(6, 1));
    for _ in 0..3 {
        m.tick();
    }
    let draws = m.print();
    assert_eq!(draws.len(), 3);
    for (k, d) in draws.iter().enumerate() {
        assert_eq!(d.col, 6);
        assert_eq!(d.row, 2 + k as u16);
        assert_eq!(d.fg, m.tail.gradiant_colors[k]);
        assert_eq!(d.bg, BLACK);
        assert!(is_glyph(d.glyph));
    }
}

#[test]
fn fresh_cell_draws_nothing() {
    let mut m = rain(80, 30, 100);
    assert!(m.admit_cell(6, 1));
    assert!(m.print().is_empty());
    assert_eq!(m.cells.len(), 1);
}

#[test]
fn admit_cell_refuses_off_screen() {
    let mut m = rain(10, 10, 100);
    assert!(!m.admit_cell(10, 0));
    assert!(!m.admit_cell(0, 10));
    assert!(m.cells.is_empty());
}

#[test]
fn keys_map_to_commands() {
    assert_eq!(command_for('q'), Command::Quit);
    assert_eq!(command_for('p'), Command::TogglePause);
    assert_eq!(command_for('r'), Command::Recolor(Hue::Red));
    assert_eq!(command_for('g'), Command::Recolor(Hue::Green));
    assert_eq!(command_for('b'), Command::Recolor(Hue::Blue));
    assert_eq!(command_for('x'), Command::Ignore);
}

#[test]
fn keys_drive_the_rain() {
    let mut m = rain(80, 30, 100);
    assert!(m.handle_key('p'));
    assert!(m.paused);
    assert!(m.admit_cell(1, 1));
    assert!(m.frame().is_empty());
    assert_eq!(m.cells[0].distance, 0);
    assert!(m.handle_key('p'));
    assert!(!m.paused);
    assert!(m.handle_key('g'));
    assert_eq!(m.tail.gradiant_colors[9], Rgb { r: 0, g: 220, b: 0 });
    assert!(m.handle_key('z'));
    assert!(!m.handle_key('q'));
}

#[test]
fn frame_draws_then_spawns_then_ticks() {
    let mut m = rain(80, 30, 100);
    assert!(m.admit_cell(1, 5));
    let draws = m.frame();
    assert!(draws.is_empty());
    assert!(m.cells.len() >= 2);
    assert_eq!(m.cells[0], Cell { distance: 1, alive: true, x: 1, y: 6 });
    for c in &m.cells[1..] {
        assert_eq!(c.distance, 1);
        assert!(c.y >= 1 && c.y <= 4);
    }
}

#[test]
fn background_covers_screen() {
    let bg = Rgb { r: 1, g: 2, b: 3 };
    let m = Matrix::new(4, 3, bg, 70, 10, 30, Hue::Blue);
    let screen = m.clear_background();
    assert_eq!(screen.len(), 3);
    for (y, line) in screen.iter().enumerate() {
        assert_eq!(line.len(), 4);
        for (x, d) in line.iter().enumerate() {
            assert_eq!((d.col, d.row, d.glyph, d.fg, d.bg), (x as u16, y as u16, BLANK, bg, bg));
        }
    }
}
