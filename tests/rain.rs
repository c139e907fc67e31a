use matrix_rain::droplet::MatrixDroplet;
use matrix_rain::glyphs::get_matrix_codes;
use matrix_rain::line::MatrixLine;
use matrix_rain::matrix::Matrix;
use matrix_rain::paint::{render_paints, Ink, Paint};
use rand::rngs::StdRng;
use rand::SeedableRng;

#[test]
fn tail_clears_top_once_fallen_its_length() {
    let d = MatrixDroplet::from_parts(1, 5, 3, 2);
    assert!(d.touch_top());
    let d = MatrixDroplet::from_parts(1, 4, 3, 2);
    assert!(!d.touch_top());
}

#[test]
fn past_bottom_needs_a_full_length_margin() {
    assert!(!MatrixDroplet::from_parts(1, 27, 5, 3).should_drop(20));
    assert!(!MatrixDroplet::from_parts(1, 28, 5, 3).should_drop(20));
    assert!(MatrixDroplet::from_parts(1, 29, 5, 3).should_drop(20));
}

#[test]
fn advance_above_the_screen_leaves_the_buffer() {
    let mut rng = StdRng::seed_from_u64(1);
    let mut d = MatrixDroplet::from_parts(1, -3, 2, 1);
    let mut buffer = ['a', 'b'];
    let changed = d.update(&mut buffer, &['x'], 10, &mut rng);
    assert!(!changed);
    assert_eq!(d.head_row(), -2);
    assert_eq!(buffer, ['a', 'b']);
}

#[test]
fn advance_onto_the_screen_shifts_the_head_glyph() {
    let mut rng = StdRng::seed_from_u64(1);
    let mut d = MatrixDroplet::from_parts(1, -1, 2, 1);
    let mut buffer = ['a', 'b'];
    let changed = d.update(&mut buffer, &['x'], 10, &mut rng);
    assert!(changed);
    assert_eq!(d.head_row(), 0);
    assert_eq!(buffer, ['b', 'x']);
}

#[test]
fn advance_below_the_screen_leaves_the_buffer() {
    let mut rng = StdRng::seed_from_u64(1);
    let mut d = MatrixDroplet::from_parts(1, 9, 2, 1);
    let mut buffer = ['a', 'b'];
    assert!(d.update(&mut buffer, &['x'], 10, &mut rng));
    assert_eq!(d.head_row(), 10);
    assert_eq!(buffer, ['a', 'b']);
}

#[test]
fn head_row_rises_by_one_per_advance() {
    let mut rng = StdRng::seed_from_u64(3);
    let codes = get_matrix_codes();
    let mut d = MatrixDroplet::from_parts(1, -4, 3, 2);
    let mut buffer = [' ', ' '];
    for step in 1..=30 {
        d.update(&mut buffer, &codes, 10, &mut rng);
        assert_eq!(d.head_row(), -4 + step);
        assert_eq!(d.body_length(), 3);
        assert_eq!(d.gap_length(), 2);
        assert_eq!(d.column(), 1);
    }
}

#[test]
fn droplet_draw_paints_trail_body_and_head() {
    let d = MatrixDroplet::from_parts(3, 5, 2, 1);
    let ps = d.draw(&['a', 'b'], 10);
    assert_eq!(
        ps,
        vec![
            Paint { col: 3, row: 3, ink: Ink::Blank, glyph: ' ' },
            Paint { col: 3, row: 5, ink: Ink::Body, glyph: 'a' },
            Paint { col: 3, row: 6, ink: Ink::Head, glyph: 'b' },
        ]
    );
}

#[test]
fn droplet_draw_at_top_row_and_above() {
    let d = MatrixDroplet::from_parts(3, 0, 2, 1);
    assert_eq!(d.draw(&['a', 'b'], 10), vec![Paint { col: 3, row: 1, ink: Ink::Head, glyph: 'b' }]);
    let d = MatrixDroplet::from_parts(3, -1, 2, 1);
    assert!(d.draw(&['a', 'b'], 10).is_empty());
}

#[test]
fn droplet_draw_past_the_last_row() {
    let d = MatrixDroplet::from_parts(3, 10, 2, 1);
    assert_eq!(
        d.draw(&['a', 'b'], 10),
        vec![
            Paint { col: 3, row: 8, ink: Ink::Blank, glyph: ' ' },
            Paint { col: 3, row: 10, ink: Ink::Body, glyph: 'a' },
        ]
    );
    let d = MatrixDroplet::from_parts(3, 13, 2, 1);
    assert!(d.draw(&['a', 'b'], 10).is_empty());
}

#[test]
fn paints_become_terminal_text() {
    let ps = vec![
        Paint { col: 3, row: 12, ink: Ink::Blank, glyph: ' ' },
        Paint { col: 3, row: 5, ink: Ink::Body, glyph: 'a' },
        Paint { col: 41, row: 6, ink: Ink::Head, glyph: 'b' },
    ];
    assert_eq!(
        render_paints(&ps),
        "\x1b[12;3H  \x1b[5;3H\x1b[38;5;2ma \x1b[6;41H\x1b[38;5;7mb "
    );
    assert_eq!(render_paints(&vec![]), "");
}

#[test]
fn alphabet_is_ascii_then_katakana() {
    let codes = get_matrix_codes();
    assert_eq!(codes.len(), 148);
    assert_eq!(codes[0], '!');
    assert_eq!(codes[92], '}');
    assert_eq!(codes[93], '\u{FF66}');
    assert_eq!(codes[147], '\u{FF9C}');
}

#[test]
fn fresh_droplet_shape_follows_the_height() {
    let mut rng = StdRng::seed_from_u64(11);
    for _ in 0..200 {
        let d = MatrixDroplet::new(5, 20, &mut rng);
        assert_eq!(d.column(), 5);
        assert!((10..=20).contains(&d.body_length()));
        assert!((6..=10).contains(&d.gap_length()));
        assert!((-10..=0).contains(&d.head_row()));
    }
    let d = MatrixDroplet::new(1, 0, &mut rng);
    assert_eq!(d.body_length(), 1);
    assert_eq!(d.gap_length(), 0);
    assert_eq!(d.head_row(), 0);
}

#[test]
fn same_seed_same_line() {
    let mut a = StdRng::seed_from_u64(42);
    let mut b = StdRng::seed_from_u64(42);
    let la = MatrixLine::new(24, 7, 0, &mut a);
    let lb = MatrixLine::new(24, 7, 0, &mut b);
    assert_eq!(la.get_speed(), lb.get_speed());
    assert_eq!(la.droplet(0), lb.droplet(0));
    assert!((38_000_000..=60_000_000).contains(&la.get_speed()));
    assert_eq!(la.get_speed() % 1_000_000, 0);
    assert_eq!(la.droplet_count(), 1);
    assert!(!la.is_dirty());
}

#[test]
fn line_waits_for_its_pace() {
    let mut rng = StdRng::seed_from_u64(5);
    let codes = get_matrix_codes();
    let d = MatrixDroplet::from_parts(1, -2, 3, 2);
    let mut line = MatrixLine::from_parts(10, 1, 1000, 500, d);
    line.update(1499, &codes, &mut rng);
    assert!(!line.is_dirty());
    assert_eq!(line.droplet(0).unwrap().head_row(), -2);
    line.update(100, &codes, &mut rng);
    assert!(!line.is_dirty());
    line.update(1500, &codes, &mut rng);
    assert!(line.is_dirty());
    assert_eq!(line.droplet(0).unwrap().head_row(), -1);
}

#[test]
fn draw_only_after_a_change() {
    let mut rng = StdRng::seed_from_u64(5);
    let d = MatrixDroplet::from_parts(1, 3, 3, 2);
    let mut line = MatrixLine::from_parts(10, 1, 0, 0, d);
    assert!(line.draw().is_empty());
    line.update(1, &['x'], &mut rng);
    assert!(line.is_dirty());
    let ps = line.draw();
    assert!(!line.is_dirty());
    assert_eq!(
        ps,
        vec![
            Paint { col: 1, row: 1, ink: Ink::Blank, glyph: ' ' },
            Paint { col: 1, row: 4, ink: Ink::Body, glyph: ' ' },
            Paint { col: 1, row: 5, ink: Ink::Head, glyph: 'x' },
        ]
    );
    assert!(line.draw().is_empty());
}

#[test]
fn buffer_cells_are_bounds_checked() {
    let d = MatrixDroplet::from_parts(1, 0, 3, 2);
    let line = MatrixLine::from_parts(10, 1, 0, 0, d);
    assert_eq!(line.cell(0), Some(' '));
    assert_eq!(line.cell(1), Some(' '));
    assert_eq!(line.cell(2), None);
    assert!(line.droplet(1).is_none());
}

#[test]
fn single_droplet_lifecycle() {
    let mut rng = StdRng::seed_from_u64(9);
    let codes = get_matrix_codes();
    let first = MatrixDroplet::from_parts(1, -1, 3, 2);
    let mut line = MatrixLine::from_parts(10, 1, 0, 0, first);
    let mut now: u64 = 0;
    now += 1;
    line.update(now, &codes, &mut rng);
    assert_eq!(line.droplet(0).unwrap().head_row(), 0);
    assert_eq!(line.droplet_count(), 1);
    while line.droplet(0).unwrap().head_row() < 9 {
        now += 1;
        line.update(now, &codes, &mut rng);
        assert!(line.droplet_count() >= 1);
    }
    assert!(line.droplet(0).unwrap().touch_top());
    assert!(line.droplet_count() >= 2);
    let second = line.droplet(1).unwrap();
    assert!(second.head_row() < 9);
    while line.droplet(0).unwrap().head_row() < 15 {
        now += 1;
        line.update(now, &codes, &mut rng);
    }
    assert_eq!(line.droplet(0).unwrap().body_length(), 3);
    assert!(!line.droplet(0).unwrap().should_drop(10));
    now += 1;
    line.update(now, &codes, &mut rng);
    assert_eq!(line.droplet(0).unwrap().head_row(), second.head_row() + 7);
    assert!(line.droplet_count() >= 1);
}

#[test]
fn field_has_a_column_every_other_column() {
    let mut rng = StdRng::seed_from_u64(2);
    let codes = get_matrix_codes();
    let m = Matrix::new(10, 5, codes, 0, &mut rng);
    assert_eq!(m.line_count(), 5);
    let mut least = u32::MAX;
    for k in 0..5 {
        let l = m.line(k).unwrap();
        assert_eq!(l.droplet(0).unwrap().column(), 2 * k as i32 + 1);
        least = least.min(l.get_speed());
    }
    assert!(m.line(5).is_none());
    assert_eq!(m.update_rate(), least);
}

#[test]
fn narrow_fields() {
    let mut rng = StdRng::seed_from_u64(2);
    let m = Matrix::new(1, 5, get_matrix_codes(), 0, &mut rng);
    assert_eq!(m.line_count(), 0);
    assert_eq!(m.update_rate(), 700_000_000);
    let m = Matrix::new(2, 5, get_matrix_codes(), 0, &mut rng);
    assert_eq!(m.line_count(), 1);
    let m = Matrix::new(3, 5, get_matrix_codes(), 0, &mut rng);
    assert_eq!(m.line_count(), 1);
}

#[test]
fn field_draws_changed_columns_once() {
    let mut rng = StdRng::seed_from_u64(4);
    let mut m = Matrix::new(20, 8, get_matrix_codes(), 0, &mut rng);
    assert!(m.draw().is_empty());
    m.update(10, &mut rng);
    for k in 0..m.line_count() {
        assert!(!m.line(k).unwrap().is_dirty());
    }
    m.update(60_000_000, &mut rng);
    for k in 0..m.line_count() {
        assert!(m.line(k).unwrap().is_dirty());
    }
    let _ = m.draw();
    for k in 0..m.line_count() {
        assert!(!m.line(k).unwrap().is_dirty());
    }
    assert!(m.draw().is_empty());
}
