use game_of_life::{Cell, Universe};

const ALIVE_GLYPH: char = '◼';
const DEAD_GLYPH: char = '◻';

#[test]
fn render_matches_cells_positionally() {
    let cells = vec![
        Cell::Alive,
        Cell::Dead,
        Cell::Dead,
        Cell::Dead,
        Cell::Alive,
        Cell::Alive,
    ];
    let u = Universe::from_cells(3, 2, cells.clone()).unwrap();
    let out = u.render_string();
    let lines: Vec<&str> = out.lines().collect();
    assert_eq!(lines.len(), 2);
    for (r, line) in lines.iter().enumerate() {
        let glyphs: Vec<char> = line.chars().collect();
        assert_eq!(glyphs.len(), 3);
        for (c, &g) in glyphs.iter().enumerate() {
            let expected = if cells[r * 3 + c] == Cell::Alive {
                ALIVE_GLYPH
            } else {
                DEAD_GLYPH
            };
            assert_eq!(g, expected);
        }
    }
}

#[test]
fn render_has_height_lines_of_width_glyphs() {
    let u = Universe::new();
    let out = u.render_string();
    let lines: Vec<&str> = out.lines().collect();
    assert_eq!(lines.len(), 90);
    for line in lines {
        assert_eq!(line.chars().count(), 160);
        for g in line.chars() {
            assert!(g == ALIVE_GLYPH || g == DEAD_GLYPH);
        }
    }
    assert!(out.ends_with('\n'));
}

#[test]
fn render_glyphs_are_distinct() {
    assert_ne!(ALIVE_GLYPH, DEAD_GLYPH);
    let u = Universe::from_cells(2, 1, vec![Cell::Alive, Cell::Dead]).unwrap();
    let out = u.render_string();
    let glyphs: Vec<char> = out.chars().collect();
    assert_eq!(glyphs.len(), 3);
    assert_ne!(glyphs[0], glyphs[1]);
    assert_eq!(glyphs[2], '\n');
}
