use nds_hal::console::Console;

#[test]
fn printing_places_glyphs_and_advances_the_cursor() {
    let mut con = Console::new();
    con.print("AB");
    assert_eq!(con.get_cursor_pos(), (2, 0));
    let grid = snapshot(&mut con);
    assert_eq!(grid[0], 65);
    assert_eq!(grid[1], 66);
    assert_eq!(grid[2], 32);
}

#[test]
fn newline_moves_to_the_start_of_the_next_row() {
    let mut con = Console::new();
    con.print("A\nB");
    assert_eq!(con.get_cursor_pos(), (1, 1));
    let grid = snapshot(&mut con);
    assert_eq!(grid[0], 65);
    assert_eq!(grid[1], 32);
    assert_eq!(grid[32], 66);
}

#[test]
fn long_lines_wrap_at_the_right_edge() {
    let mut con = Console::new();
    let line: String = std::iter::repeat('x').take(33).collect();
    con.print(&line);
    assert_eq!(con.get_cursor_pos(), (1, 1));
    let grid = snapshot(&mut con);
    assert_eq!(grid[31], 120);
    assert_eq!(grid[32], 120);
    assert_eq!(grid[33], 32);
}

#[test]
fn unprintable_bytes_become_the_placeholder_glyph() {
    let mut con = Console::new();
    con.print("\u{7}a\u{1F}");
    let grid = snapshot(&mut con);
    assert_eq!(grid[0], 0);
    assert_eq!(grid[1], 97);
    assert_eq!(grid[2], 0);
}

#[test]
fn cursor_coordinates_are_masked_onto_the_grid() {
    let mut con = Console::new();
    con.set_cursor_pos(40, 33);
    assert_eq!(con.get_cursor_pos(), (8, 1));
    con.set_cursor_pos(31, 31);
    assert_eq!(con.get_cursor_pos(), (31, 31));
}

#[test]
fn output_past_the_bottom_is_dropped() {
    let mut con = Console::new();
    for _ in 0..33 {
        con.print("\n");
    }
    let before = con.get_cursor_pos();
    con.print("hello");
    assert_eq!(con.get_cursor_pos(), before);
    let grid = snapshot(&mut con);
    assert!(grid.iter().all(|&t| t == 32));
}

fn snapshot(con: &mut Console) -> Vec<u16> {
    con.grid_copy()
}
