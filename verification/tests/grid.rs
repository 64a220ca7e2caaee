use timv::{Image, Pixel};

fn cell(ch: char, shade: u8) -> Pixel {
    Pixel { fg: [shade, 0, 0, 255], bg: [0, shade, 0, 255], ch }
}

fn sample_grid() -> Image {
    let pixels = vec![
        cell('a', 1),
        cell('b', 2),
        cell('c', 3),
        cell('d', 4),
        cell('e', 5),
        cell('f', 6),
    ];
    Image { size: (3, 2), pixels }
}

fn glyphs(image: &Image) -> String {
    image.pixels.iter().map(|p| p.ch).collect()
}

#[test]
fn index_is_row_major() {
    let grid = sample_grid();
    assert_eq!(grid[(0, 0)].ch, 'a');
    assert_eq!(grid[(1, 0)].ch, 'b');
    assert_eq!(grid[(2, 0)].ch, 'c');
    assert_eq!(grid[(0, 1)].ch, 'd');
    assert_eq!(grid[(1, 1)].ch, 'e');
    assert_eq!(grid[(2, 1)].ch, 'f');
    assert_eq!(grid[(2, 1)].fg, [6, 0, 0, 255]);
    assert_eq!(grid[(2, 1)].bg, [0, 6, 0, 255]);
}

#[test]
fn sub_image_of_everything_is_a_copy() {
    let grid = sample_grid();
    let sub = grid.sub_image(0..3, 0..2);
    assert_eq!(sub.size, (3, 2));
    assert_eq!(glyphs(&sub), "abcdef");
}

#[test]
fn sub_image_keeps_the_order_of_the_cells() {
    let grid = sample_grid();
    let sub = grid.sub_image(1..3, 0..2);
    assert_eq!(sub.size, (2, 2));
    assert_eq!(glyphs(&sub), "bcef");
    assert_eq!(sub[(0, 0)].ch, 'b');
    assert_eq!(sub[(1, 1)].ch, 'f');
    assert_eq!(sub[(1, 1)].fg, [6, 0, 0, 255]);
}

#[test]
fn sub_image_of_one_row_or_one_cell() {
    let grid = sample_grid();
    let row = grid.sub_image(0..3, 1..2);
    assert_eq!(row.size, (3, 1));
    assert_eq!(glyphs(&row), "def");
    let one = grid.sub_image(1..2, 1..2);
    assert_eq!(one.size, (1, 1));
    assert_eq!(glyphs(&one), "e");
}

#[test]
fn sub_image_of_an_empty_range_is_empty() {
    let grid = sample_grid();
    let none = grid.sub_image(1..1, 0..2);
    assert_eq!(none.size, (0, 2));
    assert!(none.pixels.is_empty());
    let none = grid.sub_image(0..3, 2..2);
    assert_eq!(none.size, (3, 0));
    assert!(none.pixels.is_empty());
}

#[test]
fn sub_image_leaves_the_grid_as_it_was() {
    let grid = sample_grid();
    let _ = grid.sub_image(1..2, 0..1);
    assert_eq!(grid.size, (3, 2));
    assert_eq!(glyphs(&grid), "abcdef");
}

#[test]
fn sub_image_has_one_cell_for_each_position() {
    let grid = sample_grid();
    for x0 in 0..=3u32 {
        for x1 in x0..=3 {
            for y0 in 0..=2u32 {
                for y1 in y0..=2 {
                    let sub = grid.sub_image(x0..x1, y0..y1);
                    assert_eq!(sub.size, (x1 - x0, y1 - y0));
                    assert_eq!(sub.pixels.len() as u32, sub.size.0 * sub.size.1);
                }
            }
        }
    }
}
