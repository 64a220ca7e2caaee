use timv::color::{blend, diff};

const BLACK: [u8; 4] = [0, 0, 0, 255];
const WHITE: [u8; 4] = [255, 255, 255, 255];

#[test]
fn blend_of_nothing_is_transparent_black() {
    assert_eq!(blend(&[]), [0, 0, 0, 0]);
}

#[test]
fn blend_of_one_color_is_that_color() {
    assert_eq!(blend(&[[12, 34, 56, 78]]), [12, 34, 56, 78]);
}

#[test]
fn blend_of_black_and_white_rounds_down() {
    assert_eq!(blend(&[BLACK, WHITE]), [127, 127, 127, 255]);
}

#[test]
fn blend_truncates_each_channel() {
    assert_eq!(blend(&[[10, 20, 30, 40], [11, 21, 31, 41]]), [10, 20, 30, 40]);
    assert_eq!(blend(&[[0, 0, 0, 0], [0, 0, 0, 0], [2, 3, 4, 5]]), [0, 1, 1, 1]);
}

#[test]
fn blend_of_three_takes_thirds() {
    assert_eq!(blend(&[WHITE, WHITE, BLACK]), [170, 170, 170, 255]);
    assert_eq!(blend(&[BLACK, BLACK, WHITE]), [85, 85, 85, 255]);
}

#[test]
fn blend_averages_channels_independently() {
    let colors = [[0, 100, 200, 255], [100, 0, 50, 0], [200, 50, 0, 1], [100, 50, 150, 0]];
    assert_eq!(blend(&colors), [100, 50, 100, 64]);
}

#[test]
fn blend_of_identical_colors_is_exact() {
    let colors = [
        [0, 0, 0, 0],
        [1, 2, 3, 4],
        [85, 170, 254, 255],
        [255, 255, 255, 255],
        [7, 77, 177, 3],
    ];
    for c in colors {
        for n in 1..40 {
            assert_eq!(blend(&vec![c; n]), c);
        }
    }
}

#[test]
fn blend_does_not_depend_on_order() {
    let a = [3, 200, 17, 9];
    let b = [250, 1, 18, 255];
    let c = [100, 100, 100, 100];
    assert_eq!(blend(&[a, b, c]), blend(&[c, a, b]));
    assert_eq!(blend(&[a, b, c]), [117, 100, 45, 121]);
}

#[test]
fn diff_of_a_color_with_itself_is_zero() {
    for c in [BLACK, WHITE, [1, 2, 3, 4], [200, 100, 50, 0]] {
        assert_eq!(diff(c, c), 0);
    }
}

#[test]
fn diff_sums_squares_over_red_green_blue() {
    assert_eq!(diff([1, 2, 3, 4], [4, 6, 3, 200]), 25);
    assert_eq!(diff([4, 6, 3, 200], [1, 2, 3, 4]), 25);
    assert_eq!(diff([10, 0, 0, 0], [0, 0, 0, 0]), 100);
    assert_eq!(diff([0, 10, 0, 0], [0, 0, 0, 0]), 100);
    assert_eq!(diff([0, 0, 10, 0], [0, 0, 0, 0]), 100);
}

#[test]
fn diff_ignores_alpha() {
    assert_eq!(diff([9, 9, 9, 0], [9, 9, 9, 255]), 0);
}

#[test]
fn diff_of_black_and_white_is_the_largest() {
    assert_eq!(diff(BLACK, WHITE), 195075);
    assert_eq!(diff(WHITE, BLACK), 195075);
}
