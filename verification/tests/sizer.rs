use timv::sizer::size;
use timv::{PixelizeError, Ratio, Spec};

fn square_cells(w: u32, h: u32) -> Spec {
    Spec::new(w, h).font(Ratio { num: 1, den: 1 })
}

#[test]
fn spec_new_has_the_defaults() {
    let spec = Spec::new(80, 24);
    assert_eq!(spec.size, (80, 24));
    assert_eq!(spec.font, Ratio { num: 1, den: 2 });
    assert_eq!(spec.block, 4);
}

#[test]
fn spec_updates_change_one_field() {
    let spec = Spec::new(80, 24);
    let sized = spec.size(10, 20);
    assert_eq!(sized.size, (10, 20));
    assert_eq!(sized.font, spec.font);
    assert_eq!(sized.block, spec.block);
    let shaped = spec.font(Ratio { num: 3, den: 7 });
    assert_eq!(shaped.size, spec.size);
    assert_eq!(shaped.font, Ratio { num: 3, den: 7 });
    assert_eq!(shaped.block, spec.block);
    let moded = spec.block(2);
    assert_eq!(moded.size, spec.size);
    assert_eq!(moded.font, spec.font);
    assert_eq!(moded.block, 2);
    assert_eq!(spec.size, (80, 24));
    assert_eq!(spec.block, 4);
}

#[test]
fn square_source_in_a_terminal_is_narrower_than_the_box() {
    assert_eq!(size(1000, 1000, Spec::new(80, 24)), Ok((48, 24)));
}

#[test]
fn wide_source_fills_the_width() {
    assert_eq!(size(2000, 500, Spec::new(80, 24)), Ok((80, 10)));
}

#[test]
fn height_is_truncated() {
    assert_eq!(size(300, 100, Spec::new(80, 24)), Ok((80, 13)));
}

#[test]
fn width_is_truncated() {
    assert_eq!(size(100, 700, Spec::new(80, 24)), Ok((6, 24)));
}

#[test]
fn tall_source_fills_the_height() {
    assert_eq!(size(100, 300, Spec::new(80, 24)), Ok((16, 24)));
}

#[test]
fn exact_fit_fills_both() {
    assert_eq!(size(80, 24, square_cells(80, 24)), Ok((80, 24)));
    assert_eq!(size(160, 48, square_cells(80, 24)), Ok((80, 24)));
}

#[test]
fn a_fraction_over_the_height_is_too_tall() {
    assert_eq!(size(160, 49, square_cells(80, 24)), Ok((78, 24)));
    assert_eq!(size(160, 48, square_cells(80, 24)), Ok((80, 24)));
    assert_eq!(size(160, 47, square_cells(80, 24)), Ok((80, 23)));
}

#[test]
fn very_flat_or_thin_sources_round_to_zero() {
    assert_eq!(size(1000, 1, square_cells(80, 24)), Ok((80, 0)));
    assert_eq!(size(1, 1000, square_cells(80, 24)), Ok((0, 24)));
}

#[test]
fn zero_anywhere_is_invalid() {
    let spec = Spec::new(80, 24);
    assert_eq!(size(0, 10, spec), Err(PixelizeError::InvalidDimensions));
    assert_eq!(size(10, 0, spec), Err(PixelizeError::InvalidDimensions));
    assert_eq!(size(10, 10, spec.size(0, 24)), Err(PixelizeError::InvalidDimensions));
    assert_eq!(size(10, 10, spec.size(80, 0)), Err(PixelizeError::InvalidDimensions));
    assert_eq!(
        size(10, 10, spec.font(Ratio { num: 0, den: 2 })),
        Err(PixelizeError::InvalidDimensions)
    );
    assert_eq!(
        size(10, 10, spec.font(Ratio { num: 1, den: 0 })),
        Err(PixelizeError::InvalidDimensions)
    );
    assert_eq!(size(0, 0, spec.size(0, 0)), Err(PixelizeError::InvalidDimensions));
}

#[test]
fn largest_numbers_do_not_overflow() {
    let max = u32::MAX;
    let spec = Spec::new(max, max).font(Ratio { num: max, den: max });
    assert_eq!(size(max, max, spec), Ok((max, max)));
    let spec = Spec::new(max, max).font(Ratio { num: max, den: 1 });
    assert_eq!(size(1, max, spec), Ok((0, max)));
    let spec = Spec::new(max, max).font(Ratio { num: 1, den: max });
    assert_eq!(size(max, 1, spec), Ok((max, 0)));
}

#[test]
fn size_stays_within_the_box_and_fills_one_side() {
    let boxes = [(80, 24), (1, 1), (7, 300), (300, 7), (1000, 1000)];
    let sources = [(1, 1), (1000, 1000), (1920, 1080), (1080, 1920), (3, 1000), (1000, 3), (17, 13)];
    let fonts = [(1, 2), (1, 1), (2, 1), (9, 20), (7, 3)];
    for (max_w, max_h) in boxes {
        for (image_w, image_h) in sources {
            for (num, den) in fonts {
                let spec = Spec::new(max_w, max_h).font(Ratio { num, den });
                let (w, h) = size(image_w, image_h, spec).unwrap();
                assert!(w <= max_w);
                assert!(h <= max_h);
                assert!(w == max_w || h == max_h);
            }
        }
    }
}
