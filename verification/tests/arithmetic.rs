use anaglyph::blend::blend;
use anaglyph::color::{Color, Coloring};
use anaglyph::geometry::{classify, half, magnitude, Direction};

const ALL: [Coloring; 8] = [
    Coloring::RedGreen,
    Coloring::RedBlue,
    Coloring::RedCyan,
    Coloring::Anachrome,
    Coloring::Mirachrome,
    Coloring::Trioscopic,
    Coloring::Colorcode3D,
    Coloring::MagentaCyan,
];

#[test]
fn division() {
    assert!(9 / 5 == 1);
}

#[test]
fn halving_rounds_toward_zero() {
    assert_eq!(half(0), 0);
    assert_eq!(half(1), 0);
    assert_eq!(half(-1), 0);
    assert_eq!(half(2), 1);
    assert_eq!(half(-2), -1);
    assert_eq!(half(9), 4);
    assert_eq!(half(-9), -4);
    assert_eq!(half(100), 50);
    assert_eq!(half(-14), -7);
    assert_eq!(half(isize::MAX), isize::MAX / 2);
    assert_eq!(half(isize::MIN), isize::MIN / 2);
}

#[test]
fn magnitude_is_absolute_value() {
    assert_eq!(magnitude(0), 0);
    assert_eq!(magnitude(7), 7);
    assert_eq!(magnitude(-7), 7);
    assert_eq!(magnitude(isize::MAX), isize::MAX as usize);
    assert_eq!(magnitude(isize::MIN), isize::MAX as usize + 1);
}

#[test]
fn direction_follows_signs() {
    assert_eq!(classify(0, 0), Direction::BottomRight);
    assert_eq!(classify(5, 0), Direction::BottomRight);
    assert_eq!(classify(0, 5), Direction::BottomRight);
    assert_eq!(classify(50, 10), Direction::BottomRight);
    assert_eq!(classify(35, -7), Direction::TopRight);
    assert_eq!(classify(0, -1), Direction::TopRight);
    assert_eq!(classify(-15, 4), Direction::BottomLeft);
    assert_eq!(classify(-1, 0), Direction::BottomLeft);
    assert_eq!(classify(-5, -1), Direction::TopLeft);
    assert_eq!(classify(isize::MIN, isize::MIN), Direction::TopLeft);
    assert_eq!(classify(isize::MAX, isize::MAX), Direction::BottomRight);
}

#[test]
fn direction_ignores_how_large_the_halves_are() {
    let samples: [isize; 7] = [isize::MIN, -40, -1, 0, 1, 40, isize::MAX];
    for &ax in &samples {
        for &ay in &samples {
            for &bx in &samples {
                for &by in &samples {
                    if (ax >= 0) == (bx >= 0) && (ay >= 0) == (by >= 0) {
                        assert_eq!(classify(ax, ay), classify(bx, by));
                    }
                }
            }
        }
    }
}

#[test]
fn offsets_of_one_halve_to_the_bottom_right() {
    assert_eq!(classify(half(-1), half(-1)), Direction::BottomRight);
    assert_eq!(classify(half(1), half(-1)), Direction::BottomRight);
}

#[test]
fn catalogue_holds_the_eight_pairs() {
    let red = Color { red: 255, green: 0, blue: 0 };
    let green = Color { red: 0, green: 255, blue: 0 };
    let blue = Color { red: 0, green: 0, blue: 255 };
    let pure_cyan = Color { red: 0, green: 255, blue: 255 };
    let dark_red = Color { red: 204, green: 0, blue: 0 };
    let cyan = Color { red: 153, green: 204, blue: 255 };
    let magenta = Color { red: 255, green: 0, blue: 255 };
    let amber = Color { red: 255, green: 191, blue: 0 };
    let dark_blue = Color { red: 0, green: 0, blue: 153 };
    let expected = [
        (red, green),
        (red, blue),
        (red, pure_cyan),
        (dark_red, cyan),
        (dark_red, cyan),
        (green, magenta),
        (amber, dark_blue),
        (magenta, pure_cyan),
    ];
    for (coloring, (left, right)) in ALL.iter().zip(expected.iter()) {
        let pair = coloring.pair();
        assert_eq!(pair.left, *left);
        assert_eq!(pair.right, *right);
    }
}

#[test]
fn anachrome_and_mirachrome_are_one_pair() {
    assert_eq!(Coloring::Anachrome.pair(), Coloring::Mirachrome.pair());
}

#[test]
fn intensities_lie_between_zero_and_one() {
    for coloring in ALL.iter() {
        let pair = coloring.pair();
        for channel in 0..3 {
            let left = pair.left.weight(channel) as f32 / 255.0;
            let right = pair.right.weight(channel) as f32 / 255.0;
            assert!((0.0..=1.0).contains(&left));
            assert!((0.0..=1.0).contains(&right));
        }
    }
}

#[test]
fn weight_picks_the_channel() {
    let color = Color::new(1, 2, 3);
    assert_eq!(color, Color { red: 1, green: 2, blue: 3 });
    assert_eq!(color.weight(0), 1);
    assert_eq!(color.weight(1), 2);
    assert_eq!(color.weight(2), 3);
}

#[test]
fn blend_exact_values() {
    assert_eq!(blend(0, 0, 255, 255), 0);
    assert_eq!(blend(255, 255, 255, 255), 255);
    assert_eq!(blend(255, 255, 0, 0), 0);
    assert_eq!(blend(255, 0, 255, 255), 127);
    assert_eq!(blend(0, 255, 255, 255), 127);
    assert_eq!(blend(15, 5, 255, 0), 7);
    assert_eq!(blend(1, 2, 204, 153), 1);
    assert_eq!(blend(1, 1, 204, 153), 0);
    assert_eq!(blend(200, 100, 204, 153), 110);
    assert_eq!(blend(255, 255, 191, 0), 95);
    assert_eq!(blend(255, 255, 0, 153), 76);
    assert_eq!(blend(10, 200, 255, 0), 5);
    assert_eq!(blend(10, 200, 0, 255), 100);
}

#[test]
fn blend_agrees_with_single_precision_arithmetic() {
    for coloring in ALL.iter() {
        let pair = coloring.pair();
        for channel in 0..3 {
            let w_left = pair.left.weight(channel);
            let w_right = pair.right.weight(channel);
            let f_left: f32 = w_left as f32 / 255.;
            let f_right: f32 = w_right as f32 / 255.;
            for v1 in 0..=255u8 {
                for v2 in 0..=255u8 {
                    let float = ((v1 as f32 * f_left) * 0.5 + (v2 as f32 * f_right) * 0.5) as u8;
                    assert_eq!(blend(v1, v2, w_left, w_right), float);
                }
            }
        }
    }
}
