use spacesim::color::{hue_color, srgb_to_linear};

#[test]
fn srgb_to_linear_exact_values() {
    assert_eq!(srgb_to_linear(0), 0);
    assert_eq!(srgb_to_linear(40_000), 3_095);
    assert_eq!(srgb_to_linear(1_000_000), 1_000_000);
}

#[test]
fn red_hue_gives_a_red_color() {
    let c = hue_color(0);
    assert_eq!(c.green, c.blue);
    assert!(c.red > c.green);
    assert!(0 <= c.blue && c.red <= 1_000_000);
}

#[test]
fn primary_sectors_favor_their_channel() {
    let red = hue_color(0);
    assert!(red.red > red.green && red.red > red.blue);
    let green = hue_color(120_000_000);
    assert!(green.green > green.red && green.green > green.blue);
    let blue = hue_color(240_000_000);
    assert!(blue.blue > blue.red && blue.blue > blue.green);
}

#[test]
fn hue_colors_are_well_formed_everywhere() {
    for i in 0..36 {
        let c = hue_color(i * 10_000_000);
        assert!(0 <= c.red && c.red <= 1_000_000);
        assert!(0 <= c.green && c.green <= 1_000_000);
        assert!(0 <= c.blue && c.blue <= 1_000_000);
    }
}
