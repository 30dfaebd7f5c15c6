use text_render::colourize::colourize;
use text_render::colours::{hex_digit_value, TextColour};

#[test]
fn new_keeps_all_four_channels() {
    let c = TextColour::new(1, 2, 3, 4);
    assert_eq!((c.r, c.g, c.b, c.a), (1, 2, 3, 4));
}

#[test]
fn new_rgb_is_opaque() {
    let c = TextColour::new_rgb(9, 8, 7);
    assert_eq!(c, TextColour::new(9, 8, 7, 255));
}

#[test]
fn from_hex_with_marker() {
    assert_eq!(TextColour::from_hex("#0A141E"), TextColour::new_rgb(10, 20, 30));
}

#[test]
fn from_hex_without_marker_and_lower_case() {
    assert_eq!(TextColour::from_hex("0a141e"), TextColour::new_rgb(10, 20, 30));
    assert_eq!(TextColour::from_hex("ffFF00"), TextColour::new(255, 255, 0, 255));
}

#[test]
fn from_hex_with_alpha_reads_four_pairs() {
    assert_eq!(TextColour::from_hex_with_alpha("0A141EFF"), TextColour::new(10, 20, 30, 255));
    assert_eq!(TextColour::from_hex_with_alpha("#01020304"), TextColour::new(1, 2, 3, 4));
}

#[test]
fn five_characters_are_too_few() {
    assert_eq!(TextColour::try_from_hex("0A141"), None);
    assert_eq!(TextColour::try_from_hex("#0A141"), None);
    assert_eq!(TextColour::try_from_hex(""), None);
    assert_eq!(TextColour::try_from_hex("#"), None);
}

#[test]
fn seven_characters_are_too_few_for_alpha() {
    assert_eq!(TextColour::try_from_hex_with_alpha("0A141EF"), None);
    assert_eq!(TextColour::try_from_hex_with_alpha("#0A141EF"), None);
}

#[test]
fn a_character_that_is_no_digit_is_refused() {
    assert_eq!(TextColour::try_from_hex("0G141E"), None);
    assert_eq!(TextColour::try_from_hex("+1+2+3"), None);
    assert_eq!(TextColour::try_from_hex("0A141\u{e9}"), None);
    assert_eq!(TextColour::try_from_hex_with_alpha("0A141E-1"), None);
}

#[test]
fn try_from_hex_agrees_with_from_hex() {
    assert_eq!(TextColour::try_from_hex("#0A141E"), Some(TextColour::from_hex("#0A141E")));
    assert_eq!(
        TextColour::try_from_hex_with_alpha("#0A141E80"),
        Some(TextColour::from_hex_with_alpha("#0A141E80"))
    );
}

#[test]
fn characters_after_the_digits_are_not_read() {
    assert_eq!(TextColour::try_from_hex("0A141Ezz"), Some(TextColour::new_rgb(10, 20, 30)));
}

#[test]
fn hex_digit_values() {
    assert_eq!(hex_digit_value('0'), Some(0));
    assert_eq!(hex_digit_value('9'), Some(9));
    assert_eq!(hex_digit_value('a'), Some(10));
    assert_eq!(hex_digit_value('F'), Some(15));
    assert_eq!(hex_digit_value('g'), None);
    assert_eq!(hex_digit_value('/'), None);
    assert_eq!(hex_digit_value(':'), None);
}

#[test]
fn packed_puts_red_first() {
    assert_eq!(TextColour::new(0x12, 0x34, 0x56, 0x78).to_packed(), 0x1234_5678);
}

#[test]
fn colours_differ_by_alpha_alone() {
    assert_ne!(TextColour::new(1, 2, 3, 4), TextColour::new(1, 2, 3, 5));
}

#[test]
fn colourize_pairs_each_mask_byte_with_the_colour() {
    let pixels = colourize(&[0, 128, 255], TextColour::new(10, 20, 30, 255));
    assert_eq!(pixels, vec![10, 20, 30, 0, 10, 20, 30, 128, 10, 20, 30, 255]);
}

#[test]
fn colourize_ignores_the_colours_alpha() {
    let pixels = colourize(&[7], TextColour::new(1, 2, 3, 99));
    assert_eq!(pixels, vec![1, 2, 3, 7]);
}

#[test]
fn colourize_of_nothing_is_nothing() {
    assert_eq!(colourize(&[], TextColour::new_rgb(1, 2, 3)), Vec::<u8>::new());
}
