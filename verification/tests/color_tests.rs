use mdimgedit::color::{parse_color, Rgba};
use mdimgedit::ImgEditError;

fn rgba(r: u8, g: u8, b: u8, a: u8) -> Rgba {
    Rgba { r, g, b, a }
}

#[test]
fn test_named_colors() {
    assert_eq!(parse_color("black").unwrap(), rgba(0, 0, 0, 255));
    assert_eq!(parse_color("white").unwrap(), rgba(255, 255, 255, 255));
    assert_eq!(parse_color("red").unwrap(), rgba(255, 0, 0, 255));
    assert_eq!(parse_color("green").unwrap(), rgba(0, 255, 0, 255));
    assert_eq!(parse_color("blue").unwrap(), rgba(0, 0, 255, 255));
    assert_eq!(parse_color("yellow").unwrap(), rgba(255, 255, 0, 255));
    assert_eq!(parse_color("cyan").unwrap(), rgba(0, 255, 255, 255));
    assert_eq!(parse_color("magenta").unwrap(), rgba(255, 0, 255, 255));
    assert_eq!(parse_color("transparent").unwrap(), rgba(0, 0, 0, 0));
}

#[test]
fn test_named_colors_case_insensitive() {
    assert_eq!(parse_color("BLACK").unwrap(), rgba(0, 0, 0, 255));
    assert_eq!(parse_color("White").unwrap(), rgba(255, 255, 255, 255));
    assert_eq!(parse_color("RED").unwrap(), rgba(255, 0, 0, 255));
}

#[test]
fn test_hex3() {
    assert_eq!(parse_color("#fff").unwrap(), rgba(255, 255, 255, 255));
    assert_eq!(parse_color("#000").unwrap(), rgba(0, 0, 0, 255));
    assert_eq!(parse_color("#f00").unwrap(), rgba(255, 0, 0, 255));
    assert_eq!(parse_color("#0f0").unwrap(), rgba(0, 255, 0, 255));
    assert_eq!(parse_color("#00f").unwrap(), rgba(0, 0, 255, 255));
    assert_eq!(parse_color("#abc").unwrap(), rgba(170, 187, 204, 255));
}

#[test]
fn test_hex4() {
    assert_eq!(parse_color("#ffff").unwrap(), rgba(255, 255, 255, 255));
    assert_eq!(parse_color("#fff0").unwrap(), rgba(255, 255, 255, 0));
    assert_eq!(parse_color("#0000").unwrap(), rgba(0, 0, 0, 0));
    assert_eq!(parse_color("#f008").unwrap(), rgba(255, 0, 0, 136));
}

#[test]
fn test_hex6() {
    assert_eq!(parse_color("#ffffff").unwrap(), rgba(255, 255, 255, 255));
    assert_eq!(parse_color("#000000").unwrap(), rgba(0, 0, 0, 255));
    assert_eq!(parse_color("#ff5500").unwrap(), rgba(255, 85, 0, 255));
    assert_eq!(parse_color("#123456").unwrap(), rgba(18, 52, 86, 255));
}

#[test]
fn test_hex8() {
    assert_eq!(parse_color("#ffffffff").unwrap(), rgba(255, 255, 255, 255));
    assert_eq!(parse_color("#00000000").unwrap(), rgba(0, 0, 0, 0));
    assert_eq!(parse_color("#ff550080").unwrap(), rgba(255, 85, 0, 128));
}

#[test]
fn test_rgb() {
    assert_eq!(parse_color("rgb(255,255,255)").unwrap(), rgba(255, 255, 255, 255));
    assert_eq!(parse_color("rgb(0,0,0)").unwrap(), rgba(0, 0, 0, 255));
    assert_eq!(parse_color("rgb(255, 128, 0)").unwrap(), rgba(255, 128, 0, 255));
}

#[test]
fn test_rgba() {
    assert_eq!(parse_color("rgba(255,255,255,255)").unwrap(), rgba(255, 255, 255, 255));
    assert_eq!(parse_color("rgba(0,0,0,0)").unwrap(), rgba(0, 0, 0, 0));
    assert_eq!(parse_color("rgba(255, 128, 0, 128)").unwrap(), rgba(255, 128, 0, 128));
}

#[test]
fn test_whitespace_handling() {
    assert_eq!(parse_color("  white  ").unwrap(), rgba(255, 255, 255, 255));
    assert_eq!(parse_color("rgb( 100 , 150 , 200 )").unwrap(), rgba(100, 150, 200, 255));
}

#[test]
fn test_invalid_colors() {
    assert!(parse_color("notacolor").is_err());
    assert!(parse_color("#gg0000").is_err());
    assert!(parse_color("#12345").is_err());
    assert!(parse_color("rgb(256,0,0)").is_err());
    assert!(parse_color("rgb(0,0)").is_err());
    assert!(parse_color("rgba(0,0,0)").is_err());
}

fn message(input: &str) -> String {
    match parse_color(input) {
        Err(ImgEditError::InvalidColor(m)) => m,
        other => panic!("expected InvalidColor, got {:?}", other),
    }
}

#[test]
fn test_color_error_messages_name_the_fault() {
    assert_eq!(message("  NotAColor "), "Unrecognized color format: notacolor");
    assert_eq!(message("#12345"), "Invalid hex color length: 12345");
    assert_eq!(message("#12g"), "Invalid hex digit: g");
    assert_eq!(message("#gg0000"), "Invalid hex byte: gg");
    assert_eq!(message("#00+f00"), "Invalid hex byte: +f");
    assert_eq!(message("rgb(0,0)"), "rgb() requires 3 values, got 2");
    assert_eq!(message("rgba(0,0,0)"), "rgba() requires 4 values, got 3");
    assert_eq!(message("rgb(256,0,0)"), "Invalid color component: 256");
    assert_eq!(message("rgb(1, ,3)"), "Invalid color component: ");
    assert_eq!(message("rgb(1,-2,3)"), "Invalid color component: -2");
    assert_eq!(message(""), "Unrecognized color format: ");
}

#[test]
fn test_short_hex_channel_is_nibble_times_17() {
    let digits = "0123456789abcdefABCDEF";
    for (i, c) in digits.chars().enumerate() {
        let nibble = if i < 16 { i as u8 } else { (i - 6) as u8 };
        let text = format!("#{}{}{}", c, c, c);
        assert_eq!(
            parse_color(&text).unwrap(),
            rgba(nibble * 17, nibble * 17, nibble * 17, 255)
        );
        let text = format!("#000{}", c);
        assert_eq!(parse_color(&text).unwrap(), rgba(0, 0, 0, nibble * 17));
    }
}

#[test]
fn test_color_edge_forms() {
    assert_eq!(parse_color("# fff ").unwrap(), rgba(255, 255, 255, 255));
    assert_eq!(parse_color("rgb(+1,007,0255)").unwrap(), rgba(1, 7, 255, 255));
    assert_eq!(parse_color("RGBA(1,2,3,4)").unwrap(), rgba(1, 2, 3, 4));
    assert_eq!(parse_color("\u{a0}red\u{2003}").unwrap(), rgba(255, 0, 0, 255));
    assert!(parse_color("rgb(1,2,3").is_err());
    assert!(parse_color("rgb(1,2,3,4)").is_err());
    assert!(parse_color("rgb(+,2,3)").is_err());
    assert!(parse_color("#").is_err());
    assert!(parse_color("#\u{e9}12").is_err());
}

#[test]
fn test_case_is_folded_by_the_unicode_tables() {
    // U+212A, the Kelvin sign, has the lower-case form k
    assert_eq!(parse_color("BLAC\u{212a}").unwrap(), rgba(0, 0, 0, 255));
    assert_eq!(parse_color("blac\u{212a}").unwrap(), rgba(0, 0, 0, 255));
    assert_eq!(parse_color(" \u{212a} ").ok(), None);
    assert_eq!(message("\u{c9}T\u{c9}"), "Unrecognized color format: \u{e9}t\u{e9}");
    assert_eq!(message("#G\u{212a}0"), "Invalid hex digit: g");
    assert_eq!(message("RGB(1,\u{212a},3)"), "Invalid color component: k");
}

#[test]
fn test_a_text_and_its_trimmed_lower_case_form_denote_the_same() {
    let texts = [
        "  white  ",
        "White",
        "BLAC\u{212a}",
        "#ABCDEF",
        " #AbC ",
        "RGB( 1 , 2 , 3 )",
        "Rgba(1,2,3,4)\u{2003}",
        "NotAColor",
        "#GG0000",
        "RGB(256,0,0)",
        "\u{3a3}\u{391}\u{3a3}",
        "",
    ];
    for text in texts {
        let folded = text.trim().to_lowercase();
        match (parse_color(text), parse_color(&folded)) {
            (Ok(a), Ok(b)) => assert_eq!(a, b),
            (Err(a), Err(b)) => assert_eq!(a.to_string(), b.to_string()),
            (a, b) => panic!("{:?} and {:?} for {:?}", a, b, text),
        }
    }
}

#[test]
fn test_parse_color_is_deterministic() {
    for text in ["#abc", "#abcd", "#a1b2c3", "#a1b2c3d4"] {
        assert_eq!(parse_color(text).unwrap(), parse_color(text).unwrap());
    }
}
