use svg2tvgt::args::{parse_dpi, parse_font_size, parse_languages};

#[test]
fn dpi_in_range() {
    assert_eq!(parse_dpi("96"), Ok(96));
    assert_eq!(parse_dpi("+10"), Ok(10));
    assert_eq!(parse_dpi("4000"), Ok(4000));
}

#[test]
fn dpi_errors() {
    assert_eq!(parse_dpi("9"), Err("DPI out of bounds".to_string()));
    assert_eq!(parse_dpi("4001"), Err("DPI out of bounds".to_string()));
    assert_eq!(parse_dpi("abc"), Err("invalid number".to_string()));
    assert_eq!(parse_dpi(""), Err("invalid number".to_string()));
    assert_eq!(parse_dpi("-96"), Err("invalid number".to_string()));
    assert_eq!(parse_dpi("99999999999"), Err("invalid number".to_string()));
}

#[test]
fn font_size_bounds() {
    assert_eq!(parse_font_size("12"), Ok(12));
    assert_eq!(parse_font_size("1"), Ok(1));
    assert_eq!(parse_font_size("192"), Ok(192));
    assert_eq!(parse_font_size("0"), Err("font size out of bounds".to_string()));
    assert_eq!(parse_font_size("193"), Err("font size out of bounds".to_string()));
    assert_eq!(parse_font_size("1.5"), Err("invalid number".to_string()));
}

#[test]
fn languages_are_split_and_trimmed() {
    assert_eq!(parse_languages("en"), Ok(vec!["en".to_string()]));
    assert_eq!(
        parse_languages("en-US, ru-RU"),
        Ok(vec!["en-US".to_string(), "ru-RU".to_string()])
    );
    assert_eq!(
        parse_languages(" en ,ru,"),
        Ok(vec!["en".to_string(), "ru".to_string(), "".to_string()])
    );
    assert_eq!(parse_languages(""), Ok(vec!["".to_string()]));
}
