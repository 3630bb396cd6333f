use osm_renderer::mapcss::declaration::color::ColorParseError;
use osm_renderer::mapcss::declaration::RGBA;

#[test]
pub fn test_parse() {
    let black = "#000";
    let bg_color = "#f1eee8";

    assert_eq!(
        Ok(RGBA {
            red: 0,
            green: 0,
            blue: 0,
            alpha: 255
        }),
        black.parse::<RGBA>()
    );
    assert_eq!(
        Ok(RGBA {
            red: 241,
            green: 238,
            blue: 232,
            alpha: 255
        }),
        bg_color.parse::<RGBA>()
    );
}

#[test]
pub fn test_to_string() {
    let color = RGBA {
        red: 241,
        green: 238,
        blue: 232,
        alpha: 255,
    };

    assert_eq!("#f1eee8", color.to_string());
    assert_eq!(color.to_string().parse::<RGBA>(), Ok(color));
}

#[test]
pub fn test_to_string_with_transparency() {
    let color = RGBA {
        red: 225,
        green: 236,
        blue: 244,
        alpha: 178,
    };

    assert_eq!("#e1ecf4b2", color.to_string());

    assert_eq!(color.to_string().parse::<RGBA>(), Ok(color));
}

#[test]
pub fn test_to_float_array() {
    let bg_color = "yellow";

    let rgba = bg_color.parse::<RGBA>().unwrap();

    assert_eq!(
        rgba,
        RGBA {
            red: 255,
            green: 255,
            blue: 0,
            alpha: 255,
        }
    );

    let channels = rgba.channels();
    let float: [f32; 4] = [
        channels[0] as f32 / 255_f32,
        channels[1] as f32 / 255_f32,
        channels[2] as f32 / 255_f32,
        channels[3] as f32 / 255_f32,
    ];
    assert_eq!([1.0, 1.0, 0.0, 1.0], float);
}

#[test]
fn parse_rejects_what_is_no_color() {
    for text in ["", "#", "#12", "#1234", "#12345", "#1234567", "#123456789", "#ggg", "#12345g", "nocolor", "#ff𝄞", "yellow "] {
        assert_eq!(text.parse::<RGBA>(), Err(ColorParseError::InvalidInput), "{:?}", text);
    }
}

#[test]
fn parse_reads_names_in_any_case() {
    let expected = Ok(RGBA { red: 102, green: 51, blue: 153, alpha: 255 });
    assert_eq!("rebeccapurple".parse::<RGBA>(), expected);
    assert_eq!("RebeccaPurple".parse::<RGBA>(), expected);
    assert_eq!("REBECCAPURPLE".parse::<RGBA>(), expected);
    assert_eq!(
        "lightgoldenrodyellow".parse::<RGBA>(),
        Ok(RGBA { red: 250, green: 250, blue: 210, alpha: 255 })
    );
    assert_eq!(
        "transparent".parse::<RGBA>(),
        Ok(RGBA { red: 0, green: 0, blue: 0, alpha: 255 })
    );
}

#[test]
fn parse_reads_hex_digits_of_either_case() {
    assert_eq!(
        "#AbCdEf".parse::<RGBA>(),
        Ok(RGBA { red: 0xab, green: 0xcd, blue: 0xef, alpha: 255 })
    );
    assert_eq!(
        "#01020304".parse::<RGBA>(),
        Ok(RGBA { red: 1, green: 2, blue: 3, alpha: 4 })
    );
    // three digits are three channels of one digit each
    assert_eq!(
        "#fA9".parse::<RGBA>(),
        Ok(RGBA { red: 15, green: 10, blue: 9, alpha: 255 })
    );
    // a pair may be a plus sign and one digit
    assert_eq!(
        "#+f+0+a".parse::<RGBA>(),
        Ok(RGBA { red: 15, green: 0, blue: 10, alpha: 255 })
    );
}

#[test]
fn to_string_round_trips() {
    for color in [
        RGBA { red: 0, green: 0, blue: 0, alpha: 0 },
        RGBA { red: 9, green: 10, blue: 15, alpha: 16 },
        RGBA { red: 255, green: 254, blue: 1, alpha: 255 },
    ] {
        assert_eq!(RGBA::parse(&color.to_string()), Ok(color));
    }
    assert_eq!(RGBA { red: 9, green: 10, blue: 15, alpha: 16 }.to_string(), "#090a0f10");
}
