use imgii::error::{
    FontError, ImgiiError, IntParseKind, InvalidParameterError, OtherError, ParseImageError,
    ParseIntError,
};
use imgii::image_types::{ImageBatchType, OutputImageType};
use imgii::options::{Charset, ImgiiOptionsBuilder};

#[test]
fn builder_defaults_match_the_documented_ones() {
    let options = ImgiiOptionsBuilder::new().build();
    assert_eq!(options.font_size(), 16);
    assert_eq!(options.background(), false);
    let cfg = options.rascii_options();
    assert!(cfg.colored);
    assert!(cfg.escape_each_colored_char);
    assert!(!cfg.invert);
    assert!(cfg.width.is_none());
    assert!(cfg.height.is_none());
    assert!(cfg.char_override.is_none());
    assert_eq!(cfg.charset, Charset::Standard);
}

#[test]
fn builder_setters_land_in_the_options() {
    let options = ImgiiOptionsBuilder::new()
        .font_size(32)
        .background(true)
        .width(100)
        .height(50)
        .invert(true)
        .charset(Charset::Minimal)
        .char_override(vec!["#".to_string()])
        .build();
    assert_eq!(options.font_size(), 32);
    assert!(options.background());
    let cfg = options.rascii_options();
    assert_eq!(cfg.width, Some(100));
    assert_eq!(cfg.height, Some(50));
    assert!(cfg.invert);
    assert_eq!(cfg.charset, Charset::Minimal);
    assert_eq!(cfg.char_override.as_ref().unwrap(), &vec!["#".to_string()]);
}

#[test]
fn output_image_type_from_str_knows_both_extensions() {
    assert!(matches!(OutputImageType::from_str(".png"), Some(OutputImageType::Png)));
    assert!(matches!(OutputImageType::from_str(".gif"), Some(OutputImageType::Gif)));
    assert!(OutputImageType::from_str(".jpg").is_none());
    assert!(OutputImageType::from_str("png").is_none());
}

#[test]
fn output_image_type_from_file_name_uses_the_last_dot() {
    assert!(matches!(
        OutputImageType::from_file_name("out.png"),
        Some(OutputImageType::Png)
    ));
    assert!(matches!(
        OutputImageType::from_file_name("archive.tar.gif"),
        Some(OutputImageType::Gif)
    ));
    assert!(OutputImageType::from_file_name("no_extension").is_none());
    assert!(OutputImageType::from_file_name("wrong.jpeg").is_none());
}

#[test]
fn file_extensions_round_trip() {
    assert_eq!(OutputImageType::Png.as_file_extension(), ".png");
    assert_eq!(OutputImageType::Gif.as_file_extension(), ".gif");
    assert!(matches!(
        OutputImageType::from_str(OutputImageType::Png.as_file_extension()),
        Some(OutputImageType::Png)
    ));
}

#[test]
fn batch_type_compares_by_value() {
    assert_eq!(ImageBatchType::Single, ImageBatchType::Single);
    assert_eq!(ImageBatchType::BatchWithFinalIdx(4), ImageBatchType::BatchWithFinalIdx(4));
    assert_ne!(ImageBatchType::Single, ImageBatchType::BatchWithFinalIdx(1));
}

#[test]
fn error_constructors_keep_their_fields() {
    let font = FontError::new("f.ttf".to_string());
    assert_eq!(font.font_name, "f.ttf");
    let value = ParseIntError::new("red".to_string(), "256".to_string(), IntParseKind::Overflow);
    assert_eq!(value.value_name, "red");
    assert_eq!(value.the_str, "256");
    let other = OtherError::new("boom".to_string());
    assert_eq!(other.message, "boom");
    let param = InvalidParameterError::new("parts".to_string());
    assert_eq!(param.parameter_name, "parts");
    let width = ParseImageError::new(3, 7, 5);
    assert_eq!((width.image_row_number, width.expected_width, width.got_width), (3, 7, 5));
}

#[test]
fn describe_is_never_empty() {
    let errors = vec![
        ImgiiError::Font(FontError::new("x".to_string())),
        ImgiiError::Other(OtherError::new("y".to_string())),
        ImgiiError::Internal(imgii::error::InternalError),
    ];
    for e in errors {
        assert!(!e.describe().is_empty());
    }
}
