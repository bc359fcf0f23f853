use model_preview::settings::{
    is_preview_command, parse_count, parse_flag, preview_command, DEFAULT_FRAMES,
};

#[test]
fn counts_parse_as_u32_does() {
    assert_eq!(parse_count("60"), Some(60));
    assert_eq!(parse_count("+7"), Some(7));
    assert_eq!(parse_count("0"), Some(0));
    assert_eq!(parse_count("007"), Some(7));
    assert_eq!(parse_count("4294967295"), Some(4294967295));
    assert_eq!(parse_count("4294967296"), None);
    assert_eq!(parse_count("99999999999999999999"), None);
    assert_eq!(parse_count(""), None);
    assert_eq!(parse_count("+"), None);
    assert_eq!(parse_count("-1"), None);
    assert_eq!(parse_count("12a"), None);
    assert_eq!(parse_count(" 12"), None);
    for text in ["1", "42", "+100", "65536", "12x", "", "4294967296"] {
        assert_eq!(parse_count(text), text.parse::<u32>().ok());
    }
}

#[test]
fn default_frame_count() {
    assert_eq!(DEFAULT_FRAMES, 60);
}

#[test]
fn flags_are_true_or_false() {
    assert_eq!(parse_flag("true"), Some(true));
    assert_eq!(parse_flag("false"), Some(false));
    assert_eq!(parse_flag("True"), None);
    assert_eq!(parse_flag("yes"), None);
    assert_eq!(parse_flag(""), None);
}

#[test]
fn preview_command_name() {
    assert_eq!(preview_command(), "Preview 3d model");
    assert!(is_preview_command("Preview 3d model"));
    assert!(!is_preview_command("Preview 3D model"));
    assert!(!is_preview_command("Preview 3d model "));
    assert!(!is_preview_command(""));
}
