use model_preview::names::{
    animation_file_name, frame_file_name, gif_file_name, model_file_name, model_file_name_lowered,
    split_file_name,
};

#[test]
fn frame_names_are_padded_to_two_digits() {
    assert_eq!(frame_file_name(0), "a-00.png");
    assert_eq!(frame_file_name(7), "a-07.png");
    assert_eq!(frame_file_name(10), "a-10.png");
    assert_eq!(frame_file_name(59), "a-59.png");
    assert_eq!(frame_file_name(123), "a-123.png");
    assert_eq!(frame_file_name(4294967295), "a-4294967295.png");
}

#[test]
fn model_name_uses_lowercase_extension() {
    assert_eq!(model_file_name("STL"), "a.stl");
    assert_eq!(model_file_name("3mf"), "a.3mf");
    assert_eq!(model_file_name("GCode"), "a.gcode");
    assert_eq!(model_file_name_lowered("obj"), "a.obj");
}

#[test]
fn gif_name_appends_suffix() {
    assert_eq!(gif_file_name("part"), "part.gif");
    assert_eq!(gif_file_name(""), ".gif");
}

#[test]
fn animation_names_are_random_ids() {
    let a = animation_file_name();
    let b = animation_file_name();
    assert_ne!(a, b);
    assert_eq!(a.len(), 40);
    assert!(a.ends_with(".gif"));
    for (i, c) in a[..36].chars().enumerate() {
        if i == 8 || i == 13 || i == 18 || i == 23 {
            assert_eq!(c, '-');
        } else {
            assert!(c.is_ascii_digit() || ('a'..='f').contains(&c));
        }
    }
}

#[test]
fn split_takes_text_after_last_dot() {
    assert_eq!(split_file_name("part.stl"), Some(("part".to_string(), "stl".to_string())));
    assert_eq!(split_file_name("my.part.STL"), Some(("my.part".to_string(), "STL".to_string())));
    assert_eq!(split_file_name("..stl"), Some((".".to_string(), "stl".to_string())));
}

#[test]
fn split_finds_no_extension() {
    assert_eq!(split_file_name("model"), None);
    assert_eq!(split_file_name(""), None);
    assert_eq!(split_file_name(".stl"), None);
    assert_eq!(split_file_name(".."), None);
    assert_eq!(split_file_name("model."), None);
}
