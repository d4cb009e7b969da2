use sigil_gen::app::Screen;
use sigil_gen::export::{
    export_path, sanitize, stamped_export_path, timestamped_export_path, to_pixel, EXPORT_DIR,
    IMAGE_SIZE,
};
use sigil_gen::render::{cursor_lit, glyph_shown, point_role, PointRole};

#[test]
fn sanitize_keeps_letters_and_digits() {
    assert_eq!(sanitize("Hello, World 42!"), "HelloWorld42");
    assert_eq!(sanitize("../etc/passwd"), "etcpasswd");
    assert_eq!(sanitize("  "), "");
    assert_eq!(sanitize("né"), "n");
}

#[test]
fn export_path_follows_the_naming_rule() {
    assert_eq!(
        export_path("20240102_030405", "Hello, World 42!"),
        "sigils/sigil_20240102_030405_HelloWorld42.png"
    );
    assert_eq!(export_path("x", ""), "sigils/sigil_x_.png");
    assert!(export_path("x", "y").starts_with(EXPORT_DIR));
}

#[test]
fn timestamped_path_names_the_moment() {
    let path = timestamped_export_path("my intent").expect("a path");
    assert!(path.starts_with("sigils/sigil_"));
    assert!(path.ends_with("_myintent.png"));
    let stamp = &path["sigils/sigil_".len()..path.len() - "_myintent.png".len()];
    assert!(!stamp.contains('%'));
    assert_eq!(stamp.len(), 15);
    for (i, c) in stamp.chars().enumerate() {
        if i == 8 {
            assert_eq!(c, '_');
        } else {
            assert!(c.is_ascii_digit());
        }
    }
}

#[test]
fn pixels_stay_inside_the_picture() {
    assert_eq!(IMAGE_SIZE, 600);
    assert_eq!(to_pixel(0), 300);
    assert_eq!(to_pixel(-300), 0);
    assert_eq!(to_pixel(-301), 0);
    assert_eq!(to_pixel(250), 550);
    assert_eq!(to_pixel(299), 599);
    assert_eq!(to_pixel(300), 599);
    assert_eq!(to_pixel(i32::MAX), 599);
    assert_eq!(to_pixel(i32::MIN), 0);
}

#[test]
fn point_roles() {
    assert_eq!(point_role(0, 1), PointRole::First);
    assert_eq!(point_role(0, 3), PointRole::First);
    assert_eq!(point_role(1, 3), PointRole::Middle);
    assert_eq!(point_role(2, 3), PointRole::Last);
    assert_eq!(point_role(1, 2), PointRole::Last);
}

#[test]
fn cursor_blinks_twice_a_second() {
    assert!(cursor_lit(0));
    assert!(cursor_lit(499_999));
    assert!(!cursor_lit(500_000));
    assert!(!cursor_lit(999_999));
    assert!(cursor_lit(1_000_000));
    assert!(!cursor_lit(1_500_000));
}

#[test]
fn screens_that_show_the_glyph() {
    assert!(!glyph_shown(Screen::Start));
    assert!(!glyph_shown(Screen::Input));
    assert!(glyph_shown(Screen::Display));
    assert!(glyph_shown(Screen::Animating { progress: 1, segment: 0 }));
    assert!(glyph_shown(Screen::Saving));
}

#[test]
fn stamped_path_follows_the_stamp() {
    assert_eq!(stamped_export_path(None, "Hello"), None);
    assert_eq!(
        stamped_export_path(Some("19991231_235959".to_string()), "Hello World"),
        Some("sigils/sigil_19991231_235959_HelloWorld.png".to_string())
    );
}
