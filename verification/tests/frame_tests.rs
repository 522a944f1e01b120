use picview::frame::Program;

#[test]
fn background_color_follows_theme() {
    let light = Program::get_bg_color(true);
    assert_eq!(
        (light.red, light.green, light.blue, light.alpha),
        (90, 90, 90, 0)
    );
    let dark = Program::get_bg_color(false);
    assert_eq!((dark.red, dark.green, dark.blue, dark.alpha), (2, 2, 2, 0));
}

#[test]
fn degenerate_window_draws_nothing() {
    let flat = Program {
        light_theme: true,
        window_width: 800,
        window_height: 0,
    };
    assert!(flat.draw().is_none());
    let thin = Program {
        light_theme: false,
        window_width: 0,
        window_height: 600,
    };
    assert!(thin.draw().is_none());
}

#[test]
fn full_frame_includes_panel_bare_picture_does_not() {
    let p = Program {
        light_theme: false,
        window_width: 800,
        window_height: 600,
    };
    let full = p.draw().unwrap();
    assert!(full.draw_panel);
    assert_eq!(full.clear_color, Program::get_bg_color(false));
    let bare = p.draw_picture();
    assert!(!bare.draw_panel);
    assert_eq!(bare.clear_color, Program::get_bg_color(false));
}
