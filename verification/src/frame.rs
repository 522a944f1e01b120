//! Per-frame draw planning.
//!
//! Each frame the program clears the window to a theme-dependent background
//! color, draws the picture and, in the full frame, the control panel. Which
//! of that to do and what to clear with are decisions; the GPU calls that
//! carry a plan out are the caller's. Color channels are held in hundredths
//! of full intensity, so the caller's conversion to its own scale is exact.
use vstd::prelude::*;

verus! {

/// A color in hundredths of full intensity per channel.
#[derive(Clone, Copy, PartialEq, Eq, Structural, Debug)]
pub struct Color {
    pub red: u8,
    pub green: u8,
    pub blue: u8,
    pub alpha: u8,
}

/// The background for the light theme: near white; for the dark: near black.
pub open spec fn bg_color_spec(light_theme: bool) -> Color {
    if light_theme {
        Color { red: 90, green: 90, blue: 90, alpha: 0 }
    } else {
        Color { red: 2, green: 2, blue: 2, alpha: 0 }
    }
}

/// What one frame's rendering should do: clear with this color, draw the
/// picture, and draw the control panel if asked to.
#[derive(Clone, Copy, PartialEq, Eq, Structural, Debug)]
pub struct FramePlan {
    pub clear_color: Color,
    pub draw_panel: bool,
}

/// What the program knows when it plans a frame: the theme in use and the
/// window's current size.
pub struct Program {
    pub light_theme: bool,
    pub window_width: u32,
    pub window_height: u32,
}

impl Program {
    /// The theme's background color, as `bg_color_spec` gives it.
    pub fn get_bg_color(light_theme: bool) -> (c: Color)
        ensures
            c == bg_color_spec(light_theme),
    {
        if light_theme {
            Color { red: 90, green: 90, blue: 90, alpha: 0 }
        } else {
            Color { red: 2, green: 2, blue: 2, alpha: 0 }
        }
    }

    /// Plans the bare picture draw used before the controls exist: a clear
    /// with the theme's background and the picture alone, panel left out.
    pub fn draw_picture(&self) -> (f: FramePlan)
        ensures
            f == (FramePlan { clear_color: bg_color_spec(self.light_theme), draw_panel: false }),
    {
        FramePlan { clear_color: Program::get_bg_color(self.light_theme), draw_panel: false }
    }

    /// Plans the full per-frame draw: nothing at all when the window has no
    /// visible area, else a clear with the theme's background, the picture,
    /// and the control panel.
    pub fn draw(&self) -> (r: Option<FramePlan>)
        ensures
            (self.window_width == 0 || self.window_height == 0) <==> r is None,
            r matches Some(f) ==> f == (FramePlan {
                clear_color: bg_color_spec(self.light_theme),
                draw_panel: true,
            }),
    {
        if self.window_width == 0 || self.window_height == 0 {
            None
        } else {
            Some(
                FramePlan {
                    clear_color: Program::get_bg_color(self.light_theme),
                    draw_panel: true,
                },
            )
        }
    }
}

} // verus!
