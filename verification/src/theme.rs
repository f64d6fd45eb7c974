//! The installer's palette. Colors are held as egui stores them in a
//! `Color32`: sRGBA with premultiplied alpha.

use vstd::prelude::*;

verus! {

/// A color as the four bytes of an egui `Color32` (premultiplied sRGBA).
#[derive(Clone, Copy, PartialEq, Eq, Structural, Debug)]
pub struct Rgba {
    pub r: u8,
    pub g: u8,
    pub b: u8,
    pub a: u8,
}

/// An opaque color (`Color32::from_rgb`).
pub open spec fn opaque(r: u8, g: u8, b: u8) -> Rgba {
    Rgba { r, g, b, a: 255 }
}

/// An opaque gray (`Color32::from_gray`).
pub open spec fn gray(l: u8) -> Rgba {
    opaque(l, l, l)
}

/// `v * a / 255` rounded, as egui computes it without division.
pub open spec fn mul_frac_round(v: u8, a: u8) -> u8 {
    let p = v * a + 128;
    ((p + p / 256) / 256) as u8
}

/// The premultiplied form of the unmultiplied color `(r, g, b, a)`.
pub open spec fn premultiplied(r: u8, g: u8, b: u8, a: u8) -> Rgba {
    if a == 0 {
        Rgba { r: 0, g: 0, b: 0, a: 0 }
    } else if a == 255 {
        opaque(r, g, b)
    } else {
        Rgba { r: mul_frac_round(r, a), g: mul_frac_round(g, a), b: mul_frac_round(b, a), a }
    }
}

proof fn lemma_mul_frac_round_within(v: u8, a: u8)
    ensures
        mul_frac_round(v, a) <= a,
{
    let x = v * a;
    assert(x <= 255 * a) by (nonlinear_arith)
        requires
            x == v * a,
            v <= 255,
            a >= 0,
    ;
    let p = x + 128;
    assert(p / 256 <= a);
    assert((p + p / 256) / 256 <= a);
}

/// A premultiplied color keeps the alpha it was given, and none of its
/// channels exceeds that alpha.
pub proof fn lemma_premultiplied_within_alpha(r: u8, g: u8, b: u8, a: u8)
    ensures
        premultiplied(r, g, b, a).a == a,
        premultiplied(r, g, b, a).r <= a,
        premultiplied(r, g, b, a).g <= a,
        premultiplied(r, g, b, a).b <= a,
{
    lemma_mul_frac_round_within(r, a);
    lemma_mul_frac_round_within(g, a);
    lemma_mul_frac_round_within(b, a);
}

/// Calls `egui::Color32::from_rgba_unmultiplied` and returns the bytes of the
/// color it makes. The contract restates that function's source: alpha 0
/// gives transparent black, alpha 255 the opaque color, and any other alpha
/// scales each channel by `a / 255` with egui's fixed-point rounding.
#[verifier::external_body]
fn from_rgba_unmultiplied(r: u8, g: u8, b: u8, a: u8) -> (c: Rgba)
    ensures
        c == premultiplied(r, g, b, a),
{
    let [r, g, b, a] = egui::Color32::from_rgba_unmultiplied(r, g, b, a).to_array();
    Rgba { r, g, b, a }
}

/// The accent blue at the given (unmultiplied) opacity.
pub fn accent_fill(alpha: u8) -> (c: Rgba)
    ensures
        c == premultiplied(60, 130, 220, alpha),
{
    from_rgba_unmultiplied(60, 130, 220, alpha)
}

/// White at the given (unmultiplied) opacity.
pub fn white_wash(alpha: u8) -> (c: Rgba)
    ensures
        c == premultiplied(255, 255, 255, alpha),
{
    from_rgba_unmultiplied(255, 255, 255, alpha)
}

/// The named colors of the installer's theme.
#[derive(Clone, Copy, PartialEq, Eq, Structural, Debug)]
pub enum ThemeColor {
    Bg,
    Surface,
    Surface2,
    Surface3,
    Surface4,
    Border,
    Accent,
    AccentText,
    Accent2,
    Text,
    TextDim,
    TextMuted,
    Success,
    ErrorText,
}

/// The value of each theme color.
pub open spec fn palette(c: ThemeColor) -> Rgba {
    match c {
        ThemeColor::Bg => gray(6),
        ThemeColor::Surface => gray(16),
        ThemeColor::Surface2 => gray(22),
        ThemeColor::Surface3 => gray(30),
        ThemeColor::Surface4 => gray(48),
        ThemeColor::Border => gray(40),
        ThemeColor::Accent => opaque(60, 130, 220),
        ThemeColor::AccentText => opaque(84, 156, 240),
        ThemeColor::Accent2 => opaque(0xbb, 0x9a, 0xf7),
        ThemeColor::Text => gray(225),
        ThemeColor::TextDim => gray(145),
        ThemeColor::TextMuted => gray(100),
        ThemeColor::Success => opaque(0x9e, 0xce, 0x6a),
        ThemeColor::ErrorText => opaque(0xf7, 0x76, 0x8e),
    }
}

/// The value of a theme color.
pub fn color(c: ThemeColor) -> (v: Rgba)
    ensures
        v == palette(c),
{
    match c {
        ThemeColor::Bg => Rgba { r: 6, g: 6, b: 6, a: 255 },
        ThemeColor::Surface => Rgba { r: 16, g: 16, b: 16, a: 255 },
        ThemeColor::Surface2 => Rgba { r: 22, g: 22, b: 22, a: 255 },
        ThemeColor::Surface3 => Rgba { r: 30, g: 30, b: 30, a: 255 },
        ThemeColor::Surface4 => Rgba { r: 48, g: 48, b: 48, a: 255 },
        ThemeColor::Border => Rgba { r: 40, g: 40, b: 40, a: 255 },
        ThemeColor::Accent => Rgba { r: 60, g: 130, b: 220, a: 255 },
        ThemeColor::AccentText => Rgba { r: 84, g: 156, b: 240, a: 255 },
        ThemeColor::Accent2 => Rgba { r: 0xbb, g: 0x9a, b: 0xf7, a: 255 },
        ThemeColor::Text => Rgba { r: 225, g: 225, b: 225, a: 255 },
        ThemeColor::TextDim => Rgba { r: 145, g: 145, b: 145, a: 255 },
        ThemeColor::TextMuted => Rgba { r: 100, g: 100, b: 100, a: 255 },
        ThemeColor::Success => Rgba { r: 0x9e, g: 0xce, b: 0x6a, a: 255 },
        ThemeColor::ErrorText => Rgba { r: 0xf7, g: 0x76, b: 0x8e, a: 255 },
    }
}


/// `c` with its alpha byte replaced, the color channels kept as they are
/// (`Color32::from_rgba_premultiplied(c.r(), c.g(), c.b(), a)`).
pub open spec fn with_alpha(c: Rgba, a: u8) -> Rgba {
    Rgba { r: c.r, g: c.g, b: c.b, a }
}

/// The fill and outline of a button drawn in some color.
pub struct ButtonLook {
    pub fill: Rgba,
    pub stroke: Rgba,
}

/// A button's fill and outline: the button's color with a faint alpha
/// (stronger while hovered) for the fill, and `stroke_alphas` (hovered,
/// resting) for the outline.
pub open spec fn button_look_of(color: Rgba, hovered: bool, stroke_alphas: (u8, u8)) -> ButtonLook {
    ButtonLook {
        fill: with_alpha(color, if hovered { 55 } else { 30 }),
        stroke: with_alpha(color, if hovered { stroke_alphas.0 } else { stroke_alphas.1 }),
    }
}

/// The look of the sidebar's button in `color`.
pub fn sidebar_button_look(color: Rgba, hovered: bool) -> (l: ButtonLook)
    ensures
        l == button_look_of(color, hovered, (120, 60)),
{
    let (fill_a, stroke_a) = if hovered { (55u8, 120u8) } else { (30u8, 60u8) };
    ButtonLook {
        fill: Rgba { r: color.r, g: color.g, b: color.b, a: fill_a },
        stroke: Rgba { r: color.r, g: color.g, b: color.b, a: stroke_a },
    }
}

/// The look of a panel's button in `accent`.
pub fn content_button_look(accent: Rgba, hovered: bool) -> (l: ButtonLook)
    ensures
        l == button_look_of(accent, hovered, (160, 80)),
{
    let (fill_a, stroke_a) = if hovered { (55u8, 160u8) } else { (30u8, 80u8) };
    ButtonLook {
        fill: Rgba { r: accent.r, g: accent.g, b: accent.b, a: fill_a },
        stroke: Rgba { r: accent.r, g: accent.g, b: accent.b, a: stroke_a },
    }
}

/// The look of a navigation item.
pub struct NavLook {
    /// The background.
    pub fill: Rgba,
    /// Whether the accent bar on the left edge is drawn.
    pub bar: bool,
    /// The color of the label.
    pub text: ThemeColor,
}

/// A navigation item: the selected one has a faint accent background, the
/// accent bar and bright text; another has a faint white background while
/// hovered, none otherwise, and dim text.
pub fn nav_item_look(selected: bool, hovered: bool) -> (l: NavLook)
    ensures
        l.fill == (if selected {
            premultiplied(60, 130, 220, 18)
        } else if hovered {
            premultiplied(255, 255, 255, 8)
        } else {
            Rgba { r: 0, g: 0, b: 0, a: 0 }
        }),
        l.bar == selected,
        l.text == (if selected {
            ThemeColor::Text
        } else {
            ThemeColor::TextDim
        }),
{
    let fill = if selected {
        accent_fill(18)
    } else if hovered {
        white_wash(8)
    } else {
        Rgba { r: 0, g: 0, b: 0, a: 0 }
    };
    let text = if selected {
        ThemeColor::Text
    } else {
        ThemeColor::TextDim
    };
    NavLook { fill, bar: selected, text }
}

} // verus!
