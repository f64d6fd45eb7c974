use kadr_installer::theme::{
    accent_fill, color, content_button_look, nav_item_look, sidebar_button_look, white_wash, Rgba,
    ThemeColor,
};

fn egui_bytes(r: u8, g: u8, b: u8, a: u8) -> Rgba {
    let [r, g, b, a] = egui::Color32::from_rgba_unmultiplied(r, g, b, a).to_array();
    Rgba { r, g, b, a }
}

#[test]
fn accent_fill_premultiplies() {
    assert_eq!(accent_fill(255), Rgba { r: 60, g: 130, b: 220, a: 255 });
    assert_eq!(accent_fill(0), Rgba { r: 0, g: 0, b: 0, a: 0 });
    let c = accent_fill(18);
    assert_eq!(c.a, 18);
    assert!(c.r <= 18 && c.g <= 18 && c.b <= 18);
    assert_eq!(c, egui_bytes(60, 130, 220, 18));
    assert_ne!(c, Rgba { r: 60, g: 130, b: 220, a: 18 });
}

#[test]
fn white_wash_premultiplies() {
    assert_eq!(white_wash(8), Rgba { r: 8, g: 8, b: 8, a: 8 });
    for a in 0..=255u8 {
        assert_eq!(white_wash(a), egui_bytes(255, 255, 255, a));
        assert_eq!(accent_fill(a), egui_bytes(60, 130, 220, a));
    }
}

#[test]
fn palette_values() {
    assert_eq!(color(ThemeColor::Bg), Rgba { r: 6, g: 6, b: 6, a: 255 });
    assert_eq!(color(ThemeColor::Success), Rgba { r: 0x9e, g: 0xce, b: 0x6a, a: 255 });
    assert_eq!(color(ThemeColor::ErrorText), Rgba { r: 0xf7, g: 0x76, b: 0x8e, a: 255 });
    assert_eq!(
        color(ThemeColor::Accent),
        egui_bytes(60, 130, 220, 255)
    );
}

#[test]
fn button_and_nav_looks() {
    let accent = color(ThemeColor::Accent);
    let l = content_button_look(accent, true);
    assert_eq!(l.fill, Rgba { r: 60, g: 130, b: 220, a: 55 });
    assert_eq!(l.stroke, Rgba { r: 60, g: 130, b: 220, a: 160 });
    let l = content_button_look(accent, false);
    assert_eq!((l.fill.a, l.stroke.a), (30, 80));
    let l = sidebar_button_look(accent, true);
    assert_eq!((l.fill.a, l.stroke.a), (55, 120));
    let l = sidebar_button_look(accent, false);
    assert_eq!((l.fill.a, l.stroke.a), (30, 60));

    let n = nav_item_look(true, false);
    assert_eq!(n.fill, accent_fill(18));
    assert!(n.bar);
    assert_eq!(n.text, ThemeColor::Text);
    let n = nav_item_look(false, true);
    assert_eq!(n.fill, white_wash(8));
    assert!(!n.bar);
    assert_eq!(n.text, ThemeColor::TextDim);
    let n = nav_item_look(false, false);
    assert_eq!(n.fill, Rgba { r: 0, g: 0, b: 0, a: 0 });
}
