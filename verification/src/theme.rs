//! Colours of each theme preset, as unmultiplied RGBA.
use vstd::prelude::*;

use crate::settings::ThemePreset;

verus! {

/// A colour with unmultiplied alpha.
#[derive(Clone, Copy, Debug, PartialEq, Eq, Structural)]
pub struct Rgba {
    pub r: u8,
    pub g: u8,
    pub b: u8,
    pub a: u8,
}

/// Whether a theme builds on the light or the dark base look.
#[derive(Clone, Copy, Debug, PartialEq, Eq, Structural)]
pub enum BaseVisual {
    Dark,
    Light,
}

/// The colours a theme gives the window, text, selection and marquee.
#[derive(Clone, Copy, Debug, PartialEq, Eq, Structural)]
pub struct ThemePalette {
    pub base_visual: BaseVisual,
    pub glass_fill: Rgba,
    pub glass_stroke: Rgba,
    pub title_bar_fill: Rgba,
    pub title_bar_stroke: Rgba,
    pub maximize_hover: Rgba,
    pub minimize_hover: Rgba,
    pub text_primary: Rgba,
    pub text_muted: Rgba,
    pub default_icon: Rgba,
    pub selection_fill: Rgba,
    pub selection_stroke: Rgba,
    pub selection_text: Rgba,
    pub marquee_fill: Rgba,
    pub marquee_stroke: Rgba,
    pub selection_preview_fill: Rgba,
    pub extreme_bg: Rgba,
    pub faint_bg: Rgba,
    pub hyperlink: Rgba,
}

pub open spec fn rgba(r: u8, g: u8, b: u8, a: u8) -> Rgba {
    Rgba { r, g, b, a }
}

/// The palette of each preset.
pub open spec fn palette_of(preset: ThemePreset) -> ThemePalette {
    match preset {
        ThemePreset::GlassSquid => ThemePalette {
            base_visual: BaseVisual::Dark,
            glass_fill: rgba(22, 24, 32, 175),
            glass_stroke: rgba(255, 255, 255, 28),
            title_bar_fill: rgba(16, 18, 26, 195),
            title_bar_stroke: rgba(255, 255, 255, 18),
            maximize_hover: rgba(255, 255, 255, 24),
            minimize_hover: rgba(255, 255, 255, 24),
            text_primary: rgba(235, 238, 245, 240),
            text_muted: rgba(160, 168, 185, 210),
            default_icon: rgba(235, 238, 245, 240),
            selection_fill: rgba(0, 120, 215, 200),
            selection_stroke: rgba(255, 255, 255, 90),
            selection_text: rgba(255, 255, 255, 255),
            marquee_fill: rgba(0, 120, 215, 90),
            marquee_stroke: rgba(0, 120, 215, 255),
            selection_preview_fill: rgba(0, 120, 215, 140),
            extreme_bg: rgba(12, 14, 20, 200),
            faint_bg: rgba(255, 255, 255, 8),
            hyperlink: rgba(120, 170, 255, 255),
        },
        ThemePreset::Glacier => ThemePalette {
            base_visual: BaseVisual::Light,
            glass_fill: rgba(244, 248, 255, 132),
            glass_stroke: rgba(20, 28, 40, 25),
            title_bar_fill: rgba(236, 242, 252, 136),
            title_bar_stroke: rgba(25, 33, 46, 22),
            maximize_hover: rgba(15, 25, 35, 12),
            minimize_hover: rgba(15, 25, 35, 12),
            text_primary: rgba(16, 24, 36, 220),
            text_muted: rgba(58, 70, 88, 180),
            default_icon: rgba(10, 10, 10, 220),
            selection_fill: rgba(71, 140, 230, 160),
            selection_stroke: rgba(255, 255, 255, 128),
            selection_text: rgba(255, 255, 255, 255),
            marquee_fill: rgba(71, 140, 230, 55),
            marquee_stroke: rgba(52, 121, 214, 255),
            selection_preview_fill: rgba(71, 140, 230, 90),
            extreme_bg: rgba(222, 230, 244, 180),
            faint_bg: rgba(0, 0, 0, 5),
            hyperlink: rgba(45, 112, 215, 255),
        },
        ThemePreset::Nebula => ThemePalette {
            base_visual: BaseVisual::Dark,
            glass_fill: rgba(36, 26, 56, 192),
            glass_stroke: rgba(205, 180, 255, 46),
            title_bar_fill: rgba(30, 21, 48, 210),
            title_bar_stroke: rgba(225, 195, 255, 34),
            maximize_hover: rgba(210, 160, 255, 36),
            minimize_hover: rgba(210, 160, 255, 36),
            text_primary: rgba(66, 96, 156, 245),
            text_muted: rgba(136, 145, 183, 225),
            default_icon: rgba(66, 96, 156, 245),
            selection_fill: rgba(176, 106, 245, 190),
            selection_stroke: rgba(246, 223, 255, 140),
            selection_text: rgba(255, 255, 255, 255),
            marquee_fill: rgba(176, 106, 245, 84),
            marquee_stroke: rgba(176, 106, 245, 255),
            selection_preview_fill: rgba(176, 106, 245, 134),
            extreme_bg: rgba(18, 14, 28, 220),
            faint_bg: rgba(255, 255, 255, 9),
            hyperlink: rgba(186, 146, 255, 255),
        },
        ThemePreset::Prismarine => ThemePalette {
            base_visual: BaseVisual::Dark,
            glass_fill: rgba(18, 54, 72, 186),
            glass_stroke: rgba(182, 240, 255, 42),
            title_bar_fill: rgba(16, 45, 62, 208),
            title_bar_stroke: rgba(207, 246, 255, 34),
            maximize_hover: rgba(175, 241, 255, 30),
            minimize_hover: rgba(175, 241, 255, 30),
            text_primary: rgba(245, 252, 255, 245),
            text_muted: rgba(172, 210, 220, 224),
            default_icon: rgba(245, 252, 255, 245),
            selection_fill: rgba(74, 178, 198, 204),
            selection_stroke: rgba(245, 255, 255, 145),
            selection_text: rgba(255, 255, 255, 255),
            marquee_fill: rgba(74, 178, 198, 92),
            marquee_stroke: rgba(74, 178, 198, 255),
            selection_preview_fill: rgba(74, 178, 198, 138),
            extreme_bg: rgba(9, 28, 40, 220),
            faint_bg: rgba(255, 255, 255, 8),
            hyperlink: rgba(120, 219, 240, 255),
        },
        ThemePreset::Aurora => ThemePalette {
            base_visual: BaseVisual::Dark,
            glass_fill: rgba(22, 44, 52, 188),
            glass_stroke: rgba(168, 240, 228, 40),
            title_bar_fill: rgba(18, 37, 44, 210),
            title_bar_stroke: rgba(188, 240, 234, 34),
            maximize_hover: rgba(165, 240, 230, 28),
            minimize_hover: rgba(165, 240, 230, 28),
            text_primary: rgba(210, 245, 238, 242),
            text_muted: rgba(145, 196, 188, 222),
            default_icon: rgba(184, 236, 227, 245),
            selection_fill: rgba(64, 186, 161, 196),
            selection_stroke: rgba(224, 255, 247, 140),
            selection_text: rgba(255, 255, 255, 255),
            marquee_fill: rgba(64, 186, 161, 86),
            marquee_stroke: rgba(64, 186, 161, 255),
            selection_preview_fill: rgba(64, 186, 161, 132),
            extreme_bg: rgba(10, 24, 30, 218),
            faint_bg: rgba(255, 255, 255, 8),
            hyperlink: rgba(110, 229, 212, 255),
        },
        ThemePreset::EmberMist => ThemePalette {
            base_visual: BaseVisual::Dark,
            glass_fill: rgba(46, 30, 28, 188),
            glass_stroke: rgba(255, 201, 165, 42),
            title_bar_fill: rgba(38, 24, 22, 210),
            title_bar_stroke: rgba(255, 205, 170, 34),
            maximize_hover: rgba(255, 184, 143, 30),
            minimize_hover: rgba(255, 184, 143, 30),
            text_primary: rgba(250, 232, 220, 242),
            text_muted: rgba(214, 172, 150, 225),
            default_icon: rgba(248, 219, 194, 245),
            selection_fill: rgba(221, 118, 66, 202),
            selection_stroke: rgba(255, 232, 214, 140),
            selection_text: rgba(255, 255, 255, 255),
            marquee_fill: rgba(221, 118, 66, 88),
            marquee_stroke: rgba(221, 118, 66, 255),
            selection_preview_fill: rgba(221, 118, 66, 138),
            extreme_bg: rgba(24, 15, 14, 220),
            faint_bg: rgba(255, 255, 255, 7),
            hyperlink: rgba(255, 182, 128, 255),
        },
    }
}

/// Palette of `preset`.
pub fn palette_for(preset: ThemePreset) -> (p: ThemePalette)
    ensures
        p == palette_of(preset),
{
    match preset {
        ThemePreset::GlassSquid => ThemePalette {
            base_visual: BaseVisual::Dark,
            glass_fill: Rgba { r: 22, g: 24, b: 32, a: 175 },
            glass_stroke: Rgba { r: 255, g: 255, b: 255, a: 28 },
            title_bar_fill: Rgba { r: 16, g: 18, b: 26, a: 195 },
            title_bar_stroke: Rgba { r: 255, g: 255, b: 255, a: 18 },
            maximize_hover: Rgba { r: 255, g: 255, b: 255, a: 24 },
            minimize_hover: Rgba { r: 255, g: 255, b: 255, a: 24 },
            text_primary: Rgba { r: 235, g: 238, b: 245, a: 240 },
            text_muted: Rgba { r: 160, g: 168, b: 185, a: 210 },
            default_icon: Rgba { r: 235, g: 238, b: 245, a: 240 },
            selection_fill: Rgba { r: 0, g: 120, b: 215, a: 200 },
            selection_stroke: Rgba { r: 255, g: 255, b: 255, a: 90 },
            selection_text: Rgba { r: 255, g: 255, b: 255, a: 255 },
            marquee_fill: Rgba { r: 0, g: 120, b: 215, a: 90 },
            marquee_stroke: Rgba { r: 0, g: 120, b: 215, a: 255 },
            selection_preview_fill: Rgba { r: 0, g: 120, b: 215, a: 140 },
            extreme_bg: Rgba { r: 12, g: 14, b: 20, a: 200 },
            faint_bg: Rgba { r: 255, g: 255, b: 255, a: 8 },
            hyperlink: Rgba { r: 120, g: 170, b: 255, a: 255 },
        },
        ThemePreset::Glacier => ThemePalette {
            base_visual: BaseVisual::Light,
            glass_fill: Rgba { r: 244, g: 248, b: 255, a: 132 },
            glass_stroke: Rgba { r: 20, g: 28, b: 40, a: 25 },
            title_bar_fill: Rgba { r: 236, g: 242, b: 252, a: 136 },
            title_bar_stroke: Rgba { r: 25, g: 33, b: 46, a: 22 },
            maximize_hover: Rgba { r: 15, g: 25, b: 35, a: 12 },
            minimize_hover: Rgba { r: 15, g: 25, b: 35, a: 12 },
            text_primary: Rgba { r: 16, g: 24, b: 36, a: 220 },
            text_muted: Rgba { r: 58, g: 70, b: 88, a: 180 },
            default_icon: Rgba { r: 10, g: 10, b: 10, a: 220 },
            selection_fill: Rgba { r: 71, g: 140, b: 230, a: 160 },
            selection_stroke: Rgba { r: 255, g: 255, b: 255, a: 128 },
            selection_text: Rgba { r: 255, g: 255, b: 255, a: 255 },
            marquee_fill: Rgba { r: 71, g: 140, b: 230, a: 55 },
            marquee_stroke: Rgba { r: 52, g: 121, b: 214, a: 255 },
            selection_preview_fill: Rgba { r: 71, g: 140, b: 230, a: 90 },
            extreme_bg: Rgba { r: 222, g: 230, b: 244, a: 180 },
            faint_bg: Rgba { r: 0, g: 0, b: 0, a: 5 },
            hyperlink: Rgba { r: 45, g: 112, b: 215, a: 255 },
        },
        ThemePreset::Nebula => ThemePalette {
            base_visual: BaseVisual::Dark,
            glass_fill: Rgba { r: 36, g: 26, b: 56, a: 192 },
            glass_stroke: Rgba { r: 205, g: 180, b: 255, a: 46 },
            title_bar_fill: Rgba { r: 30, g: 21, b: 48, a: 210 },
            title_bar_stroke: Rgba { r: 225, g: 195, b: 255, a: 34 },
            maximize_hover: Rgba { r: 210, g: 160, b: 255, a: 36 },
            minimize_hover: Rgba { r: 210, g: 160, b: 255, a: 36 },
            text_primary: Rgba { r: 66, g: 96, b: 156, a: 245 },
            text_muted: Rgba { r: 136, g: 145, b: 183, a: 225 },
            default_icon: Rgba { r: 66, g: 96, b: 156, a: 245 },
            selection_fill: Rgba { r: 176, g: 106, b: 245, a: 190 },
            selection_stroke: Rgba { r: 246, g: 223, b: 255, a: 140 },
            selection_text: Rgba { r: 255, g: 255, b: 255, a: 255 },
            marquee_fill: Rgba { r: 176, g: 106, b: 245, a: 84 },
            marquee_stroke: Rgba { r: 176, g: 106, b: 245, a: 255 },
            selection_preview_fill: Rgba { r: 176, g: 106, b: 245, a: 134 },
            extreme_bg: Rgba { r: 18, g: 14, b: 28, a: 220 },
            faint_bg: Rgba { r: 255, g: 255, b: 255, a: 9 },
            hyperlink: Rgba { r: 186, g: 146, b: 255, a: 255 },
        },
        ThemePreset::Prismarine => ThemePalette {
            base_visual: BaseVisual::Dark,
            glass_fill: Rgba { r: 18, g: 54, b: 72, a: 186 },
            glass_stroke: Rgba { r: 182, g: 240, b: 255, a: 42 },
            title_bar_fill: Rgba { r: 16, g: 45, b: 62, a: 208 },
            title_bar_stroke: Rgba { r: 207, g: 246, b: 255, a: 34 },
            maximize_hover: Rgba { r: 175, g: 241, b: 255, a: 30 },
            minimize_hover: Rgba { r: 175, g: 241, b: 255, a: 30 },
            text_primary: Rgba { r: 245, g: 252, b: 255, a: 245 },
            text_muted: Rgba { r: 172, g: 210, b: 220, a: 224 },
            default_icon: Rgba { r: 245, g: 252, b: 255, a: 245 },
            selection_fill: Rgba { r: 74, g: 178, b: 198, a: 204 },
            selection_stroke: Rgba { r: 245, g: 255, b: 255, a: 145 },
            selection_text: Rgba { r: 255, g: 255, b: 255, a: 255 },
            marquee_fill: Rgba { r: 74, g: 178, b: 198, a: 92 },
            marquee_stroke: Rgba { r: 74, g: 178, b: 198, a: 255 },
            selection_preview_fill: Rgba { r: 74, g: 178, b: 198, a: 138 },
            extreme_bg: Rgba { r: 9, g: 28, b: 40, a: 220 },
            faint_bg: Rgba { r: 255, g: 255, b: 255, a: 8 },
            hyperlink: Rgba { r: 120, g: 219, b: 240, a: 255 },
        },
        ThemePreset::Aurora => ThemePalette {
            base_visual: BaseVisual::Dark,
            glass_fill: Rgba { r: 22, g: 44, b: 52, a: 188 },
            glass_stroke: Rgba { r: 168, g: 240, b: 228, a: 40 },
            title_bar_fill: Rgba { r: 18, g: 37, b: 44, a: 210 },
            title_bar_stroke: Rgba { r: 188, g: 240, b: 234, a: 34 },
            maximize_hover: Rgba { r: 165, g: 240, b: 230, a: 28 },
            minimize_hover: Rgba { r: 165, g: 240, b: 230, a: 28 },
            text_primary: Rgba { r: 210, g: 245, b: 238, a: 242 },
            text_muted: Rgba { r: 145, g: 196, b: 188, a: 222 },
            default_icon: Rgba { r: 184, g: 236, b: 227, a: 245 },
            selection_fill: Rgba { r: 64, g: 186, b: 161, a: 196 },
            selection_stroke: Rgba { r: 224, g: 255, b: 247, a: 140 },
            selection_text: Rgba { r: 255, g: 255, b: 255, a: 255 },
            marquee_fill: Rgba { r: 64, g: 186, b: 161, a: 86 },
            marquee_stroke: Rgba { r: 64, g: 186, b: 161, a: 255 },
            selection_preview_fill: Rgba { r: 64, g: 186, b: 161, a: 132 },
            extreme_bg: Rgba { r: 10, g: 24, b: 30, a: 218 },
            faint_bg: Rgba { r: 255, g: 255, b: 255, a: 8 },
            hyperlink: Rgba { r: 110, g: 229, b: 212, a: 255 },
        },
        ThemePreset::EmberMist => ThemePalette {
            base_visual: BaseVisual::Dark,
            glass_fill: Rgba { r: 46, g: 30, b: 28, a: 188 },
            glass_stroke: Rgba { r: 255, g: 201, b: 165, a: 42 },
            title_bar_fill: Rgba { r: 38, g: 24, b: 22, a: 210 },
            title_bar_stroke: Rgba { r: 255, g: 205, b: 170, a: 34 },
            maximize_hover: Rgba { r: 255, g: 184, b: 143, a: 30 },
            minimize_hover: Rgba { r: 255, g: 184, b: 143, a: 30 },
            text_primary: Rgba { r: 250, g: 232, b: 220, a: 242 },
            text_muted: Rgba { r: 214, g: 172, b: 150, a: 225 },
            default_icon: Rgba { r: 248, g: 219, b: 194, a: 245 },
            selection_fill: Rgba { r: 221, g: 118, b: 66, a: 202 },
            selection_stroke: Rgba { r: 255, g: 232, b: 214, a: 140 },
            selection_text: Rgba { r: 255, g: 255, b: 255, a: 255 },
            marquee_fill: Rgba { r: 221, g: 118, b: 66, a: 88 },
            marquee_stroke: Rgba { r: 221, g: 118, b: 66, a: 255 },
            selection_preview_fill: Rgba { r: 221, g: 118, b: 66, a: 138 },
            extreme_bg: Rgba { r: 24, g: 15, b: 14, a: 220 },
            faint_bg: Rgba { r: 255, g: 255, b: 255, a: 7 },
            hyperlink: Rgba { r: 255, g: 182, b: 128, a: 255 },
        },
    }
}

/// Hover colour of the close button, the same in every theme.
pub fn close_hover() -> (c: Rgba)
    ensures
        c == rgba(232, 17, 35, 255),
{
    Rgba { r: 232, g: 17, b: 35, a: 255 }
}

} // verus!
