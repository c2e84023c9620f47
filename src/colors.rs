use std::sync::Arc;
use vstd::prelude::*;

verus! {

/// An opaque color with one byte per channel.
#[derive(Clone, Copy, Debug, PartialEq, Eq, Structural)]
pub struct Rgba {
    pub r: u8,
    pub g: u8,
    pub b: u8,
    pub a: u8,
}

/// The opaque color whose red, green and blue bytes are the three low bytes
/// of `hex`, most significant first.
pub open spec fn rgb_spec(hex: u32) -> Rgba {
    Rgba {
        r: ((hex >> 16u32) & 0xffu32) as u8,
        g: ((hex >> 8u32) & 0xffu32) as u8,
        b: (hex & 0xffu32) as u8,
        a: 255,
    }
}

/// Builds an opaque color from a `0xRRGGBB` value; bits above the low 24 are
/// ignored.
pub fn rgb(hex: u32) -> (r: Rgba)
    ensures
        r == rgb_spec(hex),
{
    Rgba {
        r: ((hex >> 16u32) & 0xffu32) as u8,
        g: ((hex >> 8u32) & 0xffu32) as u8,
        b: (hex & 0xffu32) as u8,
        a: 255,
    }
}

/// The default set of colors, used to style base components.
#[derive(Clone, Copy, Debug, PartialEq, Eq, Structural)]
pub struct Colors {
    /// Primary text color
    pub text: Rgba,
    /// Muted/secondary text color
    pub text_muted: Rgba,
    /// Selected text color
    pub selected_text: Rgba,
    /// Background color (root level)
    pub background: Rgba,
    /// Surface color (cards, panels, elevated containers)
    pub surface: Rgba,
    /// Surface color on hover
    pub surface_hover: Rgba,
    /// Disabled color
    pub disabled: Rgba,
    /// Selected color
    pub selected: Rgba,
    /// Border color
    pub border: Rgba,
    /// Separator color
    pub separator: Rgba,
    /// Container color
    pub container: Rgba,
    /// Accent/primary action color (macOS blue)
    pub accent: Rgba,
    /// Accent color on hover
    pub accent_hover: Rgba,
    /// Accent color when active/pressed
    pub accent_active: Rgba,
    /// Success/positive color
    pub success: Rgba,
    /// Success color on hover
    pub success_hover: Rgba,
    /// Warning/caution color
    pub warning: Rgba,
    /// Warning color on hover
    pub warning_hover: Rgba,
    /// Error/destructive color
    pub error: Rgba,
    /// Error color on hover
    pub error_hover: Rgba,
}

/// The dark palette.
pub open spec fn dark_spec() -> Colors {
    Colors {
        text: rgb_spec(0xffffff),
        text_muted: rgb_spec(0x98989d),
        selected_text: rgb_spec(0xffffff),
        background: rgb_spec(0x1e1e1e),
        surface: rgb_spec(0x2d2d2d),
        surface_hover: rgb_spec(0x3d3d3d),
        disabled: rgb_spec(0x565656),
        selected: rgb_spec(0x0058d0),
        border: rgb_spec(0x3d3d3d),
        separator: rgb_spec(0x3d3d3d),
        container: rgb_spec(0x262626),
        accent: rgb_spec(0x0a84ff),
        accent_hover: rgb_spec(0x409cff),
        accent_active: rgb_spec(0x0071e3),
        success: rgb_spec(0x30d158),
        success_hover: rgb_spec(0x28cd52),
        warning: rgb_spec(0xffd60a),
        warning_hover: rgb_spec(0xffcc00),
        error: rgb_spec(0xff453a),
        error_hover: rgb_spec(0xff6961),
    }
}

/// The light palette.
pub open spec fn light_spec() -> Colors {
    Colors {
        text: rgb_spec(0x1d1d1f),
        text_muted: rgb_spec(0x86868b),
        selected_text: rgb_spec(0xffffff),
        background: rgb_spec(0xffffff),
        surface: rgb_spec(0xf5f5f7),
        surface_hover: rgb_spec(0xe8e8ed),
        disabled: rgb_spec(0xb0b0b0),
        selected: rgb_spec(0x0066cc),
        border: rgb_spec(0xd2d2d7),
        separator: rgb_spec(0xd2d2d7),
        container: rgb_spec(0xf5f5f7),
        accent: rgb_spec(0x007aff),
        accent_hover: rgb_spec(0x0071e3),
        accent_active: rgb_spec(0x0058d0),
        success: rgb_spec(0x28cd41),
        success_hover: rgb_spec(0x23b839),
        warning: rgb_spec(0xff9f0a),
        warning_hover: rgb_spec(0xe68f09),
        error: rgb_spec(0xff3b30),
        error_hover: rgb_spec(0xe6352b),
    }
}

/// The appearance a window reports.
#[derive(Clone, Copy, Debug, PartialEq, Eq, Structural)]
pub enum WindowAppearance {
    Light,
    VibrantLight,
    Dark,
    VibrantDark,
}

/// Whether an appearance is one of the dark ones.
pub open spec fn is_dark(appearance: WindowAppearance) -> bool {
    appearance == WindowAppearance::Dark || appearance == WindowAppearance::VibrantDark
}

impl Colors {
    /// The palette that matches a window's appearance: dark for the dark and
    /// vibrant dark appearances, light otherwise.
    pub fn for_appearance(appearance: WindowAppearance) -> (r: Colors)
        ensures
            r == (if is_dark(appearance) {
                dark_spec()
            } else {
                light_spec()
            }),
    {
        match appearance {
            WindowAppearance::Light | WindowAppearance::VibrantLight => Self::light(),
            WindowAppearance::Dark | WindowAppearance::VibrantDark => Self::dark(),
        }
    }

    /// The dark palette.
    pub fn dark() -> (r: Colors)
        ensures
            r == dark_spec(),
    {
        Colors {
            text: rgb(0xffffff),
            text_muted: rgb(0x98989d),
            selected_text: rgb(0xffffff),
            background: rgb(0x1e1e1e),
            surface: rgb(0x2d2d2d),
            surface_hover: rgb(0x3d3d3d),
            disabled: rgb(0x565656),
            selected: rgb(0x0058d0),
            border: rgb(0x3d3d3d),
            separator: rgb(0x3d3d3d),
            container: rgb(0x262626),
            accent: rgb(0x0a84ff),
            accent_hover: rgb(0x409cff),
            accent_active: rgb(0x0071e3),
            success: rgb(0x30d158),
            success_hover: rgb(0x28cd52),
            warning: rgb(0xffd60a),
            warning_hover: rgb(0xffcc00),
            error: rgb(0xff453a),
            error_hover: rgb(0xff6961),
        }
    }

    /// The light palette.
    pub fn light() -> (r: Colors)
        ensures
            r == light_spec(),
    {
        Colors {
            text: rgb(0x1d1d1f),
            text_muted: rgb(0x86868b),
            selected_text: rgb(0xffffff),
            background: rgb(0xffffff),
            surface: rgb(0xf5f5f7),
            surface_hover: rgb(0xe8e8ed),
            disabled: rgb(0xb0b0b0),
            selected: rgb(0x0066cc),
            border: rgb(0xd2d2d7),
            separator: rgb(0xd2d2d7),
            container: rgb(0xf5f5f7),
            accent: rgb(0x007aff),
            accent_hover: rgb(0x0071e3),
            accent_active: rgb(0x0058d0),
            success: rgb(0x28cd41),
            success_hover: rgb(0x23b839),
            warning: rgb(0xff9f0a),
            warning_hover: rgb(0xe68f09),
            error: rgb(0xff3b30),
            error_hover: rgb(0xe6352b),
        }
    }

    /// The palette held by the shared global.
    pub fn get_global(global: &GlobalColors) -> (r: &Arc<Colors>)
        ensures
            **r == *global.0,
    {
        &global.0
    }
}

impl Default for Colors {
    fn default() -> (r: Colors)
        ensures
            r == light_spec(),
    {
        Self::light()
    }
}

/// The palette shared by the whole application.
#[derive(Clone, Debug)]
pub struct GlobalColors(pub Arc<Colors>);

impl GlobalColors {
    pub fn new(colors: Colors) -> (r: GlobalColors)
        ensures
            *r.0 == colors,
    {
        GlobalColors(Arc::new(colors))
    }
}

/// Access to the application's shared palette.
pub trait DefaultColors {
    /// The shared palette.
    fn default_colors(&self) -> &Arc<Colors>;
}

impl DefaultColors for GlobalColors {
    fn default_colors(&self) -> &Arc<Colors> {
        &self.0
    }
}

/// The appearance of the base colors: light or dark.
#[derive(Clone, Copy, Debug, PartialEq, Eq, Structural)]
pub enum DefaultAppearance {
    /// Use the set of colors for light appearances.
    Light,
    /// Use the set of colors for dark appearances.
    Dark,
}

impl Default for DefaultAppearance {
    fn default() -> (r: DefaultAppearance)
        ensures
            r == DefaultAppearance::Light,
    {
        DefaultAppearance::Light
    }
}

impl From<WindowAppearance> for DefaultAppearance {
    fn from(appearance: WindowAppearance) -> (r: DefaultAppearance)
        ensures
            r == (if is_dark(appearance) {
                DefaultAppearance::Dark
            } else {
                DefaultAppearance::Light
            }),
    {
        match appearance {
            WindowAppearance::Light | WindowAppearance::VibrantLight => DefaultAppearance::Light,
            WindowAppearance::Dark | WindowAppearance::VibrantDark => DefaultAppearance::Dark,
        }
    }
}

impl vstd::std_specs::convert::FromSpecImpl<WindowAppearance> for DefaultAppearance {
    open spec fn obeys_from_spec() -> bool {
        true
    }

    open spec fn from_spec(appearance: WindowAppearance) -> DefaultAppearance {
        if is_dark(appearance) {
            DefaultAppearance::Dark
        } else {
            DefaultAppearance::Light
        }
    }
}

} // verus!
