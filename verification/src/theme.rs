use vstd::prelude::*;
use crate::text::str_eq;

verus! {

/// The colour schemes of the interface.
#[derive(Debug, Clone, Copy, PartialEq, Eq, Structural)]
pub enum LauncherThemeColor {
    Brown,
    SkyBlue,
    Catppuccin,
    Teal,
    Halloween,
    Adwaita,
    Purple,
}

/// Light or dark interface, or whatever the system uses.
#[derive(Debug, Clone, Copy, PartialEq, Eq, Structural)]
pub enum LauncherThemeLightness {
    Light,
    Dark,
    Auto,
}

/// The shown name of a colour scheme.
pub open spec fn color_name(c: LauncherThemeColor) -> Seq<char> {
    match c {
        LauncherThemeColor::Brown => "Brown"@,
        LauncherThemeColor::Purple => "Purple"@,
        LauncherThemeColor::SkyBlue => "Sky Blue"@,
        LauncherThemeColor::Catppuccin => "Catppuccin"@,
        LauncherThemeColor::Teal => "Teal"@,
        LauncherThemeColor::Halloween => "Halloween"@,
        LauncherThemeColor::Adwaita => "Adwaita"@,
    }
}

/// The colour scheme of a name; an unknown name gives the default scheme.
pub open spec fn color_of_name(s: Seq<char>) -> LauncherThemeColor {
    if s == "Brown"@ {
        LauncherThemeColor::Brown
    } else if s == "Purple"@ {
        LauncherThemeColor::Purple
    } else if s == "Sky Blue"@ {
        LauncherThemeColor::SkyBlue
    } else if s == "Catppuccin"@ {
        LauncherThemeColor::Catppuccin
    } else if s == "Teal"@ {
        LauncherThemeColor::Teal
    } else if s == "Halloween"@ {
        LauncherThemeColor::Halloween
    } else if s == "Adwaita"@ {
        LauncherThemeColor::Adwaita
    } else {
        LauncherThemeColor::Purple
    }
}

pub open spec fn lightness_name(l: LauncherThemeLightness) -> Seq<char> {
    match l {
        LauncherThemeLightness::Light => "Light"@,
        LauncherThemeLightness::Dark => "Dark"@,
        LauncherThemeLightness::Auto => "Auto"@,
    }
}

impl Default for LauncherThemeColor {
    fn default() -> (r: Self)
        ensures
            r == LauncherThemeColor::Purple,
    {
        LauncherThemeColor::Purple
    }
}

impl Default for LauncherThemeLightness {
    fn default() -> (r: Self)
        ensures
            r == LauncherThemeLightness::Auto,
    {
        LauncherThemeLightness::Auto
    }
}

impl LauncherThemeColor {
    /// Every colour scheme, in the order the settings list them.
    pub fn all() -> (r: Vec<LauncherThemeColor>)
        ensures
            r@ == seq![
                LauncherThemeColor::Purple,
                LauncherThemeColor::Brown,
                LauncherThemeColor::SkyBlue,
                LauncherThemeColor::Catppuccin,
                LauncherThemeColor::Teal,
                LauncherThemeColor::Halloween,
                LauncherThemeColor::Adwaita,
            ],
    {
        let r = vec![
            LauncherThemeColor::Purple,
            LauncherThemeColor::Brown,
            LauncherThemeColor::SkyBlue,
            LauncherThemeColor::Catppuccin,
            LauncherThemeColor::Teal,
            LauncherThemeColor::Halloween,
            LauncherThemeColor::Adwaita,
        ];
        assert(r@ =~= seq![
            LauncherThemeColor::Purple,
            LauncherThemeColor::Brown,
            LauncherThemeColor::SkyBlue,
            LauncherThemeColor::Catppuccin,
            LauncherThemeColor::Teal,
            LauncherThemeColor::Halloween,
            LauncherThemeColor::Adwaita,
        ]);
        r
    }

    /// The shown name of the scheme.
    pub fn label(&self) -> (r: &'static str)
        ensures
            r@ == color_name(*self),
    {
        match self {
            LauncherThemeColor::Brown => "Brown",
            LauncherThemeColor::Purple => "Purple",
            LauncherThemeColor::SkyBlue => "Sky Blue",
            LauncherThemeColor::Catppuccin => "Catppuccin",
            LauncherThemeColor::Teal => "Teal",
            LauncherThemeColor::Halloween => "Halloween",
            LauncherThemeColor::Adwaita => "Adwaita",
        }
    }

    /// The scheme of a shown name; an unknown name gives the default one.
    pub fn from_name(s: &str) -> (r: LauncherThemeColor)
        ensures
            r == color_of_name(s@),
    {
        if str_eq(s, "Brown") {
            LauncherThemeColor::Brown
        } else if str_eq(s, "Purple") {
            LauncherThemeColor::Purple
        } else if str_eq(s, "Sky Blue") {
            LauncherThemeColor::SkyBlue
        } else if str_eq(s, "Catppuccin") {
            LauncherThemeColor::Catppuccin
        } else if str_eq(s, "Teal") {
            LauncherThemeColor::Teal
        } else if str_eq(s, "Halloween") {
            LauncherThemeColor::Halloween
        } else if str_eq(s, "Adwaita") {
            LauncherThemeColor::Adwaita
        } else {
            LauncherThemeColor::Purple
        }
    }
}

impl std::str::FromStr for LauncherThemeColor {
    type Err = String;

    /// The scheme of a shown name; an unknown name gives the default one.
    /// It never fails.
    fn from_str(s: &str) -> (r: Result<Self, Self::Err>)
        ensures
            r == Ok::<LauncherThemeColor, String>(color_of_name(s@)),
    {
        Ok(LauncherThemeColor::from_name(s))
    }
}

impl LauncherThemeLightness {
    /// Every lightness setting, in the order the settings list them.
    pub fn all() -> (r: Vec<LauncherThemeLightness>)
        ensures
            r@ == seq![LauncherThemeLightness::Light, LauncherThemeLightness::Dark, LauncherThemeLightness::Auto],
    {
        let r = vec![LauncherThemeLightness::Light, LauncherThemeLightness::Dark, LauncherThemeLightness::Auto];
        assert(r@ =~= seq![LauncherThemeLightness::Light, LauncherThemeLightness::Dark, LauncherThemeLightness::Auto]);
        r
    }

    /// The shown name of the setting.
    pub fn label(&self) -> (r: &'static str)
        ensures
            r@ == lightness_name(*self),
    {
        match self {
            LauncherThemeLightness::Light => "Light",
            LauncherThemeLightness::Dark => "Dark",
            LauncherThemeLightness::Auto => "Auto",
        }
    }

    /// Whether the interface is drawn light, given whether the system is in
    /// dark mode.
    pub fn is_light(self, system_dark_mode: bool) -> (r: bool)
        ensures
            r == match self {
                LauncherThemeLightness::Light => true,
                LauncherThemeLightness::Dark => false,
                LauncherThemeLightness::Auto => !system_dark_mode,
            },
    {
        match self {
            LauncherThemeLightness::Light => true,
            LauncherThemeLightness::Dark => false,
            LauncherThemeLightness::Auto => !system_dark_mode,
        }
    }
}

/// Reading back the shown name of a colour scheme gives the scheme.
pub proof fn law_color_name_round_trip(c: LauncherThemeColor)
    ensures
        color_of_name(color_name(c)) == c,
{
    reveal_strlit("Brown");
    reveal_strlit("Purple");
    reveal_strlit("Sky Blue");
    reveal_strlit("Catppuccin");
    reveal_strlit("Teal");
    reveal_strlit("Halloween");
    reveal_strlit("Adwaita");
    assert("Brown"@.len() == 5);
    assert("Purple"@.len() == 6);
    assert("Sky Blue"@.len() == 8);
    assert("Catppuccin"@.len() == 10);
    assert("Teal"@.len() == 4);
    assert("Halloween"@.len() == 9);
    assert("Adwaita"@.len() == 7);
}

} // verus!
