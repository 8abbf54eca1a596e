//! Appearance decisions: the build profile, the light/dark style switcher,
//! where the tab bar goes, which themes the preferences show, and the CSS
//! of a theme's thumbnail.
use vstd::prelude::*;
use vstd::std_specs::convert::FromSpecImpl;
use convert_case::{Case, Casing};

verus! {

/// The profile that was built.
#[derive(Debug, Clone, Copy, PartialEq, Eq, Structural)]
pub enum AppProfile {
    /// A stable release.
    Stable,
    /// A beta release.
    Beta,
    /// A development release.
    Devel,
}

/// The name of a profile.
pub open spec fn profile_name(p: AppProfile) -> Seq<char> {
    match p {
        AppProfile::Stable => "stable"@,
        AppProfile::Beta => "beta"@,
        AppProfile::Devel => "devel"@,
    }
}

impl AppProfile {
    /// Whether this `AppProfile` should use the `.devel` CSS class on windows.
    pub fn should_use_devel_class(&self) -> (r: bool)
        ensures
            r == (*self == AppProfile::Devel),
    {
        match self {
            AppProfile::Devel => true,
            _ => false,
        }
    }

    /// The name of this profile.
    pub fn as_str(&self) -> (r: &'static str)
        ensures
            r@ == profile_name(*self),
    {
        match self {
            AppProfile::Stable => "stable",
            AppProfile::Beta => "beta",
            AppProfile::Devel => "devel",
        }
    }

    /// The name of this profile, as its `Display` writes it.
    pub fn to_string(&self) -> (r: String)
        ensures
            r@ == profile_name(*self),
    {
        self.as_str().to_owned()
    }
}

impl<'a> From<&'a AppProfile> for &'static str {
    /// The name of the profile.
    fn from(val: &'a AppProfile) -> (r: &'static str) {
        match *val {
            AppProfile::Stable => "stable",
            AppProfile::Beta => "beta",
            AppProfile::Devel => "devel",
        }
    }
}

impl<'a> FromSpecImpl<&'a AppProfile> for &'static str {
    open spec fn obeys_from_spec() -> bool {
        true
    }

    open spec fn from_spec(val: &'a AppProfile) -> &'static str {
        match *val {
            AppProfile::Stable => "stable",
            AppProfile::Beta => "beta",
            AppProfile::Devel => "devel",
        }
    }
}

/// The style the user prefers for the application.
#[derive(Debug, Clone, Copy, PartialEq, Eq, Structural)]
pub enum StylePreference {
    /// Follow the system.
    System,
    /// Always light.
    Light,
    /// Always dark.
    Dark,
}

/// The three check buttons of the style switcher.
#[derive(Debug, Clone, Copy, PartialEq, Eq, Structural)]
pub struct StyleSelectors {
    pub system: bool,
    pub light: bool,
    pub dark: bool,
}

/// The state the style switcher shows for a preference: the button of that
/// preference alone is active.
pub open spec fn selectors_spec(pref: StylePreference) -> StyleSelectors {
    StyleSelectors {
        system: pref == StylePreference::System,
        light: pref == StylePreference::Light,
        dark: pref == StylePreference::Dark,
    }
}

/// The preference that the active buttons choose: System before Light, and
/// Dark when neither of those is active.
pub open spec fn preference_spec(s: StyleSelectors) -> StylePreference {
    if s.system {
        StylePreference::System
    } else if s.light {
        StylePreference::Light
    } else {
        StylePreference::Dark
    }
}

/// The state the style switcher shows for a preference.
pub fn selectors_for(pref: StylePreference) -> (r: StyleSelectors)
    ensures
        r == selectors_spec(pref),
{
    match pref {
        StylePreference::System => StyleSelectors { system: true, light: false, dark: false },
        StylePreference::Light => StyleSelectors { system: false, light: true, dark: false },
        StylePreference::Dark => StyleSelectors { system: false, light: false, dark: true },
    }
}

/// The preference that the style switcher's buttons choose.
pub fn preference_from_selectors(s: StyleSelectors) -> (r: StylePreference)
    ensures
        r == preference_spec(s),
{
    if s.system {
        StylePreference::System
    } else if s.light {
        StylePreference::Light
    } else {
        StylePreference::Dark
    }
}

/// The preference to store after the switcher changed: only a preference
/// that differs from the stored one is written.
pub fn preference_to_store(current: StylePreference, chosen: StylePreference) -> (r: Option<StylePreference>)
    ensures
        current == chosen ==> r is None,
        current != chosen ==> r == Some(chosen),
{
    if current != chosen {
        Some(chosen)
    } else {
        None
    }
}

/// Showing a preference on the switcher and reading the switcher back gives
/// the same preference, and exactly one button is active.
pub proof fn lemma_style_switcher_round_trip(pref: StylePreference)
    ensures
        preference_spec(selectors_spec(pref)) == pref,
        (selectors_spec(pref).system as int) + (selectors_spec(pref).light as int)
            + (selectors_spec(pref).dark as int) == 1,
{
}

/// How the tab bar is laid out.
#[derive(Debug, Clone, Copy, PartialEq, Eq, Structural)]
pub struct TabBarLayout {
    /// The tab bar is the header bar's title widget (otherwise it sits below
    /// the header bar and the window title is the title widget).
    pub in_header_bar: bool,
    /// The tab bar hides itself when there is only one tab.
    pub autohide: bool,
    /// The tab bar carries the `inline` and `integrated` CSS classes.
    pub integrated_style: bool,
}

/// The tab bar layout for the "integrated tab bar" setting.
pub fn tab_bar_layout(integrated: bool) -> (r: TabBarLayout)
    ensures
        r == (TabBarLayout { in_header_bar: integrated, autohide: !integrated, integrated_style: integrated }),
{
    TabBarLayout { in_header_bar: integrated, autohide: !integrated, integrated_style: integrated }
}

/// Whether a theme is shown in the preferences: every theme when filtering
/// is off, otherwise only themes whose darkness matches the selected toggle;
/// an entry without a theme is hidden when filtering.
pub open spec fn theme_shown_spec(filter: bool, light_selected: bool, theme_is_dark: Option<bool>) -> bool {
    if !filter {
        true
    } else {
        match theme_is_dark {
            Some(dark) => if light_selected { !dark } else { dark },
            None => false,
        }
    }
}

/// Whether a theme is shown in the preferences.
pub fn theme_shown(filter: bool, light_selected: bool, theme_is_dark: Option<bool>) -> (r: bool)
    ensures
        r == theme_shown_spec(filter, light_selected, theme_is_dark),
        !filter ==> r,
        (filter && theme_is_dark is Some) ==> r == (theme_is_dark->Some_0 != light_selected),
        filter && theme_is_dark is None ==> !r,
{
    if !filter {
        true
    } else {
        match theme_is_dark {
            Some(dark) => if light_selected {
                !dark
            } else {
                dark
            },
            None => false,
        }
    }
}

/// What `convert_case` gives for `name` converted to `Case::Snake`: by its
/// documentation, the words of `name` in lower case, joined by `_`.
pub uninterp spec fn snake_case(name: Seq<char>) -> Seq<char>;

/// `name.to_case(Case::Snake)` of the `convert_case` crate. The contract says
/// the result is the named function `snake_case` of the name; how words are
/// found and lowered is not stated.
#[verifier::external_body]
fn to_snake_case(name: &str) -> (r: String)
    ensures
        r@ == snake_case(name@),
{
    name.to_case(Case::Snake)
}

/// The CSS class of a theme's thumbnail picture: the theme's name in snake
/// case.
pub fn theme_css_class(theme_name: &str) -> (r: String)
    ensures
        r@ == snake_case(theme_name@),
{
    to_snake_case(theme_name)
}

/// The CSS rule that paints the background of the thumbnails of class
/// `css_class` in the CSS color `color`.
pub open spec fn thumbnail_css_spec(css_class: Seq<char>, color: Seq<char>) -> Seq<char> {
    "picture."@ + css_class + " { background-color: "@ + color + "; }"@
}

/// The CSS rule that paints the background of the thumbnails of class
/// `css_class` in the CSS color `color`.
pub fn thumbnail_css(css_class: &str, color: &str) -> (r: String)
    ensures
        r@ == thumbnail_css_spec(css_class@, color@),
{
    let mut css = "picture.".to_owned();
    css.append(css_class);
    css.append(" { background-color: ");
    css.append(color);
    css.append("; }");
    css
}


/// With filtering on, the light toggle shows exactly the light themes and the
/// dark toggle exactly the dark ones, so the two show complementary sets;
/// with filtering off every theme is shown.
pub proof fn lemma_theme_filter_splits_by_darkness(dark: bool, light_selected: bool, theme_is_dark: Option<bool>)
    ensures
        theme_shown_spec(true, false, Some(dark)) == dark,
        theme_shown_spec(true, true, Some(dark)) == !dark,
        theme_shown_spec(true, true, Some(dark)) != theme_shown_spec(true, false, Some(dark)),
        theme_shown_spec(false, light_selected, theme_is_dark),
        !theme_shown_spec(true, light_selected, None),
{
}

} // verus!
