use terms::style::{
    preference_from_selectors, preference_to_store, selectors_for, tab_bar_layout, theme_css_class, theme_shown,
    thumbnail_css, AppProfile, StylePreference, StyleSelectors, TabBarLayout,
};

#[test]
fn profile_names() {
    assert_eq!(AppProfile::Stable.as_str(), "stable");
    assert_eq!(AppProfile::Beta.to_string(), "beta");
    let s: &str = (&AppProfile::Devel).into();
    assert_eq!(s, "devel");
    assert!(AppProfile::Devel.should_use_devel_class());
    assert!(!AppProfile::Stable.should_use_devel_class());
}

#[test]
fn switcher_shows_one_button() {
    assert_eq!(selectors_for(StylePreference::Light), StyleSelectors { system: false, light: true, dark: false });
    for p in [StylePreference::System, StylePreference::Light, StylePreference::Dark] {
        assert_eq!(preference_from_selectors(selectors_for(p)), p);
    }
    assert_eq!(preference_from_selectors(StyleSelectors { system: false, light: false, dark: false }), StylePreference::Dark);
    assert_eq!(preference_from_selectors(StyleSelectors { system: true, light: true, dark: true }), StylePreference::System);
}

#[test]
fn store_only_changes() {
    assert_eq!(preference_to_store(StylePreference::Dark, StylePreference::Dark), None);
    assert_eq!(preference_to_store(StylePreference::Dark, StylePreference::Light), Some(StylePreference::Light));
}

#[test]
fn tab_bar_placement() {
    assert_eq!(tab_bar_layout(true), TabBarLayout { in_header_bar: true, autohide: false, integrated_style: true });
    assert_eq!(tab_bar_layout(false), TabBarLayout { in_header_bar: false, autohide: true, integrated_style: false });
}

#[test]
fn theme_filter() {
    assert!(theme_shown(false, true, None));
    assert!(theme_shown(true, true, Some(false)));
    assert!(!theme_shown(true, true, Some(true)));
    assert!(theme_shown(true, false, Some(true)));
    assert!(!theme_shown(true, false, None));
}

#[test]
fn thumbnail_styles() {
    assert_eq!(theme_css_class("Solarized Dark"), "solarized_dark");
    assert_eq!(theme_css_class("OneHalfLight"), "one_half_light");
    assert_eq!(thumbnail_css("nord", "rgb(46,52,64)"), "picture.nord { background-color: rgb(46,52,64); }");
}
