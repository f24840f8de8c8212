use herdr_comments::config::{
    Config, ConfigError, Dimension, LoadedConfig, NamedPopup, PopupSize, Profile, ProfileMatch,
    CAPTURE_POPUP, REVIEW_POPUP,
};

fn size(width: &str, height: &str) -> PopupSize {
    PopupSize {
        width: width.into(),
        height: height.into(),
    }
}

fn popups(capture: PopupSize, review: PopupSize) -> Vec<NamedPopup> {
    vec![
        NamedPopup {
            name: CAPTURE_POPUP.into(),
            size: capture,
        },
        NamedPopup {
            name: REVIEW_POPUP.into(),
            size: review,
        },
    ]
}

fn profile(name: &str, min: Option<u16>, max: Option<u16>, capture: PopupSize, review: PopupSize) -> Profile {
    Profile {
        name: name.into(),
        selector: ProfileMatch {
            min_client_width: min,
            max_client_width: max,
        },
        popups: popups(capture, review),
    }
}

/// The configuration the plugin writes on first use.
fn config() -> Config {
    Config {
        inline_comments: true,
        popups: popups(size("90%", "90%"), size("90%", "85%")),
        profiles: vec![
            profile("laptop", None, Some(310), size("95%", "90%"), size("95%", "85%")),
            profile("2-3-ultrawide", None, Some(350), size("90%", "90%"), size("90%", "85%")),
            profile("full-ultrawide", Some(400), None, size("50%", "70%"), size("70%", "85%")),
        ],
    }
}

#[test]
fn inline_comments_are_enabled_by_default_and_legacy_configs_stay_disabled() {
    let loaded = LoadedConfig::from_config(config()).unwrap();
    assert!(loaded.inline_comments());

    let mut legacy = config();
    legacy.inline_comments = false;
    assert!(!LoadedConfig::from_config(legacy).unwrap().inline_comments());
}

#[test]
fn selects_responsive_popup_sizes() {
    let config = config();

    assert_eq!(config.popup(CAPTURE_POPUP, Some(300)).unwrap().width, "95%");
    assert_eq!(config.popup(CAPTURE_POPUP, Some(330)).unwrap().width, "90%");
    assert_eq!(config.popup(CAPTURE_POPUP, Some(380)).unwrap().width, "90%");
    assert_eq!(config.popup(CAPTURE_POPUP, Some(512)).unwrap().width, "50%");
    assert_eq!(
        config.popup(CAPTURE_POPUP, Some(512)).unwrap().height,
        "70%"
    );
    assert_eq!(config.popup(REVIEW_POPUP, Some(512)).unwrap().width, "70%");
    assert_eq!(config.popup(REVIEW_POPUP, Some(512)).unwrap().height, "85%");
}

#[test]
fn rejects_invalid_popup_sizes() {
    let mut source = config();
    source.popups[0].size.height = "120%".into();

    assert!(source.validate().is_err());
    assert_eq!(
        source.validate(),
        Err(ConfigError::InvalidPopupSize {
            dimension: Dimension::Height,
            value: "120%".into()
        })
    );
}

#[test]
fn the_default_configuration_validates() {
    assert_eq!(config().validate(), Ok(()));
}

#[test]
fn the_first_matching_profile_wins() {
    // 300 cells fits both the laptop and the 2-3-ultrawide bounds.
    assert_eq!(config().popup(REVIEW_POPUP, Some(300)).unwrap(), size("95%", "85%"));
    assert_eq!(config().popup(REVIEW_POPUP, Some(310)).unwrap(), size("95%", "85%"));
    assert_eq!(config().popup(REVIEW_POPUP, Some(311)).unwrap(), size("90%", "85%"));
}

#[test]
fn widths_between_profiles_and_unknown_widths_use_the_defaults() {
    assert_eq!(config().popup(CAPTURE_POPUP, Some(351)).unwrap(), size("90%", "90%"));
    assert_eq!(config().popup(CAPTURE_POPUP, Some(399)).unwrap(), size("90%", "90%"));
    assert_eq!(config().popup(CAPTURE_POPUP, Some(400)).unwrap(), size("50%", "70%"));
    assert_eq!(config().popup(CAPTURE_POPUP, None).unwrap(), size("90%", "90%"));
}

#[test]
fn unknown_popups_are_refused() {
    assert_eq!(
        config().popup("scratch", Some(300)),
        Err(ConfigError::UnknownPopup {
            name: "scratch".into()
        })
    );
}

#[test]
fn each_configuration_error_is_reported() {
    let mut missing = config();
    missing.popups.remove(1);
    assert_eq!(
        missing.validate(),
        Err(ConfigError::MissingPopup {
            name: "review".into()
        })
    );

    let mut unnamed = config();
    unnamed.profiles[1].name = "  ".into();
    assert_eq!(unnamed.validate(), Err(ConfigError::EmptyProfileName));

    let mut inverted = config();
    inverted.profiles[0].selector = ProfileMatch {
        min_client_width: Some(320),
        max_client_width: Some(310),
    };
    assert_eq!(
        inverted.validate(),
        Err(ConfigError::ProfileWidthRange {
            profile: "laptop".into()
        })
    );

    let mut unknown = config();
    unknown.profiles[2].popups.push(NamedPopup {
        name: "scratch".into(),
        size: size("10", "10"),
    });
    assert_eq!(
        unknown.validate(),
        Err(ConfigError::UnknownProfilePopup {
            profile: "full-ultrawide".into(),
            popup: "scratch".into()
        })
    );

    let mut bad_width = config();
    bad_width.profiles[0].popups[1].size.width = "0%".into();
    assert_eq!(
        bad_width.validate(),
        Err(ConfigError::InvalidPopupSize {
            dimension: Dimension::Width,
            value: "0%".into()
        })
    );
}

#[test]
fn popup_sizes_are_cells_or_percentages() {
    let mut cells = config();
    cells.popups[0].size = size("120", "40");
    assert_eq!(cells.validate(), Ok(()));

    for bad in ["", "abc", "101%", "0", "%", "12.5%", "70000"] {
        let mut config = config();
        config.popups[0].size.width = bad.into();
        assert!(config.validate().is_err(), "{bad} was accepted");
    }
}

#[test]
fn popup_names_must_ascend_like_a_map() {
    assert!(config().names_in_order());
    let mut swapped = config();
    swapped.popups.swap(0, 1);
    assert!(!swapped.names_in_order());
    let mut duplicate = config();
    duplicate.profiles[1].popups[1].name = CAPTURE_POPUP.into();
    assert!(!duplicate.names_in_order());
}
