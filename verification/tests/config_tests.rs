use mdpdf::config::{BandFile, Config, ConfigFile, PageFile};

/// The file `[header]\nleft = "user-left"\ncenter = "user-center"\n`.
fn user_header() -> ConfigFile<f64> {
    ConfigFile {
        header: BandFile {
            left: Some("user-left".to_string()),
            center: Some("user-center".to_string()),
            ..BandFile::default()
        },
        ..ConfigFile::default()
    }
}

#[test]
fn project_config_overrides_user_config_per_field() {
    let mut config: Config<f64> = Config::default();
    config.overlay(user_header(), "/user");
    // `[header]\ncenter = "project-center"\n`
    config.overlay(
        ConfigFile {
            header: BandFile { center: Some("project-center".to_string()), ..BandFile::default() },
            ..ConfigFile::default()
        },
        "/proj",
    );

    // The overridden zone takes the project value, the untouched zone keeps
    // the user value *and* the user directory it must resolve images against.
    assert_eq!(config.header.center.as_ref().unwrap().markdown, "project-center");
    assert_eq!(config.header.center.as_ref().unwrap().base, "/proj");
    assert_eq!(config.header.left.as_ref().unwrap().markdown, "user-left");
    assert_eq!(config.header.left.as_ref().unwrap().base, "/user");
}

#[test]
fn page_defaults_merge_independently() {
    let mut config: Config<f64> = Config::default();
    // `[page]\nmargin = 20.0\nsize = "a4"\n`
    config.overlay(
        ConfigFile {
            page: PageFile { margin: Some(20.0), size: Some("a4".to_string()), ..PageFile::default() },
            ..ConfigFile::default()
        },
        "/user",
    );
    // `[page]\nmargin = 15.0\n`
    config.overlay(
        ConfigFile { page: PageFile { margin: Some(15.0), ..PageFile::default() }, ..ConfigFile::default() },
        "/proj",
    );
    assert_eq!(config.margin_mm, Some(15.0));
    assert_eq!(config.page_size.as_deref(), Some("a4"));
}

#[test]
fn empty_config_yields_no_bands() {
    let config: Config<f64> = Config::default();
    assert!(config.header.is_empty());
    assert!(config.footer.is_empty());
}
