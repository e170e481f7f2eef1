use wl_translate::settings::{system_language, Settings};

fn locale(values: [Option<&str>; 3]) -> Vec<Option<String>> {
    values.iter().map(|value| value.map(str::to_owned)).collect()
}

#[test]
fn using_a_language_moves_it_to_the_front() {
    let mut settings = Settings::default();
    settings.use_target("fa");

    assert_eq!(settings.target, "fa");
    assert_eq!(settings.recent_target.first().unwrap(), "fa");
}

#[test]
fn recent_list_does_not_grow_unbounded_or_duplicate() {
    let mut settings = Settings::default();

    for lang in ["de", "es", "fr", "ja", "zh", "de", "de"] {
        settings.use_source(lang);
    }

    assert!(settings.recent_source.len() <= 5);
    assert_eq!(settings.recent_source.iter().filter(|l| *l == "de").count(), 1);
}

#[test]
fn swapping_exchanges_both_sides() {
    let mut settings = Settings::default();
    settings.source = "it".into();
    settings.target = "fa".into();

    settings.swap();

    assert_eq!(settings.source, "fa");
    assert_eq!(settings.target, "it");
}

#[test]
fn auto_leads_both_chip_rows() {
    let settings = Settings::default();

    assert_eq!(
        Settings::chips(&settings.recent_source).first().unwrap(),
        "auto"
    );
    assert_eq!(
        Settings::chips(&settings.recent_target).first().unwrap(),
        "auto"
    );
}

#[test]
fn auto_target_resolves_to_a_real_language() {
    let mut settings = Settings::default();
    settings.target = "auto".into();

    for values in [
        [None, None, None],
        [None, None, Some("it_IT.UTF-8")],
        [Some("C"), Some("POSIX"), Some("C.UTF-8")],
        [Some(""), None, Some("auto")],
    ] {
        let resolved = settings.effective_target(&locale(values));

        assert_ne!(resolved, "auto");
        assert_eq!(resolved.len(), 2);
    }
}

#[test]
fn the_system_language_comes_from_the_first_locale_that_names_one() {
    assert_eq!(system_language(&locale([None, None, Some("it_IT.UTF-8")])), "it");
    assert_eq!(system_language(&locale([Some("FA@x"), None, Some("it_IT")])), "fa");
    assert_eq!(system_language(&locale([Some("C"), Some("de_DE"), Some("it_IT")])), "de");
    assert_eq!(system_language(&locale([Some("POSIX"), None, None])), "en");
    assert_eq!(system_language(&Vec::new()), "en");
}

#[test]
fn a_target_that_is_set_is_sent_as_it_is() {
    let mut settings = Settings::default();
    settings.target = "pt-BR".into();

    assert_eq!(settings.effective_target(&locale([None, None, Some("it_IT")])), "pt-BR");
}

#[test]
fn the_order_of_the_others_is_kept() {
    let mut settings = Settings::default();
    settings.use_source("fa");
    assert_eq!(settings.recent_source, ["fa", "it", "en"]);
    settings.use_source("fa");
    assert_eq!(settings.recent_source, ["fa", "it", "en"]);
    settings.use_source("auto");
    assert_eq!(settings.source, "auto");
    assert_eq!(settings.recent_source, ["fa", "it", "en"]);
}

#[test]
fn chips_leave_out_what_is_too_old_and_auto_itself() {
    let recent: Vec<String> = ["a", "auto", "b", "c", "d", "e"].map(str::to_owned).to_vec();
    assert_eq!(Settings::chips(&recent), ["auto", "a", "b", "c", "d"]);
}

#[test]
fn swapping_with_auto_keeps_auto_out_of_the_recent_languages() {
    let mut settings = Settings::default();
    settings.swap();

    assert_eq!(settings.source, "en");
    assert_eq!(settings.target, "auto");
    assert_eq!(settings.recent_source, ["en", "it", "fa"]);
    assert_eq!(settings.recent_target, ["en", "fa", "it"]);
    settings.swap();
    assert_eq!(settings.source, "auto");
    assert_eq!(settings.target, "en");
}

#[test]
fn nothing_parsed_means_defaults() {
    let settings = Settings::loaded(None);
    assert_eq!(settings.source, "auto");
    assert_eq!(settings.target, "en");
    assert_eq!(settings.engine, "google");
    assert_eq!(settings.langs, "eng+ita+fas");
    assert!(settings.freeze);
    assert_eq!(settings.tessdata, None);

    let mut other = Settings::default();
    other.target = "fa".to_owned();
    assert_eq!(Settings::loaded(Some(other)).target, "fa");
}

#[test]
fn settings_are_kept_in_the_configuration_directory() {
    let home = || Some(b"/home/you".to_vec());

    assert_eq!(
        Settings::path(Some(b"/cfg".to_vec()), home()),
        b"/cfg/wl-translate/config.json"
    );
    assert_eq!(
        Settings::path(None, home()),
        b"/home/you/.config/wl-translate/config.json"
    );
    assert_eq!(Settings::path(None, None), b"./wl-translate/config.json");
}
