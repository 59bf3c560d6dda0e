use fixfifa::settings::{strip_comment_lines, Settings};
use ini::Ini;

#[test]
fn comment_lines_are_removed() {
    assert_eq!(strip_comment_lines("[LOCALE]\nA=1\n// c\nB=2"), "[LOCALE]\nA=1\nB=2\n");
    assert_eq!(strip_comment_lines("a\r\n//x\r\nb\r\n"), "a\nb\n");
    assert_eq!(strip_comment_lines(""), "");
    assert_eq!(strip_comment_lines("/x\n"), "/x\n");
    assert_eq!(strip_comment_lines("a\rb"), "a\rb\n");
}

#[test]
fn settings_from_game_files() {
    let s = Settings::new("[__General__]\nAUTO_LAUNCH = 0\n", "[LOCALE]\nUSE_LANGUAGE_SELECT = 1\n// EA comment\n").unwrap();
    assert_eq!(
        s,
        Settings { alt_tab: true, blacklist: true, skip_launcher: true, skip_language_selection: false }
    );
    let s = Settings::new("[other]\nx=1\n", "").unwrap();
    assert!(s.skip_launcher && s.skip_language_selection);
}

#[test]
fn unparsable_locale_gives_none() {
    assert_eq!(Settings::new("", "[LOCALE\nx=1\n"), None);
    assert_eq!(Settings::new("[__General__\nAUTO_LAUNCH=0\n", ""), None);
}

#[test]
fn updates_follow_the_switches() {
    let s = Settings { alt_tab: false, blacklist: false, skip_launcher: true, skip_language_selection: true };
    assert_eq!(s.launcher_update().unwrap(), "1");
    assert_eq!(s.language_selection_update().unwrap(), "0");
    let s = Settings { alt_tab: false, blacklist: false, skip_launcher: false, skip_language_selection: false };
    assert_eq!(s.launcher_update(), None);
    assert_eq!(s.language_selection_update(), None);
}

#[test]
fn applied_language_selection_reads_back() {
    let mut locale = Ini::load_from_str("[LOCALE]\nUSE_LANGUAGE_SELECT = 1\n").unwrap();
    Settings::apply_to_locale(&mut locale, "0");
    let mut text = Vec::new();
    locale.write_to(&mut text).unwrap();
    let s = Settings::new("", std::str::from_utf8(&text).unwrap()).unwrap();
    assert!(s.skip_language_selection);
}

#[test]
fn applied_launcher_reads_back_not_skipped() {
    let mut config = Ini::new();
    Settings::apply_to_config(&mut config, "1");
    assert_eq!(config.get_from(Some("__General__"), "AUTO_LAUNCH"), Some("1"));
    let mut text = Vec::new();
    config.write_to(&mut text).unwrap();
    let s = Settings::new(std::str::from_utf8(&text).unwrap(), "").unwrap();
    assert!(!s.skip_launcher);
}

#[test]
fn config_ini_with_byte_order_mark() {
    let doc = Settings::load_config_ini("\u{feff}[__General__]\nAUTO_LAUNCH = 0\n").unwrap();
    assert_eq!(doc.get_from(Some("__General__"), "AUTO_LAUNCH"), Some("0"));
    let s = Settings::new("\u{feff}[__General__]\nAUTO_LAUNCH = 1\n", "").unwrap();
    assert!(!s.skip_launcher);
    assert!(Settings::load_config_ini("[__General__\n").is_none());
}

#[test]
fn applying_replaces_every_value_of_the_key() {
    let mut config = Settings::load_config_ini("[__General__]\nAUTO_LAUNCH = 0\nAUTO_LAUNCH = 2\nOTHER = x\n").unwrap();
    Settings::apply_to_config(&mut config, "1");
    let section = config.section(Some("__General__")).unwrap();
    assert_eq!(section.get_all("AUTO_LAUNCH").collect::<Vec<_>>(), vec!["1"]);
    assert_eq!(section.get_all("OTHER").collect::<Vec<_>>(), vec!["x"]);
}

#[test]
fn game_file_paths() {
    assert_eq!(Settings::get_config_ini_path(), vec!["D:\\Origin Games", "FIFA 19", "FIFASetup", "config.ini"]);
    assert_eq!(Settings::get_locale_ini_path(), vec!["D:\\Origin Games", "FIFA 19", "Data", "locale.ini"]);
    assert_eq!(Settings::get_locale_ini_bak_path(), vec!["D:\\Origin Games", "FIFA 19", "Data", "locale.ini.bak"]);
}

fn memory_db() -> pickledb::PickleDb {
    pickledb::PickleDb::new("unused.db", pickledb::PickleDbDumpPolicy::DumpUponRequest, pickledb::SerializationMethod::Json)
}

#[test]
fn get_all_reads_back_set_all() {
    let mut db = memory_db();
    let s = Settings { alt_tab: false, blacklist: true, skip_launcher: false, skip_language_selection: true };
    Settings::set_all(&mut db, &s);
    assert_eq!(db.get::<bool>("blacklist"), Some(true));
    assert_eq!(db.get::<bool>("alt_tab"), Some(false));
    assert_eq!(
        Settings::get_all(&db),
        Some(Settings { alt_tab: false, blacklist: true, skip_launcher: false, skip_language_selection: true })
    );
}

#[test]
fn get_all_of_an_incomplete_store_is_none() {
    let mut db = memory_db();
    assert_eq!(Settings::get_all(&db), None);
    Settings::set_single(&mut db, "alt_tab", true);
    Settings::set_single(&mut db, "blacklist", true);
    Settings::set_single(&mut db, "skip_launcher", false);
    assert_eq!(Settings::get_all(&db), None);
    Settings::set_single(&mut db, "skip_language_selection", false);
    assert_eq!(
        Settings::get_all(&db),
        Some(Settings { alt_tab: true, blacklist: true, skip_launcher: false, skip_language_selection: false })
    );
}

#[test]
fn single_switch_reads_back() {
    let mut db = memory_db();
    assert_eq!(Settings::get_single(&db, "blacklist"), None);
    Settings::set_single(&mut db, "blacklist", true);
    assert_eq!(Settings::get_single(&db, "blacklist"), Some(true));
    Settings::set_single(&mut db, "blacklist", false);
    assert_eq!(Settings::get_single(&db, "blacklist"), Some(false));
    assert_eq!(Settings::get_single(&db, "alt_tab"), None);
}
