use ronix::config::{needs_rescan, AccentColor, Config, MainColor};

#[test]
fn default_config_values() {
    let c = Config::default();
    assert!(c.music_folders.is_empty());
    assert!(c.dark_mode);
    assert!(matches!(c.main_color, MainColor::Zinc));
    assert!(matches!(c.accent_color, AccentColor::Emerald));
}

#[test]
fn rescan_only_when_the_folder_list_changes() {
    let mut a = Config::default();
    a.music_folders.push("/home/me/Music".to_string());
    let b = a.clone();
    assert!(!needs_rescan(&a, &b));
    let mut c = a.clone();
    c.dark_mode = false;
    c.main_color = MainColor::Stone;
    assert!(!needs_rescan(&a, &c));
    let mut d = a.clone();
    d.music_folders.push("/mnt/archive".to_string());
    assert!(needs_rescan(&a, &d));
    let mut e = a.clone();
    e.music_folders[0] = "/home/me/Downloads".to_string();
    assert!(needs_rescan(&a, &e));
}
