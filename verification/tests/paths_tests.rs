use sceno::paths::{config_path, file_in, resolve};
use std::path::PathBuf;

fn p(s: Option<String>) -> PathBuf {
    PathBuf::from(s.unwrap())
}

#[test]
fn xdg_var_takes_precedence() {
    let got = p(resolve(Some("/run/cfg"), Some("/home/u"), ".config", "lyrics"));
    assert_eq!(got, PathBuf::from("/run/cfg/sceno/lyrics"));
}

#[test]
fn empty_xdg_falls_back_to_home() {
    let got = p(resolve(Some(""), Some("/home/u"), ".config", "lyrics"));
    assert_eq!(got, PathBuf::from("/home/u/.config/sceno/lyrics"));
}

#[test]
fn missing_xdg_uses_home() {
    let got = p(resolve(None, Some("/home/u"), ".cache", "tuner"));
    assert_eq!(got, PathBuf::from("/home/u/.cache/sceno/tuner"));
}

#[test]
fn no_home_no_xdg_is_none() {
    assert!(resolve(None, None, ".config", "lyrics").is_none());
}

#[test]
fn data_dir_uses_data_home_layout_per_app() {
    let got = p(resolve(Some("/run/data"), Some("/home/u"), ".local/share", "karaoke"));
    assert_eq!(got, PathBuf::from("/run/data/sceno/karaoke"));
    let got = p(resolve(None, Some("/home/u"), ".local/share", "lyrics"));
    assert_eq!(got, PathBuf::from("/home/u/.local/share/sceno/lyrics"));
}

#[test]
fn rejects_app_names_that_escape() {
    for bad in ["/etc", "../../etc", "a/b", "", ".hidden"] {
        assert!(
            resolve(Some("/run/cfg"), Some("/home/u"), ".config", bad).is_none(),
            "should reject {bad:?}"
        );
    }
}

#[test]
fn trailing_slash_root_is_joined_once() {
    assert_eq!(
        resolve(Some("/run/cfg/"), None, ".config", "tuner"),
        Some("/run/cfg/sceno/tuner".to_string())
    );
}

#[test]
fn config_file_sits_in_config_dir() {
    assert_eq!(
        config_path(Some("/home/u/.config/sceno/lyrics")),
        Some("/home/u/.config/sceno/lyrics/config.json".to_string())
    );
    assert_eq!(config_path(None), None);
    assert_eq!(file_in(Some("/d/"), "stats.json"), Some("/d/stats.json".to_string()));
}
