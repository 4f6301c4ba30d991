use agc::config::init::{check_overwrite, config_file, created_message, resolve_dir};
use agc::config::paths::{config_dir_default, data_dir_default};
use agc::config::EnvVars;

fn home_env() -> EnvVars {
    let mut env = EnvVars::empty();
    env.home = Some("/home/tester".into());
    env
}

#[test]
fn config_dir_ends_with_agc() {
    let dir = config_dir_default(&home_env()).expect("config dir should resolve");
    assert_eq!(std::path::Path::new(&dir).file_name().unwrap(), "agc");
}

#[test]
fn data_dir_ends_with_agc() {
    let dir = data_dir_default(&home_env()).expect("data dir should resolve");
    assert_eq!(std::path::Path::new(&dir).file_name().unwrap(), "agc");
}

#[test]
fn config_and_data_dirs_follow_xdg_then_home() {
    let env = home_env();
    assert_eq!(config_dir_default(&env).unwrap(), "/home/tester/.config/agc");
    assert_eq!(data_dir_default(&env).unwrap(), "/home/tester/.local/share/agc");
    let mut xdg = home_env();
    xdg.xdg_config_home = Some("/xdg/conf".into());
    xdg.xdg_data_home = Some(String::new());
    assert_eq!(config_dir_default(&xdg).unwrap(), "/xdg/conf/agc");
    assert_eq!(data_dir_default(&xdg).unwrap(), "/home/tester/.local/share/agc");
    assert!(config_dir_default(&EnvVars::empty()).is_none());
}

#[test]
fn resolve_dir_uses_given_path() {
    assert_eq!(
        std::path::PathBuf::from(resolve_dir(Some("C:/custom/dir".into()), &home_env())),
        std::path::PathBuf::from("C:/custom/dir")
    );
}

#[test]
fn resolve_dir_empty_falls_back_to_default() {
    let env = home_env();
    assert_eq!(resolve_dir(Some(String::new()), &env), config_dir_default(&env).unwrap());
    assert_eq!(resolve_dir(None, &env), config_dir_default(&env).unwrap());
}

#[test]
fn resolve_dir_without_platform_dir_uses_relative_fallback() {
    assert_eq!(resolve_dir(None, &EnvVars::empty()), ".config/agc");
}

#[test]
fn init_refuses_overwrite_without_force() {
    let file = config_file("/tmp/agc");
    assert_eq!(file, "/tmp/agc/default.yaml");
    let err = check_overwrite(&file, true, false).unwrap_err();
    assert!(err.message().contains("已存在"));
    assert_eq!(err.message(), "/tmp/agc/default.yaml 已存在，如需覆盖请添加 --force");
    assert!(check_overwrite(&file, true, true).is_ok());
    assert!(check_overwrite(&file, false, false).is_ok());
    assert_eq!(created_message(&file), "已生成配置文件: /tmp/agc/default.yaml");
}

#[test]
fn windows_dirs_use_userprofile_then_appdata() {
    let mut env = EnvVars::empty();
    env.windows = true;
    env.home = Some("/home/ignored".into());
    env.appdata = Some("C:/Users/u/AppData/Roaming".into());
    assert_eq!(config_dir_default(&env).unwrap(), "C:/Users/u/AppData/Roaming/agc");
    assert_eq!(data_dir_default(&env).unwrap(), "C:/Users/u/AppData/Roaming/agc");
    env.userprofile = Some("C:/Users/u".into());
    env.xdg_data_home = Some("/xdg/data".into());
    assert_eq!(config_dir_default(&env).unwrap(), "C:/Users/u/.config/agc");
    assert_eq!(data_dir_default(&env).unwrap(), "C:/Users/u/AppData/Roaming/agc");
    env.appdata = None;
    assert!(data_dir_default(&env).is_none());
}
