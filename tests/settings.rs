use dotfiles_manager::args::{parse_args, Cli};
use dotfiles_manager::config::{Config, ConfigParseError};
use dotfiles_manager::driver::ManagerError;

fn parse(text: &str) -> Result<Config, ConfigParseError> {
    Config::parse(text, "/home/u")
}

fn pairs(c: &Config) -> Vec<Result<(String, String), ConfigParseError>> {
    c.dotfiles
        .iter()
        .map(|r| match r {
            Ok(m) => Ok((m.manager_path.clone(), m.system_path.clone())),
            Err(e) => Err(e.clone()),
        })
        .collect()
}

#[test]
fn config_lists_mappings_in_order() {
    let text = "[[dotfiles]]\nmanager_path = \"app/config\"\nsystem_path = \"/etc/app/config\"\n\n[[dotfiles]]\nmanager_path = \"vimrc\"\nsystem_path = \"/home/u/.vimrc\"\n";
    let c = parse(text).unwrap();
    assert_eq!(c.manager_dir, "/home/u/.dotfiles");
    assert_eq!(
        pairs(&c),
        vec![
            Ok(("app/config".to_string(), "/etc/app/config".to_string())),
            Ok(("vimrc".to_string(), "/home/u/.vimrc".to_string())),
        ]
    );
}

#[test]
fn config_malformed_records_do_not_stop_the_rest() {
    let text = "dotfiles = [ { manager_path = \"a\" }, 5, { manager_path = 1, system_path = \"/b\" }, { manager_path = \"c\", system_path = \"/c\" } ]\n";
    let c = parse(text).unwrap();
    assert_eq!(
        pairs(&c),
        vec![
            Err(ConfigParseError::DotfilesTableParseError),
            Err(ConfigParseError::DotfilesParseError),
            Err(ConfigParseError::DotfilesTableParseError),
            Ok(("c".to_string(), "/c".to_string())),
        ]
    );
}

#[test]
fn config_without_dotfiles_section() {
    assert_eq!(parse("manager_directory = \"/x\"\n").unwrap_err(), ConfigParseError::DotfilesParseError);
}

#[test]
fn config_dotfiles_not_a_list() {
    assert_eq!(parse("dotfiles = \"x\"\n").unwrap_err(), ConfigParseError::DotfilesArrayParseError);
    assert_eq!(parse("[dotfiles]\na = 1\n").unwrap_err(), ConfigParseError::DotfilesArrayParseError);
}

#[test]
fn config_manager_directory_forms() {
    let c = parse("manager_directory = \"/srv/dots\"\ndotfiles = []\n").unwrap();
    assert_eq!(c.manager_dir, "/srv/dots");
    assert!(c.dotfiles.is_empty());
    let c = parse("manager_directory = \"dots\"\ndotfiles = []\n").unwrap();
    assert_eq!(c.manager_dir, "/home/u/dots");
    assert_eq!(
        parse("manager_directory = 3\ndotfiles = []\n").unwrap_err(),
        ConfigParseError::InvalidManagerDirectoryError
    );
}

#[test]
fn config_invalid_toml() {
    assert!(matches!(parse("dotfiles = [").unwrap_err(), ConfigParseError::TomlParseError(_)));
}

fn argv(a: &[&str]) -> Vec<String> {
    a.iter().map(|s| s.to_string()).collect()
}

#[test]
fn args_defaults() {
    let c = parse_args(&argv(&["dotfiles"])).unwrap();
    assert_eq!(c, Cli { config: None, manager: None, from: false, dry: false });
}

#[test]
fn args_all_given() {
    let c = parse_args(&argv(&["dotfiles", "-f", "--dry", "--config", "/c.toml", "-m", "/m"])).unwrap();
    assert_eq!(
        c,
        Cli { config: Some("/c.toml".to_string()), manager: Some("/m".to_string()), from: true, dry: true }
    );
}

#[test]
fn args_unknown_option_is_refused() {
    let e = parse_args(&argv(&["dotfiles", "--nope"])).unwrap_err();
    assert_eq!(e.exit_code, 2);
    assert!(!e.message.is_empty());
}

#[test]
fn args_help_is_not_a_failure() {
    let e = parse_args(&argv(&["dotfiles", "--help"])).unwrap_err();
    assert_eq!(e.exit_code, 0);
    assert!(e.message.contains("--config"));
}

#[test]
fn cli_from_values() {
    let c = Cli::from_values(None, Some("/m".to_string()), None, Some(true));
    assert_eq!(c, Cli { config: None, manager: Some("/m".to_string()), from: false, dry: true });
}

#[test]
fn run_errors_describe_their_cause() {
    let e = ManagerError::ConfigParseError(ConfigParseError::FileReadError("no such file".to_string()));
    assert_eq!(e.describe(), "no such file");
    assert_eq!(ConfigParseError::InvalidManagerDirectoryError.describe(), "Manager directory setting in config is not valid");
    assert_eq!(ConfigParseError::DotfilesParseError.describe(), "Dotfiles section not found in config file");
    assert_eq!(
        ConfigParseError::DotfilesArrayParseError.describe(),
        "Dotfiles is not a valid array, Hint: use [[dotfiles]]"
    );
}

#[test]
fn args_version_is_shown() {
    let e = parse_args(&argv(&["dotfiles", "--version"])).unwrap_err();
    assert_eq!(e.exit_code, 0);
    assert!(e.message.contains("0.1.0"));
}
