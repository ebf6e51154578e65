use chat_label_printer::config::{Config, ConfigInvalid, LABEL_DENSITY, LABEL_QUANTITY, LABEL_TYPE};
use chat_label_printer::placement::CanvasLimits;

#[test]
fn defaults() {
    let config = Config::default();
    assert_eq!(config.model, "gpt-4o-mini");
    assert!(config.prompt.starts_with("You extract the x y location and size from a text"));
    assert!(config.prompt.ends_with("you remove the x and set number to size"));
    assert_eq!(config.openai_api_key, "");
    assert_eq!(config.irc_host, "irc.chat.twitch.tv");
    assert_eq!(config.irc_channel, "");
    assert_eq!(config.irc_token, "");
    assert_eq!(config.irc_username, "");
    assert_eq!(config.irc_port, 6697);
    assert_eq!((config.width, config.height), (500, 500));
    assert_eq!(config.notify_url, "");
    assert_eq!(config.clock_time, 300);
    assert_eq!(config.timer_file, "timer.txt");
    assert_eq!(config.timer_prefix, "printing starts in: ");
    assert!(!config.disable_printer);
    assert_eq!(config.save_path, "saves/");
    assert_eq!(config.max_size, 100);
    assert!(!config.test_text);
    assert_eq!(config.set_shutdown_timer, 0);
    assert!(config.censoring_enabled);
    assert!(config.invert_overlapping_text);
    assert_eq!((LABEL_QUANTITY, LABEL_TYPE, LABEL_DENSITY), (1, 1, 5));
}

#[test]
fn token_and_user_name_are_required() {
    let mut config = Config::default();
    assert_eq!(config.validate(), Err(ConfigInvalid::NoToken));
    config.irc_username = "bot".to_string();
    assert_eq!(config.validate(), Err(ConfigInvalid::NoToken));
    config.irc_token = "oauth:x".to_string();
    assert_eq!(config.validate(), Ok(()));
    config.irc_username = String::new();
    assert_eq!(config.validate(), Err(ConfigInvalid::NoUsername));
    assert_eq!(ConfigInvalid::NoToken.message(), "No IRC token found");
    assert_eq!(ConfigInvalid::NoUsername.message(), "No IRC username found");
}

#[test]
fn shutdown_level_is_cut_down_to_zero_to_four() {
    let level = |setting: i64| Config { set_shutdown_timer: setting, ..Config::default() }.get_shutdown_time();
    assert_eq!(level(0), 0);
    assert_eq!(level(1), 1);
    assert_eq!(level(4), 4);
    assert_eq!(level(5), 4);
    assert_eq!(level(i64::MAX), 4);
    assert_eq!(level(-1), 0);
    assert_eq!(level(i64::MIN), 0);
}

#[test]
fn derived_settings() {
    let mut config = Config::default();
    assert_eq!(config.limits(), CanvasLimits { width: 500, height: 500, max_size: 100 });
    assert!(!config.has_external_parser());
    assert!(!config.notifies());
    config.openai_api_key = "sk".to_string();
    config.notify_url = "https://ntfy.sh/x".to_string();
    assert!(config.has_external_parser());
    assert!(config.notifies());
}
