//! The settings of the system, their defaults, and what is derived from them.

use vstd::prelude::*;
use vstd::string::StringExecFns;
use crate::placement::CanvasLimits;

verus! {

/// Copies of each label.
pub const LABEL_QUANTITY: u8 = 1;

/// Kind of label in the printer.
pub const LABEL_TYPE: u8 = 1;

/// Darkness of the print.
pub const LABEL_DENSITY: u8 = 5;

/// Highest level of the idle shutdown of the printer.
pub const MAX_SHUTDOWN_LEVEL: i64 = 4;

/// The settings of the system.
#[derive(Debug)]
pub struct Config {
    /// Model that the external text parser runs.
    pub model: String,
    /// Instruction for the external text parser.
    pub prompt: String,
    /// Key for the external text parser; empty for none.
    pub openai_api_key: String,
    pub irc_host: String,
    pub irc_channel: String,
    pub irc_token: String,
    pub irc_username: String,
    pub irc_port: u16,
    /// Width of the canvas in pixels.
    pub width: u32,
    /// Height of the canvas in pixels.
    pub height: u32,
    /// Where notifications are posted; empty for nowhere.
    pub notify_url: String,
    /// Seconds from one flush to the next countdown.
    pub clock_time: u64,
    /// File that shows the countdown.
    pub timer_file: String,
    /// Text in front of the countdown.
    pub timer_prefix: String,
    pub disable_printer: bool,
    /// Directory of the archive of printed labels.
    pub save_path: String,
    /// Largest size of a placement.
    pub max_size: u32,
    pub test_text: bool,
    /// Level of the idle shutdown of the printer, before it is cut down to the
    /// levels that exist; zero for none.
    pub set_shutdown_timer: i64,
    pub censoring_enabled: bool,
    pub invert_overlapping_text: bool,
}

/// Why the settings cannot be used.
#[derive(Debug, Clone, Copy, PartialEq, Eq, Structural)]
pub enum ConfigInvalid {
    /// No token for the chat server.
    NoToken,
    /// No user name for the chat server.
    NoUsername,
}

impl ConfigInvalid {
    /// Human-readable description of the error.
    pub fn message(&self) -> (text: &'static str)
        ensures
            text@ == (match *self {
                ConfigInvalid::NoToken => "No IRC token found"@,
                ConfigInvalid::NoUsername => "No IRC username found"@,
            }),
    {
        match self {
            ConfigInvalid::NoToken => "No IRC token found",
            ConfigInvalid::NoUsername => "No IRC username found",
        }
    }
}

/// The instruction that the external text parser is given where none is
/// configured.
pub open spec fn default_prompt() -> Seq<char> {
    "You extract the x y location and size from a text, the x and y can appear anywhere in the text and the size can be nothing in which case you set it to 5, remove the indication words such as Place,At and with. If x<number> is used you remove the x and set number to size"@
}

/// The level of the idle shutdown that a setting stands for: the setting, but
/// no less than zero and no more than four.
pub open spec fn shutdown_level(setting: i64) -> u8 {
    if setting < 0 {
        0u8
    } else if setting > MAX_SHUTDOWN_LEVEL {
        MAX_SHUTDOWN_LEVEL as u8
    } else {
        setting as u8
    }
}

impl Default for Config {
    /// The settings that hold where nothing else is configured.
    fn default() -> (config: Config)
        ensures
            config.model@ == "gpt-4o-mini"@,
            config.prompt@ == default_prompt(),
            config.openai_api_key@.len() == 0,
            config.irc_host@ == "irc.chat.twitch.tv"@,
            config.irc_channel@.len() == 0,
            config.irc_token@.len() == 0,
            config.irc_username@.len() == 0,
            config.irc_port == 6697,
            config.width == 500,
            config.height == 500,
            config.notify_url@.len() == 0,
            config.clock_time == 300,
            config.timer_file@ == "timer.txt"@,
            config.timer_prefix@ == "printing starts in: "@,
            !config.disable_printer,
            config.save_path@ == "saves/"@,
            config.max_size == 100,
            !config.test_text,
            config.set_shutdown_timer == 0,
            config.censoring_enabled,
            config.invert_overlapping_text,
    {
        Config {
            model: String::from_str("gpt-4o-mini"),
            prompt: String::from_str(
                "You extract the x y location and size from a text, the x and y can appear anywhere in the text and the size can be nothing in which case you set it to 5, remove the indication words such as Place,At and with. If x<number> is used you remove the x and set number to size",
            ),
            openai_api_key: String::new(),
            irc_host: String::from_str("irc.chat.twitch.tv"),
            irc_channel: String::new(),
            irc_token: String::new(),
            irc_username: String::new(),
            irc_port: 6697,
            width: 500,
            height: 500,
            notify_url: String::new(),
            clock_time: 300,
            timer_file: String::from_str("timer.txt"),
            timer_prefix: String::from_str("printing starts in: "),
            disable_printer: false,
            save_path: String::from_str("saves/"),
            max_size: 100,
            test_text: false,
            set_shutdown_timer: 0,
            censoring_enabled: true,
            invert_overlapping_text: true,
        }
    }
}

impl Config {
    /// Checks the settings that the system cannot start without: the token and
    /// the user name for the chat server, in this order.
    pub fn validate(&self) -> (checked: Result<(), ConfigInvalid>)
        ensures
            checked == (if self.irc_token@.len() == 0 {
                Err::<(), ConfigInvalid>(ConfigInvalid::NoToken)
            } else if self.irc_username@.len() == 0 {
                Err::<(), ConfigInvalid>(ConfigInvalid::NoUsername)
            } else {
                Ok::<(), ConfigInvalid>(())
            }),
    {
        if self.irc_token.as_str().unicode_len() == 0 {
            Err(ConfigInvalid::NoToken)
        } else if self.irc_username.as_str().unicode_len() == 0 {
            Err(ConfigInvalid::NoUsername)
        } else {
            Ok(())
        }
    }

    /// The level of the idle shutdown to configure, from zero to four; zero
    /// stands for none.
    pub fn get_shutdown_time(&self) -> (level: u8)
        ensures
            level == shutdown_level(self.set_shutdown_timer),
            level <= MAX_SHUTDOWN_LEVEL,
    {
        if self.set_shutdown_timer < 0 {
            0
        } else if self.set_shutdown_timer > MAX_SHUTDOWN_LEVEL {
            MAX_SHUTDOWN_LEVEL as u8
        } else {
            self.set_shutdown_timer as u8
        }
    }

    /// The largest values that a placement may hold.
    pub fn limits(&self) -> (limits: CanvasLimits)
        ensures
            limits == (CanvasLimits {
                width: self.width,
                height: self.height,
                max_size: self.max_size,
            }),
    {
        CanvasLimits { width: self.width, height: self.height, max_size: self.max_size }
    }

    /// Whether an external text parser is configured.
    pub fn has_external_parser(&self) -> (configured: bool)
        ensures
            configured == (self.openai_api_key@.len() > 0),
    {
        self.openai_api_key.as_str().unicode_len() > 0
    }

    /// Whether notifications are configured.
    pub fn notifies(&self) -> (configured: bool)
        ensures
            configured == (self.notify_url@.len() > 0),
    {
        self.notify_url.as_str().unicode_len() > 0
    }
}

} // verus!
