use chat_label_printer::irc::{
    answer, clean_line, format_command, is_welcome, joining, registration, wire_line, CapMode,
    Command, Config, MalformedLine, NoNewLines,
};

fn s(text: &str) -> String {
    text.to_string()
}

fn line(command: Command) -> Option<String> {
    format_command(&command)
}

#[test]
fn commands_are_formatted_as_their_lines() {
    assert_eq!(line(Command::ADMIN(s("192.168.178.100"))), Some(s("ADMIN 192.168.178.100")));
    assert_eq!(line(Command::AWAY(s("AFK"))), Some(s("AWAY AFK")));
    assert_eq!(line(Command::CAP(CapMode::LS)), Some(s("CAP LS 302")));
    assert_eq!(line(Command::CAP(CapMode::END)), Some(s("CAP END")));
    assert_eq!(line(Command::INVITE(s("liblirc"), s("#circe"))), Some(s("INVITE liblirc #circe")));
    assert_eq!(line(Command::JOIN(s("#main"))), Some(s("JOIN #main")));
    assert_eq!(line(Command::LIST(None, None)), Some(s("LIST")));
    assert_eq!(line(Command::LIST(Some(s("#main")), None)), Some(s("LIST #main")));
    assert_eq!(line(Command::LIST(None, Some(s("srv")))), Some(s("LIST srv")));
    assert_eq!(line(Command::LIST(Some(s("#main")), Some(s("srv")))), Some(s("LIST #main srv")));
    assert_eq!(line(Command::MODE(s("test"), Some(s("+B")))), Some(s("MODE test +B")));
    assert_eq!(line(Command::MODE(s("test"), None)), Some(s("MODE test")));
    assert_eq!(line(Command::NAMES(s("#main,#circe"), None)), Some(s("NAMES #main,#circe")));
    assert_eq!(line(Command::NAMES(s("#main"), Some(s("srv")))), Some(s("NAMES #main srv")));
    assert_eq!(line(Command::NICK(s("bot"))), Some(s("NICK bot")));
    assert_eq!(line(Command::OPER(s("username"), s("password"))), Some(s("OPER username password")));
    assert_eq!(line(Command::OTHER(s("anything"))), None);
    assert_eq!(line(Command::PART(s("#main"))), Some(s("PART #main")));
    assert_eq!(line(Command::PASS(s("oauth:token"))), Some(s("PASS oauth:token")));
    assert_eq!(line(Command::PING(s("tmi"))), Some(s("PING tmi")));
    assert_eq!(line(Command::PONG(s(":tmi.twitch.tv"))), Some(s("PONG :tmi.twitch.tv")));
    assert_eq!(
        line(Command::PRIVMSG(s("ignored"), s("#main"), s(":Hello, world!"))),
        Some(s("PRIVMSG #main :Hello, world!"))
    );
    assert_eq!(line(Command::QUIT(s("Leaving..."))), Some(s("QUIT :Leaving...")));
    assert_eq!(line(Command::TOPIC(s("#main"), Some(s("main channel")))), Some(s("TOPIC #main :main channel")));
    assert_eq!(line(Command::TOPIC(s("#main"), None)), Some(s("TOPIC #main")));
    assert_eq!(
        line(Command::USER(s("bot"), s("*"), s("*"), s("Bot Name"))),
        Some(s("USER bot * * :Bot Name"))
    );
}

#[test]
fn lines_end_with_carriage_return_and_line_feed() {
    assert_eq!(wire_line("JOIN #main"), "JOIN #main\r\n");
    assert_eq!(wire_line(""), "\r\n");
}

#[test]
fn ping_is_read_as_the_pong_that_answers_it() {
    assert_eq!(Command::command_from_str("PING :tmi.twitch.tv\r\n"), Ok(Command::PONG(s(":tmi.twitch.tv"))));
    assert_eq!(Command::command_from_str("  PING   code   more "), Ok(Command::PONG(s("code"))));
    assert_eq!(Command::command_from_str("PING"), Err(MalformedLine::NoPingCode));
    assert_eq!(Command::command_from_str("PINGX y"), Ok(Command::OTHER(s("PINGX y"))));
}

#[test]
fn privmsg_is_read_with_sender_channel_and_message() {
    assert_eq!(
        Command::command_from_str(":kim!kim@kim.tmi.twitch.tv PRIVMSG #chan :logo 10,10,2\r\n"),
        Ok(Command::PRIVMSG(s("kim"), s("#chan"), s("logo 10,10,2 ")))
    );
    assert_eq!(
        Command::command_from_str(":a!b PRIVMSG #c :hello   big\tworld"),
        Ok(Command::PRIVMSG(s("a"), s("#c"), s("hello big world ")))
    );
    assert_eq!(
        Command::command_from_str(":a!b PRIVMSG #c x"),
        Ok(Command::PRIVMSG(s("a"), s("#c"), s(" ")))
    );
    assert_eq!(
        Command::command_from_str(":a!b!c PRIVMSG #c :x"),
        Ok(Command::PRIVMSG(s("a"), s("#c"), s("x ")))
    );
    assert_eq!(
        Command::command_from_str("x! PRIVMSG #c :hi"),
        Ok(Command::PRIVMSG(s(""), s("#c"), s("hi ")))
    );
}

#[test]
fn malformed_privmsg_lines() {
    assert_eq!(Command::command_from_str("kim PRIVMSG #chan :hi"), Err(MalformedLine::NoSender));
    assert_eq!(Command::command_from_str("!kim PRIVMSG #chan :hi"), Err(MalformedLine::NoSender));
    assert_eq!(Command::command_from_str(":a!b PRIVMSG"), Err(MalformedLine::NoTarget));
    assert_eq!(Command::command_from_str(":a!b PRIVMSG #c"), Err(MalformedLine::NoMessage));
    assert_eq!(Command::command_from_str("nobang PRIVMSG"), Err(MalformedLine::NoSender));
}

#[test]
fn every_other_line_is_handed_on_trimmed() {
    assert_eq!(
        Command::command_from_str(":tmi.twitch.tv 001 bot :Welcome, GLHF!\r\n"),
        Ok(Command::OTHER(s(":tmi.twitch.tv 001 bot :Welcome, GLHF!")))
    );
    assert_eq!(Command::command_from_str(""), Ok(Command::OTHER(s(""))));
    assert_eq!(Command::command_from_str(" \r\n "), Ok(Command::OTHER(s(""))));
    assert_eq!(Command::command_from_str("PRIVMSG #c :hi"), Ok(Command::OTHER(s("PRIVMSG #c :hi"))));
    assert_eq!(Command::command_from_str("a  b"), Ok(Command::OTHER(s("a  b"))));
}

fn config() -> Config {
    Config {
        channels: vec![s("#one"), s("#two")],
        host: s("irc.chat.twitch.tv"),
        mode: None,
        nickname: None,
        port: 6697,
        username: s("bot"),
    }
}

#[test]
fn registration_and_joining() {
    assert_eq!(
        registration(&config()),
        vec![
            Command::CAP(CapMode::LS),
            Command::CAP(CapMode::END),
            Command::USER(s("bot"), s("*"), s("*"), s("bot")),
            Command::NICK(s("bot")),
        ]
    );
    let named = Config { nickname: Some(s("nick")), mode: Some(s("+B")), ..config() };
    assert_eq!(registration(&named)[3], Command::NICK(s("nick")));
    assert_eq!(
        joining(&config()),
        vec![Command::MODE(s("bot"), None), Command::JOIN(s("#one")), Command::JOIN(s("#two"))]
    );
    assert_eq!(joining(&named)[0], Command::MODE(s("bot"), Some(s("+B"))));
    assert_eq!(joining(&Config::default()), vec![Command::MODE(s(""), None)]);
}

#[test]
fn default_config_is_empty() {
    let config = Config::default();
    assert!(config.channels.is_empty());
    assert_eq!(config.host, "");
    assert_eq!(config.mode, None);
    assert_eq!(config.nickname, None);
    assert_eq!(config.port, 0);
    assert_eq!(config.username, "");
}

#[test]
fn welcome_is_a_line_with_001() {
    assert!(is_welcome(&Command::OTHER(s(":tmi.twitch.tv 001 bot :Welcome"))));
    assert!(is_welcome(&Command::OTHER(s("001"))));
    assert!(is_welcome(&Command::OTHER(s("x0001"))));
    assert!(!is_welcome(&Command::OTHER(s(":tmi.twitch.tv 002 bot"))));
    assert!(!is_welcome(&Command::OTHER(s("00"))));
    assert!(!is_welcome(&Command::OTHER(s(""))));
    assert!(!is_welcome(&Command::PONG(s("001"))));
}

#[test]
fn pong_is_sent_back_and_an_empty_pong_handed_on() {
    assert_eq!(
        answer(Command::PONG(s(":tmi"))),
        (Some(Command::PONG(s(":tmi"))), Command::PONG(s("")))
    );
    assert_eq!(answer(Command::OTHER(s("x"))), (None, Command::OTHER(s("x"))));
    assert_eq!(
        answer(Command::PRIVMSG(s("a"), s("b"), s("c"))),
        (None, Command::PRIVMSG(s("a"), s("b"), s("c")))
    );
}

#[test]
fn padding_of_the_read_buffer_is_removed() {
    assert_eq!(clean_line("PING :x\r\n\0\0\0\0"), "PING :x");
    assert_eq!(clean_line("  \0\0 a b \0 \0"), "a b \0");
    assert_eq!(clean_line(" \0 a b \0 "), "a b");
    assert_eq!(clean_line("\0 \0x"), "\0x");
    assert_eq!(clean_line("\0\0"), "");
    assert_eq!(clean_line(""), "");
}

#[test]
fn no_new_lines_message() {
    assert_eq!(NoNewLines.message(), "Now new lines from the stream.");
}
