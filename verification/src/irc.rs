//! The chat protocol: the commands of an IRC client and the lines they are sent as.

use vstd::prelude::*;
use vstd::string::StringExecFns;
use crate::text::{chars_of, first_index_of, string_from, trimmed, words};
use crate::text_scan::{
    bounds_within, contains, cut_out, find_first, holds, split_words, stretch_is, strip_bounds,
    stripped, trim_bounds,
};

verus! {

/// Capability negotiation modes.
#[derive(Debug, Clone, Copy, PartialEq, Eq, Structural)]
pub enum CapMode {
    LS,
    END,
}

/// IRC commands.
#[derive(Debug, PartialEq, Eq)]
pub enum Command {
    /// Asks for information about the admin of a server: the target.
    ADMIN(String),
    /// Sets the status of the user to away: the message.
    AWAY(String),
    /// Capability negotiation.
    CAP(CapMode),
    /// Invites a user to a channel: user, channel.
    INVITE(String, String),
    /// Joins a channel.
    JOIN(String),
    /// Lists channels and their topics: channel, server to forward the request to.
    LIST(Option<String>, Option<String>),
    /// Sets the mode of the user: target, mode.
    MODE(String, Option<String>),
    /// Lists the nicknames visible to the client: channel, server.
    NAMES(String, Option<String>),
    /// Sets the nickname.
    NICK(String),
    /// Tries to register as a channel operator: user name, password.
    OPER(String, String),
    /// Everything that is not a command.
    OTHER(String),
    /// Leaves a channel.
    PART(String),
    /// Sends the connection password.
    PASS(String),
    /// Asks the other side for a sign of life.
    PING(String),
    /// Answers a `PING`.
    PONG(String),
    /// A message in a channel: nickname of the sender, channel, message.
    PRIVMSG(String, String, String),
    /// Leaves the server: the parting message.
    QUIT(String),
    /// Sets or asks for the topic of a channel: channel, topic.
    TOPIC(String, Option<String>),
    /// Registers the user: user name, two fillers, real name.
    USER(String, String, String, String),
}

/// Mathematical model of a command.
pub enum CommandLine {
    ADMIN(Seq<char>),
    AWAY(Seq<char>),
    CAP(CapMode),
    INVITE(Seq<char>, Seq<char>),
    JOIN(Seq<char>),
    LIST(Option<Seq<char>>, Option<Seq<char>>),
    MODE(Seq<char>, Option<Seq<char>>),
    NAMES(Seq<char>, Option<Seq<char>>),
    NICK(Seq<char>),
    OPER(Seq<char>, Seq<char>),
    OTHER(Seq<char>),
    PART(Seq<char>),
    PASS(Seq<char>),
    PING(Seq<char>),
    PONG(Seq<char>),
    PRIVMSG(Seq<char>, Seq<char>, Seq<char>),
    QUIT(Seq<char>),
    TOPIC(Seq<char>, Option<Seq<char>>),
    USER(Seq<char>, Seq<char>, Seq<char>, Seq<char>),
}

/// The text of an optional string.
pub open spec fn text_of(value: Option<String>) -> Option<Seq<char>> {
    match value {
        Some(text) => Some(text@),
        None => None,
    }
}

impl View for Command {
    type V = CommandLine;

    open spec fn view(&self) -> CommandLine {
        match *self {
            Command::ADMIN(target) => CommandLine::ADMIN(target@),
            Command::AWAY(message) => CommandLine::AWAY(message@),
            Command::CAP(mode) => CommandLine::CAP(mode),
            Command::INVITE(user, channel) => CommandLine::INVITE(user@, channel@),
            Command::JOIN(channel) => CommandLine::JOIN(channel@),
            Command::LIST(channel, server) => CommandLine::LIST(text_of(channel), text_of(server)),
            Command::MODE(target, mode) => CommandLine::MODE(target@, text_of(mode)),
            Command::NAMES(channel, server) => CommandLine::NAMES(channel@, text_of(server)),
            Command::NICK(nickname) => CommandLine::NICK(nickname@),
            Command::OPER(user, password) => CommandLine::OPER(user@, password@),
            Command::OTHER(line) => CommandLine::OTHER(line@),
            Command::PART(target) => CommandLine::PART(target@),
            Command::PASS(password) => CommandLine::PASS(password@),
            Command::PING(target) => CommandLine::PING(target@),
            Command::PONG(code) => CommandLine::PONG(code@),
            Command::PRIVMSG(nick, target, message) => CommandLine::PRIVMSG(
                nick@,
                target@,
                message@,
            ),
            Command::QUIT(message) => CommandLine::QUIT(message@),
            Command::TOPIC(channel, topic) => CommandLine::TOPIC(channel@, text_of(topic)),
            Command::USER(user, first, second, realname) => CommandLine::USER(
                user@,
                first@,
                second@,
                realname@,
            ),
        }
    }
}

/// Config for the IRC client.
#[derive(Debug)]
pub struct Config {
    pub channels: Vec<String>,
    pub host: String,
    pub mode: Option<String>,
    pub nickname: Option<String>,
    pub port: u16,
    pub username: String,
}

impl Default for Config {
    /// No channels, no host, port zero, no name.
    fn default() -> (config: Config)
        ensures
            config.channels@.len() == 0,
            config.host@.len() == 0,
            config.mode is None,
            config.nickname is None,
            config.port == 0,
            config.username@.len() == 0,
    {
        Config {
            channels: Vec::new(),
            host: String::new(),
            mode: None,
            nickname: None,
            port: 0,
            username: String::new(),
        }
    }
}

/// The error of a read that brought no line.
#[derive(Debug, Clone, Copy, PartialEq, Eq, Structural)]
pub struct NoNewLines;

impl NoNewLines {
    /// Human-readable description of the error.
    pub fn message(&self) -> (text: &'static str)
        ensures
            text@ == "Now new lines from the stream."@,
    {
        "Now new lines from the stream."
    }
}

/// A word and, behind a space, an optional second word.
pub open spec fn with_optional(head: Seq<char>, tail: Option<Seq<char>>) -> Seq<char> {
    match tail {
        Some(text) => head + " "@ + text,
        None => head,
    }
}

/// The line that a command is sent as, without the line ending. A command of
/// kind `OTHER` cannot be sent.
pub open spec fn line_of(command: CommandLine) -> Option<Seq<char>> {
    match command {
        CommandLine::ADMIN(target) => Some("ADMIN "@ + target),
        CommandLine::AWAY(message) => Some("AWAY "@ + message),
        CommandLine::CAP(mode) => Some(
            match mode {
                CapMode::LS => "CAP LS 302"@,
                CapMode::END => "CAP END"@,
            },
        ),
        CommandLine::INVITE(user, channel) => Some("INVITE "@ + user + " "@ + channel),
        CommandLine::JOIN(channel) => Some("JOIN "@ + channel),
        CommandLine::LIST(channel, server) => Some(
            with_optional(with_optional("LIST"@, channel), server),
        ),
        CommandLine::NAMES(channel, server) => Some(with_optional("NAMES "@ + channel, server)),
        CommandLine::NICK(nickname) => Some("NICK "@ + nickname),
        CommandLine::MODE(target, mode) => Some(with_optional("MODE "@ + target, mode)),
        CommandLine::OPER(user, password) => Some("OPER "@ + user + " "@ + password),
        CommandLine::OTHER(_) => None,
        CommandLine::PART(target) => Some("PART "@ + target),
        CommandLine::PASS(password) => Some("PASS "@ + password),
        CommandLine::PING(target) => Some("PING "@ + target),
        CommandLine::PONG(code) => Some("PONG "@ + code),
        CommandLine::PRIVMSG(_, target, message) => Some("PRIVMSG "@ + target + " "@ + message),
        CommandLine::QUIT(message) => Some("QUIT :"@ + message),
        CommandLine::TOPIC(channel, topic) => Some(
            match topic {
                Some(text) => "TOPIC "@ + channel + " :"@ + text,
                None => "TOPIC "@ + channel,
            },
        ),
        CommandLine::USER(user, first, second, realname) => Some(
            "USER "@ + user + " "@ + first + " "@ + second + " :"@ + realname,
        ),
    }
}

/// A keyword followed by one argument.
fn keyword_line(keyword: &str, argument: &str) -> (line: String)
    ensures
        line@ == keyword@ + argument@,
{
    let mut line = String::from_str(keyword);
    line.append(argument);
    line
}

/// Appends a space and a word, where there is a word.
fn append_optional(line: &mut String, word: &Option<String>)
    ensures
        final(line)@ == with_optional(old(line)@, text_of(*word)),
{
    match word {
        Some(text) => {
            line.append(" ");
            line.append(text.as_str());
        },
        None => {},
    }
}

/// The line that a command is sent as, without the line ending; nothing for a
/// command of kind `OTHER`.
pub fn format_command(command: &Command) -> (line: Option<String>)
    ensures
        line is Some <==> line_of(command@) is Some,
        line is Some ==> line->Some_0@ == line_of(command@)->Some_0,
{
    match command {
        Command::ADMIN(target) => Some(keyword_line("ADMIN ", target.as_str())),
        Command::AWAY(message) => Some(keyword_line("AWAY ", message.as_str())),
        Command::CAP(mode) => Some(
            String::from_str(
                match mode {
                    CapMode::LS => "CAP LS 302",
                    CapMode::END => "CAP END",
                },
            ),
        ),
        Command::INVITE(user, channel) => {
            let mut line = keyword_line("INVITE ", user.as_str());
            line.append(" ");
            line.append(channel.as_str());
            Some(line)
        },
        Command::JOIN(channel) => Some(keyword_line("JOIN ", channel.as_str())),
        Command::LIST(channel, server) => {
            let mut line = String::from_str("LIST");
            append_optional(&mut line, channel);
            append_optional(&mut line, server);
            Some(line)
        },
        Command::NAMES(channel, server) => {
            let mut line = keyword_line("NAMES ", channel.as_str());
            append_optional(&mut line, server);
            Some(line)
        },
        Command::NICK(nickname) => Some(keyword_line("NICK ", nickname.as_str())),
        Command::MODE(target, mode) => {
            let mut line = keyword_line("MODE ", target.as_str());
            append_optional(&mut line, mode);
            Some(line)
        },
        Command::OPER(user, password) => {
            let mut line = keyword_line("OPER ", user.as_str());
            line.append(" ");
            line.append(password.as_str());
            Some(line)
        },
        Command::OTHER(_) => None,
        Command::PART(target) => Some(keyword_line("PART ", target.as_str())),
        Command::PASS(password) => Some(keyword_line("PASS ", password.as_str())),
        Command::PING(target) => Some(keyword_line("PING ", target.as_str())),
        Command::PONG(code) => Some(keyword_line("PONG ", code.as_str())),
        Command::PRIVMSG(_, target, message) => {
            let mut line = keyword_line("PRIVMSG ", target.as_str());
            line.append(" ");
            line.append(message.as_str());
            Some(line)
        },
        Command::QUIT(message) => Some(keyword_line("QUIT :", message.as_str())),
        Command::TOPIC(channel, topic) => {
            let mut line = keyword_line("TOPIC ", channel.as_str());
            match topic {
                Some(text) => {
                    line.append(" :");
                    line.append(text.as_str());
                },
                None => {},
            }
            Some(line)
        },
        Command::USER(user, first, second, realname) => {
            let mut line = keyword_line("USER ", user.as_str());
            line.append(" ");
            line.append(first.as_str());
            line.append(" ");
            line.append(second.as_str());
            line.append(" :");
            line.append(realname.as_str());
            Some(line)
        },
    }
}

/// The bytes of a line on the wire: the line and its ending.
pub fn wire_line(data: &str) -> (line: String)
    ensures
        line@ == data@ + "\r\n"@,
{
    keyword_line(data, "\r\n")
}

/// Why a line of the server cannot be read as the command it begins as.
#[derive(Debug, Clone, Copy, PartialEq, Eq, Structural)]
pub enum MalformedLine {
    /// A `PING` without a code.
    NoPingCode,
    /// A `PRIVMSG` whose first word names no sender: it holds no `!`, or begins
    /// with it.
    NoSender,
    /// A `PRIVMSG` without a channel.
    NoTarget,
    /// A `PRIVMSG` without a message.
    NoMessage,
}

/// The words one after the other, each followed by a space.
pub open spec fn spaced(parts: Seq<Seq<char>>) -> Seq<char>
    decreases parts.len(),
{
    if parts.len() == 0 {
        Seq::empty()
    } else {
        spaced(parts.drop_last()) + parts.last() + seq![' ']
    }
}

/// The message that the words of a `PRIVMSG` line spell, given the words from
/// the fourth on: the words with a space behind each, without the colon that
/// they begin with.
pub open spec fn message_of(parts: Seq<Seq<char>>) -> Seq<char> {
    spaced(parts).drop_first()
}

/// The command that the words of a `PRIVMSG` line spell. The sender is what
/// stands between the first character of the first word and its first `!`.
pub open spec fn private_message(parts: Seq<Seq<char>>) -> Result<CommandLine, MalformedLine> {
    match first_index_of(parts[0], '!') {
        None => Err(MalformedLine::NoSender),
        Some(bang) => if bang < 1 {
            Err(MalformedLine::NoSender)
        } else if parts.len() < 3 {
            Err(MalformedLine::NoTarget)
        } else if spaced(parts.skip(3)).len() == 0 {
            Err(MalformedLine::NoMessage)
        } else {
            Ok(
                CommandLine::PRIVMSG(
                    parts[0].subrange(1, bang),
                    parts[2],
                    message_of(parts.skip(3)),
                ),
            )
        },
    }
}

/// The command that a line of the server stands for. A `PING` is read as the
/// `PONG` that answers it; a line whose second word is `PRIVMSG` as a message; any
/// other line as `OTHER`, with the white space at its ends removed.
pub open spec fn parsed_line(line: Seq<char>) -> Result<CommandLine, MalformedLine> {
    let text = trimmed(line);
    let parts = words(text);
    if parts.len() > 0 && parts[0] == "PING"@ {
        if parts.len() < 2 {
            Err(MalformedLine::NoPingCode)
        } else {
            Ok(CommandLine::PONG(parts[1]))
        }
    } else if parts.len() > 1 && parts[1] == "PRIVMSG"@ {
        private_message(parts)
    } else {
        Ok(CommandLine::OTHER(text))
    }
}

/// The words from the fourth on, each followed by a space.
fn spell_message(text: &Vec<char>, bounds: &Vec<(usize, usize)>) -> (spelled: Vec<char>)
    requires
        bounds.len() >= 3,
        bounds_within(bounds@, 0, text.len() as int),
    ensures
        spelled@ == spaced(cut_out(text@, bounds@).skip(3)),
{
    let mut spelled: Vec<char> = Vec::new();
    let mut k: usize = 3;
    let ghost parts = cut_out(text@, bounds@);
    proof {
        assert(parts.subrange(3, 3) =~= Seq::<Seq<char>>::empty());
    }
    while k < bounds.len()
        invariant
            3 <= k <= bounds.len(),
            parts == cut_out(text@, bounds@),
            bounds_within(bounds@, 0, text.len() as int),
            spelled@ == spaced(parts.subrange(3, k as int)),
        decreases bounds.len() - k,
    {
        let (from, to) = bounds[k];
        let ghost before = spelled@;
        let mut i: usize = from;
        while i < to
            invariant
                from <= i <= to <= text.len(),
                spelled@ == before + text@.subrange(from as int, i as int),
            decreases to - i,
        {
            spelled.push(text[i]);
            proof {
                assert(spelled@ =~= before + text@.subrange(from as int, i + 1));
            }
            i += 1;
        }
        spelled.push(' ');
        proof {
            assert(parts.subrange(3, k + 1).drop_last() =~= parts.subrange(3, k as int));
            assert(parts.subrange(3, k + 1).last() == text@.subrange(from as int, to as int));
            assert(spelled@ =~= before + text@.subrange(from as int, to as int) + seq![' ']);
        }
        k += 1;
    }
    proof {
        assert(parts.subrange(3, bounds.len() as int) =~= parts.skip(3));
    }
    spelled
}

impl Command {
    /// Reads a line of the server. Only `PING` and `PRIVMSG` are told apart;
    /// every other line is handed on as `OTHER`.
    pub fn command_from_str(s: &str) -> (command: Result<Command, MalformedLine>)
        ensures
            match parsed_line(s@) {
                Ok(line) => command is Ok && command->Ok_0@ == line,
                Err(error) => command == Err::<Command, MalformedLine>(error),
            },
    {
        let chars = chars_of(s);
        proof {
            assert(chars@.subrange(0, chars@.len() as int) =~= chars@);
        }
        let (from, to) = trim_bounds(&chars, 0, chars.len());
        let bounds = split_words(&chars, from, to);
        let ghost parts = cut_out(chars@, bounds@);
        let ping = chars_of("PING");
        let privmsg = chars_of("PRIVMSG");
        if bounds.len() > 0 && stretch_is(&chars, bounds[0].0, bounds[0].1, &ping) {
            proof {
                assert(parts[0] == chars@.subrange(bounds@[0].0 as int, bounds@[0].1 as int));
            }
            if bounds.len() < 2 {
                return Err(MalformedLine::NoPingCode);
            }
            proof {
                assert(parts[1] == chars@.subrange(bounds@[1].0 as int, bounds@[1].1 as int));
            }
            return Ok(Command::PONG(string_from(&chars, bounds[1].0, bounds[1].1)));
        }
        proof {
            if bounds.len() > 0 {
                assert(parts[0] == chars@.subrange(bounds@[0].0 as int, bounds@[0].1 as int));
            }
            if bounds.len() > 1 {
                assert(parts[1] == chars@.subrange(bounds@[1].0 as int, bounds@[1].1 as int));
            }
        }
        if bounds.len() > 1 && stretch_is(&chars, bounds[1].0, bounds[1].1, &privmsg) {
            let (start, end) = bounds[0];
            let bang = match find_first(&chars, start, end, '!') {
                Some(bang) => bang,
                None => {
                    return Err(MalformedLine::NoSender);
                },
            };
            if bang < start + 1 {
                return Err(MalformedLine::NoSender);
            }
            if bounds.len() < 3 {
                return Err(MalformedLine::NoTarget);
            }
            let spelled = spell_message(&chars, &bounds);
            if spelled.len() == 0 {
                return Err(MalformedLine::NoMessage);
            }
            proof {
                assert(parts[0].subrange(1, bang - start) =~= chars@.subrange(
                    start + 1,
                    bang as int,
                ));
                assert(parts[2] == chars@.subrange(bounds@[2].0 as int, bounds@[2].1 as int));
                assert(spelled@.drop_first() =~= spelled@.subrange(1, spelled@.len() as int));
            }
            let nick = string_from(&chars, start + 1, bang);
            let target = string_from(&chars, bounds[2].0, bounds[2].1);
            let message = string_from(&spelled, 1, spelled.len());
            return Ok(Command::PRIVMSG(nick, target, message));
        }
        Ok(Command::OTHER(string_from(&chars, from, to)))
    }
}

/// The lines that a list of commands stands for.
pub open spec fn lines_of(commands: Seq<Command>) -> Seq<CommandLine> {
    commands.map_values(|command: Command| command@)
}

/// The nickname that a client registers under: the configured one, or the user
/// name where none is configured.
pub open spec fn nickname_of(config: &Config) -> Seq<char> {
    match config.nickname {
        Some(nickname) => nickname@,
        None => config.username@,
    }
}

/// The commands that register a client, in order.
pub open spec fn registration_lines(config: &Config) -> Seq<CommandLine> {
    seq![
        CommandLine::CAP(CapMode::LS),
        CommandLine::CAP(CapMode::END),
        CommandLine::USER(config.username@, "*"@, "*"@, config.username@),
        CommandLine::NICK(nickname_of(config)),
    ]
}

/// The commands that follow the welcome of the server, in order: the mode of the
/// user, then one `JOIN` for each configured channel.
pub open spec fn joining_lines(config: &Config) -> Seq<CommandLine> {
    seq![CommandLine::MODE(config.username@, text_of(config.mode))] + Seq::new(
        config.channels@.len(),
        |i: int| CommandLine::JOIN(config.channels@[i]@),
    )
}

/// The commands that register a client: capability negotiation, user and
/// nickname.
pub fn registration(config: &Config) -> (commands: Vec<Command>)
    ensures
        lines_of(commands@) == registration_lines(config),
{
    let nickname = match &config.nickname {
        Some(nickname) => nickname.clone(),
        None => config.username.clone(),
    };
    let mut commands: Vec<Command> = Vec::with_capacity(4);
    commands.push(Command::CAP(CapMode::LS));
    commands.push(Command::CAP(CapMode::END));
    commands.push(
        Command::USER(
            config.username.clone(),
            String::from_str("*"),
            String::from_str("*"),
            config.username.clone(),
        ),
    );
    commands.push(Command::NICK(nickname));
    proof {
        assert(lines_of(commands@) =~= registration_lines(config));
    }
    commands
}

/// The commands that follow the welcome of the server.
pub fn joining(config: &Config) -> (commands: Vec<Command>)
    ensures
        lines_of(commands@) == joining_lines(config),
{
    let mode = match &config.mode {
        Some(mode) => Some(mode.clone()),
        None => None,
    };
    let mut commands: Vec<Command> = Vec::new();
    commands.push(Command::MODE(config.username.clone(), mode));
    let mut i: usize = 0;
    while i < config.channels.len()
        invariant
            i <= config.channels.len(),
            commands@.len() == i + 1,
            commands@[0]@ == CommandLine::MODE(config.username@, text_of(config.mode)),
            forall|k: int|
                0 <= k < i ==> (#[trigger] commands@[k + 1])@ == CommandLine::JOIN(
                    config.channels@[k]@,
                ),
        decreases config.channels.len() - i,
    {
        commands.push(Command::JOIN(config.channels[i].clone()));
        i += 1;
    }
    proof {
        let lines = lines_of(commands@);
        let wanted = joining_lines(config);
        assert(lines.len() == wanted.len());
        assert forall|k: int| 0 <= k < lines.len() implies lines[k] == wanted[k] by {
            if k > 0 {
                assert(commands@[(k - 1) + 1]@ == CommandLine::JOIN(config.channels@[k - 1]@));
            }
        }
        assert(lines =~= wanted);
    }
    commands
}

/// Whether a line of the server is its welcome: a line that is no command and
/// holds `001`.
pub open spec fn welcomes(command: CommandLine) -> bool {
    command is OTHER && holds(command->OTHER_0, "001"@)
}

/// Whether a line of the server is its welcome.
pub fn is_welcome(command: &Command) -> (welcome: bool)
    ensures
        welcome == welcomes(command@),
{
    match command {
        Command::OTHER(line) => {
            let text = chars_of(line.as_str());
            let sign = chars_of("001");
            contains(&text, &sign)
        },
        _ => false,
    }
}

/// What a client does with a line it has read: the command to send back, if any,
/// and the command to hand on. The `PONG` that answers a `PING` is sent, and an
/// empty `PONG` handed on in its place; every other command is handed on as it is.
pub fn answer(command: Command) -> (reaction: (Option<Command>, Command))
    ensures
        match command@ {
            CommandLine::PONG(code) => reaction.0 is Some && reaction.0->Some_0@
                == CommandLine::PONG(code) && reaction.1@ == CommandLine::PONG(Seq::empty()),
            other => reaction.0 is None && reaction.1@ == other,
        },
{
    match command {
        Command::PONG(code) => (Some(Command::PONG(code)), Command::PONG(String::new())),
        other => (None, other),
    }
}

/// The text of a read without the padding of the buffer it was read into: white
/// space is removed at both ends, then zero characters, then white space again.
pub open spec fn cleaned(text: Seq<char>) -> Seq<char> {
    trimmed(stripped(trimmed(text), '\0'))
}

/// The text of a read without the padding of its buffer.
pub fn clean_line(text: &str) -> (line: String)
    ensures
        line@ == cleaned(text@),
{
    let chars = chars_of(text);
    proof {
        assert(chars@.subrange(0, chars@.len() as int) =~= chars@);
    }
    let (from, to) = trim_bounds(&chars, 0, chars.len());
    let (from, to) = strip_bounds(&chars, from, to, '\0');
    let (from, to) = trim_bounds(&chars, from, to);
    string_from(&chars, from, to)
}

} // verus!
