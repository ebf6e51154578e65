//! What becomes of a chat message: it is turned away by the moderation filter or
//! it becomes a placement to draw.

use vstd::prelude::*;
use vstd::string::StringExecFns;
use crate::fallback_parser::{parse_string, placement_in};
use crate::pipeline::{CommandModel, UICommand};
use crate::placement::{CanvasLimits, Data, PlacementModel};
use crate::text::{chars_of, trimmed};
use crate::text_scan::trim_bounds;

verus! {

/// The character that the filter takes for a censored one.
pub const CENSOR_MARK: char = '*';

/// Whether the filter also flags what only looks like a flagged word.
pub const FLAG_LOOKALIKES: bool = false;

/// Whether the filter passes over text that its author has censored.
pub const PASS_SELF_CENSORING: bool = false;

/// Whether the moderation filter finds a text inappropriate, given whether it
/// ignores false positives, whether it ignores self-censoring, and the character
/// that stands for a censored one.
pub uninterp spec fn filter_flags(
    text: Seq<char>,
    ignore_false_positives: bool,
    ignore_self_censoring: bool,
    replacement: char,
) -> bool;

/// Runs the moderation filter of the `rustrict` crate on a text: a `Censor` over
/// the text with the thresholds set below and the switches given, then `analyze`,
/// then `Type::is` for `INAPPROPRIATE`. The verdict depends on the text and the
/// switches alone; nothing more is claimed of it.
#[verifier::external_body]
fn filter_verdict(
    text: &str,
    ignore_false_positives: bool,
    ignore_self_censoring: bool,
    replacement: char,
) -> (flagged: bool)
    ensures
        flagged == filter_flags(text@, ignore_false_positives, ignore_self_censoring, replacement),
{
    rustrict::Censor::from_str(text)
        .with_censor_threshold(rustrict::Type::INAPPROPRIATE)
        .with_censor_first_character_threshold(rustrict::Type::OFFENSIVE & rustrict::Type::SEVERE)
        .with_ignore_false_positives(ignore_false_positives)
        .with_ignore_self_censoring(ignore_self_censoring)
        .with_censor_replacement(replacement)
        .analyze()
        .is(rustrict::Type::INAPPROPRIATE)
}

/// Whether the moderation finds a text inappropriate.
pub open spec fn is_flagged(text: Seq<char>) -> bool {
    filter_flags(text, FLAG_LOOKALIKES, PASS_SELF_CENSORING, CENSOR_MARK)
}

/// What the moderation makes of a message.
#[derive(Debug)]
pub enum Moderation {
    /// The message may be drawn.
    Accepted,
    /// The message is not drawn, and its sender is told so with this reply.
    Rejected(String),
}

/// Mathematical model of what the moderation makes of a message.
pub enum ModerationModel {
    Accepted,
    Rejected(Seq<char>),
}

impl View for Moderation {
    type V = ModerationModel;

    open spec fn view(&self) -> ModerationModel {
        match *self {
            Moderation::Accepted => ModerationModel::Accepted,
            Moderation::Rejected(reply) => ModerationModel::Rejected(reply@),
        }
    }
}

/// The reply to the sender of a message that is not drawn.
pub open spec fn rejection_reply(nick: Seq<char>) -> Seq<char> {
    ":Hey "@ + nick + ", i will not print that"@
}

/// What the moderation makes of a message that the filter did or did not flag.
pub open spec fn moderation_of(flagged: bool, censoring_enabled: bool, nick: Seq<char>)
    -> ModerationModel {
    if flagged && censoring_enabled {
        ModerationModel::Rejected(rejection_reply(nick))
    } else {
        ModerationModel::Accepted
    }
}

/// Decides on a message from the verdict of the filter: a flagged message is
/// turned away when censoring is switched on, and accepted otherwise.
pub fn moderate(flagged: bool, censoring_enabled: bool, nick: &str) -> (verdict: Moderation)
    ensures
        verdict@ == moderation_of(flagged, censoring_enabled, nick@),
{
    if flagged && censoring_enabled {
        let mut reply = String::from_str(":Hey ");
        reply.append(nick);
        reply.append(", i will not print that");
        Moderation::Rejected(reply)
    } else {
        Moderation::Accepted
    }
}

/// Runs the filter on a message and decides on it.
pub fn check_message(message: &str, censoring_enabled: bool, nick: &str) -> (verdict: Moderation)
    ensures
        verdict@ == moderation_of(is_flagged(message@), censoring_enabled, nick@),
{
    let flagged = filter_verdict(message, FLAG_LOOKALIKES, PASS_SELF_CENSORING, CENSOR_MARK);
    moderate(flagged, censoring_enabled, nick)
}

/// The placement that a message is drawn as. `external` is what the external
/// text parser made of the message, where one is configured. Without one the
/// local parser reads the message; where the placement so far names no text, the
/// local parser is asked, and its result taken if it has one.
pub open spec fn placement_of(
    message: Seq<char>,
    external: Option<PlacementModel>,
    limits: CanvasLimits,
) -> PlacementModel {
    let local = placement_in(message, limits);
    let first = match external {
        Some(placement) => placement,
        None => match local {
            Some(placement) => placement,
            None => PlacementModel { text: Seq::empty(), x: 0, y: 0, size: 0 },
        },
    };
    if first.text.len() == 0 && local is Some {
        local->Some_0
    } else {
        first
    }
}

/// Chooses the placement that a message is drawn as.
pub fn choose_placement(message: &str, external: Option<Data>, limits: &CanvasLimits) -> (data:
    Data)
    ensures
        data@ == placement_of(
            message@,
            match external {
                Some(data) => Some(data@),
                None => None,
            },
            *limits,
        ),
{
    let first = match external {
        Some(data) => data,
        None => match parse_string(message, limits) {
            Some(data) => data,
            None => Data::default(),
        },
    };
    if first.text.as_str().unicode_len() == 0 {
        match parse_string(message, limits) {
            Some(data) => data,
            None => first,
        }
    } else {
        first
    }
}

/// The message without the white space at its start and end.
pub fn trim_message(message: &str) -> (text: String)
    ensures
        text@ == trimmed(message@),
{
    let chars = chars_of(message);
    let (from, to) = trim_bounds(&chars, 0, chars.len());
    proof {
        assert(chars@.subrange(0, chars@.len() as int) =~= chars@);
    }
    message.substring_char(from, to).to_owned()
}

/// What the ingestion makes of a chat message.
#[derive(Debug)]
pub enum Ingested {
    /// The message is not drawn, and its sender is told so with this reply.
    Reply(String),
    /// The message becomes this command for the render loop.
    Forward(UICommand),
}

/// Mathematical model of what the ingestion makes of a chat message.
pub enum IngestedModel {
    Reply(Seq<char>),
    Forward(CommandModel),
}

impl View for Ingested {
    type V = IngestedModel;

    open spec fn view(&self) -> IngestedModel {
        match *self {
            Ingested::Reply(reply) => IngestedModel::Reply(reply@),
            Ingested::Forward(command) => IngestedModel::Forward(command@),
        }
    }
}

/// What becomes of a chat message where no external text parser is configured:
/// the message, without the white space at its ends, is turned away by the
/// moderation or drawn as what the local parser reads in it.
pub open spec fn ingested(
    message: Seq<char>,
    nick: Seq<char>,
    censoring_enabled: bool,
    limits: CanvasLimits,
) -> IngestedModel {
    let text = trimmed(message);
    match moderation_of(is_flagged(text), censoring_enabled, nick) {
        ModerationModel::Rejected(reply) => IngestedModel::Reply(reply),
        ModerationModel::Accepted => IngestedModel::Forward(
            CommandModel::Draw(placement_of(text, None, limits)),
        ),
    }
}

/// Turns a chat message into a command for the render loop, or into the reply
/// that turns it away, where no external text parser is configured.
pub fn ingest_message(message: &str, nick: &str, censoring_enabled: bool, limits: &CanvasLimits)
    -> (outcome: Ingested)
    ensures
        outcome@ == ingested(message@, nick@, censoring_enabled, *limits),
{
    let text = trim_message(message);
    match check_message(text.as_str(), censoring_enabled, nick) {
        Moderation::Rejected(reply) => Ingested::Reply(reply),
        Moderation::Accepted => Ingested::Forward(
            UICommand::Draw(choose_placement(text.as_str(), None, limits)),
        ),
    }
}

} // verus!
