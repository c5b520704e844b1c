use vstd::prelude::*;

use crate::text::same_text;

verus! {

/// What a new chat message asks of the bot.
#[derive(PartialEq, Eq, Structural, Clone, Copy, Debug)]
pub enum Command {
    /// `~ping`: answer with a pong.
    Ping,
    /// `~gallery`: admit the channel.
    Gallery,
    /// Anything else: ingest the message's media.
    Ingest,
}

/// The command that a message's text is.
pub open spec fn command_of(content: Seq<char>) -> Command {
    if content == "~ping"@ {
        Command::Ping
    } else if content == "~gallery"@ {
        Command::Gallery
    } else {
        Command::Ingest
    }
}

/// The reply to `~ping`.
pub open spec fn pong_text() -> Seq<char> {
    "Pong!"@
}

/// The command that a message's text is; only the whole text counts.
pub fn classify(content: &str) -> (r: Command)
    ensures
        r == command_of(content@),
{
    if same_text(content, "~ping") {
        Command::Ping
    } else if same_text(content, "~gallery") {
        Command::Gallery
    } else {
        Command::Ingest
    }
}

/// The reply to `~ping`.
pub fn pong() -> (r: String)
    ensures
        r@ == pong_text(),
{
    "Pong!".to_owned()
}

} // verus!
