//! The command registry: which texts are commands, and what the bot does on
//! each.

use crate::message::{Card, CardView, Field, FieldView, MessageView, OutgoingMessage};
use crate::text::{decimal, decimal_value, is_digit, push_decimal, same_text};
use crate::text::{lemma_decimal_is_digits, lemma_decimal_round_trip};
use vstd::prelude::*;

verus! {

/// A command of the bot.
#[derive(Clone, Copy, Debug, PartialEq, Eq, Structural)]
pub enum Command {
    Hello,
    Infos,
    Help,
    Github,
    Rust,
    Selim,
    Ping,
    Planning,
}

impl Command {
    /// The text that calls the command: a message is the command where it
    /// holds this text and nothing else.
    pub open spec fn trigger(self) -> Seq<char> {
        match self {
            Command::Hello => "!hello"@,
            Command::Infos => "!infos"@,
            Command::Help => "!help"@,
            Command::Github => "!github"@,
            Command::Rust => "!rust"@,
            Command::Selim => "!selim"@,
            Command::Ping => "!ping"@,
            Command::Planning => "!planning"@,
        }
    }

    /// The text that calls the command.
    pub fn trigger_text(self) -> (text: &'static str)
        ensures
            text@ == self.trigger(),
    {
        match self {
            Command::Hello => "!hello",
            Command::Infos => "!infos",
            Command::Help => "!help",
            Command::Github => "!github",
            Command::Rust => "!rust",
            Command::Selim => "!selim",
            Command::Ping => "!ping",
            Command::Planning => "!planning",
        }
    }

    /// Reads a message as a command.
    pub fn parse(content: &str) -> (command: Option<Command>)
        ensures
            command == command_of(content@),
    {
        if same_text(content, "!hello") {
            Some(Command::Hello)
        } else if same_text(content, "!infos") {
            Some(Command::Infos)
        } else if same_text(content, "!help") {
            Some(Command::Help)
        } else if same_text(content, "!github") {
            Some(Command::Github)
        } else if same_text(content, "!rust") {
            Some(Command::Rust)
        } else if same_text(content, "!selim") {
            Some(Command::Selim)
        } else if same_text(content, "!ping") {
            Some(Command::Ping)
        } else if same_text(content, "!planning") {
            Some(Command::Planning)
        } else {
            None
        }
    }
}

/// Whether `content` calls a command.
pub open spec fn is_trigger(content: Seq<char>) -> bool {
    exists|command: Command| content == #[trigger] command.trigger()
}

/// The command that `content` calls, if it calls one.
pub open spec fn command_of(content: Seq<char>) -> Option<Command> {
    if content == Command::Hello.trigger() {
        Some(Command::Hello)
    } else if content == Command::Infos.trigger() {
        Some(Command::Infos)
    } else if content == Command::Help.trigger() {
        Some(Command::Help)
    } else if content == Command::Github.trigger() {
        Some(Command::Github)
    } else if content == Command::Rust.trigger() {
        Some(Command::Rust)
    } else if content == Command::Selim.trigger() {
        Some(Command::Selim)
    } else if content == Command::Ping.trigger() {
        Some(Command::Ping)
    } else if content == Command::Planning.trigger() {
        Some(Command::Planning)
    } else {
        None
    }
}

/// What the bot does on a message.
#[derive(Clone, Debug, PartialEq, Eq)]
pub enum Reaction {
    /// Nothing: the message is no command.
    Ignore,
    /// Post a message in the channel.
    Send(OutgoingMessage),
    /// Answer the message with a text.
    Reply(String),
    /// Measure a round trip: see [`PING_PLACEHOLDER`] and [`pong_text`].
    Ping,
    /// Fetch the timetable and post it: see [`crate::planning`].
    Planning,
}

/// The model of a [`Reaction`].
pub enum ReactionView {
    Ignore,
    Send(MessageView),
    Reply(Seq<char>),
    Ping,
    Planning,
}

impl View for Reaction {
    type V = ReactionView;

    open spec fn view(&self) -> ReactionView {
        match self {
            Reaction::Ignore => ReactionView::Ignore,
            Reaction::Send(message) => ReactionView::Send(message@),
            Reaction::Reply(text) => ReactionView::Reply(text@),
            Reaction::Ping => ReactionView::Ping,
            Reaction::Planning => ReactionView::Planning,
        }
    }
}

/// A field that is not shown inline.
pub open spec fn block(label: Seq<char>, value: Seq<char>) -> FieldView {
    FieldView { label, value, inline: false }
}

/// The card that presents the bot.
pub open spec fn infos_card() -> CardView {
    CardView {
        title: "Infos"@,
        description: Some("Infos sur le bot"@),
        fields: seq![
            block("Créateur"@, "ncls-p"@),
            block("Langage"@, "Rust"@),
            block("Github"@, "https://github.com/ncls-p/rust-discord-bot-esgi"@),
            block("Version"@, "0.1.0"@),
            block("Librairie"@, "Serenity"@),
        ],
        colour: Some(0x9B59B6u32),
        url: Some("https://github.com/ncls-p/rust-discord-bot-esgi"@),
        image: Some(
            "https://cdn.discordapp.com/attachments/1028352036049277060/1156246329736044676/download.png?ex=651445cf&is=6512f44f&hm=19e23e3d7ec03497772c97daccaa35cbb978df8e4c104414c0c2e63c547091f0&"@,
        ),
        footer: None,
        timestamp: None,
    }
}

/// The card that lists the commands.
pub open spec fn help_card() -> CardView {
    CardView {
        title: "Commandes"@,
        description: Some("Liste des commandes"@),
        fields: seq![
            block("*ping"@, "Renvoie pong"@),
            block("*help"@, "Renvoie ce message"@),
            block("*infos"@, "Renvoie des infos sur le bot"@),
            block("*github"@, "Renvoie le lien du github"@),
            block("*rust"@, "Renvoie le lien du rust"@),
        ],
        colour: None,
        url: None,
        image: None,
        footer: None,
        timestamp: None,
    }
}

/// What the bot does on a command.
pub open spec fn response(command: Command) -> ReactionView {
    match command {
        Command::Hello => ReactionView::Send(MessageView::Text("world!"@)),
        Command::Infos => ReactionView::Send(MessageView::Card(infos_card())),
        Command::Help => ReactionView::Send(MessageView::Card(help_card())),
        Command::Github => ReactionView::Reply("https://github.com/ncls-p/rust-discord-bot-esgi"@),
        Command::Rust => ReactionView::Reply("https://www.rust-lang.org/"@),
        Command::Selim => ReactionView::Reply(
            "gnn gnn gnn ça existe pas les lib rust pour discord"@,
        ),
        Command::Ping => ReactionView::Ping,
        Command::Planning => ReactionView::Planning,
    }
}

/// What the bot does on a message: what the command asks for, nothing where
/// the message is no command.
pub open spec fn reaction_to(content: Seq<char>) -> ReactionView {
    match command_of(content) {
        Some(command) => response(command),
        None => ReactionView::Ignore,
    }
}

/// `!hello`: posts a greeting.
pub fn hello_command() -> (reaction: Reaction)
    ensures
        reaction@ == response(Command::Hello),
{
    Reaction::Send(OutgoingMessage::Text("world!".to_owned()))
}

/// `!infos`: posts the card that presents the bot.
pub fn infos_command() -> (reaction: Reaction)
    ensures
        reaction@ == response(Command::Infos),
{
    let mut card = Card::titled("Infos");
    card.description = Some("Infos sur le bot".to_owned());
    card.push_field(Field::block("Créateur", "ncls-p"));
    card.push_field(Field::block("Langage", "Rust"));
    card.push_field(Field::block("Github", "https://github.com/ncls-p/rust-discord-bot-esgi"));
    card.push_field(Field::block("Version", "0.1.0"));
    card.push_field(Field::block("Librairie", "Serenity"));
    card.colour = Some(0x9B59B6u32);
    card.url = Some("https://github.com/ncls-p/rust-discord-bot-esgi".to_owned());
    card.image = Some(
        "https://cdn.discordapp.com/attachments/1028352036049277060/1156246329736044676/download.png?ex=651445cf&is=6512f44f&hm=19e23e3d7ec03497772c97daccaa35cbb978df8e4c104414c0c2e63c547091f0&".to_owned(),
    );
    assert(card@.fields =~= infos_card().fields);
    Reaction::Send(OutgoingMessage::Card(card))
}

/// `!help`: posts the card that lists the commands.
pub fn help_command() -> (reaction: Reaction)
    ensures
        reaction@ == response(Command::Help),
{
    let mut card = Card::titled("Commandes");
    card.description = Some("Liste des commandes".to_owned());
    card.push_field(Field::block("*ping", "Renvoie pong"));
    card.push_field(Field::block("*help", "Renvoie ce message"));
    card.push_field(Field::block("*infos", "Renvoie des infos sur le bot"));
    card.push_field(Field::block("*github", "Renvoie le lien du github"));
    card.push_field(Field::block("*rust", "Renvoie le lien du rust"));
    assert(card@.fields =~= help_card().fields);
    Reaction::Send(OutgoingMessage::Card(card))
}

/// `!github`: answers with the address of the bot's sources.
pub fn github_command() -> (reaction: Reaction)
    ensures
        reaction@ == response(Command::Github),
{
    Reaction::Reply("https://github.com/ncls-p/rust-discord-bot-esgi".to_owned())
}

/// `!rust`: answers with the address of the language's site.
pub fn rust_command() -> (reaction: Reaction)
    ensures
        reaction@ == response(Command::Rust),
{
    Reaction::Reply("https://www.rust-lang.org/".to_owned())
}

/// `!selim`: answers with a fixed text.
pub fn selim_command() -> (reaction: Reaction)
    ensures
        reaction@ == response(Command::Selim),
{
    Reaction::Reply("gnn gnn gnn ça existe pas les lib rust pour discord".to_owned())
}

/// What the bot does on `command`.
pub fn respond(command: Command) -> (reaction: Reaction)
    ensures
        reaction@ == response(command),
{
    match command {
        Command::Hello => hello_command(),
        Command::Infos => infos_command(),
        Command::Help => help_command(),
        Command::Github => github_command(),
        Command::Rust => rust_command(),
        Command::Selim => selim_command(),
        Command::Ping => Reaction::Ping,
        Command::Planning => Reaction::Planning,
    }
}

/// What the bot does on a message with the text `content`.
///
/// The whole text is compared, as it stands, with the text of each command:
/// a text that is none of them is ignored.
pub fn react(content: &str) -> (reaction: Reaction)
    ensures
        reaction@ == reaction_to(content@),
        reaction is Ignore <==> !is_trigger(content@),
{
    proof {
        lemma_command_of(content@);
    }
    match Command::parse(content) {
        Some(command) => respond(command),
        None => Reaction::Ignore,
    }
}

/// The text that `!ping` answers with before it knows the latency.
pub const PING_PLACEHOLDER: &'static str = "Pinging...";

/// The text that reports a latency in milliseconds.
pub open spec fn pong(latency: nat) -> Seq<char> {
    "Pong! 🏓 Latency: "@ + decimal(latency) + "ms"@
}

/// The time from one reading of the clock to a later one, both in
/// milliseconds since the same instant. A clock that went back in between
/// counts as no time at all.
pub open spec fn elapsed(sent_at: nat, answered_at: nat) -> nat {
    if answered_at >= sent_at {
        (answered_at - sent_at) as nat
    } else {
        0
    }
}

/// The text that `!ping` puts in place of its first answer: the time in
/// milliseconds between `sent_at`, read before the answer was sent, and
/// `answered_at`, read after.
pub fn pong_text(sent_at: u128, answered_at: u128) -> (text: String)
    ensures
        text@ == pong(elapsed(sent_at as nat, answered_at as nat)),
{
    let latency: u128 = if answered_at >= sent_at {
        answered_at - sent_at
    } else {
        0
    };
    let mut text = "Pong! 🏓 Latency: ".to_owned();
    push_decimal(&mut text, latency);
    text.append("ms");
    text
}

/// How a message reaches the channel.
#[derive(Clone, Copy, Debug, PartialEq, Eq, Structural)]
pub enum Delivery {
    /// A new message.
    Post,
    /// An answer to the message that called the command.
    Reply,
    /// A new text for a message that the bot sent before.
    Edit,
}

/// What a failed delivery means for the invocation that asked for it.
#[derive(Clone, Copy, Debug, PartialEq, Eq, Structural)]
pub enum Failure {
    /// It is logged; the invocation ends without an error.
    Logged,
    /// It ends the invocation with the error.
    Fatal,
}

/// What a failure of `delivery` means: a failed edit is fatal, any other
/// failure is logged.
pub open spec fn failure_of(delivery: Delivery) -> Failure {
    match delivery {
        Delivery::Edit => Failure::Fatal,
        _ => Failure::Logged,
    }
}

/// What a failure of `delivery` means for the invocation.
pub fn on_failure(delivery: Delivery) -> (failure: Failure)
    ensures
        failure == failure_of(delivery),
{
    match delivery {
        Delivery::Edit => Failure::Fatal,
        Delivery::Post => Failure::Logged,
        Delivery::Reply => Failure::Logged,
    }
}

/// No two commands are called by the same text.
pub proof fn lemma_triggers_distinct(a: Command, b: Command)
    requires
        a != b,
    ensures
        a.trigger() != b.trigger(),
{
    reveal_strlit("!hello");
    reveal_strlit("!infos");
    reveal_strlit("!help");
    reveal_strlit("!github");
    reveal_strlit("!rust");
    reveal_strlit("!selim");
    reveal_strlit("!ping");
    reveal_strlit("!planning");
    if a.trigger() == b.trigger() {
        assert(a.trigger().len() == b.trigger().len());
        assert(a.trigger()[1] == b.trigger()[1]);
        assert(a.trigger()[2] == b.trigger()[2]);
    }
}

/// A text calls the command whose trigger it is, and no other; a text that
/// is no trigger calls none.
pub proof fn lemma_command_of(content: Seq<char>)
    ensures
        forall|command: Command|
            command_of(content) == Some(command) <==> content == #[trigger] command.trigger(),
        command_of(content) is None <==> !is_trigger(content),
{
    assert forall|command: Command|
        command_of(content) == Some(command) <==> content == #[trigger] command.trigger() by {
        if content == command.trigger() {
            let found = command_of(content)->0;
            if found != command {
                lemma_triggers_distinct(found, command);
            }
        }
    }
    if command_of(content) is Some {
        assert(content == command_of(content)->0.trigger());
    }
}

/// A text that is no trigger is ignored.
pub proof fn lemma_other_texts_ignored(content: Seq<char>)
    requires
        !is_trigger(content),
    ensures
        reaction_to(content) == ReactionView::Ignore,
{
    lemma_command_of(content);
}

/// Each trigger is answered as its command asks, and no trigger is ignored.
pub proof fn lemma_trigger_answered(command: Command)
    ensures
        reaction_to(command.trigger()) == response(command),
        reaction_to(command.trigger()) != ReactionView::Ignore,
{
    lemma_command_of(command.trigger());
}

/// The text of a pong is its prefix, the numeral of the latency and `ms`: the
/// latency stands in it as a non-negative integer in decimal digits, and
/// reads back as the number it was written from.
pub proof fn lemma_pong_reports_latency(latency: nat)
    ensures
        pong(latency).len() == "Pong! 🏓 Latency: "@.len() + decimal(latency).len() + "ms"@.len(),
        pong(latency).subrange(
            "Pong! 🏓 Latency: "@.len() as int,
            pong(latency).len() - "ms"@.len(),
        ) == decimal(latency),
        forall|k: int| 0 <= k < decimal(latency).len() ==> is_digit(#[trigger] decimal(latency)[k]),
        decimal_value(decimal(latency)) == latency,
{
    lemma_decimal_is_digits(latency);
    lemma_decimal_round_trip(latency);
    let prefix = "Pong! 🏓 Latency: "@;
    assert(pong(latency).subrange(prefix.len() as int, pong(latency).len() - "ms"@.len())
        =~= decimal(latency));
}

} // verus!
