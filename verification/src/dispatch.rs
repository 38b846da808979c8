//! What each gateway event asks of the engine, and what the bot answers.

use vstd::prelude::*;
use vstd::string::*;
use crate::prefix::{after_set, resolved, PrefixCache, StoreError};
use crate::reconcile::{PassReport, PassReportView, ReconcileError};

verus! {

/// A command that a user has sent, the prefix already taken off.
#[derive(Debug, PartialEq, Eq)]
pub enum Command {
    /// `ping`
    Ping,
    /// `sort`
    Sort,
    /// `prefix`, with the new prefix if one was given.
    Prefix(Option<String>),
}

/// The mathematical value of a [`Command`].
pub enum CommandView {
    Ping,
    Sort,
    Prefix(Option<Seq<char>>),
}

impl View for Command {
    type V = CommandView;

    open spec fn view(&self) -> CommandView {
        match self {
            Command::Ping => CommandView::Ping,
            Command::Sort => CommandView::Sort,
            Command::Prefix(Some(p)) => CommandView::Prefix(Some(p@)),
            Command::Prefix(None) => CommandView::Prefix(None),
        }
    }
}

/// What the gateway has delivered.
#[derive(Debug, PartialEq, Eq)]
pub enum GatewayEvent {
    /// A channel of the guild was renamed or otherwise changed.
    ChannelUpdated { guild_id: u64 },
    /// A channel was created in the guild.
    ChannelCreated { guild_id: u64 },
    /// The guild came into view; `is_new` says whether for the first time.
    GuildObserved { guild_id: u64, is_new: bool },
    /// A user sent a command, from within `guild` if there is one.
    Command { guild: Option<u64>, command: Command },
}

/// The mathematical value of a [`GatewayEvent`].
pub enum GatewayEventView {
    ChannelUpdated { guild_id: u64 },
    ChannelCreated { guild_id: u64 },
    GuildObserved { guild_id: u64, is_new: bool },
    Command { guild: Option<u64>, command: CommandView },
}

impl View for GatewayEvent {
    type V = GatewayEventView;

    open spec fn view(&self) -> GatewayEventView {
        match self {
            GatewayEvent::ChannelUpdated { guild_id } => GatewayEventView::ChannelUpdated {
                guild_id: *guild_id,
            },
            GatewayEvent::ChannelCreated { guild_id } => GatewayEventView::ChannelCreated {
                guild_id: *guild_id,
            },
            GatewayEvent::GuildObserved { guild_id, is_new } => GatewayEventView::GuildObserved {
                guild_id: *guild_id,
                is_new: *is_new,
            },
            GatewayEvent::Command { guild, command } => GatewayEventView::Command {
                guild: *guild,
                command: command@,
            },
        }
    }
}

/// What the caller is to do about an event.
#[derive(Debug, PartialEq, Eq)]
pub enum Directive {
    /// Run a reconciliation pass on the guild. `notify` says whether the user
    /// who asked is to be told when the pass is turned away.
    Reconcile { guild_id: u64, notify: bool },
    /// Make sure that the store holds a record of the guild.
    EnsureGuildRecord { guild_id: u64 },
    /// Write the new prefix of the guild to the store, then hand the outcome to
    /// [`prefix_change_reply`].
    StorePrefix { guild_id: u64, prefix: String },
    /// Send this text back.
    Reply(String),
    /// Nothing is to be done.
    Nothing,
}

/// The mathematical value of a [`Directive`].
pub enum DirectiveView {
    Reconcile { guild_id: u64, notify: bool },
    EnsureGuildRecord { guild_id: u64 },
    StorePrefix { guild_id: u64, prefix: Seq<char> },
    Reply(Seq<char>),
    Nothing,
}

impl View for Directive {
    type V = DirectiveView;

    open spec fn view(&self) -> DirectiveView {
        match self {
            Directive::Reconcile { guild_id, notify } => DirectiveView::Reconcile {
                guild_id: *guild_id,
                notify: *notify,
            },
            Directive::EnsureGuildRecord { guild_id } => DirectiveView::EnsureGuildRecord {
                guild_id: *guild_id,
            },
            Directive::StorePrefix { guild_id, prefix } => DirectiveView::StorePrefix {
                guild_id: *guild_id,
                prefix: prefix@,
            },
            Directive::Reply(text) => DirectiveView::Reply(text@),
            Directive::Nothing => DirectiveView::Nothing,
        }
    }
}

/// The answer to `ping`.
pub open spec fn pong() -> Seq<char> {
    "Pong!"@
}

/// What a user is told whose `sort` met a pass in flight.
pub open spec fn sort_denied() -> Seq<char> {
    "sorting already in action"@
}

/// What a user is told who asked for the prefix of the guild.
pub open spec fn prefix_report(prefix: Seq<char>) -> Seq<char> {
    "My prefix for this server is "@ + prefix
        + "\n use the command prefix <NEWONE> to set a new prefix"@
}

/// What a user is told whose new prefix has been stored.
pub open spec fn prefix_changed(prefix: Seq<char>) -> Seq<char> {
    "Done! My prefix for this server is now "@ + prefix
}

/// What an event asks for, given the prefixes that are known.
///
/// A change to a channel and a new channel set off a pass that nobody is told
/// about. A guild that is seen for the first time gets its record; one that is
/// seen again gets nothing. `ping` is answered at once, from anywhere. `sort`
/// and `prefix` need a guild and are passed over without one: `sort` sets off a
/// pass and has the user told if it is turned away, `prefix` alone reports the
/// prefix in use, and `prefix` with a value asks for that value to be stored.
pub open spec fn directive_of(prefixes: Map<u64, Seq<char>>, event: GatewayEventView)
    -> DirectiveView {
    match event {
        GatewayEventView::ChannelUpdated { guild_id } => DirectiveView::Reconcile {
            guild_id,
            notify: false,
        },
        GatewayEventView::ChannelCreated { guild_id } => DirectiveView::Reconcile {
            guild_id,
            notify: false,
        },
        GatewayEventView::GuildObserved { guild_id, is_new } => if is_new {
            DirectiveView::EnsureGuildRecord { guild_id }
        } else {
            DirectiveView::Nothing
        },
        GatewayEventView::Command { guild, command } => match command {
            CommandView::Ping => DirectiveView::Reply(pong()),
            CommandView::Sort => match guild {
                Some(guild_id) => DirectiveView::Reconcile { guild_id, notify: true },
                None => DirectiveView::Nothing,
            },
            CommandView::Prefix(new_prefix) => match guild {
                Some(guild_id) => match new_prefix {
                    Some(prefix) => DirectiveView::StorePrefix { guild_id, prefix },
                    None => DirectiveView::Reply(prefix_report(resolved(prefixes, guild_id))),
                },
                None => DirectiveView::Nothing,
            },
        },
    }
}

/// What the requester of a pass is told once the pass is over: that a sort
/// is already in action, where the pass was turned away and the requester is
/// to be notified; nothing otherwise.
pub open spec fn pass_reply_of(notify: bool, result: Result<PassReportView, ReconcileError>)
    -> Option<Seq<char>> {
    if notify && result == Err::<PassReportView, ReconcileError>(ReconcileError::AlreadyInProgress) {
        Some(sort_denied())
    } else {
        None
    }
}

/// Decides what is to be done about an event.
pub fn dispatch(cache: &PrefixCache, event: GatewayEvent) -> (directive: Directive)
    ensures
        directive@ == directive_of(cache@, event@),
{
    match event {
        GatewayEvent::ChannelUpdated { guild_id } => Directive::Reconcile { guild_id, notify: false },
        GatewayEvent::ChannelCreated { guild_id } => Directive::Reconcile { guild_id, notify: false },
        GatewayEvent::GuildObserved { guild_id, is_new } => {
            if is_new {
                Directive::EnsureGuildRecord { guild_id }
            } else {
                Directive::Nothing
            }
        },
        GatewayEvent::Command { guild, command } => match command {
            Command::Ping => Directive::Reply(String::from_str("Pong!")),
            Command::Sort => match guild {
                Some(guild_id) => Directive::Reconcile { guild_id, notify: true },
                None => Directive::Nothing,
            },
            Command::Prefix(new_prefix) => match guild {
                Some(guild_id) => match new_prefix {
                    Some(prefix) => Directive::StorePrefix { guild_id, prefix },
                    None => {
                        let current = cache.resolve_prefix(guild_id);
                        let mut text = String::from_str("My prefix for this server is ");
                        text.append(current.as_str());
                        text.append("\n use the command prefix <NEWONE> to set a new prefix");
                        Directive::Reply(text)
                    },
                },
                None => Directive::Nothing,
            },
        },
    }
}

/// Says what the requester of a pass is to be told about its result, if
/// anything.
pub fn pass_reply(notify: bool, result: &Result<PassReport, ReconcileError>) -> (reply: Option<
    String,
>)
    ensures
        match reply {
            Some(text) => pass_reply_of(notify, result_view(*result)) == Some(text@),
            None => pass_reply_of(notify, result_view(*result)) is None,
        },
{
    match result {
        Err(ReconcileError::AlreadyInProgress) => {
            if notify {
                Some(String::from_str("sorting already in action"))
            } else {
                None
            }
        },
        _ => None,
    }
}

/// The value of the result of a pass.
pub open spec fn result_view(result: Result<PassReport, ReconcileError>) -> Result<
    PassReportView,
    ReconcileError,
> {
    match result {
        Ok(report) => Ok(report@),
        Err(e) => Err(e),
    }
}

/// Takes the store's answer to a prefix change: where the write succeeded the
/// cache learns the new prefix and the user is told so; where it failed the
/// cache stays as it was and the error is handed back for the user to be told.
pub fn prefix_change_reply(
    cache: &mut PrefixCache,
    guild_id: u64,
    new_prefix: String,
    stored: Result<(), StoreError>,
) -> (reply: Result<String, StoreError>)
    ensures
        final(cache)@ == after_set(old(cache)@, guild_id, new_prefix@, stored),
        match stored {
            Ok(_) => reply is Ok && reply->Ok_0@ == prefix_changed(new_prefix@),
            Err(e) => reply == Err::<String, StoreError>(e),
        },
{
    let mut text = String::from_str("Done! My prefix for this server is now ");
    text.append(new_prefix.as_str());
    match cache.set_prefix(guild_id, new_prefix, stored) {
        Ok(_) => Ok(text),
        Err(e) => Err(e),
    }
}

} // verus!
