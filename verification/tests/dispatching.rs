use sort_channels::dispatch::{dispatch, pass_reply, prefix_change_reply, Command, Directive, GatewayEvent};
use sort_channels::prefix::{PrefixCache, StoreError};
use sort_channels::reconcile::{PassReport, ReconcileError};

fn command(guild: Option<u64>, command: Command) -> GatewayEvent {
    GatewayEvent::Command { guild, command }
}

#[test]
fn channel_events_set_off_a_silent_pass() {
    let cache = PrefixCache::new();
    assert_eq!(
        dispatch(&cache, GatewayEvent::ChannelUpdated { guild_id: 3 }),
        Directive::Reconcile { guild_id: 3, notify: false }
    );
    assert_eq!(
        dispatch(&cache, GatewayEvent::ChannelCreated { guild_id: 4 }),
        Directive::Reconcile { guild_id: 4, notify: false }
    );
}

#[test]
fn guild_seen_for_the_first_time_gets_its_record() {
    let cache = PrefixCache::new();
    assert_eq!(
        dispatch(&cache, GatewayEvent::GuildObserved { guild_id: 3, is_new: true }),
        Directive::EnsureGuildRecord { guild_id: 3 }
    );
    assert_eq!(
        dispatch(&cache, GatewayEvent::GuildObserved { guild_id: 3, is_new: false }),
        Directive::Nothing
    );
}

#[test]
fn ping_is_answered_with_pong() {
    let cache = PrefixCache::new();
    assert_eq!(dispatch(&cache, command(Some(1), Command::Ping)), Directive::Reply("Pong!".to_string()));
    assert_eq!(dispatch(&cache, command(None, Command::Ping)), Directive::Reply("Pong!".to_string()));
}

#[test]
fn sort_sets_off_a_pass_that_notifies() {
    let cache = PrefixCache::new();
    assert_eq!(
        dispatch(&cache, command(Some(8), Command::Sort)),
        Directive::Reconcile { guild_id: 8, notify: true }
    );
    assert_eq!(dispatch(&cache, command(None, Command::Sort)), Directive::Nothing);
}

#[test]
fn prefix_without_arguments_reports_the_default() {
    let cache = PrefixCache::new();
    assert_eq!(
        dispatch(&cache, command(Some(8), Command::Prefix(None))),
        Directive::Reply(
            "My prefix for this server is .\n use the command prefix <NEWONE> to set a new prefix"
                .to_string()
        )
    );
}

#[test]
fn prefix_without_arguments_reports_the_stored_prefix() {
    let mut cache = PrefixCache::new();
    assert_eq!(cache.set_prefix(8, "!".to_string(), Ok(())), Ok(()));
    assert_eq!(
        dispatch(&cache, command(Some(8), Command::Prefix(None))),
        Directive::Reply(
            "My prefix for this server is !\n use the command prefix <NEWONE> to set a new prefix"
                .to_string()
        )
    );
    assert_eq!(
        dispatch(&cache, command(Some(9), Command::Prefix(None))),
        Directive::Reply(
            "My prefix for this server is .\n use the command prefix <NEWONE> to set a new prefix"
                .to_string()
        )
    );
}

#[test]
fn prefix_with_a_value_asks_for_the_store() {
    let cache = PrefixCache::new();
    assert_eq!(
        dispatch(&cache, command(Some(8), Command::Prefix(Some("!".to_string())))),
        Directive::StorePrefix { guild_id: 8, prefix: "!".to_string() }
    );
    assert_eq!(cache.resolve_prefix(8), ".");
    assert_eq!(
        dispatch(&cache, command(None, Command::Prefix(Some("!".to_string())))),
        Directive::Nothing
    );
    assert_eq!(dispatch(&cache, command(None, Command::Prefix(None))), Directive::Nothing);
}

#[test]
fn stored_prefix_is_cached_and_confirmed() {
    let mut cache = PrefixCache::new();
    assert_eq!(
        prefix_change_reply(&mut cache, 8, "!".to_string(), Ok(())),
        Ok("Done! My prefix for this server is now !".to_string())
    );
    assert_eq!(cache.resolve_prefix(8), "!");
}

#[test]
fn store_failure_is_handed_back_and_nothing_cached() {
    let mut cache = PrefixCache::new();
    assert_eq!(
        prefix_change_reply(&mut cache, 8, "!".to_string(), Err(StoreError::WriteFailed)),
        Err(StoreError::WriteFailed)
    );
    assert_eq!(cache.resolve_prefix(8), ".");
}

#[test]
fn only_a_notifying_pass_that_was_turned_away_gets_a_reply() {
    let denied: Result<PassReport, ReconcileError> = Err(ReconcileError::AlreadyInProgress);
    let failed: Result<PassReport, ReconcileError> = Err(ReconcileError::FetchFailed);
    let done: Result<PassReport, ReconcileError> = Ok(PassReport { attempted: 2, failed: Vec::new() });
    assert_eq!(pass_reply(true, &denied), Some("sorting already in action".to_string()));
    assert_eq!(pass_reply(false, &denied), None);
    assert_eq!(pass_reply(true, &failed), None);
    assert_eq!(pass_reply(false, &failed), None);
    assert_eq!(pass_reply(true, &done), None);
    assert_eq!(pass_reply(false, &done), None);
}
