use sort_channels::channel::{Channel, ChannelKind, PositionEdit};
use sort_channels::locks::GuildLockRegistry;
use sort_channels::reconcile::{Pass, PassAction, PassEvent, PassReport, Phase, ReconcileError};

fn text(id: u64, name: &str, position: i64) -> Channel {
    Channel { id, name: name.to_string(), kind: ChannelKind::Text, position }
}

fn edit(channel_id: u64, new_position: u64) -> PositionEdit {
    PositionEdit { channel_id, new_position }
}

fn general_guild() -> Vec<Channel> {
    vec![
        text(10, "general", 0),
        text(11, "general-2", 1),
        text(12, "general-10", 2),
        text(13, "bot-commands", 3),
    ]
}

fn finished(attempted: usize, failed: Vec<PositionEdit>) -> PassAction {
    PassAction::Finish(Ok(PassReport { attempted, failed }))
}

#[test]
fn new_pass_is_idle_and_holds_no_lock() {
    let pass = Pass::new(5);
    assert_eq!(pass.guild_id(), 5);
    assert_eq!(pass.phase(), Phase::Idle);
    assert!(!pass.in_flight());
}

#[test]
fn pass_fetches_edits_in_order_and_releases() {
    let mut registry = GuildLockRegistry::new();
    let mut pass = Pass::new(5);
    assert_eq!(
        pass.step(&mut registry, PassEvent::Triggered),
        PassAction::FetchChannels { guild_id: 5 }
    );
    assert_eq!(pass.phase(), Phase::Fetching);
    assert!(registry.is_locked(5));
    assert_eq!(
        pass.step(&mut registry, PassEvent::ChannelsFetched(general_guild())),
        PassAction::SetPosition(edit(10, 1))
    );
    assert_eq!(pass.phase(), Phase::Applying);
    assert_eq!(
        pass.step(&mut registry, PassEvent::EditApplied),
        PassAction::SetPosition(edit(11, 2))
    );
    assert_eq!(
        pass.step(&mut registry, PassEvent::EditApplied),
        PassAction::SetPosition(edit(12, 3))
    );
    assert_eq!(
        pass.step(&mut registry, PassEvent::EditApplied),
        PassAction::SetPosition(edit(13, 0))
    );
    assert!(registry.is_locked(5));
    assert!(pass.in_flight());
    assert_eq!(pass.step(&mut registry, PassEvent::EditApplied), finished(4, Vec::new()));
    assert_eq!(pass.phase(), Phase::Finished);
    assert!(!pass.in_flight());
    assert!(!registry.is_locked(5));
}

#[test]
fn second_sort_in_rapid_succession_is_turned_away() {
    let mut registry = GuildLockRegistry::new();
    let mut first = Pass::new(5);
    let mut second = Pass::new(5);
    assert_eq!(
        first.step(&mut registry, PassEvent::Triggered),
        PassAction::FetchChannels { guild_id: 5 }
    );
    assert_eq!(
        second.step(&mut registry, PassEvent::Triggered),
        PassAction::Finish(Err(ReconcileError::AlreadyInProgress))
    );
    assert_eq!(second.phase(), Phase::Finished);
    assert!(registry.is_locked(5));
    assert_eq!(
        first.step(&mut registry, PassEvent::ChannelsFetched(general_guild())),
        PassAction::SetPosition(edit(10, 1))
    );
    let mut third = Pass::new(5);
    assert_eq!(
        third.step(&mut registry, PassEvent::Triggered),
        PassAction::Finish(Err(ReconcileError::AlreadyInProgress))
    );
    assert!(first.in_flight());
}

#[test]
fn passes_on_two_guilds_both_proceed() {
    let mut registry = GuildLockRegistry::new();
    let mut one = Pass::new(1);
    let mut two = Pass::new(2);
    assert_eq!(one.step(&mut registry, PassEvent::Triggered), PassAction::FetchChannels { guild_id: 1 });
    assert_eq!(two.step(&mut registry, PassEvent::Triggered), PassAction::FetchChannels { guild_id: 2 });
    assert_eq!(
        two.step(&mut registry, PassEvent::FetchFailed),
        PassAction::Finish(Err(ReconcileError::FetchFailed))
    );
    assert!(registry.is_locked(1));
    assert!(!registry.is_locked(2));
    assert!(one.in_flight());
}

#[test]
fn failed_fetch_releases_the_lock() {
    let mut registry = GuildLockRegistry::new();
    let mut pass = Pass::new(5);
    pass.step(&mut registry, PassEvent::Triggered);
    assert_eq!(
        pass.step(&mut registry, PassEvent::FetchFailed),
        PassAction::Finish(Err(ReconcileError::FetchFailed))
    );
    assert_eq!(pass.phase(), Phase::Finished);
    assert!(!registry.is_locked(5));
    let mut retry = Pass::new(5);
    assert_eq!(
        retry.step(&mut registry, PassEvent::Triggered),
        PassAction::FetchChannels { guild_id: 5 }
    );
}

#[test]
fn failed_edits_are_reported_and_do_not_stop_the_pass() {
    let mut registry = GuildLockRegistry::new();
    let mut pass = Pass::new(5);
    pass.step(&mut registry, PassEvent::Triggered);
    assert_eq!(
        pass.step(&mut registry, PassEvent::ChannelsFetched(general_guild())),
        PassAction::SetPosition(edit(10, 1))
    );
    assert_eq!(
        pass.step(&mut registry, PassEvent::EditFailed),
        PassAction::SetPosition(edit(11, 2))
    );
    assert_eq!(
        pass.step(&mut registry, PassEvent::EditApplied),
        PassAction::SetPosition(edit(12, 3))
    );
    assert_eq!(
        pass.step(&mut registry, PassEvent::EditFailed),
        PassAction::SetPosition(edit(13, 0))
    );
    assert_eq!(
        pass.step(&mut registry, PassEvent::EditFailed),
        finished(4, vec![edit(10, 1), edit(12, 3), edit(13, 0)])
    );
    assert!(!registry.is_locked(5));
}

#[test]
fn settled_guild_ends_the_pass_without_an_edit() {
    let mut registry = GuildLockRegistry::new();
    let mut pass = Pass::new(5);
    pass.step(&mut registry, PassEvent::Triggered);
    let settled = vec![
        text(13, "bot-commands", 0),
        text(10, "general", 1),
        text(11, "general-2", 2),
        text(12, "general-10", 3),
    ];
    assert_eq!(
        pass.step(&mut registry, PassEvent::ChannelsFetched(settled)),
        finished(0, Vec::new())
    );
    assert!(!registry.is_locked(5));
}

#[test]
fn events_out_of_turn_change_nothing() {
    let mut registry = GuildLockRegistry::new();
    let mut pass = Pass::new(5);
    assert_eq!(pass.step(&mut registry, PassEvent::EditApplied), PassAction::Nothing);
    assert_eq!(pass.step(&mut registry, PassEvent::FetchFailed), PassAction::Nothing);
    assert_eq!(
        pass.step(&mut registry, PassEvent::ChannelsFetched(general_guild())),
        PassAction::Nothing
    );
    assert_eq!(pass.phase(), Phase::Idle);
    assert!(!registry.is_locked(5));
    pass.step(&mut registry, PassEvent::Triggered);
    assert_eq!(pass.step(&mut registry, PassEvent::Triggered), PassAction::Nothing);
    assert_eq!(pass.step(&mut registry, PassEvent::EditFailed), PassAction::Nothing);
    assert_eq!(pass.phase(), Phase::Fetching);
    assert!(registry.is_locked(5));
    pass.step(&mut registry, PassEvent::ChannelsFetched(general_guild()));
    assert_eq!(pass.step(&mut registry, PassEvent::FetchFailed), PassAction::Nothing);
    assert_eq!(pass.phase(), Phase::Applying);
}

#[test]
fn finished_pass_takes_no_event_and_touches_no_lock() {
    let mut registry = GuildLockRegistry::new();
    let mut holder = Pass::new(5);
    let mut loser = Pass::new(5);
    holder.step(&mut registry, PassEvent::Triggered);
    loser.step(&mut registry, PassEvent::Triggered);
    assert_eq!(loser.step(&mut registry, PassEvent::FetchFailed), PassAction::Nothing);
    assert_eq!(loser.step(&mut registry, PassEvent::EditApplied), PassAction::Nothing);
    assert_eq!(loser.step(&mut registry, PassEvent::Triggered), PassAction::Nothing);
    assert!(registry.is_locked(5));
}
