use sort_channels::applied::{apply_edit, apply_edits};
use sort_channels::channel::{Channel, ChannelKind, PositionEdit};
use sort_channels::natural::NameOrder;
use sort_channels::order::{compute_target_order, edit_for, rank_of, ranks_ahead};

fn channel(id: u64, name: &str, kind: ChannelKind, position: i64) -> Channel {
    Channel { id, name: name.to_string(), kind, position }
}

fn text(id: u64, name: &str, position: i64) -> Channel {
    channel(id, name, ChannelKind::Text, position)
}

fn edit(channel_id: u64, new_position: u64) -> PositionEdit {
    PositionEdit { channel_id, new_position }
}

fn general_guild() -> Vec<Channel> {
    vec![
        text(10, "general", 0),
        text(11, "general-2", 1),
        text(12, "general-10", 2),
        text(13, "bot-commands", 3),
    ]
}

#[test]
fn general_channels_move_to_their_natural_ranks() {
    let edits = compute_target_order(&general_guild());
    assert_eq!(edits, vec![edit(10, 1), edit(11, 2), edit(12, 3), edit(13, 0)]);
}

#[test]
fn digit_runs_count_by_value() {
    let channels = vec![text(1, "shot-11", 0), text(2, "shot-2", 1), text(3, "shot-1", 2)];
    assert_eq!(rank_of(&channels, 0), 2);
    assert_eq!(rank_of(&channels, 1), 1);
    assert_eq!(rank_of(&channels, 2), 0);
    assert_eq!(compute_target_order(&channels), vec![edit(1, 2), edit(3, 0)]);
}

#[test]
fn empty_snapshot_needs_no_edit() {
    assert_eq!(compute_target_order(&Vec::new()), Vec::<PositionEdit>::new());
}

#[test]
fn single_channel_goes_to_zero() {
    assert_eq!(compute_target_order(&vec![text(5, "lobby", 7)]), vec![edit(5, 0)]);
    assert_eq!(compute_target_order(&vec![text(5, "lobby", 0)]), Vec::<PositionEdit>::new());
}

#[test]
fn ordered_snapshot_needs_no_edit() {
    let channels = vec![
        text(13, "bot-commands", 0),
        text(10, "general", 1),
        text(11, "general-2", 2),
        text(12, "general-10", 3),
    ];
    assert!(compute_target_order(&channels).is_empty());
}

#[test]
fn ordered_snapshot_in_any_listing_needs_no_edit() {
    let channels = vec![
        text(12, "general-10", 3),
        text(10, "general", 1),
        text(13, "bot-commands", 0),
        text(11, "general-2", 2),
    ];
    assert!(compute_target_order(&channels).is_empty());
}

#[test]
fn edits_converge_after_one_pass() {
    let channels = general_guild();
    let edits = compute_target_order(&channels);
    let after = apply_edits(&channels, &edits);
    assert_eq!(
        after,
        vec![
            text(10, "general", 1),
            text(11, "general-2", 2),
            text(12, "general-10", 3),
            text(13, "bot-commands", 0),
        ]
    );
    assert!(compute_target_order(&after).is_empty());
}

#[test]
fn edits_converge_with_other_kinds_and_equal_names() {
    let channels = vec![
        text(4, "b", 9),
        channel(1, "a", ChannelKind::Voice, 0),
        text(3, "b", -4),
        text(2, "a10", 1),
        channel(5, "0", ChannelKind::Other, 2),
        text(6, "a9", 8),
    ];
    let edits = compute_target_order(&channels);
    assert_eq!(edits, vec![edit(4, 3), edit(3, 2), edit(6, 0)]);
    let after = apply_edits(&channels, &edits);
    assert!(compute_target_order(&after).is_empty());
}

#[test]
fn only_misplaced_channels_get_an_edit() {
    let channels = vec![
        text(1, "alpha", 0),
        text(2, "delta", 1),
        text(3, "charlie", 2),
        text(4, "bravo", 3),
    ];
    let edits = compute_target_order(&channels);
    assert_eq!(edits, vec![edit(2, 3), edit(4, 1)]);
    let misplaced = (0..channels.len())
        .filter(|&i| rank_of(&channels, i) as i64 != channels[i].position)
        .count();
    assert_eq!(edits.len(), misplaced);
}

#[test]
fn channels_of_other_kinds_are_never_edited() {
    let channels = vec![
        channel(1, "aaa", ChannelKind::Voice, 5),
        text(2, "zzz", 0),
        channel(3, "000", ChannelKind::Other, -1),
        text(4, "mmm", 1),
        channel(5, "mmm", ChannelKind::Voice, 1),
    ];
    let edits = compute_target_order(&channels);
    assert_eq!(edits, vec![edit(2, 1), edit(4, 0)]);
    assert!(edits.iter().all(|e| e.channel_id == 2 || e.channel_id == 4));
}

#[test]
fn channels_of_other_kinds_do_not_count_in_ranks() {
    let channels = vec![
        channel(1, "a", ChannelKind::Voice, 0),
        channel(2, "b", ChannelKind::Other, 1),
        text(3, "c", 0),
    ];
    assert_eq!(rank_of(&channels, 2), 0);
    assert!(compute_target_order(&channels).is_empty());
}

#[test]
fn equal_names_rank_by_identifier() {
    let channels = vec![text(9, "same", 0), text(3, "same", 1), text(5, "same", 2)];
    assert_eq!(rank_of(&channels, 0), 2);
    assert_eq!(rank_of(&channels, 1), 0);
    assert_eq!(rank_of(&channels, 2), 1);
    let edits = compute_target_order(&channels);
    assert_eq!(edits, vec![edit(9, 2), edit(3, 0), edit(5, 1)]);
    assert_eq!(compute_target_order(&channels), edits);
}

#[test]
fn equal_names_and_identifiers_rank_by_place_in_the_snapshot() {
    let channels = vec![text(7, "twin", 5), text(7, "twin", 5)];
    assert_eq!(rank_of(&channels, 0), 0);
    assert_eq!(rank_of(&channels, 1), 1);
}

#[test]
fn negative_position_is_never_a_rank() {
    assert_eq!(edit_for(&text(1, "a", -1), 0), Some(edit(1, 0)));
    assert_eq!(compute_target_order(&vec![text(1, "a", -1)]), vec![edit(1, 0)]);
}

#[test]
fn edit_for_tells_rank_from_position() {
    assert_eq!(edit_for(&text(1, "a", 3), 3), None);
    assert_eq!(edit_for(&text(1, "a", 3), 4), Some(edit(1, 4)));
    assert_eq!(edit_for(&text(1, "a", 3), 0), Some(edit(1, 0)));
    assert_eq!(edit_for(&channel(1, "a", ChannelKind::Voice, 3), 4), None);
    assert_eq!(edit_for(&channel(1, "a", ChannelKind::Other, 3), 4), None);
}

#[test]
fn ranks_ahead_goes_by_name_then_identifier_then_place() {
    let low = text(1, "x", 0);
    let high = text(2, "x", 0);
    assert!(ranks_ahead(NameOrder::Less, &high, 0, &low, 1));
    assert!(!ranks_ahead(NameOrder::Greater, &low, 0, &high, 1));
    assert!(ranks_ahead(NameOrder::Equal, &low, 1, &high, 0));
    assert!(!ranks_ahead(NameOrder::Equal, &high, 0, &low, 1));
    assert!(ranks_ahead(NameOrder::Equal, &low, 0, &low, 1));
    assert!(!ranks_ahead(NameOrder::Equal, &low, 1, &low, 0));
}

#[test]
fn ranks_ahead_leaves_out_self_and_other_kinds() {
    let subject = text(2, "x", 0);
    let voice = channel(1, "a", ChannelKind::Voice, 0);
    assert!(!ranks_ahead(NameOrder::Less, &subject, 4, &subject, 4));
    assert!(!ranks_ahead(NameOrder::Less, &voice, 0, &subject, 1));
}

#[test]
fn apply_edit_moves_the_named_channel_only() {
    let channels = vec![text(1, "a", 4), text(2, "b", 5)];
    let after = apply_edit(&channels, edit(2, 0));
    assert_eq!(after, vec![text(1, "a", 4), text(2, "b", 0)]);
    let untouched = apply_edit(&channels, edit(3, 0));
    assert_eq!(untouched, channels);
}

#[test]
fn later_edit_of_a_channel_overrides_an_earlier_one() {
    let channels = vec![text(1, "a", 4)];
    let after = apply_edits(&channels, &vec![edit(1, 7), edit(1, 2)]);
    assert_eq!(after, vec![text(1, "a", 2)]);
    assert_eq!(apply_edits(&channels, &Vec::new()), channels);
}

#[test]
fn upper_case_comes_before_lower_case() {
    let channels = vec![text(1, "alpha", 0), text(2, "Bravo", 1), text(3, "bravo", 2)];
    assert_eq!(rank_of(&channels, 0), 1);
    assert_eq!(rank_of(&channels, 1), 0);
    assert_eq!(rank_of(&channels, 2), 2);
}

#[test]
fn leading_zeros_break_a_tie_of_values() {
    let channels = vec![text(1, "room-0001", 0), text(2, "room-001", 1), text(3, "room-2", 2)];
    assert_eq!(rank_of(&channels, 0), 1);
    assert_eq!(rank_of(&channels, 1), 0);
    assert_eq!(rank_of(&channels, 2), 2);
    assert_eq!(compute_target_order(&channels), vec![edit(1, 1), edit(2, 0)]);
}

#[test]
fn names_beyond_ascii_are_ranked() {
    let channels = vec![text(1, "第1-2章", 0), text(2, "第1章", 1), text(3, "1", 2), text(4, "中", 3)];
    assert_eq!(rank_of(&channels, 0), 3);
    assert_eq!(rank_of(&channels, 1), 2);
    assert_eq!(rank_of(&channels, 2), 0);
    assert_eq!(rank_of(&channels, 3), 1);
}

#[test]
fn shorter_name_comes_before_its_extension() {
    let channels = vec![text(1, "general-chat", 0), text(2, "general", 1), text(3, "gen", 2)];
    assert_eq!(compute_target_order(&channels), vec![edit(1, 2), edit(3, 0)]);
}

#[test]
fn ranks_of_text_channels_are_all_different() {
    let channels = vec![
        text(8, "z9", 0),
        text(7, "z10", 0),
        channel(6, "z1", ChannelKind::Voice, 0),
        text(5, "Z9", 0),
        text(4, "z9", 0),
        text(3, "a", 0),
        text(2, "10", 0),
        text(1, "9", 0),
    ];
    let mut ranks: Vec<usize> = (0..channels.len())
        .filter(|&i| channels[i].kind == ChannelKind::Text)
        .map(|i| rank_of(&channels, i))
        .collect();
    ranks.sort();
    assert_eq!(ranks, vec![0, 1, 2, 3, 4, 5, 6]);
    assert_eq!(rank_of(&channels, 7), 0);
    assert_eq!(rank_of(&channels, 6), 1);
    assert_eq!(rank_of(&channels, 3), 2);
    assert_eq!(rank_of(&channels, 5), 3);
    assert_eq!(rank_of(&channels, 4), 4);
    assert_eq!(rank_of(&channels, 0), 5);
    assert_eq!(rank_of(&channels, 1), 6);
}
