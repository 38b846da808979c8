//! Snapshots of the channels of a guild, and the position changes asked of them.

use vstd::prelude::*;

verus! {

/// What a channel carries. Only text channels take part in ordering.
#[derive(Clone, Copy, Debug, PartialEq, Eq, Structural)]
pub enum ChannelKind {
    Text,
    Voice,
    Other,
}

/// The mathematical value of a [`Channel`].
pub struct ChannelView {
    pub id: u64,
    pub name: Seq<char>,
    pub kind: ChannelKind,
    pub position: int,
}

/// A read-only snapshot of one channel as the platform reported it.
#[derive(Clone, Debug, PartialEq, Eq)]
pub struct Channel {
    pub id: u64,
    pub name: String,
    pub kind: ChannelKind,
    pub position: i64,
}

impl View for Channel {
    type V = ChannelView;

    open spec fn view(&self) -> ChannelView {
        ChannelView {
            id: self.id,
            name: self.name@,
            kind: self.kind,
            position: self.position as int,
        }
    }
}

/// The values of a list of channels, one by one.
pub open spec fn channel_views(channels: Seq<Channel>) -> Seq<ChannelView> {
    Seq::new(channels.len(), |i: int| channels[i]@)
}

/// A request to move one channel to a new position.
#[derive(Clone, Copy, Debug, PartialEq, Eq, Structural)]
pub struct PositionEdit {
    pub channel_id: u64,
    pub new_position: u64,
}

} // verus!
