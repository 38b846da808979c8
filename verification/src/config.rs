//! The record that the store keeps of a guild.

use vstd::prelude::*;
use vstd::string::*;
use crate::prefix::{default_prefix, DEFAULT_PREFIX};

verus! {

/// What is persisted of one guild. The three lists of channel identifiers are
/// kept for ordering policies; ranking does not read them.
#[derive(Clone, Debug, PartialEq, Eq)]
pub struct GuildConfig {
    pub always_on_top: Vec<u64>,
    pub always_on_bottom: Vec<u64>,
    pub ignore: Vec<u64>,
    pub prefix: String,
    pub name: String,
}

/// The mathematical value of a [`GuildConfig`].
pub struct GuildConfigView {
    pub always_on_top: Seq<u64>,
    pub always_on_bottom: Seq<u64>,
    pub ignore: Seq<u64>,
    pub prefix: Seq<char>,
    pub name: Seq<char>,
}

impl View for GuildConfig {
    type V = GuildConfigView;

    open spec fn view(&self) -> GuildConfigView {
        GuildConfigView {
            always_on_top: self.always_on_top@,
            always_on_bottom: self.always_on_bottom@,
            ignore: self.ignore@,
            prefix: self.prefix@,
            name: self.name@,
        }
    }
}

impl GuildConfig {
    /// The record of a guild that has just been seen: the default prefix and
    /// no channel on any list.
    pub fn new(name: String) -> (config: GuildConfig)
        ensures
            config@ == (GuildConfigView {
                always_on_top: Seq::empty(),
                always_on_bottom: Seq::empty(),
                ignore: Seq::empty(),
                prefix: default_prefix(),
                name: name@,
            }),
    {
        proof {
            reveal_strlit(".");
            assert(DEFAULT_PREFIX@ =~= default_prefix());
        }
        GuildConfig {
            always_on_top: Vec::new(),
            always_on_bottom: Vec::new(),
            ignore: Vec::new(),
            prefix: String::from_str(DEFAULT_PREFIX),
            name,
        }
    }
}

} // verus!
