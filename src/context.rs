use vstd::prelude::*;
use crate::cache::Cache;
use crate::text::chars_of;
use std::collections::{HashMap, HashSet};

verus! {

broadcast use vstd::std_specs::hash::group_hash_axioms;

/// Process-wide configuration read by every dispatch.
pub struct BotContext {
    /// The prefix used where a guild has none of its own.
    pub default_prefix: Vec<char>,
    /// Per-guild prefix overrides.
    pub prefixes: HashMap<u64, Vec<char>>,
    /// The bot's own mention token, which also opens a command.
    pub mention: Vec<char>,
    pub owners: HashSet<u64>,
    pub disabled_channels: HashSet<u64>,
    /// The one command name that is refused in disabled channels.
    pub disabled_channel_command: Vec<char>,
    pub cache: Cache,
}

/// Whether `x` occurs in `v`.
pub fn contains_id(v: &Vec<u64>, x: u64) -> (r: bool)
    ensures
        r == v@.contains(x),
{
    let mut i: usize = 0;
    while i < v.len()
        invariant
            i <= v@.len(),
            forall|k: int| 0 <= k < i ==> v@[k] != x,
        decreases v.len() - i,
    {
        if v[i] == x {
            assert(v@[i as int] == x);
            return true;
        }
        i = i + 1;
    }
    false
}

impl BotContext {
    /// The prefix that is active in `guild` (or outside any guild).
    pub open spec fn active_prefix(&self, guild: Option<u64>) -> Seq<char> {
        match guild {
            Some(g) => if self.prefixes@.contains_key(g) {
                self.prefixes@[g]@
            } else {
                self.default_prefix@
            },
            None => self.default_prefix@,
        }
    }

    pub fn new(default_prefix: &str, mention: &str, disabled_channel_command: &str, cache: Cache) -> (r: BotContext)
        ensures
            r.default_prefix@ == default_prefix@,
            r.mention@ == mention@,
            r.disabled_channel_command@ == disabled_channel_command@,
            r.prefixes@ == Map::<u64, Vec<char>>::empty(),
            r.owners@ == Set::<u64>::empty(),
            r.disabled_channels@ == Set::<u64>::empty(),
            r.cache == cache,
    {
        BotContext {
            default_prefix: chars_of(default_prefix),
            prefixes: HashMap::new(),
            mention: chars_of(mention),
            owners: HashSet::new(),
            disabled_channels: HashSet::new(),
            disabled_channel_command: chars_of(disabled_channel_command),
            cache,
        }
    }

    /// Whether `user` is a process owner.
    pub fn is_owner(&self, user: u64) -> (r: bool)
        ensures
            r == self.owners@.contains(user),
    {
        self.owners.contains(&user)
    }

    /// Whether `channel` is disabled.
    pub fn is_disabled(&self, channel: u64) -> (r: bool)
        ensures
            r == self.disabled_channels@.contains(channel),
    {
        self.disabled_channels.contains(&channel)
    }

    /// Sets the prefix of `guild`, replacing any earlier one.
    pub fn set_prefix(&mut self, guild: u64, prefix: &str)
        ensures
            final(self).prefixes@ == old(self).prefixes@.insert(guild, final(self).prefixes@[guild]),
            final(self).prefixes@[guild]@ == prefix@,
            final(self).default_prefix == old(self).default_prefix,
            final(self).mention == old(self).mention,
            final(self).owners == old(self).owners,
            final(self).disabled_channels == old(self).disabled_channels,
            final(self).disabled_channel_command == old(self).disabled_channel_command,
            final(self).cache == old(self).cache,
            final(self).active_prefix(Some(guild)) == prefix@,
    {
        self.prefixes.insert(guild, chars_of(prefix));
    }

    pub fn add_owner(&mut self, user: u64)
        ensures
            final(self).owners@ == old(self).owners@.insert(user),
            final(self).default_prefix == old(self).default_prefix,
            final(self).prefixes == old(self).prefixes,
            final(self).mention == old(self).mention,
            final(self).disabled_channels == old(self).disabled_channels,
            final(self).disabled_channel_command == old(self).disabled_channel_command,
            final(self).cache == old(self).cache,
    {
        self.owners.insert(user);
    }

    pub fn disable_channel(&mut self, channel: u64)
        ensures
            final(self).disabled_channels@ == old(self).disabled_channels@.insert(channel),
            final(self).default_prefix == old(self).default_prefix,
            final(self).prefixes == old(self).prefixes,
            final(self).mention == old(self).mention,
            final(self).owners == old(self).owners,
            final(self).disabled_channel_command == old(self).disabled_channel_command,
            final(self).cache == old(self).cache,
    {
        self.disabled_channels.insert(channel);
    }

    /// The characters of the prefix active in `guild`.
    pub fn prefix_for(&self, guild: Option<u64>) -> (r: &Vec<char>)
        ensures
            r@ == self.active_prefix(guild),
    {
        match guild {
            Some(g) => match self.prefixes.get(&g) {
                Some(p) => p,
                None => &self.default_prefix,
            },
            None => &self.default_prefix,
        }
    }
}

} // verus!
