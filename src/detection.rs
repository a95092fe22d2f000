use vstd::prelude::*;
use crate::cache::{Cache, CachedMember};

verus! {

/// Whether `s` is in ascending order.
pub open spec fn ascending(s: Seq<u64>) -> bool {
    forall|i: int, j: int| 0 <= i < j < s.len() ==> s[i] <= s[j]
}

/// Relies on `slice::sort_unstable`: the same items, in ascending order.
#[verifier::external_body]
fn sort_ids(v: &mut Vec<u64>)
    ensures
        final(v)@.to_multiset() == old(v)@.to_multiset(),
        ascending(final(v)@),
{
    v.sort_unstable();
}

/// Whether a detection pass updates `user` in `guild`: the cache holds it as
/// a member there, and it does not hold the guild's bypass role.
pub open spec fn is_detection_target(cache: Cache, guild: u64, user: u64, bypass: Option<u64>) -> bool {
    match cache.spec_member(guild, user) {
        Some(m) => !holds_bypass(m, bypass),
        None => false,
    }
}

pub open spec fn holds_bypass(m: CachedMember, bypass: Option<u64>) -> bool {
    match bypass {
        Some(b) => m.roles@.contains(b),
        None => false,
    }
}

/// The users of `users` that a detection pass updates, in their order.
pub open spec fn detection_targets_of(cache: Cache, guild: u64, users: Seq<u64>, bypass: Option<u64>) -> Seq<u64>
    decreases users.len(),
{
    if users.len() == 0 {
        Seq::empty()
    } else {
        let before = detection_targets_of(cache, guild, users.drop_last(), bypass);
        if is_detection_target(cache, guild, users.last(), bypass) {
            before.push(users.last())
        } else {
            before
        }
    }
}

/// The guilds of `ids` that the cache holds, in their order.
pub open spec fn cached_guilds_of(cache: Cache, ids: Seq<u64>) -> Seq<u64>
    decreases ids.len(),
{
    if ids.len() == 0 {
        Seq::empty()
    } else {
        let before = cached_guilds_of(cache, ids.drop_last());
        if cache.spec_guild(ids.last()) is Some {
            before.push(ids.last())
        } else {
            before
        }
    }
}

/// The users that the cache holds as members of `guild`, in cache order.
pub open spec fn member_ids_of(members: Seq<(u64, CachedMember)>, guild: u64) -> Seq<u64>
    decreases members.len(),
{
    if members.len() == 0 {
        Seq::empty()
    } else {
        let before = member_ids_of(members.drop_last(), guild);
        if members.last().0 == guild {
            before.push(members.last().1.user_id)
        } else {
            before
        }
    }
}

/// The users that the cache holds as members of `guild`, in cache order.
pub fn guild_member_ids(cache: &Cache, guild: u64) -> (r: Vec<u64>)
    ensures
        r@ == member_ids_of(cache.members@, guild),
{
    let mut r: Vec<u64> = Vec::new();
    let mut i: usize = 0;
    while i < cache.members.len()
        invariant
            i <= cache.members@.len(),
            r@ == member_ids_of(cache.members@.subrange(0, i as int), guild),
        decreases cache.members.len() - i,
    {
        assert(cache.members@.subrange(0, i as int + 1).drop_last() =~= cache.members@.subrange(0, i as int));
        if cache.members[i].0 == guild {
            r.push(cache.members[i].1.user_id);
        }
        i = i + 1;
    }
    assert(cache.members@.subrange(0, cache.members@.len() as int) =~= cache.members@);
    r
}

/// The guilds a detection pass visits: the given ids in ascending order,
/// less those that the cache does not hold.
pub fn detection_guilds(cache: &Cache, ids: Vec<u64>) -> (r: Vec<u64>)
    ensures
        exists|sorted: Seq<u64>| {
            &&& sorted.to_multiset() == ids@.to_multiset()
            &&& ascending(sorted)
            &&& r@ == cached_guilds_of(*cache, sorted)
        },
{
    let mut sorted = ids;
    sort_ids(&mut sorted);
    let mut r: Vec<u64> = Vec::new();
    let mut i: usize = 0;
    while i < sorted.len()
        invariant
            i <= sorted@.len(),
            r@ == cached_guilds_of(*cache, sorted@.subrange(0, i as int)),
        decreases sorted.len() - i,
    {
        assert(sorted@.subrange(0, i as int + 1).drop_last() =~= sorted@.subrange(0, i as int));
        if cache.guild(sorted[i]).is_some() {
            r.push(sorted[i]);
        }
        i = i + 1;
    }
    assert(sorted@.subrange(0, sorted@.len() as int) =~= sorted@);
    r
}

/// The users of `users` that a detection pass in `guild` updates, in order.
pub fn detection_targets(cache: &Cache, guild: u64, users: &Vec<u64>, bypass: Option<u64>) -> (r: Vec<u64>)
    ensures
        r@ == detection_targets_of(*cache, guild, users@, bypass),
{
    let mut r: Vec<u64> = Vec::new();
    let mut i: usize = 0;
    while i < users.len()
        invariant
            i <= users@.len(),
            r@ == detection_targets_of(*cache, guild, users@.subrange(0, i as int), bypass),
        decreases users.len() - i,
    {
        assert(users@.subrange(0, i as int + 1).drop_last() =~= users@.subrange(0, i as int));
        if let Some(m) = cache.member(guild, users[i]) {
            if !m.bypasses_detection(bypass) {
                r.push(users[i]);
            }
        }
        i = i + 1;
    }
    assert(users@.subrange(0, users@.len() as int) =~= users@);
    r
}

} // verus!
