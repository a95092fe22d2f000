use vstd::prelude::*;
use crate::cache::{CachedGuild, CachedMember};
use crate::command::{has_name, Command};
use crate::context::{contains_id, BotContext};
use crate::level::RoLevel;

verus! {

/// The administrator bit of a permission set.
pub open spec fn admin_bit(permissions: u64) -> bool {
    permissions & 8u64 == 8u64
}

/// Relies on twilight-model's `Permissions::contains` with
/// `Permissions::ADMINISTRATOR` (`1 << 3`): `bits & flag == flag`.
#[verifier::external_body]
fn permissions_grant_admin(bits: u64) -> (r: bool)
    ensures
        r == admin_bit(bits),
{
    twilight_model::guild::Permissions::from_bits_retain(bits).contains(
        twilight_model::guild::Permissions::ADMINISTRATOR,
    )
}

/// Whether the role `id` is known to the cache and carries the administrator bit.
pub open spec fn role_grants_admin(bot: BotContext, id: u64) -> bool {
    match bot.cache.spec_role(id) {
        Some(role) => admin_bit(role.permissions),
        None => false,
    }
}

/// Whether `member` holds some role that carries the administrator bit.
pub open spec fn holds_admin_permission(bot: BotContext, member: CachedMember) -> bool {
    exists|j: int| 0 <= j < member.roles@.len() && role_grants_admin(bot, #[trigger] member.roles@[j])
}

/// Whether `member` holds the optional role `role`.
pub open spec fn holds_role(member: CachedMember, role: Option<u64>) -> bool {
    match role {
        Some(r) => member.roles@.contains(r),
        None => false,
    }
}

/// A member's effective level in a guild; the first rule that applies wins.
pub open spec fn perm_level(bot: BotContext, guild: CachedGuild, member: CachedMember) -> RoLevel {
    if bot.owners@.contains(member.user_id) {
        RoLevel::Creator
    } else if member.user_id == guild.owner_id {
        RoLevel::Admin
    } else if holds_role(member, guild.admin_role) {
        RoLevel::Admin
    } else if holds_admin_permission(bot, member) {
        RoLevel::Admin
    } else if holds_role(member, guild.trainer_role) {
        RoLevel::Trainer
    } else {
        RoLevel::Normal
    }
}

/// Whether `cmd` is the command that disabled channels refuse, in a disabled channel.
pub open spec fn blocked_in_channel(bot: BotContext, cmd: Command, channel: u64) -> bool {
    bot.disabled_channels@.contains(channel) && has_name(cmd, bot.disabled_channel_command@)
}

/// Whether `author` may run `cmd` in `channel` of the optional guild.
pub open spec fn authorized(bot: BotContext, cmd: Command, guild: Option<u64>, channel: u64, author: u64) -> bool {
    if blocked_in_channel(bot, cmd, channel) {
        false
    } else if bot.owners@.contains(author) {
        true
    } else {
        match guild {
            Some(g) => match (bot.cache.spec_guild(g), bot.cache.spec_member(g, author)) {
                (Some(gd), Some(m)) => cmd.level.rank() <= perm_level(bot, gd, m).rank(),
                _ => false,
            },
            None => false,
        }
    }
}

/// The effective level of `member` in `guild`.
pub fn get_perm_level(bot: &BotContext, guild: &CachedGuild, member: &CachedMember) -> (r: RoLevel)
    ensures
        r == perm_level(*bot, *guild, *member),
{
    if bot.is_owner(member.user_id) {
        return RoLevel::Creator;
    }
    if member.user_id == guild.owner_id {
        return RoLevel::Admin;
    }
    if let Some(admin_role) = guild.admin_role {
        if contains_id(&member.roles, admin_role) {
            return RoLevel::Admin;
        }
    }
    let mut j: usize = 0;
    while j < member.roles.len()
        invariant
            !bot.owners@.contains(member.user_id),
            member.user_id != guild.owner_id,
            !holds_role(*member, guild.admin_role),
            j <= member.roles@.len(),
            forall|k: int| 0 <= k < j ==> !role_grants_admin(*bot, #[trigger] member.roles@[k]),
        decreases member.roles.len() - j,
    {
        if let Some(role) = bot.cache.role(member.roles[j]) {
            if permissions_grant_admin(role.permissions) {
                assert(role_grants_admin(*bot, member.roles@[j as int]));
                return RoLevel::Admin;
            }
        }
        j = j + 1;
    }
    if let Some(trainer_role) = guild.trainer_role {
        if contains_id(&member.roles, trainer_role) {
            return RoLevel::Trainer;
        }
    }
    RoLevel::Normal
}

/// Whether `author` may run `cmd` in `channel` of the optional guild.
pub fn run_checks(bot: &BotContext, cmd: &Command, guild_id: Option<u64>, channel_id: u64, author: u64) -> (r: bool)
    ensures
        r == authorized(*bot, *cmd, guild_id, channel_id, author),
{
    if bot.is_disabled(channel_id) && cmd.is_named(bot.disabled_channel_command.as_slice()) {
        return false;
    }
    if bot.is_owner(author) {
        return true;
    }
    if let Some(g) = guild_id {
        if let Some(guild) = bot.cache.guild(g) {
            if let Some(member) = bot.cache.member(g, author) {
                let level = get_perm_level(bot, guild, member);
                return level.satisfies(&cmd.level);
            }
        }
    }
    false
}

/// A user authorized for a command is authorized for every command that
/// requires no higher level, in the same place and with the same snapshots,
/// unless that command is the one that disabled channels refuse.
pub proof fn lemma_authorization_monotonic(
    bot: BotContext,
    higher: Command,
    lower: Command,
    guild: Option<u64>,
    channel: u64,
    author: u64,
)
    requires
        lower.level.rank() <= higher.level.rank(),
        authorized(bot, higher, guild, channel, author),
        !blocked_in_channel(bot, lower, channel),
    ensures
        authorized(bot, lower, guild, channel, author),
{
}

/// An owner is authorized for every command, except the one that disabled
/// channels refuse, in a disabled channel, which is denied even to an owner.
pub proof fn lemma_owner_bypass(bot: BotContext, cmd: Command, guild: Option<u64>, channel: u64, author: u64)
    requires
        bot.owners@.contains(author),
    ensures
        authorized(bot, cmd, guild, channel, author) == !blocked_in_channel(bot, cmd, channel),
{
}

/// The effective level depends on the snapshots alone: equal snapshots give
/// equal levels, however often it is computed.
pub proof fn lemma_perm_level_deterministic(
    bot1: BotContext,
    guild1: CachedGuild,
    member1: CachedMember,
    bot2: BotContext,
    guild2: CachedGuild,
    member2: CachedMember,
)
    requires
        bot1.owners@ == bot2.owners@,
        bot1.cache.roles@ == bot2.cache.roles@,
        guild1 == guild2,
        member1.user_id == member2.user_id,
        member1.roles@ == member2.roles@,
    ensures
        perm_level(bot1, guild1, member1) == perm_level(bot2, guild2, member2),
{
    assert(forall|id: u64| role_grants_admin(bot1, id) == role_grants_admin(bot2, id));
}

} // verus!
