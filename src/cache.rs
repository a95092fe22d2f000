use vstd::prelude::*;

verus! {

/// What the permission model reads of a guild.
pub struct CachedGuild {
    pub id: u64,
    pub owner_id: u64,
    pub admin_role: Option<u64>,
    pub trainer_role: Option<u64>,
}

/// What the permission model reads of a guild member.
pub struct CachedMember {
    pub user_id: u64,
    pub roles: Vec<u64>,
    pub nick: Option<String>,
}

/// A role and its permission bits.
pub struct CachedRole {
    pub id: u64,
    pub permissions: u64,
}

/// Point-in-time snapshots of guilds, members (keyed by guild) and roles.
/// Where an id occurs twice, the earlier entry is the one looked up.
pub struct Cache {
    pub guilds: Vec<CachedGuild>,
    pub members: Vec<(u64, CachedMember)>,
    pub roles: Vec<CachedRole>,
}

/// The index of the first guild at or after `i` with the given id.
pub open spec fn guild_index(gs: Seq<CachedGuild>, id: u64, i: int) -> Option<int>
    decreases gs.len() - i,
{
    if i < 0 || i >= gs.len() {
        None
    } else if gs[i].id == id {
        Some(i)
    } else {
        guild_index(gs, id, i + 1)
    }
}

/// The index of the first member entry at or after `i` for the given guild and user.
pub open spec fn member_index(ms: Seq<(u64, CachedMember)>, guild: u64, user: u64, i: int) -> Option<int>
    decreases ms.len() - i,
{
    if i < 0 || i >= ms.len() {
        None
    } else if ms[i].0 == guild && ms[i].1.user_id == user {
        Some(i)
    } else {
        member_index(ms, guild, user, i + 1)
    }
}

/// The index of the first role at or after `i` with the given id.
pub open spec fn role_index(rs: Seq<CachedRole>, id: u64, i: int) -> Option<int>
    decreases rs.len() - i,
{
    if i < 0 || i >= rs.len() {
        None
    } else if rs[i].id == id {
        Some(i)
    } else {
        role_index(rs, id, i + 1)
    }
}

/// Whether two optional nicknames are the same.
pub open spec fn same_nick(a: Option<String>, b: Option<String>) -> bool {
    match (a, b) {
        (Some(x), Some(y)) => x@ == y@,
        (None, None) => true,
        _ => false,
    }
}

impl CachedMember {
    /// Whether this snapshot shows the given roles and nickname, as a fresh
    /// member record from the gateway would carry them.
    pub fn matches_member(&self, roles: &Vec<u64>, nick: &Option<String>) -> (r: bool)
        ensures
            r == (self.roles@ == roles@ && same_nick(self.nick, *nick)),
    {
        if self.roles.len() != roles.len() {
            return false;
        }
        let mut i: usize = 0;
        while i < roles.len()
            invariant
                self.roles@.len() == roles@.len(),
                i <= roles@.len(),
                forall|k: int| 0 <= k < i ==> self.roles@[k] == roles@[k],
            decreases roles.len() - i,
        {
            if self.roles[i] != roles[i] {
                return false;
            }
            i = i + 1;
        }
        assert(self.roles@ =~= roles@);
        match (&self.nick, nick) {
            (Some(x), Some(y)) => <String as PartialEq>::eq(x, y),
            (None, None) => true,
            _ => false,
        }
    }

    /// Whether automatic re-detection passes this member by: it holds the
    /// guild's bypass role.
    pub fn bypasses_detection(&self, bypass_role: Option<u64>) -> (r: bool)
        ensures
            r == match bypass_role {
                Some(b) => self.roles@.contains(b),
                None => false,
            },
    {
        match bypass_role {
            Some(b) => {
                let mut i: usize = 0;
                while i < self.roles.len()
                    invariant
                        bypass_role == Some(b),
                        i <= self.roles@.len(),
                        forall|k: int| 0 <= k < i ==> self.roles@[k] != b,
                    decreases self.roles.len() - i,
                {
                    if self.roles[i] == b {
                        assert(self.roles@[i as int] == b);
                        return true;
                    }
                    i = i + 1;
                }
                false
            },
            None => false,
        }
    }
}

impl Cache {
    pub open spec fn spec_guild(&self, id: u64) -> Option<CachedGuild> {
        match guild_index(self.guilds@, id, 0) {
            Some(i) => Some(self.guilds@[i]),
            None => None,
        }
    }

    pub open spec fn spec_member(&self, guild: u64, user: u64) -> Option<CachedMember> {
        match member_index(self.members@, guild, user, 0) {
            Some(i) => Some(self.members@[i].1),
            None => None,
        }
    }

    pub open spec fn spec_role(&self, id: u64) -> Option<CachedRole> {
        match role_index(self.roles@, id, 0) {
            Some(i) => Some(self.roles@[i]),
            None => None,
        }
    }

    pub fn new() -> (r: Cache)
        ensures
            r.guilds@.len() == 0,
            r.members@.len() == 0,
            r.roles@.len() == 0,
    {
        Cache { guilds: Vec::new(), members: Vec::new(), roles: Vec::new() }
    }

    pub fn add_guild(&mut self, guild: CachedGuild)
        ensures
            final(self).guilds@ == old(self).guilds@.push(guild),
            final(self).members == old(self).members,
            final(self).roles == old(self).roles,
    {
        self.guilds.push(guild);
    }

    pub fn add_member(&mut self, guild_id: u64, member: CachedMember)
        ensures
            final(self).members@ == old(self).members@.push((guild_id, member)),
            final(self).guilds == old(self).guilds,
            final(self).roles == old(self).roles,
    {
        self.members.push((guild_id, member));
    }

    pub fn add_role(&mut self, role: CachedRole)
        ensures
            final(self).roles@ == old(self).roles@.push(role),
            final(self).guilds == old(self).guilds,
            final(self).members == old(self).members,
    {
        self.roles.push(role);
    }

    pub fn guild(&self, id: u64) -> (r: Option<&CachedGuild>)
        ensures
            match r {
                Some(g) => self.spec_guild(id) == Some(*g),
                None => self.spec_guild(id) is None,
            },
    {
        let mut i: usize = 0;
        while i < self.guilds.len()
            invariant
                i <= self.guilds@.len(),
                guild_index(self.guilds@, id, 0) == guild_index(self.guilds@, id, i as int),
            decreases self.guilds.len() - i,
        {
            if self.guilds[i].id == id {
                return Some(&self.guilds[i]);
            }
            i = i + 1;
        }
        None
    }

    pub fn member(&self, guild: u64, user: u64) -> (r: Option<&CachedMember>)
        ensures
            match r {
                Some(m) => self.spec_member(guild, user) == Some(*m),
                None => self.spec_member(guild, user) is None,
            },
    {
        let mut i: usize = 0;
        while i < self.members.len()
            invariant
                i <= self.members@.len(),
                member_index(self.members@, guild, user, 0) == member_index(self.members@, guild, user, i as int),
            decreases self.members.len() - i,
        {
            if self.members[i].0 == guild && self.members[i].1.user_id == user {
                return Some(&self.members[i].1);
            }
            i = i + 1;
        }
        None
    }

    pub fn role(&self, id: u64) -> (r: Option<&CachedRole>)
        ensures
            match r {
                Some(x) => self.spec_role(id) == Some(*x),
                None => self.spec_role(id) is None,
            },
    {
        let mut i: usize = 0;
        while i < self.roles.len()
            invariant
                i <= self.roles@.len(),
                role_index(self.roles@, id, 0) == role_index(self.roles@, id, i as int),
            decreases self.roles.len() - i,
        {
            if self.roles[i].id == id {
                return Some(&self.roles[i]);
            }
            i = i + 1;
        }
        None
    }
}

} // verus!
