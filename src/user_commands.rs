use vstd::prelude::*;
use crate::command::Command;
use crate::level::RoLevel;

verus! {

pub const UPDATE_HANDLER: usize = 0;
pub const USERINFO_HANDLER: usize = 1;
pub const BOTINFO_HANDLER: usize = 2;
pub const SUPPORT_HANDLER: usize = 3;
pub const VERIFY_HANDLER: usize = 4;
pub const REVERIFY_HANDLER: usize = 5;
pub const TEST_HANDLER: usize = 6;

/// `c` is a leaf with exactly these names, this level and this handler.
pub open spec fn registered_as(c: Command, names: Seq<Seq<char>>, level: RoLevel, handler: usize) -> bool {
    &&& c.names@.len() == names.len()
    &&& forall|k: int| 0 <= k < names.len() ==> #[trigger] c.names@[k]@ == names[k]
    &&& c.level == level
    &&& c.handler == handler
    &&& c.sub_commands@.len() == 0
}

fn user_command(name: &str, description: &str, handler: usize) -> (r: Command)
    ensures
        registered_as(r, seq![name@], RoLevel::Normal, handler),
{
    Command::new(RoLevel::Normal, handler).name(name).description(description).group("User")
}

/// Registers the user commands, in order: update, userinfo, botinfo,
/// support (alias invite), verify, reverify, and the owners' test command.
pub fn user_config(cmds: &mut Vec<Command>)
    ensures
        final(cmds)@.len() == old(cmds)@.len() + 7,
        forall|k: int| 0 <= k < old(cmds)@.len() ==> final(cmds)@[k] == old(cmds)@[k],
        ({
            let n = old(cmds)@.len() as int;
            let c = final(cmds)@;
            &&& registered_as(c[n], seq!["update"@], RoLevel::Normal, UPDATE_HANDLER)
            &&& registered_as(c[n + 1], seq!["userinfo"@], RoLevel::Normal, USERINFO_HANDLER)
            &&& registered_as(c[n + 2], seq!["botinfo"@], RoLevel::Normal, BOTINFO_HANDLER)
            &&& registered_as(c[n + 3], seq!["support"@, "invite"@], RoLevel::Normal, SUPPORT_HANDLER)
            &&& registered_as(c[n + 4], seq!["verify"@], RoLevel::Normal, VERIFY_HANDLER)
            &&& registered_as(c[n + 5], seq!["reverify"@], RoLevel::Normal, REVERIFY_HANDLER)
            &&& registered_as(c[n + 6], seq!["test"@], RoLevel::Creator, TEST_HANDLER)
        }),
{
    let update_cmd = user_command("update", "Command to update an user", UPDATE_HANDLER);
    let userinfo_cmd = user_command("userinfo", "Command to view information about an user", USERINFO_HANDLER);
    let botinfo_cmd = user_command("botinfo", "Command to view information about the bot", BOTINFO_HANDLER);
    let support_cmd = user_command("support", "View important links related to the bot", SUPPORT_HANDLER).name("invite");
    let verify_cmd = user_command(
        "verify",
        "Command to link a roblox account to your discord account",
        VERIFY_HANDLER,
    );
    let reverify_cmd = user_command(
        "reverify",
        "Command to re-link a roblox account to your discord account",
        REVERIFY_HANDLER,
    );
    let test_cmd = Command::new(RoLevel::Creator, TEST_HANDLER).name("test");
    cmds.push(update_cmd);
    cmds.push(userinfo_cmd);
    cmds.push(botinfo_cmd);
    cmds.push(support_cmd);
    cmds.push(verify_cmd);
    cmds.push(reverify_cmd);
    cmds.push(test_cmd);
}

} // verus!
