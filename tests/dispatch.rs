use rowifi_framework::arguments::Arguments;
use rowifi_framework::cache::{Cache, CachedGuild, CachedMember, CachedRole};
use rowifi_framework::command::Command;
use rowifi_framework::context::BotContext;
use rowifi_framework::detection::{detection_guilds, detection_targets, guild_member_ids};
use rowifi_framework::framework::{CommandOption, Framework, Interaction, Outcome, ServiceRequest};
use rowifi_framework::level::RoLevel;
use rowifi_framework::permission::{get_perm_level, run_checks};
use rowifi_framework::user_commands::{user_config, SUPPORT_HANDLER, TEST_HANDLER, UPDATE_HANDLER};

const GUILD: u64 = 10;
const CHANNEL: u64 = 20;
const OWNER: u64 = 1;
const MEMBER: u64 = 2;
const R1: u64 = 100;
const R2: u64 = 200;

fn member(user_id: u64, roles: Vec<u64>) -> CachedMember {
    CachedMember { user_id, roles, nick: None }
}

fn guild(admin_role: Option<u64>, trainer_role: Option<u64>) -> CachedGuild {
    CachedGuild { id: GUILD, owner_id: 999, admin_role, trainer_role }
}

fn bot_with(cache: Cache) -> BotContext {
    let mut bot = BotContext::new("!", "@Bot", "command-channel", cache);
    bot.add_owner(OWNER);
    bot
}

fn framework() -> Framework {
    let mut cache = Cache::new();
    cache.add_guild(guild(Some(R1), Some(R2)));
    cache.add_member(GUILD, member(MEMBER, vec![]));
    let bot = bot_with(cache);
    let parent = Command::new(RoLevel::Normal, 50)
        .name("parent")
        .sub_command(Command::new(RoLevel::Normal, 51).name("child"))
        .sub_command(Command::new(RoLevel::Normal, 52).name("other"));
    let admin = Command::new(RoLevel::Admin, 60).name("admin");
    let help = Command::new(RoLevel::Normal, 70).name("help");
    let mut cmds = Vec::new();
    user_config(&mut cmds);
    let mut f = Framework::new(bot);
    for c in cmds {
        f = f.command(c);
    }
    f.command(parent).command(admin).command(help)
}

fn dispatched(outcome: Outcome<'_>) -> Option<(usize, Arguments)> {
    match outcome {
        Outcome::Dispatched(c, ServiceRequest::Message(args)) => Some((c.handler, args)),
        _ => None,
    }
}

#[test]
fn test() {
    let mut args = Arguments::new("311395138133950465".into());
    let token = args.next().unwrap();
    assert_eq!(token.parse::<u64>().is_ok(), true);
    assert_eq!(token.parse::<u64>().unwrap(), 311395138133950465);
}

#[test]
fn tokenizer_splits_on_whitespace_and_pushes_back() {
    let mut args = Arguments::new("  one two\tthree ".to_string());
    assert_eq!(args.next().as_deref(), Some("one"));
    assert_eq!(args.next().as_deref(), Some("two"));
    args.back();
    assert_eq!(args.next().as_deref(), Some("two"));
    assert_eq!(args.rest_string(), "\tthree ");
    assert_eq!(args.next().as_deref(), Some("three"));
    assert_eq!(args.next(), None);
    let mut empty = Arguments::new(String::new());
    assert_eq!(empty.next(), None);
}

#[test]
fn no_prefix_is_no_op() {
    let f = framework();
    assert!(matches!(f.dispatch_message("update", Some(GUILD), CHANNEL, OWNER), Outcome::NoOp));
    assert!(matches!(f.dispatch_message("?update", Some(GUILD), CHANNEL, OWNER), Outcome::NoOp));
    assert!(matches!(f.dispatch_message("", Some(GUILD), CHANNEL, OWNER), Outcome::NoOp));
}

#[test]
fn prefixed_name_resolves_with_trailing_whitespace() {
    let f = framework();
    for text in ["!update", "!update   ", "   !update\t", "!invite"] {
        let (handler, _) = dispatched(f.dispatch_message(text, Some(GUILD), CHANNEL, OWNER)).unwrap();
        let expected = if text == "!invite" { SUPPORT_HANDLER } else { UPDATE_HANDLER };
        assert_eq!(handler, expected);
    }
}

#[test]
fn top_level_match_is_exact_case() {
    let f = framework();
    assert!(matches!(f.dispatch_message("!UPDATE", Some(GUILD), CHANNEL, OWNER), Outcome::NoOp));
}

#[test]
fn unknown_first_token_is_no_op() {
    let f = framework();
    assert!(matches!(f.dispatch_message("!nothing update", Some(GUILD), CHANNEL, OWNER), Outcome::NoOp));
}

#[test]
fn sub_command_match_ignores_case() {
    let f = framework();
    let (lower, _) = dispatched(f.dispatch_message("!parent child", Some(GUILD), CHANNEL, OWNER)).unwrap();
    let (upper, _) = dispatched(f.dispatch_message("!parent CHILD", Some(GUILD), CHANNEL, OWNER)).unwrap();
    let (mixed, _) = dispatched(f.dispatch_message("!parent ChIlD", Some(GUILD), CHANNEL, OWNER)).unwrap();
    assert_eq!(lower, 51);
    assert_eq!(upper, 51);
    assert_eq!(mixed, 51);
}

#[test]
fn unmatched_token_is_pushed_back() {
    let f = framework();
    let (handler, mut args) = dispatched(f.dispatch_message("!update someone x", Some(GUILD), CHANNEL, OWNER)).unwrap();
    assert_eq!(handler, UPDATE_HANDLER);
    assert_eq!(args.next().as_deref(), Some("someone"));
    assert_eq!(args.next().as_deref(), Some("x"));
}

#[test]
fn walk_ending_above_a_leaf_is_no_op() {
    let f = framework();
    assert!(matches!(f.dispatch_message("!parent", Some(GUILD), CHANNEL, OWNER), Outcome::NoOp));
    assert!(matches!(f.dispatch_message("!parent unknown x", Some(GUILD), CHANNEL, OWNER), Outcome::NoOp));
}

#[test]
fn leaf_token_is_consumed() {
    let f = framework();
    let (handler, mut args) = dispatched(f.dispatch_message("!parent other 42", Some(GUILD), CHANNEL, OWNER)).unwrap();
    assert_eq!(handler, 52);
    assert_eq!(args.next().as_deref(), Some("42"));
    assert_eq!(args.next(), None);
}

#[test]
fn leaf_top_level_keeps_arguments() {
    let f = framework();
    let (handler, mut args) = dispatched(f.dispatch_message("!update someone", Some(GUILD), CHANNEL, OWNER)).unwrap();
    assert_eq!(handler, UPDATE_HANDLER);
    assert_eq!(args.next().as_deref(), Some("someone"));
}

#[test]
fn bare_mention_gives_usage_hint() {
    let f = framework();
    match f.dispatch_message("@Bot", Some(GUILD), CHANNEL, MEMBER) {
        Outcome::UsageHint(p) => assert_eq!(p, "!"),
        _ => panic!("expected a usage hint"),
    }
    match f.dispatch_message("  @Bot  ", Some(GUILD), CHANNEL, MEMBER) {
        Outcome::UsageHint(p) => assert_eq!(p, "!"),
        _ => panic!("expected a usage hint"),
    }
}

#[test]
fn usage_hint_names_guild_prefix() {
    let mut f = framework();
    f.bot.set_prefix(GUILD, "r!");
    match f.dispatch_message("@Bot", Some(GUILD), CHANNEL, MEMBER) {
        Outcome::UsageHint(p) => assert_eq!(p, "r!"),
        _ => panic!("expected a usage hint"),
    }
    assert!(dispatched(f.dispatch_message("r!update", Some(GUILD), CHANNEL, OWNER)).is_some());
    assert!(matches!(f.dispatch_message("!update", Some(GUILD), CHANNEL, OWNER), Outcome::NoOp));
}

#[test]
fn bare_mention_outside_guild_or_in_disabled_channel_is_no_op() {
    let mut f = framework();
    assert!(matches!(f.dispatch_message("@Bot", None, CHANNEL, MEMBER), Outcome::NoOp));
    f.bot.disable_channel(CHANNEL);
    assert!(matches!(f.dispatch_message("@Bot", Some(GUILD), CHANNEL, MEMBER), Outcome::NoOp));
}

#[test]
fn mention_with_content_walks_the_tree() {
    let f = framework();
    let (handler, mut args) = dispatched(f.dispatch_message("@Bot help", Some(GUILD), CHANNEL, MEMBER)).unwrap();
    assert_eq!(handler, 70);
    assert_eq!(args.next(), None);
    assert_eq!(args.rest_string(), "");
}

#[test]
fn perm_level_admin_role() {
    let bot = bot_with(Cache::new());
    let g = guild(Some(R1), None);
    assert_eq!(get_perm_level(&bot, &g, &member(MEMBER, vec![R1])), RoLevel::Admin);
}

#[test]
fn perm_level_without_special_roles_is_normal() {
    let bot = bot_with(Cache::new());
    let g = guild(None, Some(R2));
    assert_eq!(get_perm_level(&bot, &g, &member(MEMBER, vec![300])), RoLevel::Normal);
}

#[test]
fn perm_level_rules_in_order() {
    let mut cache = Cache::new();
    cache.add_role(CachedRole { id: 400, permissions: 8 });
    cache.add_role(CachedRole { id: 401, permissions: 0xFFFF_FFFF_FFFF_FFF7 });
    let bot = bot_with(cache);
    let g = guild(Some(R1), Some(R2));
    assert_eq!(get_perm_level(&bot, &g, &member(OWNER, vec![])), RoLevel::Creator);
    assert_eq!(get_perm_level(&bot, &g, &member(999, vec![])), RoLevel::Admin);
    assert_eq!(get_perm_level(&bot, &g, &member(MEMBER, vec![400])), RoLevel::Admin);
    assert_eq!(get_perm_level(&bot, &g, &member(MEMBER, vec![401])), RoLevel::Normal);
    assert_eq!(get_perm_level(&bot, &g, &member(MEMBER, vec![401, R2])), RoLevel::Trainer);
    assert_eq!(get_perm_level(&bot, &g, &member(MEMBER, vec![R2, R1])), RoLevel::Admin);
}

#[test]
fn perm_level_is_repeatable() {
    let bot = bot_with(Cache::new());
    let g = guild(Some(R1), Some(R2));
    let m = member(MEMBER, vec![R2]);
    let first = get_perm_level(&bot, &g, &m);
    for _ in 0..5 {
        assert_eq!(get_perm_level(&bot, &g, &m), first);
    }
    assert_eq!(first, RoLevel::Trainer);
}

#[test]
fn authorization_is_monotonic_in_level() {
    let mut cache = Cache::new();
    cache.add_guild(guild(Some(R1), Some(R2)));
    cache.add_member(GUILD, member(MEMBER, vec![R2]));
    let bot = bot_with(cache);
    let levels = [RoLevel::Normal, RoLevel::Trainer, RoLevel::Admin, RoLevel::Creator];
    let allowed: Vec<bool> = levels
        .iter()
        .map(|l| run_checks(&bot, &Command::new(*l, 0).name("x"), Some(GUILD), CHANNEL, MEMBER))
        .collect();
    assert_eq!(allowed, vec![true, true, false, false]);
}

#[test]
fn owner_bypass_except_reserved_command_in_disabled_channel() {
    let mut bot = bot_with(Cache::new());
    let admin = Command::new(RoLevel::Creator, 0).name("x");
    let reserved = Command::new(RoLevel::Normal, 1).name("command-channel");
    assert!(run_checks(&bot, &admin, None, CHANNEL, OWNER));
    assert!(run_checks(&bot, &reserved, None, CHANNEL, OWNER));
    bot.disable_channel(CHANNEL);
    assert!(run_checks(&bot, &admin, None, CHANNEL, OWNER));
    assert!(!run_checks(&bot, &reserved, None, CHANNEL, OWNER));
    assert!(run_checks(&bot, &reserved, None, CHANNEL + 1, OWNER));
}

#[test]
fn cache_miss_denies() {
    let bot = bot_with(Cache::new());
    let cmd = Command::new(RoLevel::Normal, 0).name("x");
    assert!(!run_checks(&bot, &cmd, Some(GUILD), CHANNEL, MEMBER));
    assert!(!run_checks(&bot, &cmd, None, CHANNEL, MEMBER));
}

#[test]
fn level_gate_in_dispatch() {
    let f = framework();
    assert!(matches!(f.dispatch_message("!admin", Some(GUILD), CHANNEL, MEMBER), Outcome::NoOp));
    assert!(matches!(f.dispatch_message("!test", Some(GUILD), CHANNEL, MEMBER), Outcome::NoOp));
    let (handler, _) = dispatched(f.dispatch_message("!test", Some(GUILD), CHANNEL, OWNER)).unwrap();
    assert_eq!(handler, TEST_HANDLER);
    let (handler, _) = dispatched(f.dispatch_message("!update", Some(GUILD), CHANNEL, MEMBER)).unwrap();
    assert_eq!(handler, UPDATE_HANDLER);
}

#[test]
fn interaction_descends_into_leaf_option() {
    let f = framework();
    let value = CommandOption::Integer { name: "n".to_string(), value: 5 };
    let interaction = Interaction {
        command_name: "parent".to_string(),
        options: vec![
            CommandOption::Boolean { name: "b".to_string(), value: true },
            CommandOption::Subcommand { name: "other".to_string(), options: vec![value] },
        ],
        guild_id: GUILD,
        channel_id: CHANNEL,
        user_id: MEMBER,
    };
    match f.dispatch_interaction(interaction) {
        Outcome::Dispatched(c, ServiceRequest::Interaction(opts)) => {
            assert_eq!(c.handler, 52);
            assert_eq!(opts.len(), 1);
            assert!(matches!(opts[0], CommandOption::Integer { value: 5, .. }));
        },
        _ => panic!("expected a dispatch"),
    }
}

#[test]
fn interaction_must_reach_a_leaf() {
    let f = framework();
    let interaction = Interaction {
        command_name: "parent".to_string(),
        options: vec![CommandOption::Text { name: "t".to_string(), value: "v".to_string() }],
        guild_id: GUILD,
        channel_id: CHANNEL,
        user_id: MEMBER,
    };
    assert!(matches!(f.dispatch_interaction(interaction), Outcome::NoOp));
    let leaf = Interaction {
        command_name: "update".to_string(),
        options: vec![CommandOption::Text { name: "t".to_string(), value: "v".to_string() }],
        guild_id: GUILD,
        channel_id: CHANNEL,
        user_id: MEMBER,
    };
    match f.dispatch_interaction(leaf) {
        Outcome::Dispatched(c, ServiceRequest::Interaction(opts)) => {
            assert_eq!(c.handler, UPDATE_HANDLER);
            assert_eq!(opts.len(), 1);
        },
        _ => panic!("expected a dispatch"),
    }
    let unknown = Interaction {
        command_name: "nothing".to_string(),
        options: vec![],
        guild_id: GUILD,
        channel_id: CHANNEL,
        user_id: MEMBER,
    };
    assert!(matches!(f.dispatch_interaction(unknown), Outcome::NoOp));
}

#[test]
fn framework_is_always_ready() {
    assert!(framework().poll_ready());
}

#[test]
fn user_config_registers_commands() {
    let mut cmds = Vec::new();
    user_config(&mut cmds);
    assert_eq!(cmds.len(), 7);
    assert_eq!(cmds[3].names, vec!["support".chars().collect::<Vec<char>>(), "invite".chars().collect()]);
    assert_eq!(cmds[6].level, RoLevel::Creator);
    assert_eq!(cmds[0].level, RoLevel::Normal);
}

#[test]
fn member_comparison_and_bypass() {
    let m = CachedMember { user_id: 5, roles: vec![1, 2], nick: Some("nick".to_string()) };
    assert!(m.matches_member(&vec![1, 2], &Some("nick".to_string())));
    assert!(!m.matches_member(&vec![2, 1], &Some("nick".to_string())));
    assert!(!m.matches_member(&vec![1, 2], &None));
    assert!(m.bypasses_detection(Some(2)));
    assert!(!m.bypasses_detection(Some(3)));
    assert!(!m.bypasses_detection(None));
}

#[test]
fn detection_skips_bypass_and_unknown_members() {
    let mut cache = Cache::new();
    cache.add_guild(guild(None, None));
    cache.add_member(GUILD, member(1, vec![7]));
    cache.add_member(GUILD, member(2, vec![8]));
    cache.add_member(GUILD + 1, member(3, vec![]));
    cache.add_member(GUILD, member(4, vec![]));
    let users = vec![4, 3, 2, 1, 9];
    assert_eq!(detection_targets(&cache, GUILD, &users, Some(7)), vec![4, 2]);
    assert_eq!(detection_targets(&cache, GUILD, &users, None), vec![4, 2, 1]);
}

#[test]
fn detection_visits_cached_guilds_in_order() {
    let mut cache = Cache::new();
    cache.add_guild(CachedGuild { id: 30, owner_id: 0, admin_role: None, trainer_role: None });
    cache.add_guild(CachedGuild { id: 5, owner_id: 0, admin_role: None, trainer_role: None });
    assert_eq!(detection_guilds(&cache, vec![30, 12, 5, 30]), vec![5, 30, 30]);
    assert_eq!(detection_guilds(&cache, vec![]), Vec::<u64>::new());
}

#[test]
fn member_ids_of_guild() {
    let mut cache = Cache::new();
    cache.add_member(GUILD, member(1, vec![]));
    cache.add_member(GUILD + 1, member(2, vec![]));
    cache.add_member(GUILD, member(3, vec![]));
    assert_eq!(guild_member_ids(&cache, GUILD), vec![1, 3]);
    assert_eq!(guild_member_ids(&cache, GUILD + 2), Vec::<u64>::new());
}

#[test]
fn sub_command_keys_are_lowercase_names() {
    let mut cache = Cache::new();
    cache.add_guild(guild(None, None));
    let bot = bot_with(cache);
    let parent = Command::new(RoLevel::Normal, 1)
        .name("parent")
        .sub_command(Command::new(RoLevel::Normal, 2).name("Mixed"));
    let f = Framework::new(bot).command(parent);
    let (handler, _) = dispatched(f.dispatch_message("!parent MIXED", Some(GUILD), CHANNEL, OWNER)).unwrap();
    assert_eq!(handler, 2);
    let keyed = |name: &str| Interaction {
        command_name: "parent".to_string(),
        options: vec![CommandOption::Subcommand { name: name.to_string(), options: vec![] }],
        guild_id: GUILD,
        channel_id: CHANNEL,
        user_id: OWNER,
    };
    match f.dispatch_interaction(keyed("mixed")) {
        Outcome::Dispatched(c, _) => assert_eq!(c.handler, 2),
        _ => panic!("expected a dispatch"),
    }
    assert!(matches!(f.dispatch_interaction(keyed("Mixed")), Outcome::NoOp));
}
