use vstd::prelude::*;
use crate::arguments::Arguments;
use crate::command::{
    child_index, find_top, has_name, keyed_child_index, last_named, lemma_keyed_child_index_range,
    lemma_last_named_range, resolve, resolve_text, Command,
};
use crate::context::BotContext;
use crate::permission::{authorized, run_checks};
use crate::text::{
    chars_of, is_white, lemma_skip_ws_run, lemma_token_end_run, skip_whitespace_from, skip_ws, starts_with, stream_skip_whitespace,
    string_from_chars, tail, token_end, trim_start,
};

verus! {

/// How a message opened the command system.
#[derive(Clone, Copy, Debug, PartialEq, Eq, Structural)]
pub enum PrefixType {
    Mention,
    Text,
}

/// An option of an interaction; a sub-command option nests its own options.
#[allow(inconsistent_fields)]
pub enum CommandOption {
    Subcommand { name: String, options: Vec<CommandOption> },
    Text { name: String, value: String },
    Integer { name: String, value: i64 },
    Boolean { name: String, value: bool },
    /// A user, role, channel or attachment, by id.
    Id { name: String, value: u64 },
}

/// A structured command invocation.
pub struct Interaction {
    pub command_name: String,
    pub options: Vec<CommandOption>,
    pub guild_id: u64,
    pub channel_id: u64,
    pub user_id: u64,
}

/// What a resolved command's handler receives.
pub enum ServiceRequest {
    /// The tokens that the tree walk did not consume.
    Message(Arguments),
    /// The options under the resolved command.
    Interaction(Vec<CommandOption>),
}

/// The result of dispatching one event.
pub enum Outcome<'a> {
    /// Not a command, or not one that may run here: nothing to do.
    NoOp,
    /// A bare mention: the caller should reply with the active prefix.
    UsageHint(String),
    /// Run this command's handler with this request.
    Dispatched(&'a Command, ServiceRequest),
}

/// What dispatching a message amounts to, in the model.
pub ghost enum MessageRoute {
    NoOp,
    UsageHint(Seq<char>),
    Run(Command, Seq<char>, int),
}

/// What dispatching an interaction amounts to, in the model.
pub ghost enum InteractionRoute {
    NoOp,
    Run(Command, Seq<CommandOption>),
}

/// Which prefix, if any, opens `s`, and where the rest starts.
pub open spec fn find_prefix(bot: BotContext, s: Seq<char>, guild: Option<u64>) -> Option<(PrefixType, int)> {
    let m = bot.mention@;
    let p = bot.active_prefix(guild);
    if 0 < m.len() <= s.len() && s.subrange(0, m.len() as int) == m {
        Some((PrefixType::Mention, skip_ws(s, m.len() as int)))
    } else if p.len() <= s.len() && s.subrange(0, p.len() as int) == p {
        Some((PrefixType::Text, p.len() as int))
    } else {
        None
    }
}

/// The route of the text `rest` that follows a prefix: the command it walks
/// to runs where it is a leaf and its author is authorized.
pub open spec fn walk_route(
    cmds: Seq<Command>,
    bot: BotContext,
    rest: Seq<char>,
    guild: Option<u64>,
    channel: u64,
    author: u64,
) -> MessageRoute {
    match resolve(cmds, rest) {
        None => MessageRoute::NoOp,
        Some((c, p)) => if c.sub_commands@.len() == 0 && authorized(bot, c, guild, channel, author) {
            MessageRoute::Run(c, rest, p)
        } else {
            MessageRoute::NoOp
        },
    }
}

/// The route of a message with text `content`. Only a leaf command runs: a
/// walk that stops at a command with sub-commands runs nothing.
pub open spec fn message_route(
    cmds: Seq<Command>,
    bot: BotContext,
    content: Seq<char>,
    guild: Option<u64>,
    channel: u64,
    author: u64,
) -> MessageRoute {
    let s = trim_start(content);
    match find_prefix(bot, s, guild) {
        None => MessageRoute::NoOp,
        Some((kind, start)) => {
            if kind == PrefixType::Mention && guild is Some && start == s.len()
                && !bot.disabled_channels@.contains(channel) {
                MessageRoute::UsageHint(bot.active_prefix(guild))
            } else {
                walk_route(cmds, bot, s.subrange(start, s.len() as int), guild, channel, author)
            }
        },
    }
}

/// The leaf sub-command of `c` that option `o` selects, if any.
pub open spec fn leaf_choice(c: Command, o: CommandOption) -> Option<int> {
    match o {
        CommandOption::Subcommand { name, options } => match keyed_child_index(c.sub_commands@, name@, 0) {
            Some(j) => if c.sub_commands@[j].sub_commands@.len() == 0 {
                Some(j)
            } else {
                None
            },
            None => None,
        },
        _ => None,
    }
}

/// The first option at or after `k` that selects a leaf sub-command of `c`.
pub open spec fn leaf_option(c: Command, opts: Seq<CommandOption>, k: int) -> Option<int>
    decreases opts.len() - k,
{
    if k < 0 || k >= opts.len() {
        None
    } else if leaf_choice(c, opts[k]) is Some {
        Some(k)
    } else {
        leaf_option(c, opts, k + 1)
    }
}

/// The options nested under a sub-command option.
pub open spec fn nested_options(o: CommandOption) -> Seq<CommandOption> {
    match o {
        CommandOption::Subcommand { name, options } => options@,
        _ => Seq::empty(),
    }
}

/// The leaf command an interaction resolves to, with the options handed to
/// it; `None` where the name matches no command or no leaf is reached.
pub open spec fn interaction_target(cmds: Seq<Command>, i: Interaction) -> Option<(Command, Seq<CommandOption>)> {
    match last_named(cmds, i.command_name@, cmds.len() as int) {
        None => None,
        Some(t) => {
            let top = cmds[t];
            match leaf_option(top, i.options@, 0) {
                Some(k) => Some((top.sub_commands@[leaf_choice(top, i.options@[k])->0], nested_options(i.options@[k]))),
                None => if top.sub_commands@.len() == 0 {
                    Some((top, i.options@))
                } else {
                    None
                },
            }
        },
    }
}

/// The route of an interaction.
pub open spec fn interaction_route(cmds: Seq<Command>, bot: BotContext, i: Interaction) -> InteractionRoute {
    match interaction_target(cmds, i) {
        None => InteractionRoute::NoOp,
        Some((c, opts)) => if authorized(bot, c, Some(i.guild_id), i.channel_id, i.user_id) {
            InteractionRoute::Run(c, opts)
        } else {
            InteractionRoute::NoOp
        },
    }
}

/// A message that no prefix opens is no command: nothing runs.
pub proof fn lemma_no_prefix_no_op(
    cmds: Seq<Command>,
    bot: BotContext,
    content: Seq<char>,
    guild: Option<u64>,
    channel: u64,
    author: u64,
)
    requires
        find_prefix(bot, trim_start(content), guild) is None,
    ensures
        message_route(cmds, bot, content, guild, channel, author) == MessageRoute::NoOp,
{
}

proof fn lemma_last_named_is(cmds: Seq<Command>, tok: Seq<char>, i: int, n: int)
    requires
        0 <= i < n <= cmds.len(),
        has_name(cmds[i], tok),
        forall|j: int| i < j < n ==> !has_name(#[trigger] cmds[j], tok),
    ensures
        last_named(cmds, tok, n) == Some(i),
    decreases n,
{
    if n - 1 > i {
        lemma_last_named_is(cmds, tok, i, n - 1);
    }
}

/// The active prefix followed by a registered top-level name, and then only
/// whitespace, resolves that command when it has no sub-commands: it runs
/// where its author is authorized, and nothing runs otherwise. The name is
/// the last registration of it, the prefix does not begin with whitespace,
/// and the bot's mention does not open the text.
pub proof fn lemma_prefixed_name_resolves(
    cmds: Seq<Command>,
    bot: BotContext,
    guild: Option<u64>,
    channel: u64,
    author: u64,
    i: int,
    name: Seq<char>,
    trailing: Seq<char>,
)
    requires
        0 <= i < cmds.len(),
        has_name(cmds[i], name),
        forall|j: int| i < j < cmds.len() ==> !has_name(#[trigger] cmds[j], name),
        cmds[i].sub_commands@.len() == 0,
        name.len() > 0,
        forall|k: int| 0 <= k < name.len() ==> !is_white(#[trigger] name[k]),
        forall|k: int| 0 <= k < trailing.len() ==> is_white(#[trigger] trailing[k]),
        bot.active_prefix(guild).len() > 0,
        !is_white(bot.active_prefix(guild)[0]),
        !({
            let s = bot.active_prefix(guild) + name + trailing;
            let m = bot.mention@;
            0 < m.len() <= s.len() && s.subrange(0, m.len() as int) == m
        }),
    ensures
        message_route(cmds, bot, bot.active_prefix(guild) + name + trailing, guild, channel, author) == if authorized(
            bot,
            cmds[i],
            guild,
            channel,
            author,
        ) {
            MessageRoute::Run(cmds[i], name + trailing, name.len() as int)
        } else {
            MessageRoute::NoOp
        },
{
    let p = bot.active_prefix(guild);
    let s = p + name + trailing;
    let r = name + trailing;
    assert(s[0] == p[0]);
    assert(skip_ws(s, 0) == 0);
    assert(trim_start(s) =~= s);
    assert(s.subrange(0, p.len() as int) =~= p);
    assert(find_prefix(bot, s, guild) == Some((PrefixType::Text, p.len() as int)));
    assert(s.subrange(p.len() as int, s.len() as int) =~= r);
    assert(r[0] == name[0]);
    assert(skip_ws(r, 0) == 0);
    assert forall|k: int| 0 <= k < name.len() implies !is_white(#[trigger] r[k]) by {
        assert(r[k] == name[k]);
    }
    if trailing.len() > 0 {
        assert(r[name.len() as int] == trailing[0]);
    }
    lemma_token_end_run(r, 0, name.len() as int);
    assert(token_end(r, 0) == name.len());
    assert(r.subrange(0, name.len() as int) =~= name);
    lemma_last_named_is(cmds, name, i, cmds.len() as int);
    assert(child_index(cmds[i].sub_commands@, r.subrange(skip_ws(r, name.len() as int), token_end(r, skip_ws(r, name.len() as int))), 0) is None);
    assert(resolve(cmds, r) == Some((cmds[i], name.len() as int)));
}

/// A message that holds the bot's mention and nothing else, in a guild
/// channel that is not disabled, asks for the usage hint with the active
/// prefix. The mention does not begin with whitespace.
pub proof fn lemma_bare_mention_hint(
    cmds: Seq<Command>,
    bot: BotContext,
    trailing: Seq<char>,
    guild: Option<u64>,
    channel: u64,
    author: u64,
)
    requires
        bot.mention@.len() > 0,
        !is_white(bot.mention@[0]),
        forall|k: int| 0 <= k < trailing.len() ==> is_white(#[trigger] trailing[k]),
        guild is Some,
        !bot.disabled_channels@.contains(channel),
    ensures
        message_route(cmds, bot, bot.mention@ + trailing, guild, channel, author) == MessageRoute::UsageHint(
            bot.active_prefix(guild),
        ),
{
    let m = bot.mention@;
    let s = m + trailing;
    assert(s[0] == m[0]);
    assert(skip_ws(s, 0) == 0);
    assert(trim_start(s) =~= s);
    assert(s.subrange(0, m.len() as int) =~= m);
    assert forall|k: int| m.len() <= k < s.len() implies is_white(#[trigger] s[k]) by {
        assert(s[k] == trailing[k - m.len()]);
    }
    lemma_skip_ws_run(s, m.len() as int, s.len() as int);
}

/// A message that opens with the bot's mention and goes on, after
/// whitespace, with more text is walked as that text: the same route as the
/// text after a configured prefix. The mention does not begin with
/// whitespace.
pub proof fn lemma_mention_then_text(
    cmds: Seq<Command>,
    bot: BotContext,
    gap: Seq<char>,
    rest: Seq<char>,
    guild: Option<u64>,
    channel: u64,
    author: u64,
)
    requires
        bot.mention@.len() > 0,
        !is_white(bot.mention@[0]),
        forall|k: int| 0 <= k < gap.len() ==> is_white(#[trigger] gap[k]),
        rest.len() > 0,
        !is_white(rest[0]),
    ensures
        message_route(cmds, bot, bot.mention@ + gap + rest, guild, channel, author) == walk_route(
            cmds,
            bot,
            rest,
            guild,
            channel,
            author,
        ),
{
    let m = bot.mention@;
    let s = m + gap + rest;
    let j = (m.len() + gap.len()) as int;
    assert(s[0] == m[0]);
    assert(skip_ws(s, 0) == 0);
    assert(trim_start(s) =~= s);
    assert(s.subrange(0, m.len() as int) =~= m);
    assert forall|k: int| m.len() <= k < j implies is_white(#[trigger] s[k]) by {
        assert(s[k] == gap[k - m.len()]);
    }
    assert(s[j] == rest[0]);
    lemma_skip_ws_run(s, m.len() as int, j);
    assert(s.subrange(j, s.len() as int) =~= rest);
}

/// Routes chat events to registered commands.
pub struct Framework {
    pub bot: BotContext,
    pub cmds: Vec<Command>,
}

impl Framework {
    pub fn new(bot: BotContext) -> (r: Framework)
        ensures
            r.bot == bot,
            r.cmds@.len() == 0,
    {
        Framework { bot, cmds: Vec::new() }
    }

    /// Registers a top-level command.
    pub fn command(self, cmd: Command) -> (r: Framework)
        ensures
            r.bot == self.bot,
            r.cmds@ == self.cmds@.push(cmd),
    {
        let mut f = self;
        f.cmds.push(cmd);
        f
    }

    /// Whether the framework can take an event now; it always can.
    pub fn poll_ready(&self) -> (r: bool)
        ensures
            r,
    {
        true
    }

    /// Which prefix, if any, opens `s`, and where the rest starts.
    pub fn prefix_of(&self, s: &Vec<char>, guild: Option<u64>) -> (r: Option<(PrefixType, usize)>)
        ensures
            match find_prefix(self.bot, s@, guild) {
                None => r is None,
                Some((kind, start)) => r == Some((kind, start as usize)) && 0 <= start <= s@.len(),
            },
    {
        let m = &self.bot.mention;
        if m.len() > 0 && starts_with(s.as_slice(), m.as_slice()) {
            let start = skip_whitespace_from(s.as_slice(), m.len());
            return Some((PrefixType::Mention, start));
        }
        let p = self.bot.prefix_for(guild);
        if starts_with(s.as_slice(), p.as_slice()) {
            return Some((PrefixType::Text, p.len()));
        }
        None
    }

    /// Dispatches a message: prefix, tree walk, then authorization.
    pub fn dispatch_message(&self, content: &str, guild_id: Option<u64>, channel_id: u64, author: u64) -> (r: Outcome<'_>)
        ensures
            match message_route(self.cmds@, self.bot, content@, guild_id, channel_id, author) {
                MessageRoute::NoOp => r is NoOp,
                MessageRoute::UsageHint(p) => r matches Outcome::UsageHint(h) && h@ == p,
                MessageRoute::Run(c, rest, p) => r matches Outcome::Dispatched(cmd, ServiceRequest::Message(args))
                    && *cmd == c && args.wf() && args.text() == rest && args.pos() == p,
            },
    {
        let s = chars_of(stream_skip_whitespace(content));
        let (kind, start) = match self.prefix_of(&s, guild_id) {
            Some(found) => found,
            None => return Outcome::NoOp,
        };
        if kind == PrefixType::Mention && guild_id.is_some() && start == s.len()
            && !self.bot.is_disabled(channel_id) {
            let p = self.bot.prefix_for(guild_id);
            return Outcome::UsageHint(string_from_chars(p.as_slice()));
        }
        let mut args = Arguments::from_chars(tail(s.as_slice(), start));
        let cmd = match resolve_text(&self.cmds, &mut args) {
            Some(c) => c,
            None => return Outcome::NoOp,
        };
        if cmd.sub_commands.len() > 0 {
            return Outcome::NoOp;
        }
        if !run_checks(&self.bot, cmd, guild_id, channel_id, author) {
            return Outcome::NoOp;
        }
        Outcome::Dispatched(cmd, ServiceRequest::Message(args))
    }

    /// Dispatches an interaction: tree walk over its options, then authorization.
    pub fn dispatch_interaction(&self, interaction: Interaction) -> (r: Outcome<'_>)
        ensures
            match interaction_route(self.cmds@, self.bot, interaction) {
                InteractionRoute::NoOp => r is NoOp,
                InteractionRoute::Run(c, opts) => r matches Outcome::Dispatched(cmd, ServiceRequest::Interaction(o))
                    && *cmd == c && o@ == opts,
            },
    {
        let ghost inter = interaction;
        let Interaction { command_name, options, guild_id, channel_id, user_id } = interaction;
        let name = chars_of(command_name.as_str());
        let t = match find_top(&self.cmds, name.as_slice()) {
            Some(t) => t,
            None => return Outcome::NoOp,
        };
        proof {
            lemma_last_named_range(self.cmds@, name@, self.cmds@.len() as int);
        }
        let top = &self.cmds[t];
        let mut options = options;
        let mut k: usize = 0;
        let mut chosen: Option<usize> = None;
        while k < options.len()
            invariant_except_break
                chosen is None,
            invariant
                options@ == inter.options@,
                k <= options@.len(),
                leaf_option(*top, options@, 0) == leaf_option(*top, options@, k as int),
            ensures
                match chosen {
                    Some(j) => k < options@.len() && leaf_option(*top, options@, 0) == Some(k as int)
                        && leaf_choice(*top, options@[k as int]) == Some(j as int),
                    None => leaf_option(*top, options@, 0) is None,
                },
            decreases options.len() - k,
        {
            if let CommandOption::Subcommand { name, options: _ } = &options[k] {
                let sub_name = chars_of(name.as_str());
                if let Some(j) = top.find_keyed_child(sub_name.as_slice()) {
                    proof {
                        lemma_keyed_child_index_range(top.sub_commands@, sub_name@, 0);
                    }
                    if top.sub_commands[j].sub_commands.len() == 0 {
                        chosen = Some(j);
                        break;
                    }
                }
            }
            k = k + 1;
        }
        let (cmd, opts) = match chosen {
            Some(j) => {
                proof {
                    if let CommandOption::Subcommand { name, options: _ } = options@[k as int] {
                        lemma_keyed_child_index_range(top.sub_commands@, name@, 0);
                    }
                }
                let o = options.remove(k);
                let nested = match o {
                    CommandOption::Subcommand { name: _, options: inner } => inner,
                    _ => Vec::new(),
                };
                (&top.sub_commands[j], nested)
            },
            None => {
                if top.sub_commands.len() > 0 {
                    return Outcome::NoOp;
                }
                (top, options)
            },
        };
        if !run_checks(&self.bot, cmd, Some(guild_id), channel_id, user_id) {
            return Outcome::NoOp;
        }
        Outcome::Dispatched(cmd, ServiceRequest::Interaction(opts))
    }
}

} // verus!
