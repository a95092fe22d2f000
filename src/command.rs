use vstd::prelude::*;
use crate::arguments::Arguments;
use crate::level::RoLevel;
use crate::text::{
    chars_equal, chars_of, equal_ignoring_case, lemma_same_lower_same_shape, lemma_same_shape_bounds,
    lemma_skip_ws_bounds, lemma_token_end_bounds, lower_code, lowercase_equals, lowers_to, same_lower, skip_ws,
    token_end,
};

verus! {

/// A registered command: its aliases, the level it requires, and its
/// sub-commands. A command without sub-commands is a leaf; only leaves run.
pub struct Command {
    pub names: Vec<Vec<char>>,
    pub level: RoLevel,
    pub description: String,
    pub group: String,
    /// The index of the handler that runs this command, in the caller's table.
    pub handler: usize,
    /// The children, each kept under its names lower-cased. Where two
    /// children share a key, the one registered first is found.
    pub sub_commands: Vec<Command>,
}

/// Whether one of `c`'s names is exactly `tok`.
pub open spec fn has_name(c: Command, tok: Seq<char>) -> bool {
    exists|k: int| 0 <= k < c.names@.len() && #[trigger] c.names@[k]@ == tok
}

/// Whether `tok` is one of `c`'s names up to ASCII case: `c` is found under
/// the lower-cased token among its parent's lower-cased names.
pub open spec fn has_name_lower(c: Command, tok: Seq<char>) -> bool {
    exists|k: int| 0 <= k < c.names@.len() && same_lower(tok, #[trigger] c.names@[k]@)
}

/// Whether `key` is one of `c`'s names, lower-cased.
pub open spec fn has_key(c: Command, key: Seq<char>) -> bool {
    exists|k: int| 0 <= k < c.names@.len() && lowers_to(#[trigger] c.names@[k]@, key)
}

/// The first sub-command at or after `i` that is kept under `key`.
pub open spec fn keyed_child_index(subs: Seq<Command>, key: Seq<char>, i: int) -> Option<int>
    decreases subs.len() - i,
{
    if i < 0 || i >= subs.len() {
        None
    } else if has_key(subs[i], key) {
        Some(i)
    } else {
        keyed_child_index(subs, key, i + 1)
    }
}

pub proof fn lemma_keyed_child_index_range(subs: Seq<Command>, key: Seq<char>, i: int)
    requires
        0 <= i,
    ensures
        match keyed_child_index(subs, key, i) {
            Some(j) => i <= j < subs.len(),
            None => true,
        },
    decreases subs.len() - i,
{
    if 0 <= i < subs.len() && !has_key(subs[i], key) {
        lemma_keyed_child_index_range(subs, key, i + 1);
    }
}

/// The last command before index `n` that has the name `tok` exactly.
pub open spec fn last_named(cmds: Seq<Command>, tok: Seq<char>, n: int) -> Option<int>
    decreases n,
{
    if n <= 0 || n > cmds.len() {
        None
    } else if has_name(cmds[n - 1], tok) {
        Some(n - 1)
    } else {
        last_named(cmds, tok, n - 1)
    }
}

/// The first sub-command at or after `i` that `tok` names, ignoring ASCII case.
pub open spec fn child_index(subs: Seq<Command>, tok: Seq<char>, i: int) -> Option<int>
    decreases subs.len() - i,
{
    if i < 0 || i >= subs.len() {
        None
    } else if has_name_lower(subs[i], tok) {
        Some(i)
    } else {
        child_index(subs, tok, i + 1)
    }
}

/// Walks down from `c` over the tokens of `s` from `pos`: the command reached
/// and where its arguments start. An unmatched token is left for the handler.
pub open spec fn descend(c: Command, s: Seq<char>, pos: int) -> (Command, int)
    decreases s.len() - pos,
{
    let a = skip_ws(s, pos);
    let e = token_end(s, a);
    if !(0 <= pos && a < s.len() && pos < e <= s.len()) {
        (c, pos)
    } else {
        match child_index(c.sub_commands@, s.subrange(a, e), 0) {
            None => (c, pos),
            Some(i) => {
                let child = c.sub_commands@[i];
                if child.sub_commands@.len() == 0 {
                    (child, e)
                } else {
                    descend(child, s, e)
                }
            },
        }
    }
}

/// The command that the text `s` invokes among `cmds`, with where its
/// arguments start. Only the first token is tried as a top-level name, on
/// purpose: where it names no command the text is no command, and later
/// tokens are not tried in its place.
pub open spec fn resolve(cmds: Seq<Command>, s: Seq<char>) -> Option<(Command, int)> {
    let a = skip_ws(s, 0);
    let e = token_end(s, a);
    if !(a < s.len() && 0 < e <= s.len()) {
        None
    } else {
        match last_named(cmds, s.subrange(a, e), cmds.len() as int) {
            None => None,
            Some(i) => Some(descend(cmds[i], s, e)),
        }
    }
}

pub proof fn lemma_last_named_range(cmds: Seq<Command>, tok: Seq<char>, n: int)
    ensures
        match last_named(cmds, tok, n) {
            Some(i) => 0 <= i < n && i < cmds.len() && has_name(cmds[i], tok),
            None => true,
        },
    decreases n,
{
    if 0 < n <= cmds.len() && !has_name(cmds[n - 1], tok) {
        lemma_last_named_range(cmds, tok, n - 1);
    }
}

pub proof fn lemma_child_index_range(subs: Seq<Command>, tok: Seq<char>, i: int)
    requires
        0 <= i,
    ensures
        match child_index(subs, tok, i) {
            Some(j) => i <= j < subs.len() && 0 <= j && has_name_lower(subs[j], tok),
            None => forall|j: int| i <= j < subs.len() ==> !has_name_lower(#[trigger] subs[j], tok),
        },
    decreases subs.len() - i,
{
    if 0 <= i < subs.len() && !has_name_lower(subs[i], tok) {
        lemma_child_index_range(subs, tok, i + 1);
    }
}

/// Where the walk stops because a token names no sub-command, that token is
/// the first one left for the handler: the walk never consumes it.
pub proof fn lemma_unmatched_token_kept(c: Command, s: Seq<char>, pos: int)
    requires
        0 <= pos <= s.len(),
    ensures
        ({
            let (d, p) = descend(c, s, pos);
            let a = skip_ws(s, p);
            let e = token_end(s, a);
            &&& pos <= p <= s.len()
            &&& (a < s.len() && d.sub_commands@.len() > 0) ==> child_index(d.sub_commands@, s.subrange(a, e), 0) is None
        }),
    decreases s.len() - pos,
{
    let a = skip_ws(s, pos);
    lemma_skip_ws_bounds(s, pos);
    lemma_token_end_bounds(s, a);
    let e = token_end(s, a);
    if a < s.len() {
        match child_index(c.sub_commands@, s.subrange(a, e), 0) {
            None => {},
            Some(i) => {
                lemma_child_index_range(c.sub_commands@, s.subrange(a, e), 0);
                let child = c.sub_commands@[i];
                if child.sub_commands@.len() != 0 {
                    lemma_unmatched_token_kept(child, s, e);
                }
            },
        }
    }
}

proof fn lemma_child_index_same_lower(subs: Seq<Command>, t1: Seq<char>, t2: Seq<char>, i: int)
    requires
        same_lower(t1, t2),
    ensures
        child_index(subs, t1, i) == child_index(subs, t2, i),
    decreases subs.len() - i,
{
    if 0 <= i < subs.len() {
        assert(has_name_lower(subs[i], t1) == has_name_lower(subs[i], t2)) by {
            assert forall|k: int| 0 <= k < subs[i].names@.len() implies same_lower(t1, #[trigger] subs[i].names@[k]@)
                == same_lower(t2, subs[i].names@[k]@) by {
                let n = subs[i].names@[k]@;
                if same_lower(t1, n) {
                    assert forall|m: int| 0 <= m < t2.len() implies lower_code(#[trigger] t2[m]) == lower_code(n[m]) by {
                        assert(lower_code(t1[m]) == lower_code(t2[m]));
                    }
                }
                if same_lower(t2, n) {
                    assert forall|m: int| 0 <= m < t1.len() implies lower_code(#[trigger] t1[m]) == lower_code(n[m]) by {
                        assert(lower_code(t1[m]) == lower_code(t2[m]));
                    }
                }
            }
        }
        lemma_child_index_same_lower(subs, t1, t2, i + 1);
    }
}

/// Sub-command names match regardless of ASCII case: two texts that differ
/// only in the case of their letters walk down to the same command and stop
/// at the same place.
pub proof fn lemma_descend_ignores_case(c: Command, s1: Seq<char>, s2: Seq<char>, pos: int)
    requires
        same_lower(s1, s2),
    ensures
        descend(c, s1, pos) == descend(c, s2, pos),
    decreases s1.len() - pos,
{
    lemma_same_lower_same_shape(s1, s2);
    lemma_same_shape_bounds(s1, s2, pos);
    let a = skip_ws(s1, pos);
    lemma_same_shape_bounds(s1, s2, a);
    let e = token_end(s1, a);
    if 0 <= pos && a < s1.len() && pos < e <= s1.len() {
        lemma_skip_ws_bounds(s1, pos);
        lemma_token_end_bounds(s1, a);
        let t1 = s1.subrange(a, e);
        let t2 = s2.subrange(a, e);
        assert(same_lower(t1, t2)) by {
            assert forall|k: int| 0 <= k < t1.len() implies lower_code(#[trigger] t1[k]) == lower_code(t2[k]) by {
                assert(t1[k] == s1[a + k] && t2[k] == s2[a + k]);
            }
        }
        lemma_child_index_same_lower(c.sub_commands@, t1, t2, 0);
        match child_index(c.sub_commands@, t1, 0) {
            None => {},
            Some(i) => {
                let child = c.sub_commands@[i];
                if child.sub_commands@.len() != 0 {
                    lemma_descend_ignores_case(child, s1, s2, e);
                }
            },
        }
    }
}

/// Two texts whose first token is the same and which differ elsewhere only in
/// the case of their letters resolve alike: the top-level name is matched
/// exactly, sub-command names regardless of case.
pub proof fn lemma_resolve_ignores_subcommand_case(cmds: Seq<Command>, s1: Seq<char>, s2: Seq<char>)
    requires
        same_lower(s1, s2),
        s1.subrange(0, token_end(s1, skip_ws(s1, 0))) == s2.subrange(0, token_end(s1, skip_ws(s1, 0))),
    ensures
        resolve(cmds, s1) == resolve(cmds, s2),
{
    lemma_same_lower_same_shape(s1, s2);
    lemma_same_shape_bounds(s1, s2, 0);
    let a = skip_ws(s1, 0);
    lemma_same_shape_bounds(s1, s2, a);
    let e = token_end(s1, a);
    lemma_skip_ws_bounds(s1, 0);
    lemma_token_end_bounds(s1, a);
    if a < s1.len() && 0 < e <= s1.len() {
        assert(s1.subrange(a, e) == s2.subrange(a, e)) by {
            assert(s1.subrange(a, e) =~= s1.subrange(0, e).subrange(a, e));
            assert(s2.subrange(a, e) =~= s2.subrange(0, e).subrange(a, e));
        }
        match last_named(cmds, s1.subrange(a, e), cmds.len() as int) {
            None => {},
            Some(i) => {
                lemma_descend_ignores_case(cmds[i], s1, s2, e);
            },
        }
    }
}

impl Command {
    /// A leaf command with no name yet.
    pub fn new(level: RoLevel, handler: usize) -> (r: Command)
        ensures
            r.names@.len() == 0,
            r.description@.len() == 0,
            r.group@.len() == 0,
            r.level == level,
            r.handler == handler,
            r.sub_commands@.len() == 0,
    {
        Command {
            names: Vec::new(),
            level,
            description: String::new(),
            group: String::new(),
            handler,
            sub_commands: Vec::new(),
        }
    }

    pub fn name(self, name: &str) -> (r: Command)
        ensures
            r.names@.len() == self.names@.len() + 1,
            forall|k: int| 0 <= k < self.names@.len() ==> r.names@[k] == self.names@[k],
            r.names@[self.names@.len() as int]@ == name@,
            r.description == self.description,
            r.group == self.group,
            r.level == self.level,
            r.handler == self.handler,
            r.sub_commands == self.sub_commands,
    {
        let mut c = self;
        c.names.push(chars_of(name));
        c
    }

    pub fn description(self, text: &str) -> (r: Command)
        ensures
            r.description@ == text@,
            r.group == self.group,
            r.names == self.names,
            r.level == self.level,
            r.handler == self.handler,
            r.sub_commands == self.sub_commands,
    {
        let mut c = self;
        c.description = text.to_owned();
        c
    }

    pub fn group(self, text: &str) -> (r: Command)
        ensures
            r.group@ == text@,
            r.description == self.description,
            r.names == self.names,
            r.level == self.level,
            r.handler == self.handler,
            r.sub_commands == self.sub_commands,
    {
        let mut c = self;
        c.group = text.to_owned();
        c
    }

    pub fn sub_command(self, child: Command) -> (r: Command)
        ensures
            r.sub_commands@ == self.sub_commands@.push(child),
            r.names == self.names,
            r.description == self.description,
            r.group == self.group,
            r.level == self.level,
            r.handler == self.handler,
    {
        let mut c = self;
        c.sub_commands.push(child);
        c
    }

    /// Whether one of the names is exactly `tok`.
    pub fn is_named(&self, tok: &[char]) -> (r: bool)
        ensures
            r == has_name(*self, tok@),
    {
        let mut k: usize = 0;
        while k < self.names.len()
            invariant
                k <= self.names@.len(),
                forall|j: int| 0 <= j < k ==> self.names@[j]@ != tok@,
            decreases self.names.len() - k,
        {
            if chars_equal(self.names[k].as_slice(), tok) {
                return true;
            }
            k = k + 1;
        }
        false
    }

    /// Whether `tok` is one of the names up to ASCII case.
    pub fn is_named_lower(&self, tok: &[char]) -> (r: bool)
        ensures
            r == has_name_lower(*self, tok@),
    {
        let mut k: usize = 0;
        while k < self.names.len()
            invariant
                k <= self.names@.len(),
                forall|j: int| 0 <= j < k ==> !same_lower(tok@, #[trigger] self.names@[j]@),
            decreases self.names.len() - k,
        {
            if equal_ignoring_case(tok, self.names[k].as_slice()) {
                return true;
            }
            k = k + 1;
        }
        false
    }

    /// Whether `key` is one of the names, lower-cased.
    pub fn has_key(&self, key: &[char]) -> (r: bool)
        ensures
            r == has_key(*self, key@),
    {
        let mut k: usize = 0;
        while k < self.names.len()
            invariant
                k <= self.names@.len(),
                forall|j: int| 0 <= j < k ==> !lowers_to(#[trigger] self.names@[j]@, key@),
            decreases self.names.len() - k,
        {
            if lowercase_equals(self.names[k].as_slice(), key) {
                return true;
            }
            k = k + 1;
        }
        false
    }

    /// The first sub-command kept under `key`.
    pub fn find_keyed_child(&self, key: &[char]) -> (r: Option<usize>)
        ensures
            match r {
                Some(i) => keyed_child_index(self.sub_commands@, key@, 0) == Some(i as int),
                None => keyed_child_index(self.sub_commands@, key@, 0) is None,
            },
    {
        let mut i: usize = 0;
        while i < self.sub_commands.len()
            invariant
                i <= self.sub_commands@.len(),
                keyed_child_index(self.sub_commands@, key@, 0) == keyed_child_index(self.sub_commands@, key@, i as int),
            decreases self.sub_commands.len() - i,
        {
            if self.sub_commands[i].has_key(key) {
                return Some(i);
            }
            i = i + 1;
        }
        None
    }

    /// The first sub-command that `tok` names, ignoring ASCII case.
    pub fn find_child(&self, tok: &[char]) -> (r: Option<usize>)
        ensures
            match r {
                Some(i) => child_index(self.sub_commands@, tok@, 0) == Some(i as int),
                None => child_index(self.sub_commands@, tok@, 0) is None,
            },
    {
        let mut i: usize = 0;
        while i < self.sub_commands.len()
            invariant
                i <= self.sub_commands@.len(),
                child_index(self.sub_commands@, tok@, 0) == child_index(self.sub_commands@, tok@, i as int),
            decreases self.sub_commands.len() - i,
        {
            if self.sub_commands[i].is_named_lower(tok) {
                return Some(i);
            }
            i = i + 1;
        }
        None
    }
}

/// The last of `cmds` with the name `tok`.
pub fn find_top(cmds: &Vec<Command>, tok: &[char]) -> (r: Option<usize>)
    ensures
        match r {
            Some(i) => last_named(cmds@, tok@, cmds@.len() as int) == Some(i as int),
            None => last_named(cmds@, tok@, cmds@.len() as int) is None,
        },
{
    let mut found: Option<usize> = None;
    let mut i: usize = 0;
    while i < cmds.len()
        invariant
            i <= cmds@.len(),
            match found {
                Some(j) => last_named(cmds@, tok@, i as int) == Some(j as int),
                None => last_named(cmds@, tok@, i as int) is None,
            },
        decreases cmds.len() - i,
    {
        if cmds[i].is_named(tok) {
            found = Some(i);
        }
        i = i + 1;
    }
    found
}

/// Walks the tokens of `args` down the command tree; `args` is left at the
/// first token that the command reached does not consume.
pub fn resolve_text<'a>(cmds: &'a Vec<Command>, args: &mut Arguments) -> (r: Option<&'a Command>)
    requires
        old(args).wf(),
        old(args).pos() == 0,
    ensures
        final(args).wf(),
        final(args).text() == old(args).text(),
        match resolve(cmds@, old(args).text()) {
            None => r is None,
            Some((c, p)) => r is Some && *r->0 == c && final(args).pos() == p,
        },
{
    let ghost s = args.text();
    let first = match args.next_chars() {
        Some(t) => t,
        None => return None,
    };
    let top = match find_top(cmds, first.as_slice()) {
        Some(i) => i,
        None => return None,
    };
    proof {
        lemma_last_named_range(cmds@, first@, cmds@.len() as int);
    }
    let mut cur: &Command = &cmds[top];
    loop
        invariant_except_break
            resolve(cmds@, s) == Some(descend(*cur, s, args.pos())),
        invariant
            args.wf(),
            args.text() == s,
            0 <= args.pos() <= s.len(),
        ensures
            resolve(cmds@, s) == Some((*cur, args.pos())),
        decreases s.len() - args.pos(),
    {
        let ghost p = args.pos();
        let tok = match args.next_chars() {
            Some(t) => t,
            None => break,
        };
        match cur.find_child(tok.as_slice()) {
            None => {
                args.back();
                break;
            },
            Some(j) => {
                proof {
                    lemma_child_index_range(cur.sub_commands@, tok@, 0);
                }
                let child = &cur.sub_commands[j];
                cur = child;
                if child.sub_commands.len() == 0 {
                    break;
                }
            },
        }
    }
    Some(cur)
}

} // verus!
