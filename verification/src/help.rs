//! The help command: an insertion-ordered map for grouping commands by
//! category, and the text of command lines, menus and replies.

use vstd::prelude::*;
use vstd::std_specs::cmp::PartialEqSpec;
use crate::text::{capped, push_capped, ascii_lowered, eq_ignore_ascii_case};

verus! {

/// A map that keeps its entries in the order in which their keys were
/// first inserted.
pub struct OrderedMap<K, V>(pub Vec<(K, V)>);

/// The position of the first entry whose key equals `k`.
pub open spec fn position_of<K: PartialEq, V>(entries: Seq<(K, V)>, k: K) -> Option<int>
    decreases entries.len(),
{
    if entries.len() == 0 {
        None
    } else {
        match position_of(entries.drop_last(), k) {
            Some(i) => Some(i),
            None => if entries.last().0.eq_spec(&k) {
                Some(entries.len() - 1)
            } else {
                None
            },
        }
    }
}

proof fn lemma_position_of_take<K: PartialEq, V>(entries: Seq<(K, V)>, k: K, i: int)
    requires
        0 <= i < entries.len(),
        position_of(entries.take(i), k) is None,
    ensures
        position_of(entries.take(i + 1), k) == if entries[i].0.eq_spec(&k) {
            Some(i)
        } else {
            None::<int>
        },
{
    assert(entries.take(i + 1).drop_last() =~= entries.take(i));
}

impl<K, V> Default for OrderedMap<K, V> {
    fn default() -> (r: Self)
        ensures
            r.0@ == Seq::<(K, V)>::empty(),
    {
        OrderedMap(Vec::new())
    }
}

impl<K: Eq, V> OrderedMap<K, V> {
    /// Creates an empty map.
    pub fn new() -> (r: Self)
        ensures
            r.0@ == Seq::<(K, V)>::empty(),
    {
        OrderedMap(Vec::new())
    }

    /// Finds the value of the first entry with key `k`, or appends an
    /// entry for `k` with the value that `v` makes, and hands out the
    /// value for changing.
    pub fn get_or_insert_with<F: FnOnce() -> V>(&mut self, k: K, v: F) -> (r: &mut V)
        requires
            K::obeys_eq_spec(),
            call_requires(v, ()),
        ensures
            match position_of(old(self).0@, k) {
                Some(i) => *r == old(self).0@[i].1 && final(self).0@ == old(self).0@.update(
                    i,
                    (old(self).0@[i].0, *final(r)),
                ),
                None => call_ensures(v, (), *r) && final(self).0@ == old(self).0@.push(
                    (k, *final(r)),
                ),
            },
    {
        let mut i: usize = 0;
        while i < self.0.len()
            invariant
                K::obeys_eq_spec(),
                self.0@ == old(self).0@,
                i <= self.0@.len(),
                position_of(self.0@.take(i as int), k) is None,
            decreases self.0@.len() - i,
        {
            proof {
                lemma_position_of_take(self.0@, k, i as int);
            }
            if self.0[i].0 == k {
                proof {
                    lemma_position_of_extend(self.0@, k, i + 1);
                }
                return &mut self.0[i].1;
            }
            i = i + 1;
        }
        assert(self.0@.take(self.0@.len() as int) =~= self.0@);
        let value = v();
        self.0.push((k, value));
        let n = self.0.len() - 1;
        &mut self.0[n].1
    }
}

proof fn lemma_position_of_extend<K: PartialEq, V>(entries: Seq<(K, V)>, k: K, j: int)
    requires
        0 <= j <= entries.len(),
        position_of(entries.take(j), k) is Some,
    ensures
        position_of(entries, k) == position_of(entries.take(j), k),
    decreases entries.len() - j,
{
    if j < entries.len() {
        assert(entries.take(j + 1).drop_last() =~= entries.take(j));
        assert(position_of(entries.take(j + 1), k) == position_of(entries.take(j), k));
        lemma_position_of_extend(entries, k, j + 1);
    } else {
        assert(entries.take(j) =~= entries);
    }
}

/// Whether no two entries have keys that compare equal.
pub open spec fn distinct_keys<K: PartialEq, V>(entries: Seq<(K, V)>) -> bool {
    forall|i: int, j: int|
        0 <= i < j < entries.len() ==> !(#[trigger] entries[i].0).eq_spec(&(#[trigger] entries[j]).0)
}

/// Whether the key equality is an equivalence, as `Eq` promises.
pub open spec fn equivalence<K: PartialEq>() -> bool {
    &&& forall|a: K| #[trigger] a.eq_spec(&a)
    &&& forall|a: K, b: K| #[trigger] a.eq_spec(&b) ==> b.eq_spec(&a)
    &&& forall|a: K, b: K, c: K| #[trigger] a.eq_spec(&b) && #[trigger] b.eq_spec(&c) ==> a.eq_spec(&c)
}

/// The entries after `get_or_insert_with(k, ..)`, once the value handed
/// out has become `v`.
pub open spec fn after_get_or_insert<K: PartialEq, V>(entries: Seq<(K, V)>, k: K, v: V) -> Seq<(K, V)> {
    match position_of(entries, k) {
        Some(i) => entries.update(i, (entries[i].0, v)),
        None => entries.push((k, v)),
    }
}

proof fn lemma_position_of<K: PartialEq, V>(entries: Seq<(K, V)>, k: K)
    ensures
        match position_of(entries, k) {
            Some(i) => 0 <= i < entries.len() && entries[i].0.eq_spec(&k) && forall|j: int|
                0 <= j < i ==> !(#[trigger] entries[j]).0.eq_spec(&k),
            None => forall|j: int| 0 <= j < entries.len() ==> !(#[trigger] entries[j]).0.eq_spec(&k),
        },
    decreases entries.len(),
{
    if entries.len() > 0 {
        let d = entries.drop_last();
        lemma_position_of(d, k);
        assert forall|j: int| 0 <= j < d.len() implies d[j] == entries[j] by {}
    }
}

/// Finding or inserting a key keeps the keys distinct and in the order
/// of first insertion: the keys before stay where they were, and at most
/// one entry is added, at the end. Where key equality is an equivalence
/// (as `Eq` promises), exactly one entry then has the key.
pub proof fn lemma_get_or_insert_keeps_keys<K: PartialEq, V>(entries: Seq<(K, V)>, k: K, v: V)
    requires
        distinct_keys(entries),
    ensures
        ({
            let after = after_get_or_insert(entries, k, v);
            &&& distinct_keys(after)
            &&& entries.len() <= after.len() <= entries.len() + 1
            &&& forall|i: int| 0 <= i < entries.len() ==> (#[trigger] after[i]).0 == entries[i].0
            &&& equivalence::<K>() ==> exists|i: int|
                0 <= i < after.len() && (#[trigger] after[i]).0.eq_spec(&k) && forall|j: int|
                    0 <= j < after.len() && j != i ==> !(#[trigger] after[j]).0.eq_spec(&k)
        }),
{
    lemma_position_of(entries, k);
    let after = after_get_or_insert(entries, k, v);
    match position_of(entries, k) {
        Some(i) => {
            assert forall|a: int, b: int| 0 <= a < b < after.len() implies !(#[trigger] after[a]).0.eq_spec(
                &(#[trigger] after[b]).0,
            ) by {
                assert(after[a].0 == entries[a].0);
                assert(after[b].0 == entries[b].0);
            }
            if equivalence::<K>() {
                assert forall|j: int| 0 <= j < after.len() && j != i implies !(#[trigger] after[j]).0.eq_spec(&k) by {
                    assert(after[j].0 == entries[j].0);
                    if j > i && entries[j].0.eq_spec(&k) {
                        assert(k.eq_spec(&entries[j].0));
                        assert(entries[i].0.eq_spec(&entries[j].0));
                    }
                }
                assert(after[i].0.eq_spec(&k));
            }
        },
        None => {
            let n = entries.len() as int;
            assert forall|a: int, b: int| 0 <= a < b < after.len() implies !(#[trigger] after[a]).0.eq_spec(
                &(#[trigger] after[b]).0,
            ) by {
                assert(after[a] == entries[a]);
                if b < n {
                    assert(after[b] == entries[b]);
                }
            }
            assert(after[n].0 == k);
            if equivalence::<K>() {
                assert(k.eq_spec(&k));
                assert forall|j: int| 0 <= j < after.len() && j != n implies !(#[trigger] after[j]).0.eq_spec(&k) by {
                    assert(after[j] == entries[j]);
                }
            }
        },
    }
}

impl<K, V> OrderedMap<K, V> {
    /// The entries, in insertion order.
    pub fn into_iter(self) -> (r: std::vec::IntoIter<(K, V)>)
        ensures
            vstd::std_specs::vec::into_iter_elts(r) == self.0@,
    {
        self.0.into_iter()
    }
}

/// How the help menu looks.
pub struct HelpConfiguration<'a> {
    /// Text shown under the menu.
    pub extra_text_at_bottom: &'a str,
    /// Whether context menu commands are listed too.
    pub show_context_menu_commands: bool,
}

impl<'a> Default for HelpConfiguration<'a> {
    fn default() -> (r: Self)
        ensures
            r.extra_text_at_bottom@ == ""@,
            !r.show_context_menu_commands,
    {
        HelpConfiguration { extra_text_at_bottom: "", show_context_menu_commands: false }
    }
}

/// A parameter of a command.
#[derive(Debug, Clone)]
pub struct ParameterInfo {
    pub name: String,
    pub required: bool,
}

/// What a line of the help menu shows of a command.
#[derive(Debug, Clone)]
pub struct CommandLine {
    pub name: String,
    pub hide_in_help: bool,
    /// Whether the command can be invoked with the text prefix.
    pub has_prefix_action: bool,
    /// Whether the command can be invoked as a slash command.
    pub has_slash_action: bool,
    pub parameters: Vec<ParameterInfo>,
}

/// Where a context menu command appears.
#[derive(Debug, Clone, Copy, PartialEq, Eq, Structural)]
pub enum ContextMenuKind {
    User,
    Message,
}

/// A command as the help command sees it.
#[derive(Debug, Clone)]
pub struct CommandInfo {
    pub line: CommandLine,
    pub category: Option<String>,
    pub subcommands: Vec<CommandLine>,
    pub context_menu: Option<ContextMenuKind>,
    pub context_menu_name: Option<String>,
    pub help_text: Option<String>,
    pub description: Option<String>,
}

/// A parameter as the menu lists it: its name, in `<>` when optional,
/// and a space.
pub open spec fn arg_text(p: ParameterInfo) -> Seq<char> {
    if p.required {
        p.name@ + " "@
    } else {
        "<"@ + p.name@ + "> "@
    }
}

/// The parameters of a command as the menu lists them.
pub open spec fn args_text(ps: Seq<ParameterInfo>) -> Seq<char>
    decreases ps.len(),
{
    if ps.len() == 0 {
        Seq::empty()
    } else {
        args_text(ps.drop_last()) + arg_text(ps.last())
    }
}

/// Writes the parameters of a command as the menu lists them.
pub fn format_args(arguments: &Vec<ParameterInfo>) -> (r: String)
    ensures
        r@ == args_text(arguments@),
{
    let mut r = String::new();
    let mut i: usize = 0;
    while i < arguments.len()
        invariant
            i <= arguments@.len(),
            r@ == args_text(arguments@.take(i as int)),
        decreases arguments@.len() - i,
    {
        let a = &arguments[i];
        if a.required {
            r.append(a.name.as_str());
            r.append(" ");
        } else {
            r.append("<");
            r.append(a.name.as_str());
            r.append("> ");
        }
        proof {
            assert(arguments@.take(i + 1).drop_last() =~= arguments@.take(i as int));
        }
        i = i + 1;
    }
    assert(arguments@.take(arguments@.len() as int) =~= arguments@);
    r
}

/// A line of the help menu: two spaces, the prefix that invokes the
/// command (the text prefix, or `/` for a slash-only command), the
/// command (after its parent for a subcommand) and its parameters, each
/// part cut to a fixed size. Empty for a command that is neither.
pub open spec fn command_line_text(prefix: Seq<char>, c: CommandLine, parent: Option<Seq<char>>) -> Seq<
    char,
> {
    if !c.has_prefix_action && !c.has_slash_action {
        Seq::empty()
    } else {
        let p = if c.has_prefix_action {
            prefix
        } else {
            "/"@
        };
        "  "@ + capped(p, 4) + match parent {
            Some(par) => capped(par, 16) + " "@ + capped(c.name@, 24),
            None => capped(c.name@, 41),
        } + " "@ + capped(args_text(c.parameters@), 82)
    }
}

/// Writes a line of the help menu; `prefix` is the text prefix of the
/// place where help was asked for.
pub fn format_command(prefix: &str, command: &CommandLine, parent: Option<&str>) -> (r: String)
    ensures
        r@ == command_line_text(
            prefix@,
            *command,
            match parent {
                Some(p) => Some(p@),
                None => None,
            },
        ),
{
    let p: &str = if command.has_prefix_action {
        prefix
    } else if command.has_slash_action {
        "/"
    } else {
        return String::new();
    };
    let mut r = String::new();
    r.append("  ");
    push_capped(&mut r, p, 4);
    match parent {
        Some(par) => {
            push_capped(&mut r, par, 16);
            r.append(" ");
            push_capped(&mut r, command.name.as_str(), 24);
        },
        None => {
            push_capped(&mut r, command.name.as_str(), 41);
        },
    }
    r.append(" ");
    let args = format_args(&command.parameters);
    push_capped(&mut r, args.as_str(), 82);
    r
}

/// The view of an optional string.
pub open spec fn opt_text(s: Option<String>) -> Option<Seq<char>> {
    match s {
        Some(t) => Some(t@),
        None => None,
    }
}

/// The lines of a command in the menu: nothing if it is hidden, else its
/// line and the lines of its visible subcommands, each ending a line.
pub open spec fn command_block(prefix: Seq<char>, c: CommandInfo) -> Seq<char> {
    if c.line.hide_in_help {
        Seq::empty()
    } else {
        command_line_text(prefix, c.line, None) + "\n"@ + subcommand_lines(
            prefix,
            c.subcommands@,
            c.line.name@,
        )
    }
}

/// The lines of the visible subcommands of a command.
pub open spec fn subcommand_lines(prefix: Seq<char>, subs: Seq<CommandLine>, parent: Seq<char>) -> Seq<
    char,
>
    decreases subs.len(),
{
    if subs.len() == 0 {
        Seq::empty()
    } else {
        subcommand_lines(prefix, subs.drop_last(), parent) + if subs.last().hide_in_help {
            Seq::empty()
        } else {
            command_line_text(prefix, subs.last(), Some(parent)) + "\n"@
        }
    }
}

/// The lines of the commands of one category, in their order.
pub open spec fn category_blocks(prefix: Seq<char>, cmds: Seq<CommandInfo>, cat: Option<Seq<char>>) -> Seq<
    char,
>
    decreases cmds.len(),
{
    if cmds.len() == 0 {
        Seq::empty()
    } else {
        category_blocks(prefix, cmds.drop_last(), cat) + if opt_text(cmds.last().category) == cat {
            command_block(prefix, cmds.last())
        } else {
            Seq::empty()
        }
    }
}

/// Whether some command before position `i` is in the category of the
/// command at `i`.
pub open spec fn category_seen(cmds: Seq<CommandInfo>, i: int) -> bool {
    exists|j: int| 0 <= j < i && opt_text(#[trigger] cmds[j].category) == opt_text(cmds[i].category)
}

/// The heading of a category: its name (`Commands` for none) and `:`.
pub open spec fn category_heading(cat: Option<Seq<char>>) -> Seq<char> {
    match cat {
        Some(name) => name + ":\n"@,
        None => "Commands"@ + ":\n"@,
    }
}

/// The sections of the menu for the first `k` commands: a section for
/// each category, in the order in which categories first appear, with
/// the lines of all its commands.
pub open spec fn menu_sections(prefix: Seq<char>, cmds: Seq<CommandInfo>, k: int) -> Seq<char>
    decreases k,
{
    if k <= 0 {
        Seq::empty()
    } else {
        menu_sections(prefix, cmds, k - 1) + if category_seen(cmds, k - 1) {
            Seq::empty()
        } else {
            let cat = opt_text(cmds[k - 1].category);
            category_heading(cat) + category_blocks(prefix, cmds, cat)
        }
    }
}

/// How a context menu command is listed.
pub open spec fn context_line(c: CommandInfo) -> Seq<char> {
    match c.context_menu {
        None => Seq::empty(),
        Some(kind) => "  "@ + match c.context_menu_name {
            Some(n) => n@,
            None => c.line.name@,
        } + " (on "@ + match kind {
            ContextMenuKind::User => "user"@,
            ContextMenuKind::Message => "message"@,
        } + ")\n"@,
    }
}

/// The context menu commands among the commands, in order.
pub open spec fn context_lines(cmds: Seq<CommandInfo>) -> Seq<char>
    decreases cmds.len(),
{
    if cmds.len() == 0 {
        Seq::empty()
    } else {
        context_lines(cmds.drop_last()) + context_line(cmds.last())
    }
}

/// The help menu: a code block with a section per category and, if
/// asked for, the context menu commands; then the extra text.
pub open spec fn help_menu_text(
    prefix: Seq<char>,
    cmds: Seq<CommandInfo>,
    show_context_menu_commands: bool,
    extra: Seq<char>,
) -> Seq<char> {
    "```\n"@ + menu_sections(prefix, cmds, cmds.len() as int) + (if show_context_menu_commands {
        "\nContext menu commands:\n"@ + context_lines(cmds)
    } else {
        Seq::empty()
    }) + "\n```"@ + extra
}

fn opt_string_eq(a: &Option<String>, b: &Option<String>) -> (r: bool)
    ensures
        r == (opt_text(*a) == opt_text(*b)),
{
    match (a, b) {
        (Some(x), Some(y)) => crate::text::str_eq(x.as_str(), y.as_str()),
        (None, None) => true,
        _ => false,
    }
}

fn push_command_block(r: &mut String, prefix: &str, c: &CommandInfo)
    ensures
        final(r)@ == old(r)@ + command_block(prefix@, *c),
{
    if c.line.hide_in_help {
        return;
    }
    let line = format_command(prefix, &c.line, None);
    r.append(line.as_str());
    r.append("\n");
    let ghost start = r@;
    let mut i: usize = 0;
    while i < c.subcommands.len()
        invariant
            i <= c.subcommands@.len(),
            r@ == start + subcommand_lines(prefix@, c.subcommands@.take(i as int), c.line.name@),
        decreases c.subcommands@.len() - i,
    {
        let sub = &c.subcommands[i];
        if !sub.hide_in_help {
            let line = format_command(prefix, sub, Some(c.line.name.as_str()));
            r.append(line.as_str());
            r.append("\n");
        }
        proof {
            assert(c.subcommands@.take(i + 1).drop_last() =~= c.subcommands@.take(i as int));
        }
        i = i + 1;
        assert(r@ =~= start + subcommand_lines(prefix@, c.subcommands@.take(i as int), c.line.name@));
    }
    assert(c.subcommands@.take(c.subcommands@.len() as int) =~= c.subcommands@);
    assert(r@ =~= old(r)@ + command_block(prefix@, *c));
}

/// Writes the help menu for the commands, in their order; `prefix` is the
/// text prefix of the place where help was asked for.
pub fn help_menu(prefix: &str, commands: &Vec<CommandInfo>, config: &HelpConfiguration) -> (r: String)
    ensures
        r@ == help_menu_text(
            prefix@,
            commands@,
            config.show_context_menu_commands,
            config.extra_text_at_bottom@,
        ),
{
    let n = commands.len();
    let mut r = String::new();
    r.append("```\n");
    let ghost head = r@;
    let mut k: usize = 0;
    while k < n
        invariant
            n == commands@.len(),
            k <= n,
            r@ == head + menu_sections(prefix@, commands@, k as int),
        decreases n - k,
    {
        let mut seen = false;
        let mut j: usize = 0;
        while j < k && !seen
            invariant
                n == commands@.len(),
                k < n,
                j <= k,
                seen ==> category_seen(commands@, k as int),
                !seen ==> forall|m: int|
                    0 <= m < j ==> opt_text(#[trigger] commands@[m].category) != opt_text(
                        commands@[k as int].category,
                    ),
            decreases k - j + (if seen { 0int } else { 1int }),
        {
            if opt_string_eq(&commands[j].category, &commands[k].category) {
                seen = true;
            } else {
                j = j + 1;
            }
        }
        if !seen {
            match &commands[k].category {
                Some(name) => r.append(name.as_str()),
                None => r.append("Commands"),
            }
            r.append(":\n");
            let ghost mid = r@;
            let mut m: usize = 0;
            while m < n
                invariant
                    n == commands@.len(),
                    k < n,
                    m <= n,
                    r@ == mid + category_blocks(
                        prefix@,
                        commands@.take(m as int),
                        opt_text(commands@[k as int].category),
                    ),
                decreases n - m,
            {
                if opt_string_eq(&commands[m].category, &commands[k].category) {
                    push_command_block(&mut r, prefix, &commands[m]);
                }
                proof {
                    assert(commands@.take(m + 1).drop_last() =~= commands@.take(m as int));
                }
                m = m + 1;
            }
            assert(commands@.take(n as int) =~= commands@);
        }
        k = k + 1;
        assert(r@ =~= head + menu_sections(prefix@, commands@, k as int));
    }
    if config.show_context_menu_commands {
        r.append("\nContext menu commands:\n");
        let ghost mid = r@;
        let mut i: usize = 0;
        while i < n
            invariant
                n == commands@.len(),
                i <= n,
                r@ == mid + context_lines(commands@.take(i as int)),
            decreases n - i,
        {
            let c = &commands[i];
            match c.context_menu {
                None => {},
                Some(kind) => {
                    r.append("  ");
                    match &c.context_menu_name {
                        Some(name) => r.append(name.as_str()),
                        None => r.append(c.line.name.as_str()),
                    }
                    r.append(" (on ");
                    match kind {
                        ContextMenuKind::User => r.append("user"),
                        ContextMenuKind::Message => r.append("message"),
                    }
                    r.append(")\n");
                },
            }
            proof {
                assert(commands@.take(i + 1).drop_last() =~= commands@.take(i as int));
            }
            i = i + 1;
            assert(r@ =~= mid + context_lines(commands@.take(i as int)));
        }
        assert(commands@.take(n as int) =~= commands@);
    }
    r.append("\n```");
    r.append(config.extra_text_at_bottom);
    proof {
        reveal_strlit("");
    }
    r
}

/// Whether a command answers to `name`: its name or its context menu
/// name, without regard to ASCII case.
pub open spec fn answers_to(c: CommandInfo, name: Seq<char>) -> bool {
    ascii_lowered(c.line.name@) == ascii_lowered(name) || match c.context_menu_name {
        Some(n) => ascii_lowered(n@) == ascii_lowered(name),
        None => false,
    }
}

/// The help of a command: its help text, else its description, else a
/// note that there is none.
pub open spec fn help_of(c: CommandInfo) -> Seq<char> {
    match c.help_text {
        Some(t) => t@,
        None => match c.description {
            Some(d) => d@,
            None => "No help available"@,
        },
    }
}

/// The reply to a request for help on `name`: the help of the first
/// command that answers to it, or a note that there is none.
pub open spec fn single_help_text(cmds: Seq<CommandInfo>, name: Seq<char>) -> Seq<char> {
    if exists|i: int| 0 <= i < cmds.len() && answers_to(#[trigger] cmds[i], name) {
        let i = choose|i: int|
            0 <= i < cmds.len() && answers_to(#[trigger] cmds[i], name) && forall|j: int|
                0 <= j < i ==> !answers_to(#[trigger] cmds[j], name);
        help_of(cmds[i])
    } else {
        "Command not found."@
    }
}

/// Writes the reply to a request for help on one command.
pub fn help_single_command(commands: &Vec<CommandInfo>, command_name: &str) -> (r: String)
    ensures
        r@ == single_help_text(commands@, command_name@),
{
    let mut i: usize = 0;
    while i < commands.len()
        invariant
            i <= commands@.len(),
            forall|j: int| 0 <= j < i ==> !answers_to(#[trigger] commands@[j], command_name@),
        decreases commands@.len() - i,
    {
        let c = &commands[i];
        let mut hit = eq_ignore_ascii_case(c.line.name.as_str(), command_name);
        if !hit {
            if let Some(n) = &c.context_menu_name {
                hit = eq_ignore_ascii_case(n.as_str(), command_name);
            }
        }
        if hit {
            proof {
                let w = choose|w: int|
                    0 <= w < commands@.len() && answers_to(#[trigger] commands@[w], command_name@)
                        && forall|j: int| 0 <= j < w ==> !answers_to(#[trigger] commands@[j], command_name@);
                assert(answers_to(commands@[i as int], command_name@));
                if w < i {
                } else if w > i {
                    assert(!answers_to(commands@[i as int], command_name@));
                }
            }
            let r = match &c.help_text {
                Some(t) => t.clone(),
                None => match &c.description {
                    Some(d) => d.clone(),
                    None => String::from_str("No help available"),
                },
            };
            return r;
        }
        i = i + 1;
    }
    String::from_str("Command not found.")
}

/// The note under the help menu, with the prefix of the place where help
/// was asked for.
pub open spec fn help_footer(prefix: Seq<char>) -> Seq<char> {
    "Type "@ + prefix + "help command for more info on a command. <> around arguments mean they are optional."@
}

/// Writes the note under the help menu.
pub fn format_help_footer(prefix: &str) -> (r: String)
    ensures
        r@ == help_footer(prefix@),
{
    let mut r = String::new();
    r.append("Type ");
    r.append(prefix);
    r.append("help command for more info on a command. <> around arguments mean they are optional.");
    r
}

/// How the bot's owner is shown: `@name#discriminator`, or the name
/// alone when there is no discriminator.
pub open spec fn owner_text(name: Seq<char>, discriminator: Option<u16>) -> Seq<char> {
    match discriminator {
        Some(d) => "@"@ + capped(name, 16) + "#"@ + crate::text::decimal(d as nat),
        None => capped(name, 23),
    }
}

/// The text of the information command: the owner, when the bot started,
/// how many guilds it is in, and the application's description.
pub open spec fn info_text(
    owner: Seq<char>,
    discriminator: Option<u16>,
    started: Seq<char>,
    guilds: nat,
    description: Seq<char>,
) -> Seq<char> {
    "```elm\nOwner   : "@ + owner_text(owner, discriminator) + "\nUp      : "@ + capped(started, 16)
        + " UTC\nGuilds  : "@ + crate::text::decimal(guilds) + "```"@ + capped(description, 64)
}

/// Writes the text of the information command.
pub fn format_info(
    owner: &str,
    discriminator: Option<u16>,
    started: &str,
    guilds: usize,
    description: &str,
) -> (r: String)
    ensures
        r@ == info_text(owner@, discriminator, started@, guilds as nat, description@),
{
    let mut r = String::new();
    r.append("```elm\nOwner   : ");
    match discriminator {
        Some(d) => {
            r.append("@");
            push_capped(&mut r, owner, 16);
            r.append("#");
            crate::text::push_decimal(&mut r, d as u64);
        },
        None => push_capped(&mut r, owner, 23),
    }
    r.append("\nUp      : ");
    push_capped(&mut r, started, 16);
    r.append(" UTC\nGuilds  : ");
    crate::text::push_decimal(&mut r, guilds as u64);
    r.append("```");
    push_capped(&mut r, description, 64);
    proof {
        assert(r@ =~= info_text(owner@, discriminator, started@, guilds as nat, description@));
    }
    r
}

/// The reply to a prefix change.
pub fn format_prefix_set(prefix: &str) -> (r: String)
    ensures
        r@ == "Set guild prefix to "@ + capped(prefix@, 4),
{
    let mut r = String::new();
    r.append("Set guild prefix to ");
    push_capped(&mut r, prefix, 4);
    r
}

/// The reply to a ping, with the round trip in milliseconds.
pub fn format_pong(millis: u64) -> (r: String)
    ensures
        r@ == "Pong! `"@ + crate::text::decimal(millis as nat) + "ms`"@,
{
    let mut r = String::new();
    r.append("Pong! `");
    crate::text::push_decimal(&mut r, millis);
    r.append("ms`");
    r
}

} // verus!
