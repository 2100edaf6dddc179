//! The configuration model of a switcher, the ring linker, and the script
//! emitter that compiles a linked switcher to console-script text.

use vstd::prelude::*;

use crate::error::Error;
use crate::error::ErrorKind;
use crate::text::dec_rep;
use crate::text::push_decimal;
use crate::GenerateCommand;

verus! {

use vstd::arithmetic::div_mod::lemma_small_mod;
use vstd::arithmetic::div_mod::lemma_mod_add_multiples_vanish;
use vstd::arithmetic::div_mod::lemma_mod_self_0;

/// A single key-to-console-command mapping.
#[derive(Debug, Clone, PartialEq)]
pub struct CommandBind {
    pub key: String,
    pub command: String,
}

/// A named, ordered group of command binds that are active simultaneously.
///
/// `previous_set` and `next_set` are derived, not user-authored: they name the
/// circularly adjacent sets and are only valid right after re-linking
/// ([`KeybindSwitcher::index_command_sets_by_index`] is their sole writer).
#[derive(Debug, Clone, PartialEq)]
pub struct CommandSet {
    pub name: String,
    pub previous_set: String,
    pub next_set: String,
    pub command_binds: Vec<CommandBind>,
}

/// The aggregate root: a named ring of command sets cycled through with two
/// navigation keys.
#[derive(Debug, Clone, PartialEq)]
pub struct KeybindSwitcher {
    pub name: String,
    pub key_next: String,
    pub key_previous: String,
    pub command_sets: Vec<CommandSet>,
}

/// The mathematical image of a [`CommandBind`].
pub struct CommandBindV {
    pub key: Seq<char>,
    pub command: Seq<char>,
}

/// The mathematical image of a [`CommandSet`].
pub struct CommandSetV {
    pub name: Seq<char>,
    pub previous_set: Seq<char>,
    pub next_set: Seq<char>,
    pub command_binds: Seq<CommandBindV>,
}

/// The mathematical image of a [`KeybindSwitcher`].
pub struct KeybindSwitcherV {
    pub name: Seq<char>,
    pub key_next: Seq<char>,
    pub key_previous: Seq<char>,
    pub command_sets: Seq<CommandSetV>,
}

impl View for CommandBind {
    type V = CommandBindV;

    open spec fn view(&self) -> CommandBindV {
        CommandBindV { key: self.key@, command: self.command@ }
    }
}

impl View for CommandSet {
    type V = CommandSetV;

    open spec fn view(&self) -> CommandSetV {
        CommandSetV {
            name: self.name@,
            previous_set: self.previous_set@,
            next_set: self.next_set@,
            command_binds: self.command_binds@.map_values(|b: CommandBind| b@),
        }
    }
}

impl View for KeybindSwitcher {
    type V = KeybindSwitcherV;

    open spec fn view(&self) -> KeybindSwitcherV {
        KeybindSwitcherV {
            name: self.name@,
            key_next: self.key_next@,
            key_previous: self.key_previous@,
            command_sets: self.command_sets@.map_values(|cs: CommandSet| cs@),
        }
    }
}

// ---------------------------------------------------------------------------
// Validation: which value generates, and with which error a value fails.
// ---------------------------------------------------------------------------

/// A bind generates iff both of its fields are non-empty.
pub open spec fn bind_ok(b: CommandBindV) -> bool {
    b.key.len() > 0 && b.command.len() > 0
}

/// The message a malformed bind is reported with: the first empty field, in
/// the order `key`, `command`.
pub open spec fn bind_err_msg(b: CommandBindV) -> Seq<char> {
    if b.key.len() == 0 {
        "CommandBind's key field is empty"@
    } else {
        "CommandBind's command field is empty"@
    }
}

/// The first failure among the binds of a set from index `j` on, if any.
pub open spec fn binds_err(binds: Seq<CommandBindV>, j: int) -> Option<Seq<char>>
    decreases binds.len() - j,
{
    if j < 0 || j >= binds.len() {
        None
    } else if !bind_ok(binds[j]) {
        Some(bind_err_msg(binds[j]))
    } else {
        binds_err(binds, j + 1)
    }
}

/// The first failure within one command set: its own fields in the order
/// `name`, `next_set`, `previous_set`, then its binds in order.
pub open spec fn set_err(cs: CommandSetV) -> Option<Seq<char>> {
    if cs.name.len() == 0 {
        Some("CommandSet's name field is empty"@)
    } else if cs.next_set.len() == 0 {
        Some("CommandSet's next_set field is empty"@)
    } else if cs.previous_set.len() == 0 {
        Some("CommandSet's previous_set field is empty"@)
    } else {
        binds_err(cs.command_binds, 0)
    }
}

/// The first failure among the sets from index `i` on, if any.
pub open spec fn sets_err(sets: Seq<CommandSetV>, i: int) -> Option<Seq<char>>
    decreases sets.len() - i,
{
    if i < 0 || i >= sets.len() {
        None
    } else if set_err(sets[i]) is Some {
        set_err(sets[i])
    } else {
        sets_err(sets, i + 1)
    }
}

/// The message of the first failure the emitter reports on a switcher, if
/// any: the ring length, then the switcher's own fields in the order `name`,
/// `key_next`, `key_previous`, then each set in order.
pub open spec fn switcher_err(sw: KeybindSwitcherV) -> Option<Seq<char>> {
    if sw.command_sets.len() < 2 {
        Some("Command Set have to be more than 2 for this to works properly"@)
    } else if sw.name.len() == 0 {
        Some("KeybindSwitcher's name field is empty"@)
    } else if sw.key_next.len() == 0 {
        Some("KeybindSwitcher's key_next field is empty"@)
    } else if sw.key_previous.len() == 0 {
        Some("KeybindSwitcher's key_previous field is empty"@)
    } else {
        sets_err(sw.command_sets, 0)
    }
}

/// A switcher generates iff no check of [`switcher_err`] fails.
pub open spec fn switcher_ok(sw: KeybindSwitcherV) -> bool {
    switcher_err(sw) is None
}

/// The kind of the error a malformed switcher is reported with.
pub open spec fn switcher_err_kind(sw: KeybindSwitcherV) -> ErrorKind {
    if sw.command_sets.len() < 2 {
        ErrorKind::CommandSetLenUnder2
    } else {
        ErrorKind::FieldEmpty
    }
}

// ---------------------------------------------------------------------------
// The ring linker.
// ---------------------------------------------------------------------------

/// The ring linkage of an ordered sequence of sets: set `i` points forward to
/// the name of set `(i + 1) mod n` and backward to the name of set
/// `(i - 1) mod n`; names and binds are untouched. Pure in the stored links:
/// the result only depends on the order and the names.
pub open spec fn link_sets(sets: Seq<CommandSetV>) -> Seq<CommandSetV> {
    Seq::new(
        sets.len(),
        |i: int|
            CommandSetV {
                name: sets[i].name,
                previous_set: sets[(i - 1) % (sets.len() as int)].name,
                next_set: sets[(i + 1) % (sets.len() as int)].name,
                command_binds: sets[i].command_binds,
            },
    )
}

/// The ring linker is idempotent: re-linking an already linked sequence
/// changes nothing, because the linkage depends only on the order of the
/// names, which linking preserves.
pub proof fn lemma_link_sets_idempotent(sets: Seq<CommandSetV>)
    ensures
        link_sets(link_sets(sets)) == link_sets(sets),
{
    let once = link_sets(sets);
    let twice = link_sets(once);
    assert forall|i: int| 0 <= i < sets.len() implies twice[i] == once[i] by {
        let n = sets.len() as int;
        if n > 0 {
            assert(0 <= (i - 1) % n < n);
            assert(0 <= (i + 1) % n < n);
        }
    }
    assert(twice =~= once);
}

// ---------------------------------------------------------------------------
// The script emitter's output, character for character.
// ---------------------------------------------------------------------------

/// The activation alias name of the set called `name`.
pub open spec fn sw_alias(name: Seq<char>) -> Seq<char> {
    "_sw_"@ + name
}

/// The alias name wrapping bind `j` of the set called `set_name`.
pub open spec fn bind_alias(set_name: Seq<char>, j: int) -> Seq<char> {
    sw_alias(set_name) + "_cmd"@ + dec_rep(j)
}

/// The canonical text of one bind.
pub open spec fn bind_text(b: CommandBindV) -> Seq<char> {
    "bind "@ + b.key + " "@ + b.command
}

/// The alias definition that activates one set: it rebinds `key_next` to the
/// next set's activation alias, rebinds `key_previous` to the previous set's,
/// and invokes this set's commands-alias.
pub open spec fn activation_line(sw: KeybindSwitcherV, cs: CommandSetV) -> Seq<char> {
    "alias \""@ + sw_alias(cs.name) + "\" \"bind "@ + sw.key_next + " _sw_"@ + cs.next_set
        + ";bind "@ + sw.key_previous + " _sw_"@ + cs.previous_set + ";"@ + sw_alias(cs.name)
        + "_cmds\""@ + "\n"@
}

/// The per-bind alias definition lines of one set, for binds `0..j`.
pub open spec fn bind_lines(cs: CommandSetV, j: int) -> Seq<char>
    decreases j,
{
    if j <= 0 {
        Seq::empty()
    } else {
        bind_lines(cs, j - 1) + "alias \""@ + bind_alias(cs.name, j - 1) + "\" "@ + bind_text(
            cs.command_binds[j - 1],
        ) + "\n"@
    }
}

/// The invocations accumulated in one set's commands-alias body, for binds
/// `0..j`: each per-bind alias name followed by the statement separator.
pub open spec fn cmd_refs(cs: CommandSetV, j: int) -> Seq<char>
    decreases j,
{
    if j <= 0 {
        Seq::empty()
    } else {
        cmd_refs(cs, j - 1) + bind_alias(cs.name, j - 1) + ";"@
    }
}

/// The opening of one set's commands-alias definition, up to and including
/// the echo of the switch notice.
pub open spec fn cmds_intro(sw: KeybindSwitcherV, cs: CommandSetV) -> Seq<char> {
    "alias \""@ + sw_alias(cs.name) + "_cmds\" \"echo Switched "@ + sw.name + "."@ + cs.name
        + ";"@
}

/// The commands-alias definition line of one set: an echo of the switch
/// notice, then the per-bind invocations in bind order.
pub open spec fn cmds_line(sw: KeybindSwitcherV, cs: CommandSetV) -> Seq<char> {
    cmds_intro(sw, cs) + cmd_refs(cs, cs.command_binds.len() as int) + "\""@ + "\n"@
}

/// The whole text block of one set: its activation alias, its per-bind
/// aliases (which textually precede the commands-alias that references them),
/// its commands-alias, and a blank separator line.
pub open spec fn set_block(sw: KeybindSwitcherV, cs: CommandSetV) -> Seq<char> {
    activation_line(sw, cs) + bind_lines(cs, cs.command_binds.len() as int) + cmds_line(sw, cs)
        + "\n"@
}

/// The blocks of the sets `0..i`, in ring order.
pub open spec fn blocks(sw: KeybindSwitcherV, i: int) -> Seq<char>
    decreases i,
{
    if i <= 0 {
        Seq::empty()
    } else {
        blocks(sw, i - 1) + set_block(sw, sw.command_sets[i - 1])
    }
}

/// The header comment line naming the switcher.
pub open spec fn header(sw: KeybindSwitcherV) -> Seq<char> {
    "//Keybind Switcher "@ + sw.name + "\n"@
}

/// The full script a valid switcher compiles to: the header, every set's
/// block in order, and the bootstrap line invoking the first set's activation
/// alias.
pub open spec fn emit(sw: KeybindSwitcherV) -> Seq<char> {
    header(sw) + blocks(sw, sw.command_sets.len() as int) + sw_alias(sw.command_sets[0].name)
        + "\n"@
}

// ---------------------------------------------------------------------------
// Executable model.
// ---------------------------------------------------------------------------

impl CommandBind {
    pub fn new(key: String, command: String) -> (r: Self)
        ensures
            r.key == key,
            r.command == command,
    {
        Self { key, command }
    }
}

impl Default for CommandBind {
    fn default() -> (r: Self)
        ensures
            r@.key == Seq::<char>::empty(),
            r@.command == Seq::<char>::empty(),
    {
        Self { key: String::new(), command: String::new() }
    }
}

impl GenerateCommand for CommandBind {
    open spec fn gen_ok(&self) -> bool {
        bind_ok(self@)
    }

    open spec fn gen_text(&self) -> Seq<char> {
        bind_text(self@)
    }

    open spec fn gen_err_kind(&self) -> ErrorKind {
        ErrorKind::FieldEmpty
    }

    open spec fn gen_err_msg(&self) -> Seq<char> {
        bind_err_msg(self@)
    }

    fn generate(&self) -> (r: Result<String, Error>) {
        if self.key.as_str().is_empty() {
            return Err(
                Error::new(
                    ErrorKind::FieldEmpty,
                    String::from_str("CommandBind's key field is empty"),
                ),
            );
        }
        if self.command.as_str().is_empty() {
            return Err(
                Error::new(
                    ErrorKind::FieldEmpty,
                    String::from_str("CommandBind's command field is empty"),
                ),
            );
        }
        let mut s = String::from_str("bind ");
        s.append(self.key.as_str());
        s.append(" ");
        s.append(self.command.as_str());
        Ok(s)
    }
}

impl CommandSet {
    pub fn new(
        name: String,
        previous_set: String,
        next_set: String,
        command_binds: Vec<CommandBind>,
    ) -> (r: Self)
        ensures
            r.name == name,
            r.previous_set == previous_set,
            r.next_set == next_set,
            r.command_binds == command_binds,
    {
        Self { name, previous_set, next_set, command_binds }
    }
}

impl Default for CommandSet {
    fn default() -> (r: Self)
        ensures
            r@.name == Seq::<char>::empty(),
            r@.previous_set == Seq::<char>::empty(),
            r@.next_set == Seq::<char>::empty(),
            r@.command_binds == Seq::<CommandBindV>::empty(),
    {
        let r = Self {
            name: String::new(),
            previous_set: String::new(),
            next_set: String::new(),
            command_binds: Vec::new(),
        };
        proof {
            assert(r@.command_binds =~= Seq::<CommandBindV>::empty());
        }
        r
    }
}

impl KeybindSwitcher {
    pub fn new(
        name: String,
        key_next: String,
        key_previous: String,
        command_sets: Vec<CommandSet>,
    ) -> (r: Self)
        ensures
            r.name == name,
            r.key_next == key_next,
            r.key_previous == key_previous,
            r.command_sets == command_sets,
    {
        Self { name, key_next, key_previous, command_sets }
    }

    /// The ring linker: derive every set's `previous_set` and `next_set` from
    /// the order of `command_sets`, wrapping circularly at both ends. The
    /// ring is undefined for fewer than two sets; such a switcher is rejected
    /// untouched.
    pub fn index_command_sets_by_index(&mut self) -> (r: Result<(), Error>)
        ensures
            old(self).command_sets@.len() >= 2 <==> r is Ok,
            r matches Err(e) ==> {
                &&& e.kind == ErrorKind::CommandSetLenUnder2
                &&& e.msg@ == Seq::<char>::empty()
                &&& *final(self) == *old(self)
            },
            final(self).name == old(self).name,
            final(self).key_next == old(self).key_next,
            final(self).key_previous == old(self).key_previous,
            r is Ok ==> final(self)@.command_sets == link_sets(old(self)@.command_sets),
            r is Ok ==> {
                let sets = old(self)@.command_sets;
                let n = sets.len() as int;
                forall|i: int|
                    0 <= i < n ==> {
                        &&& (#[trigger] final(self)@.command_sets[i]).name == sets[i].name
                        &&& final(self)@.command_sets[i].command_binds == sets[i].command_binds
                        &&& final(self)@.command_sets[i].next_set == sets[(i + 1) % n].name
                        &&& final(self)@.command_sets[i].previous_set == sets[(i - 1) % n].name
                    }
            },
    {
        let n: usize = self.command_sets.len();
        if n < 2 {
            return Err(Error::kind(ErrorKind::CommandSetLenUnder2));
        }
        let ghost orig = self.command_sets@;
        let mut i: usize = 0;
        while i < n
            invariant
                n == self.command_sets@.len(),
                n == orig.len(),
                n >= 2,
                orig == old(self).command_sets@,
                self.name == old(self).name,
                self.key_next == old(self).key_next,
                self.key_previous == old(self).key_previous,
                forall|k: int|
                    0 <= k < n ==> {
                        &&& (#[trigger] self.command_sets@[k]).name == orig[k].name
                        &&& self.command_sets@[k].command_binds == orig[k].command_binds
                    },
                forall|k: int| i <= k < n ==> #[trigger] self.command_sets@[k] == orig[k],
                forall|k: int|
                    0 <= k < i ==> {
                        &&& (#[trigger] self.command_sets@[k]).next_set == orig[(k + 1) % (
                        n as int)].name
                        &&& self.command_sets@[k].previous_set == orig[(k - 1) % (n as int)].name
                    },
            decreases n - i,
        {
            let prev_idx: usize = if i == 0 {
                n - 1
            } else {
                i - 1
            };
            let next_idx: usize = if i + 1 == n {
                0
            } else {
                i + 1
            };
            proof {
                if i == 0 {
                    lemma_mod_add_multiples_vanish(-1, n as int);
                    lemma_small_mod((n - 1) as nat, n as nat);
                } else {
                    lemma_small_mod((i - 1) as nat, n as nat);
                }
                if i + 1 == n {
                    lemma_mod_self_0(n as int);
                } else {
                    lemma_small_mod((i + 1) as nat, n as nat);
                }
                assert(prev_idx as int == (i as int - 1) % (n as int));
                assert(next_idx as int == (i as int + 1) % (n as int));
            }
            let prev_name = self.command_sets[prev_idx].name.clone();
            let next_name = self.command_sets[next_idx].name.clone();
            self.command_sets[i].previous_set = prev_name;
            self.command_sets[i].next_set = next_name;
            i = i + 1;
        }
        proof {
            assert(self@.command_sets =~= link_sets(old(self)@.command_sets));
        }
        Ok(())
    }
}

/// If no bind among `0..j` fails, the first failure from `0` on is the first
/// failure from `j` on.
proof fn lemma_binds_err_prefix(binds: Seq<CommandBindV>, j: int)
    requires
        0 <= j <= binds.len(),
        forall|k: int| 0 <= k < j ==> bind_ok(#[trigger] binds[k]),
    ensures
        binds_err(binds, 0) == binds_err(binds, j),
    decreases j,
{
    if j > 0 {
        lemma_binds_err_prefix(binds, j - 1);
        assert(binds_err(binds, j - 1) == binds_err(binds, j));
    }
}

/// If no set among `0..i` fails, the first failure from `0` on is the first
/// failure from `i` on.
proof fn lemma_sets_err_prefix(sets: Seq<CommandSetV>, i: int)
    requires
        0 <= i <= sets.len(),
        forall|k: int| 0 <= k < i ==> set_err(#[trigger] sets[k]) is None,
    ensures
        sets_err(sets, 0) == sets_err(sets, i),
    decreases i,
{
    if i > 0 {
        lemma_sets_err_prefix(sets, i - 1);
        assert(sets_err(sets, i - 1) == sets_err(sets, i));
    }
}

impl GenerateCommand for KeybindSwitcher {
    open spec fn gen_ok(&self) -> bool {
        switcher_ok(self@)
    }

    open spec fn gen_text(&self) -> Seq<char> {
        emit(self@)
    }

    open spec fn gen_err_kind(&self) -> ErrorKind {
        switcher_err_kind(self@)
    }

    open spec fn gen_err_msg(&self) -> Seq<char> {
        switcher_err(self@).unwrap()
    }

    /// The script emitter: compile this switcher, whose linkage must already
    /// have been computed, to the full console script, or report the first
    /// failing validation check without producing any partial text.
    #[verifier::rlimit(100)]
    fn generate(&self) -> (r: Result<String, Error>) {
        let n: usize = self.command_sets.len();
        if n < 2 {
            return Err(
                Error::new(
                    ErrorKind::CommandSetLenUnder2,
                    String::from_str("Command Set have to be more than 2 for this to works properly"),
                ),
            );
        }
        if self.name.as_str().is_empty() {
            return Err(
                Error::new(
                    ErrorKind::FieldEmpty,
                    String::from_str("KeybindSwitcher's name field is empty"),
                ),
            );
        }
        if self.key_next.as_str().is_empty() {
            return Err(
                Error::new(
                    ErrorKind::FieldEmpty,
                    String::from_str("KeybindSwitcher's key_next field is empty"),
                ),
            );
        }
        if self.key_previous.as_str().is_empty() {
            return Err(
                Error::new(
                    ErrorKind::FieldEmpty,
                    String::from_str("KeybindSwitcher's key_previous field is empty"),
                ),
            );
        }
        let mut switcher_init_cmd = String::new();
        let mut s = String::from_str("//Keybind Switcher ");
        s.append(self.name.as_str());
        s.append("\n");
        proof {
            assert(s@ =~= header(self@) + blocks(self@, 0));
        }
        let mut i: usize = 0;
        while i < n
            invariant
                n == self.command_sets@.len(),
                n == self@.command_sets.len(),
                2 <= n,
                i <= n,
                self@.name.len() > 0,
                self@.key_next.len() > 0,
                self@.key_previous.len() > 0,
                forall|k: int| 0 <= k < i ==> set_err(#[trigger] self@.command_sets[k]) is None,
                s@ == header(self@) + blocks(self@, i as int),
                i > 0 ==> switcher_init_cmd@ == sw_alias(self@.command_sets[0].name),
            decreases n - i,
        {
            let ghost swv = self@;
            let ghost csv = self@.command_sets[i as int];
            let cs = &self.command_sets[i];
            proof {
                assert(cs@ == csv);
            }
            if cs.name.as_str().is_empty() {
                proof {
                    lemma_sets_err_prefix(swv.command_sets, i as int);
                }
                return Err(
                    Error::new(
                        ErrorKind::FieldEmpty,
                        String::from_str("CommandSet's name field is empty"),
                    ),
                );
            }
            if cs.next_set.as_str().is_empty() {
                proof {
                    lemma_sets_err_prefix(swv.command_sets, i as int);
                }
                return Err(
                    Error::new(
                        ErrorKind::FieldEmpty,
                        String::from_str("CommandSet's next_set field is empty"),
                    ),
                );
            }
            if cs.previous_set.as_str().is_empty() {
                proof {
                    lemma_sets_err_prefix(swv.command_sets, i as int);
                }
                return Err(
                    Error::new(
                        ErrorKind::FieldEmpty,
                        String::from_str("CommandSet's previous_set field is empty"),
                    ),
                );
            }
            let mut alias_curr = String::from_str("_sw_");
            alias_curr.append(cs.name.as_str());
            proof {
                assert(alias_curr@ == sw_alias(csv.name));
            }
            s.append("alias \"");
            s.append(alias_curr.as_str());
            s.append("\" \"bind ");
            s.append(self.key_next.as_str());
            s.append(" _sw_");
            s.append(cs.next_set.as_str());
            s.append(";bind ");
            s.append(self.key_previous.as_str());
            s.append(" _sw_");
            s.append(cs.previous_set.as_str());
            s.append(";");
            s.append(alias_curr.as_str());
            s.append("_cmds\"");
            s.append("\n");
            proof {
                assert(s@ =~= header(swv) + blocks(swv, i as int) + activation_line(swv, csv));
            }
            let mut cmds = String::from_str("alias \"");
            cmds.append(alias_curr.as_str());
            cmds.append("_cmds\" \"echo Switched ");
            cmds.append(self.name.as_str());
            cmds.append(".");
            cmds.append(cs.name.as_str());
            cmds.append(";");
            proof {
                assert(cmds@ =~= cmds_intro(swv, csv) + cmd_refs(csv, 0));
            }
            let m: usize = cs.command_binds.len();
            let mut j: usize = 0;
            while j < m
                invariant
                    n == self.command_sets@.len(),
                    n == self@.command_sets.len(),
                    2 <= n,
                    i < n,
                    self@.name.len() > 0,
                    self@.key_next.len() > 0,
                    self@.key_previous.len() > 0,
                    forall|k: int|
                        0 <= k < i ==> set_err(#[trigger] self@.command_sets[k]) is None,
                    swv == self@,
                    csv == self@.command_sets[i as int],
                    cs == &self.command_sets[i as int],
                    csv.name.len() > 0,
                    csv.next_set.len() > 0,
                    csv.previous_set.len() > 0,
                    m == cs.command_binds@.len(),
                    m == csv.command_binds.len(),
                    j <= m,
                    forall|k: int| 0 <= k < j ==> bind_ok(#[trigger] csv.command_binds[k]),
                    alias_curr@ == sw_alias(csv.name),
                    s@ == header(swv) + blocks(swv, i as int) + activation_line(swv, csv)
                        + bind_lines(csv, j as int),
                    cmds@ == cmds_intro(swv, csv) + cmd_refs(csv, j as int),
                    i > 0 ==> switcher_init_cmd@ == sw_alias(self@.command_sets[0].name),
                decreases m - j,
            {
                let b = &cs.command_binds[j];
                proof {
                    assert(b@ == csv.command_binds[j as int]);
                }
                let bt = match b.generate() {
                    Ok(t) => t,
                    Err(e) => {
                        proof {
                            lemma_binds_err_prefix(csv.command_binds, j as int);
                            lemma_sets_err_prefix(swv.command_sets, i as int);
                        }
                        return Err(e);
                    },
                };
                let mut bname = alias_curr.clone();
                bname.append("_cmd");
                push_decimal(&mut bname, j);
                proof {
                    assert(bname@ =~= bind_alias(csv.name, j as int));
                }
                s.append("alias \"");
                s.append(bname.as_str());
                s.append("\" ");
                s.append(bt.as_str());
                s.append("\n");
                cmds.append(bname.as_str());
                cmds.append(";");
                proof {
                    assert(s@ =~= header(swv) + blocks(swv, i as int) + activation_line(swv, csv)
                        + bind_lines(csv, j as int + 1));
                    assert(cmds@ =~= cmds_intro(swv, csv) + cmd_refs(csv, j as int + 1));
                }
                j = j + 1;
            }
            cmds.append("\"");
            s.append(cmds.as_str());
            s.append("\n");
            s.append("\n");
            proof {
                assert(set_err(csv) is None) by {
                    lemma_binds_err_prefix(csv.command_binds, m as int);
                }
                assert(s@ =~= header(swv) + blocks(swv, i as int) + set_block(swv, csv));
                assert(s@ =~= header(swv) + blocks(swv, i as int + 1));
            }
            if i == 0 {
                switcher_init_cmd = alias_curr;
            }
            i = i + 1;
        }
        s.append(switcher_init_cmd.as_str());
        s.append("\n");
        proof {
            lemma_sets_err_prefix(self@.command_sets, n as int);
            assert(s@ =~= emit(self@));
        }
        Ok(s)
    }
}

impl Default for KeybindSwitcher {
    fn default() -> (r: Self)
        ensures
            r@.name == Seq::<char>::empty(),
            r@.key_next == Seq::<char>::empty(),
            r@.key_previous == Seq::<char>::empty(),
            r@.command_sets == Seq::<CommandSetV>::empty(),
    {
        let r = Self {
            name: String::new(),
            key_next: String::new(),
            key_previous: String::new(),
            command_sets: Vec::new(),
        };
        proof {
            assert(r@.command_sets =~= Seq::<CommandSetV>::empty());
        }
        r
    }
}

/// Generation is deterministic: validation and the rendered text are
/// functions of the switcher's mathematical image alone, so two calls of
/// `generate` on models with equal images return byte-identical results.
pub proof fn lemma_generate_deterministic(a: KeybindSwitcher, b: KeybindSwitcher)
    requires
        a@ == b@,
    ensures
        a.gen_ok() == b.gen_ok(),
        a.gen_text() == b.gen_text(),
        a.gen_err_kind() == b.gen_err_kind(),
        a.gen_err_msg() == b.gen_err_msg(),
{
}

} // verus!
