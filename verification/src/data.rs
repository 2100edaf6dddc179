//! The persisted form of a switcher: the JSON shape it serializes to and is
//! parsed back from, including the derived link fields, so that an exported
//! model reimports identically.

use vstd::prelude::*;

use crate::error::Error;
use crate::error::ErrorKind;
use crate::json_value::spec_lookup;
use crate::json_value::JsonValue;
use crate::keybind_switcher::CommandBind;
use crate::keybind_switcher::CommandBindV;
use crate::keybind_switcher::CommandSet;
use crate::keybind_switcher::CommandSetV;
use crate::keybind_switcher::KeybindSwitcher;
use crate::keybind_switcher::KeybindSwitcherV;

verus! {

// ---------------------------------------------------------------------------
// The exported shape, characterized member for member.
// ---------------------------------------------------------------------------

/// `j` is the exported form of the bind `b`: an object holding exactly
/// `key` and `command`, in that order, as strings.
pub open spec fn is_bind_export(j: JsonValue, b: CommandBindV) -> bool {
    match j {
        JsonValue::Object(m) => {
            &&& m@.len() == 2
            &&& m@[0].0@ == "key"@
            &&& (match m@[0].1 {
                JsonValue::Text(s) => s@ == b.key,
                _ => false,
            })
            &&& m@[1].0@ == "command"@
            &&& (match m@[1].1 {
                JsonValue::Text(s) => s@ == b.command,
                _ => false,
            })
        },
        _ => false,
    }
}

/// `j` is the exported form of the set `cs`: an object holding exactly
/// `name`, `previous_set`, `next_set` and `command_binds`, in that order,
/// the first three as strings and the last as the array of the binds'
/// exported forms.
pub open spec fn is_set_export(j: JsonValue, cs: CommandSetV) -> bool {
    match j {
        JsonValue::Object(m) => {
            &&& m@.len() == 4
            &&& m@[0].0@ == "name"@
            &&& (match m@[0].1 {
                JsonValue::Text(s) => s@ == cs.name,
                _ => false,
            })
            &&& m@[1].0@ == "previous_set"@
            &&& (match m@[1].1 {
                JsonValue::Text(s) => s@ == cs.previous_set,
                _ => false,
            })
            &&& m@[2].0@ == "next_set"@
            &&& (match m@[2].1 {
                JsonValue::Text(s) => s@ == cs.next_set,
                _ => false,
            })
            &&& m@[3].0@ == "command_binds"@
            &&& (match m@[3].1 {
                JsonValue::Array(items) => {
                    &&& items@.len() == cs.command_binds.len()
                    &&& forall|k: int|
                        0 <= k < items@.len() ==> is_bind_export(
                            #[trigger] items@[k],
                            cs.command_binds[k],
                        )
                },
                _ => false,
            })
        },
        _ => false,
    }
}

/// `j` is the exported form of the switcher `sw`: an object holding exactly
/// `name`, `key_next`, `key_previous` and `command_sets`, in that order,
/// the first three as strings and the last as the array of the sets'
/// exported forms.
pub open spec fn is_switcher_export(j: JsonValue, sw: KeybindSwitcherV) -> bool {
    match j {
        JsonValue::Object(m) => {
            &&& m@.len() == 4
            &&& m@[0].0@ == "name"@
            &&& (match m@[0].1 {
                JsonValue::Text(s) => s@ == sw.name,
                _ => false,
            })
            &&& m@[1].0@ == "key_next"@
            &&& (match m@[1].1 {
                JsonValue::Text(s) => s@ == sw.key_next,
                _ => false,
            })
            &&& m@[2].0@ == "key_previous"@
            &&& (match m@[2].1 {
                JsonValue::Text(s) => s@ == sw.key_previous,
                _ => false,
            })
            &&& m@[3].0@ == "command_sets"@
            &&& (match m@[3].1 {
                JsonValue::Array(items) => {
                    &&& items@.len() == sw.command_sets.len()
                    &&& forall|k: int|
                        0 <= k < items@.len() ==> is_set_export(
                            #[trigger] items@[k],
                            sw.command_sets[k],
                        )
                },
                _ => false,
            })
        },
        _ => false,
    }
}

// ---------------------------------------------------------------------------
// What the importer returns, for every input.
// ---------------------------------------------------------------------------

/// Decode one bind: `key` and `command` must be string members.
pub open spec fn spec_import_bind(j: JsonValue) -> Result<CommandBindV, Seq<char>> {
    match spec_lookup(j.members(), "key"@) {
        Some(JsonValue::Text(k)) => match spec_lookup(j.members(), "command"@) {
            Some(JsonValue::Text(c)) => Ok(CommandBindV { key: k@, command: c@ }),
            _ => Err("`command` has to be a string type"@),
        },
        _ => Err("`key` has to be a string type"@),
    }
}

/// Decode the binds array of one set, element by element from index `j`.
pub open spec fn spec_import_binds(items: Seq<JsonValue>, j: int) -> Result<
    Seq<CommandBindV>,
    Seq<char>,
>
    decreases items.len() - j,
{
    if j < 0 || j >= items.len() {
        Ok(Seq::empty())
    } else {
        match spec_import_bind(items[j]) {
            Ok(b) => match spec_import_binds(items, j + 1) {
                Ok(rest) => Ok(seq![b] + rest),
                Err(m) => Err(m),
            },
            Err(m) => Err(m),
        }
    }
}

/// Decode one command set: `name`, `previous_set` and `next_set` must be
/// string members and `command_binds` an array of well-formed binds.
pub open spec fn spec_import_set(j: JsonValue) -> Result<CommandSetV, Seq<char>> {
    match spec_lookup(j.members(), "name"@) {
        Some(JsonValue::Text(nm)) => match spec_lookup(j.members(), "previous_set"@) {
            Some(JsonValue::Text(p)) => match spec_lookup(j.members(), "next_set"@) {
                Some(JsonValue::Text(nx)) => match spec_lookup(j.members(), "command_binds"@) {
                    Some(JsonValue::Array(items)) => match spec_import_binds(items@, 0) {
                        Ok(binds) => Ok(
                            CommandSetV {
                                name: nm@,
                                previous_set: p@,
                                next_set: nx@,
                                command_binds: binds,
                            },
                        ),
                        Err(m) => Err(m),
                    },
                    _ => Err("`command_binds` has to be an array type"@),
                },
                _ => Err("`next_set` has to be a string type"@),
            },
            _ => Err("`previous_set` has to be a string type"@),
        },
        _ => Err("`name` has to be a string type"@),
    }
}

/// Decode the sets array of a switcher, element by element from index `i`.
pub open spec fn spec_import_sets(items: Seq<JsonValue>, i: int) -> Result<
    Seq<CommandSetV>,
    Seq<char>,
>
    decreases items.len() - i,
{
    if i < 0 || i >= items.len() {
        Ok(Seq::empty())
    } else {
        match spec_import_set(items[i]) {
            Ok(cs) => match spec_import_sets(items, i + 1) {
                Ok(rest) => Ok(seq![cs] + rest),
                Err(m) => Err(m),
            },
            Err(m) => Err(m),
        }
    }
}

/// Decode a whole switcher document.
pub open spec fn spec_import_switcher(j: JsonValue) -> Result<KeybindSwitcherV, Seq<char>> {
    if !j.is_object() {
        Err("switcher document has to be an object type"@)
    } else {
        match spec_lookup(j.members(), "name"@) {
            Some(JsonValue::Text(nm)) => match spec_lookup(j.members(), "key_next"@) {
                Some(JsonValue::Text(kn)) => match spec_lookup(j.members(), "key_previous"@) {
                    Some(JsonValue::Text(kp)) => match spec_lookup(j.members(), "command_sets"@) {
                        Some(JsonValue::Array(items)) => match spec_import_sets(items@, 0) {
                            Ok(sets) => Ok(
                                KeybindSwitcherV {
                                    name: nm@,
                                    key_next: kn@,
                                    key_previous: kp@,
                                    command_sets: sets,
                                },
                            ),
                            Err(m) => Err(m),
                        },
                        _ => Err("`command_sets` has to be an array type"@),
                    },
                    _ => Err("`key_previous` has to be a string type"@),
                },
                _ => Err("`key_next` has to be a string type"@),
            },
            _ => Err("`name` has to be a string type"@),
        }
    }
}

// ---------------------------------------------------------------------------
// The executable exporter and importer.
// ---------------------------------------------------------------------------

fn export_bind(b: &CommandBind) -> (r: JsonValue)
    ensures
        is_bind_export(r, b@),
{
    let mut m: Vec<(String, JsonValue)> = Vec::new();
    m.push((String::from_str("key"), JsonValue::Text(b.key.clone())));
    m.push((String::from_str("command"), JsonValue::Text(b.command.clone())));
    JsonValue::Object(m)
}

#[verifier::loop_isolation(false)]
fn export_set(cs: &CommandSet) -> (r: JsonValue)
    ensures
        is_set_export(r, cs@),
{
    let mut binds: Vec<JsonValue> = Vec::new();
    let n: usize = cs.command_binds.len();
    let mut i: usize = 0;
    while i < n
        invariant
            i <= n,
            binds@.len() == i,
            forall|k: int|
                0 <= k < i ==> is_bind_export(#[trigger] binds@[k], cs@.command_binds[k]),
        decreases n - i,
    {
        binds.push(export_bind(&cs.command_binds[i]));
        i = i + 1;
    }
    let mut m: Vec<(String, JsonValue)> = Vec::new();
    m.push((String::from_str("name"), JsonValue::Text(cs.name.clone())));
    m.push((String::from_str("previous_set"), JsonValue::Text(cs.previous_set.clone())));
    m.push((String::from_str("next_set"), JsonValue::Text(cs.next_set.clone())));
    m.push((String::from_str("command_binds"), JsonValue::Array(binds)));
    JsonValue::Object(m)
}

/// Encode a switcher into its persisted JSON shape, derived link fields
/// included; the collaborator that owns the file turns it into text.
#[verifier::loop_isolation(false)]
pub fn export_switcher(kbsw: &KeybindSwitcher) -> (r: JsonValue)
    ensures
        is_switcher_export(r, kbsw@),
{
    let mut sets: Vec<JsonValue> = Vec::new();
    let n: usize = kbsw.command_sets.len();
    let mut i: usize = 0;
    while i < n
        invariant
            i <= n,
            sets@.len() == i,
            forall|k: int| 0 <= k < i ==> is_set_export(#[trigger] sets@[k], kbsw@.command_sets[k]),
        decreases n - i,
    {
        sets.push(export_set(&kbsw.command_sets[i]));
        i = i + 1;
    }
    let mut m: Vec<(String, JsonValue)> = Vec::new();
    m.push((String::from_str("name"), JsonValue::Text(kbsw.name.clone())));
    m.push((String::from_str("key_next"), JsonValue::Text(kbsw.key_next.clone())));
    m.push((String::from_str("key_previous"), JsonValue::Text(kbsw.key_previous.clone())));
    m.push((String::from_str("command_sets"), JsonValue::Array(sets)));
    JsonValue::Object(m)
}

fn import_bind(j: &JsonValue) -> (r: Result<CommandBind, Error>)
    ensures
        (match spec_import_bind(*j) {
            Ok(v) => r matches Ok(b) && b@ == v,
            Err(m) => r matches Err(e) && e.kind == ErrorKind::JsonInvalidType && e.msg@ == m,
        }),
{
    let members: &Vec<(String, JsonValue)> = match j {
        JsonValue::Object(m) => m,
        _ => {
            return Err(
                Error::new(
                    ErrorKind::JsonInvalidType,
                    String::from_str("`key` has to be a string type"),
                ),
            );
        },
    };
    let key: String = match JsonValue::lookup(members, "key") {
        Some(JsonValue::Text(k)) => k.clone(),
        _ => {
            return Err(
                Error::new(
                    ErrorKind::JsonInvalidType,
                    String::from_str("`key` has to be a string type"),
                ),
            );
        },
    };
    let command: String = match JsonValue::lookup(members, "command") {
        Some(JsonValue::Text(c)) => c.clone(),
        _ => {
            return Err(
                Error::new(
                    ErrorKind::JsonInvalidType,
                    String::from_str("`command` has to be a string type"),
                ),
            );
        },
    };
    Ok(CommandBind { key, command })
}

#[verifier::loop_isolation(false)]
fn import_set(j: &JsonValue) -> (r: Result<CommandSet, Error>)
    ensures
        (match spec_import_set(*j) {
            Ok(v) => r matches Ok(cs) && cs@ == v,
            Err(m) => r matches Err(e) && e.kind == ErrorKind::JsonInvalidType && e.msg@ == m,
        }),
{
    let members: &Vec<(String, JsonValue)> = match j {
        JsonValue::Object(m) => m,
        _ => {
            return Err(
                Error::new(
                    ErrorKind::JsonInvalidType,
                    String::from_str("`name` has to be a string type"),
                ),
            );
        },
    };
    let name: String = match JsonValue::lookup(members, "name") {
        Some(JsonValue::Text(s)) => s.clone(),
        _ => {
            return Err(
                Error::new(
                    ErrorKind::JsonInvalidType,
                    String::from_str("`name` has to be a string type"),
                ),
            );
        },
    };
    let previous_set: String = match JsonValue::lookup(members, "previous_set") {
        Some(JsonValue::Text(s)) => s.clone(),
        _ => {
            return Err(
                Error::new(
                    ErrorKind::JsonInvalidType,
                    String::from_str("`previous_set` has to be a string type"),
                ),
            );
        },
    };
    let next_set: String = match JsonValue::lookup(members, "next_set") {
        Some(JsonValue::Text(s)) => s.clone(),
        _ => {
            return Err(
                Error::new(
                    ErrorKind::JsonInvalidType,
                    String::from_str("`next_set` has to be a string type"),
                ),
            );
        },
    };
    let bind_items: &Vec<JsonValue> = match JsonValue::lookup(members, "command_binds") {
        Some(JsonValue::Array(items)) => items,
        _ => {
            return Err(
                Error::new(
                    ErrorKind::JsonInvalidType,
                    String::from_str("`command_binds` has to be an array type"),
                ),
            );
        },
    };
    let mut command_binds: Vec<CommandBind> = Vec::new();
    let n: usize = bind_items.len();
    let mut idx: usize = 0;
    proof {
        assert(command_binds@.map_values(|b: CommandBind| b@) =~= Seq::<CommandBindV>::empty());
    }
    while idx < n
        invariant
            idx <= n,
            (match spec_import_binds(bind_items@, idx as int) {
                Ok(rest) => spec_import_binds(bind_items@, 0) == Ok::<_, Seq<char>>(
                    command_binds@.map_values(|b: CommandBind| b@) + rest,
                ),
                Err(m) => spec_import_binds(bind_items@, 0) == Err::<Seq<CommandBindV>, _>(m),
            }),
        decreases n - idx,
    {
        let b = match import_bind(&bind_items[idx]) {
            Ok(b) => b,
            Err(e) => {
                return Err(e);
            },
        };
        let ghost before = command_binds@.map_values(|b: CommandBind| b@);
        command_binds.push(b);
        proof {
            assert(command_binds@.map_values(|b: CommandBind| b@) =~= before + seq![b@]);
            assert(before + (seq![b@] + spec_import_binds(bind_items@, idx as int + 1)->Ok_0) =~= (
            before + seq![b@]) + spec_import_binds(bind_items@, idx as int + 1)->Ok_0);
        }
        idx = idx + 1;
    }
    proof {
        assert(command_binds@.map_values(|b: CommandBind| b@) + Seq::<CommandBindV>::empty()
            =~= command_binds@.map_values(|b: CommandBind| b@));
    }
    Ok(CommandSet { name, previous_set, next_set, command_binds })
}

/// Decode a switcher from its persisted JSON shape.
#[verifier::loop_isolation(false)]
pub fn import_switcher(j: &JsonValue) -> (r: Result<KeybindSwitcher, Error>)
    ensures
        (match spec_import_switcher(*j) {
            Ok(v) => r matches Ok(sw) && sw@ == v,
            Err(m) => r matches Err(e) && e.kind == ErrorKind::JsonInvalidType && e.msg@ == m,
        }),
{
    let members: &Vec<(String, JsonValue)> = match j {
        JsonValue::Object(m) => m,
        _ => {
            return Err(
                Error::new(
                    ErrorKind::JsonInvalidType,
                    String::from_str("switcher document has to be an object type"),
                ),
            );
        },
    };
    let name: String = match JsonValue::lookup(members, "name") {
        Some(JsonValue::Text(s)) => s.clone(),
        _ => {
            return Err(
                Error::new(
                    ErrorKind::JsonInvalidType,
                    String::from_str("`name` has to be a string type"),
                ),
            );
        },
    };
    let key_next: String = match JsonValue::lookup(members, "key_next") {
        Some(JsonValue::Text(s)) => s.clone(),
        _ => {
            return Err(
                Error::new(
                    ErrorKind::JsonInvalidType,
                    String::from_str("`key_next` has to be a string type"),
                ),
            );
        },
    };
    let key_previous: String = match JsonValue::lookup(members, "key_previous") {
        Some(JsonValue::Text(s)) => s.clone(),
        _ => {
            return Err(
                Error::new(
                    ErrorKind::JsonInvalidType,
                    String::from_str("`key_previous` has to be a string type"),
                ),
            );
        },
    };
    let set_items: &Vec<JsonValue> = match JsonValue::lookup(members, "command_sets") {
        Some(JsonValue::Array(items)) => items,
        _ => {
            return Err(
                Error::new(
                    ErrorKind::JsonInvalidType,
                    String::from_str("`command_sets` has to be an array type"),
                ),
            );
        },
    };
    let mut command_sets: Vec<CommandSet> = Vec::new();
    let n: usize = set_items.len();
    let mut idx: usize = 0;
    proof {
        assert(command_sets@.map_values(|cs: CommandSet| cs@) =~= Seq::<CommandSetV>::empty());
    }
    while idx < n
        invariant
            idx <= n,
            (match spec_import_sets(set_items@, idx as int) {
                Ok(rest) => spec_import_sets(set_items@, 0) == Ok::<_, Seq<char>>(
                    command_sets@.map_values(|cs: CommandSet| cs@) + rest,
                ),
                Err(m) => spec_import_sets(set_items@, 0) == Err::<Seq<CommandSetV>, _>(m),
            }),
        decreases n - idx,
    {
        let cs = match import_set(&set_items[idx]) {
            Ok(cs) => cs,
            Err(e) => {
                return Err(e);
            },
        };
        let ghost before = command_sets@.map_values(|cs: CommandSet| cs@);
        command_sets.push(cs);
        proof {
            assert(command_sets@.map_values(|cs: CommandSet| cs@) =~= before + seq![cs@]);
            assert(before + (seq![cs@] + spec_import_sets(set_items@, idx as int + 1)->Ok_0) =~= (
            before + seq![cs@]) + spec_import_sets(set_items@, idx as int + 1)->Ok_0);
        }
        idx = idx + 1;
    }
    proof {
        assert(command_sets@.map_values(|cs: CommandSet| cs@) + Seq::<CommandSetV>::empty()
            =~= command_sets@.map_values(|cs: CommandSet| cs@));
    }
    Ok(KeybindSwitcher { name, key_next, key_previous, command_sets })
}

// ---------------------------------------------------------------------------
// The round trip: importing an exported switcher reproduces it.
// ---------------------------------------------------------------------------

/// The member names of the persisted shapes are pairwise distinct, as far as
/// a lookup ever has to tell them apart.
proof fn lemma_field_names_distinct()
    ensures
        "key"@ != "command"@,
        "name"@ != "previous_set"@,
        "name"@ != "next_set"@,
        "name"@ != "command_binds"@,
        "previous_set"@ != "next_set"@,
        "previous_set"@ != "command_binds"@,
        "next_set"@ != "command_binds"@,
        "name"@ != "key_next"@,
        "name"@ != "key_previous"@,
        "name"@ != "command_sets"@,
        "key_next"@ != "key_previous"@,
        "key_next"@ != "command_sets"@,
        "key_previous"@ != "command_sets"@,
{
    reveal_strlit("key");
    reveal_strlit("command");
    reveal_strlit("name");
    reveal_strlit("previous_set");
    reveal_strlit("next_set");
    reveal_strlit("command_binds");
    reveal_strlit("key_next");
    reveal_strlit("key_previous");
    reveal_strlit("command_sets");
    assert("key"@.len() == 3);
    assert("command"@.len() == 7);
    assert("name"@.len() == 4);
    assert("previous_set"@.len() == 12);
    assert("next_set"@.len() == 8);
    assert("command_binds"@.len() == 13);
    assert("key_next"@.len() == 8);
    assert("key_previous"@.len() == 12);
    assert("command_sets"@.len() == 12);
    assert("key_previous"@[0] == 'k');
    assert("command_sets"@[0] == 'c');
}

proof fn lemma_bind_round_trip(j: JsonValue, b: CommandBindV)
    requires
        is_bind_export(j, b),
    ensures
        spec_import_bind(j) == Ok::<_, Seq<char>>(b),
{
    lemma_field_names_distinct();
    let m = j.members();
    let t1 = m.drop_first();
    assert(t1[0] == m[1]);
    assert(spec_lookup(m, "key"@) == Some(m[0].1));
    assert(spec_lookup(m, "command"@) == spec_lookup(t1, "command"@));
    assert(spec_lookup(t1, "command"@) == Some(m[1].1));
}

proof fn lemma_binds_round_trip(items: Seq<JsonValue>, binds: Seq<CommandBindV>, j: int)
    requires
        items.len() == binds.len(),
        0 <= j <= items.len(),
        forall|k: int| 0 <= k < items.len() ==> is_bind_export(#[trigger] items[k], binds[k]),
    ensures
        spec_import_binds(items, j) == Ok::<_, Seq<char>>(binds.skip(j)),
    decreases items.len() - j,
{
    if j == items.len() {
        assert(binds.skip(j) =~= Seq::<CommandBindV>::empty());
    } else {
        lemma_bind_round_trip(items[j], binds[j]);
        lemma_binds_round_trip(items, binds, j + 1);
        assert(seq![binds[j]] + binds.skip(j + 1) =~= binds.skip(j));
    }
}

proof fn lemma_set_round_trip(j: JsonValue, cs: CommandSetV)
    requires
        is_set_export(j, cs),
    ensures
        spec_import_set(j) == Ok::<_, Seq<char>>(cs),
{
    lemma_field_names_distinct();
    let m = j.members();
    let t1 = m.drop_first();
    let t2 = t1.drop_first();
    let t3 = t2.drop_first();
    assert(t1[0] == m[1]);
    assert(t2[0] == m[2]);
    assert(t3[0] == m[3]);
    assert(spec_lookup(m, "name"@) == Some(m[0].1));
    assert(spec_lookup(m, "previous_set"@) == spec_lookup(t1, "previous_set"@));
    assert(spec_lookup(t1, "previous_set"@) == Some(m[1].1));
    assert(spec_lookup(m, "next_set"@) == spec_lookup(t1, "next_set"@));
    assert(spec_lookup(t1, "next_set"@) == spec_lookup(t2, "next_set"@));
    assert(spec_lookup(t2, "next_set"@) == Some(m[2].1));
    assert(spec_lookup(m, "command_binds"@) == spec_lookup(t1, "command_binds"@));
    assert(spec_lookup(t1, "command_binds"@) == spec_lookup(t2, "command_binds"@));
    assert(spec_lookup(t2, "command_binds"@) == spec_lookup(t3, "command_binds"@));
    assert(spec_lookup(t3, "command_binds"@) == Some(m[3].1));
    match m[3].1 {
        JsonValue::Array(items) => {
            lemma_binds_round_trip(items@, cs.command_binds, 0);
            assert(cs.command_binds.skip(0) =~= cs.command_binds);
        },
        _ => {},
    }
}

proof fn lemma_sets_round_trip(items: Seq<JsonValue>, sets: Seq<CommandSetV>, i: int)
    requires
        items.len() == sets.len(),
        0 <= i <= items.len(),
        forall|k: int| 0 <= k < items.len() ==> is_set_export(#[trigger] items[k], sets[k]),
    ensures
        spec_import_sets(items, i) == Ok::<_, Seq<char>>(sets.skip(i)),
    decreases items.len() - i,
{
    if i == items.len() {
        assert(sets.skip(i) =~= Seq::<CommandSetV>::empty());
    } else {
        lemma_set_round_trip(items[i], sets[i]);
        lemma_sets_round_trip(items, sets, i + 1);
        assert(seq![sets[i]] + sets.skip(i + 1) =~= sets.skip(i));
    }
}

/// The round trip: a document that is the exported form of a switcher
/// imports back to exactly that switcher, derived link fields included.
/// Together with the contracts of [`export_switcher`] and
/// [`import_switcher`], importing what was exported reproduces the model.
pub proof fn lemma_export_import_round_trip(j: JsonValue, sw: KeybindSwitcherV)
    requires
        is_switcher_export(j, sw),
    ensures
        spec_import_switcher(j) == Ok::<_, Seq<char>>(sw),
{
    lemma_field_names_distinct();
    let m = j.members();
    let t1 = m.drop_first();
    let t2 = t1.drop_first();
    let t3 = t2.drop_first();
    assert(t1[0] == m[1]);
    assert(t2[0] == m[2]);
    assert(t3[0] == m[3]);
    assert(spec_lookup(m, "name"@) == Some(m[0].1));
    assert(spec_lookup(m, "key_next"@) == spec_lookup(t1, "key_next"@));
    assert(spec_lookup(t1, "key_next"@) == Some(m[1].1));
    assert(spec_lookup(m, "key_previous"@) == spec_lookup(t1, "key_previous"@));
    assert(spec_lookup(t1, "key_previous"@) == spec_lookup(t2, "key_previous"@));
    assert(spec_lookup(t2, "key_previous"@) == Some(m[2].1));
    assert(spec_lookup(m, "command_sets"@) == spec_lookup(t1, "command_sets"@));
    assert(spec_lookup(t1, "command_sets"@) == spec_lookup(t2, "command_sets"@));
    assert(spec_lookup(t2, "command_sets"@) == spec_lookup(t3, "command_sets"@));
    assert(spec_lookup(t3, "command_sets"@) == Some(m[3].1));
    match m[3].1 {
        JsonValue::Array(items) => {
            lemma_sets_round_trip(items@, sw.command_sets, 0);
            assert(sw.command_sets.skip(0) =~= sw.command_sets);
        },
        _ => {},
    }
}

} // verus!
