use source_keybind_switcher::data::export_switcher;
use source_keybind_switcher::data::import_switcher;
use source_keybind_switcher::error::ErrorKind;
use source_keybind_switcher::json_value::JsonValue;
use source_keybind_switcher::keybind_switcher::CommandBind;
use source_keybind_switcher::keybind_switcher::CommandSet;
use source_keybind_switcher::keybind_switcher::KeybindSwitcher;

fn s(str: &str) -> String {
    str.to_string()
}

fn linked_switcher() -> KeybindSwitcher {
    let cmds = vec![
        CommandSet::new(
            s("first"),
            s("third"),
            s("second"),
            vec![
                CommandBind::new(s("a"), s("echo kill")),
                CommandBind::new(s("s"), s("echo sex")),
            ],
        ),
        CommandSet::new(s("second"), s("first"), s("third"), vec![CommandBind::new(
            s("a"),
            s("echo blowjob"),
        )]),
        CommandSet::new(s("third"), s("second"), s("first"), Vec::new()),
    ];
    KeybindSwitcher::new(s("test"), s("pgup"), s("pgdn"), cmds)
}

#[test]
fn export_import_round_trip() {
    let model = linked_switcher();
    let doc = export_switcher(&model);
    let back = import_switcher(&doc).unwrap();
    assert_eq!(back, model);
}

#[test]
fn export_import_round_trip_unlinked() {
    let cmds = vec![
        CommandSet::new(s("x"), s(""), s(""), vec![CommandBind::new(s(""), s(""))]),
        CommandSet::new(s(""), s(""), s(""), Vec::new()),
    ];
    let model = KeybindSwitcher::new(s(""), s(""), s(""), cmds);
    let doc = export_switcher(&model);
    let back = import_switcher(&doc).unwrap();
    assert_eq!(back, model);
}

#[test]
fn export_shape_is_the_persisted_form() {
    let model = linked_switcher();
    let doc = export_switcher(&model);
    match doc {
        JsonValue::Object(members) => {
            assert_eq!(members.len(), 4);
            assert_eq!(members[0].0, "name");
            assert_eq!(members[0].1, JsonValue::Text(s("test")));
            assert_eq!(members[1].0, "key_next");
            assert_eq!(members[1].1, JsonValue::Text(s("pgup")));
            assert_eq!(members[2].0, "key_previous");
            assert_eq!(members[2].1, JsonValue::Text(s("pgdn")));
            assert_eq!(members[3].0, "command_sets");
            match &members[3].1 {
                JsonValue::Array(sets) => {
                    assert_eq!(sets.len(), 3);
                    match &sets[0] {
                        JsonValue::Object(set) => {
                            assert_eq!(set[0], (s("name"), JsonValue::Text(s("first"))));
                            assert_eq!(set[1], (s("previous_set"), JsonValue::Text(s("third"))));
                            assert_eq!(set[2], (s("next_set"), JsonValue::Text(s("second"))));
                            assert_eq!(set[3].0, "command_binds");
                        },
                        _ => panic!("set is not an object"),
                    }
                },
                _ => panic!("command_sets is not an array"),
            }
        },
        _ => panic!("exported document is not an object"),
    }
}

#[test]
fn import_rejects_non_object_document() {
    let e = import_switcher(&JsonValue::Other).unwrap_err();
    assert_eq!(e.kind, ErrorKind::JsonInvalidType);
    assert_eq!(e.msg, "switcher document has to be an object type");
}

#[test]
fn import_rejects_missing_fields() {
    let doc = JsonValue::Object(vec![(s("name"), JsonValue::Text(s("t")))]);
    let e = import_switcher(&doc).unwrap_err();
    assert_eq!(e.kind, ErrorKind::JsonInvalidType);
    assert_eq!(e.msg, "`key_next` has to be a string type");
}

#[test]
fn import_rejects_non_array_command_sets() {
    let doc = JsonValue::Object(vec![
        (s("name"), JsonValue::Text(s("t"))),
        (s("key_next"), JsonValue::Text(s("pgup"))),
        (s("key_previous"), JsonValue::Text(s("pgdn"))),
        (s("command_sets"), JsonValue::Text(s("nope"))),
    ]);
    let e = import_switcher(&doc).unwrap_err();
    assert_eq!(e.kind, ErrorKind::JsonInvalidType);
    assert_eq!(e.msg, "`command_sets` has to be an array type");
}

#[test]
fn import_rejects_malformed_bind() {
    let bind = JsonValue::Object(vec![(s("key"), JsonValue::Text(s("a")))]);
    let set = JsonValue::Object(vec![
        (s("name"), JsonValue::Text(s("first"))),
        (s("previous_set"), JsonValue::Text(s("second"))),
        (s("next_set"), JsonValue::Text(s("second"))),
        (s("command_binds"), JsonValue::Array(vec![bind])),
    ]);
    let doc = JsonValue::Object(vec![
        (s("name"), JsonValue::Text(s("t"))),
        (s("key_next"), JsonValue::Text(s("pgup"))),
        (s("key_previous"), JsonValue::Text(s("pgdn"))),
        (s("command_sets"), JsonValue::Array(vec![set])),
    ]);
    let e = import_switcher(&doc).unwrap_err();
    assert_eq!(e.kind, ErrorKind::JsonInvalidType);
    assert_eq!(e.msg, "`command` has to be a string type");
}

#[test]
fn import_accepts_members_in_any_order() {
    let doc = JsonValue::Object(vec![
        (s("command_sets"), JsonValue::Array(Vec::new())),
        (s("key_previous"), JsonValue::Text(s("pgdn"))),
        (s("name"), JsonValue::Text(s("t"))),
        (s("key_next"), JsonValue::Text(s("pgup"))),
    ]);
    let back = import_switcher(&doc).unwrap();
    assert_eq!(back, KeybindSwitcher::new(s("t"), s("pgup"), s("pgdn"), Vec::new()));
}
