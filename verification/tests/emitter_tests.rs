use source_keybind_switcher::error::ErrorKind;
use source_keybind_switcher::json_usage::item_shop::ItemShopCommand;
use source_keybind_switcher::keybind_switcher::CommandBind;
use source_keybind_switcher::keybind_switcher::CommandSet;
use source_keybind_switcher::keybind_switcher::KeybindSwitcher;
use source_keybind_switcher::GenerateCommand;

fn s(str: &str) -> String {
    str.to_string()
}

fn three_set_switcher() -> KeybindSwitcher {
    let cmds = vec![
        CommandSet::new(
            s("first"),
            s("third"),
            s("second"),
            vec![
                CommandBind::new(s("a"), s("echo kill")),
                CommandBind::new(s("s"), s("echo sex")),
            ],
        ),
        CommandSet::new(
            s("second"),
            s("first"),
            s("third"),
            vec![
                CommandBind::new(s("a"), s("echo blowjob")),
                CommandBind::new(s("a"), s("echo givehead")),
            ],
        ),
        CommandSet::new(
            s("third"),
            s("second"),
            s("first"),
            vec![
                CommandBind::new(s("a"), s("echo drink)")),
                CommandBind::new(s("a"), s("echo eat")),
            ],
        ),
    ];
    KeybindSwitcher::new(s("test"), s("pgup"), s("pgdn"), cmds)
}

#[test]
fn generate_exact_output() {
    let g = three_set_switcher().generate().unwrap();
    let mut expected = String::new();
    expected.push_str("//Keybind Switcher test\n");
    expected.push_str("alias \"_sw_first\" \"bind pgup _sw_second;bind pgdn _sw_third;_sw_first_cmds\"\n");
    expected.push_str("alias \"_sw_first_cmd0\" bind a echo kill\n");
    expected.push_str("alias \"_sw_first_cmd1\" bind s echo sex\n");
    expected.push_str("alias \"_sw_first_cmds\" \"echo Switched test.first;_sw_first_cmd0;_sw_first_cmd1;\"\n");
    expected.push_str("\n");
    expected.push_str("alias \"_sw_second\" \"bind pgup _sw_third;bind pgdn _sw_first;_sw_second_cmds\"\n");
    expected.push_str("alias \"_sw_second_cmd0\" bind a echo blowjob\n");
    expected.push_str("alias \"_sw_second_cmd1\" bind a echo givehead\n");
    expected.push_str("alias \"_sw_second_cmds\" \"echo Switched test.second;_sw_second_cmd0;_sw_second_cmd1;\"\n");
    expected.push_str("\n");
    expected.push_str("alias \"_sw_third\" \"bind pgup _sw_first;bind pgdn _sw_second;_sw_third_cmds\"\n");
    expected.push_str("alias \"_sw_third_cmd0\" bind a echo drink)\n");
    expected.push_str("alias \"_sw_third_cmd1\" bind a echo eat\n");
    expected.push_str("alias \"_sw_third_cmds\" \"echo Switched test.third;_sw_third_cmd0;_sw_third_cmd1;\"\n");
    expected.push_str("\n");
    expected.push_str("_sw_first\n");
    assert_eq!(g, expected);
}

#[test]
fn end_to_end_linked_three_set_ring() {
    let cmds = vec![
        CommandSet::new(s("first"), s(""), s(""), vec![CommandBind::new(s("1"), s("echo one"))]),
        CommandSet::new(s("second"), s(""), s(""), vec![CommandBind::new(s("2"), s("echo two"))]),
        CommandSet::new(s("third"), s(""), s(""), vec![CommandBind::new(s("3"), s("echo three"))]),
    ];
    let mut kbsw = KeybindSwitcher::new(s("test"), s("pgup"), s("pgdn"), cmds);
    kbsw.index_command_sets_by_index().unwrap();
    let g = kbsw.generate().unwrap();
    let mut expected = String::new();
    expected.push_str("//Keybind Switcher test\n");
    expected.push_str("alias \"_sw_first\" \"bind pgup _sw_second;bind pgdn _sw_third;_sw_first_cmds\"\n");
    expected.push_str("alias \"_sw_first_cmd0\" bind 1 echo one\n");
    expected.push_str("alias \"_sw_first_cmds\" \"echo Switched test.first;_sw_first_cmd0;\"\n");
    expected.push_str("\n");
    expected.push_str("alias \"_sw_second\" \"bind pgup _sw_third;bind pgdn _sw_first;_sw_second_cmds\"\n");
    expected.push_str("alias \"_sw_second_cmd0\" bind 2 echo two\n");
    expected.push_str("alias \"_sw_second_cmds\" \"echo Switched test.second;_sw_second_cmd0;\"\n");
    expected.push_str("\n");
    expected.push_str("alias \"_sw_third\" \"bind pgup _sw_first;bind pgdn _sw_second;_sw_third_cmds\"\n");
    expected.push_str("alias \"_sw_third_cmd0\" bind 3 echo three\n");
    expected.push_str("alias \"_sw_third_cmds\" \"echo Switched test.third;_sw_third_cmd0;\"\n");
    expected.push_str("\n");
    expected.push_str("_sw_first\n");
    assert_eq!(g, expected);
}

#[test]
fn generate_is_deterministic() {
    let first = three_set_switcher().generate().unwrap();
    let second = three_set_switcher().generate().unwrap();
    assert_eq!(first, second);
}

#[test]
fn generate_two_digit_bind_indices() {
    let mut binds = Vec::new();
    for k in 0..12 {
        binds.push(CommandBind::new(s("a"), format!("echo n{}", k)));
    }
    let cmds = vec![
        CommandSet::new(s("first"), s("second"), s("second"), binds),
        CommandSet::new(s("second"), s("first"), s("first"), vec![CommandBind::new(
            s("b"),
            s("echo other"),
        )]),
    ];
    let kbsw = KeybindSwitcher::new(s("big"), s("pgup"), s("pgdn"), cmds);
    let g = kbsw.generate().unwrap();
    assert!(g.contains("alias \"_sw_first_cmd10\" bind a echo n10\n"));
    assert!(g.contains("alias \"_sw_first_cmd11\" bind a echo n11\n"));
    assert!(g.contains("_sw_first_cmd9;_sw_first_cmd10;_sw_first_cmd11;\"\n"));
}

#[test]
fn generate_fails_under_two_sets() {
    let cmds = vec![CommandSet::new(s("only"), s("only"), s("only"), vec![
        CommandBind::new(s("a"), s("echo lonely")),
    ])];
    let kbsw = KeybindSwitcher::new(s("test"), s("pgup"), s("pgdn"), cmds);
    let e = kbsw.generate().unwrap_err();
    assert_eq!(e.kind, ErrorKind::CommandSetLenUnder2);
    assert_eq!(e.msg, "Command Set have to be more than 2 for this to works properly");

    let empty = KeybindSwitcher::new(s("test"), s("pgup"), s("pgdn"), Vec::new());
    let e = empty.generate().unwrap_err();
    assert_eq!(e.kind, ErrorKind::CommandSetLenUnder2);
}

fn two_sets() -> Vec<CommandSet> {
    vec![
        CommandSet::new(s("first"), s("second"), s("second"), vec![CommandBind::new(
            s("a"),
            s("echo one"),
        )]),
        CommandSet::new(s("second"), s("first"), s("first"), vec![CommandBind::new(
            s("b"),
            s("echo two"),
        )]),
    ]
}

#[test]
fn generate_fails_on_empty_switcher_fields() {
    let e = KeybindSwitcher::new(s(""), s("pgup"), s("pgdn"), two_sets()).generate().unwrap_err();
    assert_eq!(e.kind, ErrorKind::FieldEmpty);
    assert_eq!(e.msg, "KeybindSwitcher's name field is empty");

    let e = KeybindSwitcher::new(s("t"), s(""), s("pgdn"), two_sets()).generate().unwrap_err();
    assert_eq!(e.kind, ErrorKind::FieldEmpty);
    assert_eq!(e.msg, "KeybindSwitcher's key_next field is empty");

    let e = KeybindSwitcher::new(s("t"), s("pgup"), s(""), two_sets()).generate().unwrap_err();
    assert_eq!(e.kind, ErrorKind::FieldEmpty);
    assert_eq!(e.msg, "KeybindSwitcher's key_previous field is empty");
}

#[test]
fn generate_fails_on_empty_set_fields() {
    let mut sets = two_sets();
    sets[1].name = s("");
    let e = KeybindSwitcher::new(s("t"), s("pgup"), s("pgdn"), sets).generate().unwrap_err();
    assert_eq!(e.kind, ErrorKind::FieldEmpty);
    assert_eq!(e.msg, "CommandSet's name field is empty");

    let mut sets = two_sets();
    sets[0].next_set = s("");
    let e = KeybindSwitcher::new(s("t"), s("pgup"), s("pgdn"), sets).generate().unwrap_err();
    assert_eq!(e.kind, ErrorKind::FieldEmpty);
    assert_eq!(e.msg, "CommandSet's next_set field is empty");

    let mut sets = two_sets();
    sets[0].previous_set = s("");
    let e = KeybindSwitcher::new(s("t"), s("pgup"), s("pgdn"), sets).generate().unwrap_err();
    assert_eq!(e.kind, ErrorKind::FieldEmpty);
    assert_eq!(e.msg, "CommandSet's previous_set field is empty");
}

#[test]
fn generate_fails_on_empty_bind_fields() {
    let mut sets = two_sets();
    sets[1].command_binds[0].key = s("");
    let e = KeybindSwitcher::new(s("t"), s("pgup"), s("pgdn"), sets).generate().unwrap_err();
    assert_eq!(e.kind, ErrorKind::FieldEmpty);
    assert_eq!(e.msg, "CommandBind's key field is empty");

    let mut sets = two_sets();
    sets[0].command_binds[0].command = s("");
    let e = KeybindSwitcher::new(s("t"), s("pgup"), s("pgdn"), sets).generate().unwrap_err();
    assert_eq!(e.kind, ErrorKind::FieldEmpty);
    assert_eq!(e.msg, "CommandBind's command field is empty");
}

#[test]
fn command_bind_generate() {
    let b = CommandBind::new(s("mouse1"), s("+attack"));
    assert_eq!(b.generate().unwrap(), "bind mouse1 +attack");

    let e = CommandBind::new(s(""), s("+attack")).generate().unwrap_err();
    assert_eq!(e.kind, ErrorKind::FieldEmpty);
    assert_eq!(e.msg, "CommandBind's key field is empty");

    let e = CommandBind::new(s("mouse1"), s("")).generate().unwrap_err();
    assert_eq!(e.kind, ErrorKind::FieldEmpty);
    assert_eq!(e.msg, "CommandBind's command field is empty");
}

#[test]
fn item_shop_command_generate() {
    let c = ItemShopCommand::new(s("f1"), s("buy"), s("w1"));
    assert_eq!(c.generate().unwrap(), "bind f1 buy w1");

    let e = ItemShopCommand::new(s("f1"), s(""), s("w1")).generate().unwrap_err();
    assert_eq!(e.kind, ErrorKind::FieldEmpty);
    assert_eq!(e.msg, "ItemShopCommand's command field is empty");

    let e = ItemShopCommand::new(s("f1"), s("buy"), s("")).generate().unwrap_err();
    assert_eq!(e.kind, ErrorKind::FieldEmpty);
    assert_eq!(e.msg, "ItemShopCommand's item field is empty");

    let e = ItemShopCommand::new(s(""), s("buy"), s("w1")).generate().unwrap_err();
    assert_eq!(e.kind, ErrorKind::FieldEmpty);
    assert_eq!(e.msg, "ItemShopCommand's key field is empty");
}
