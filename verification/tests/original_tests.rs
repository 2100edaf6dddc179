use source_keybind_switcher::keybind_switcher::CommandBind;
use source_keybind_switcher::keybind_switcher::CommandSet;
use source_keybind_switcher::keybind_switcher::KeybindSwitcher;
use source_keybind_switcher::GenerateCommand;

fn s(str: &str) -> String {
    str.to_string()
}

#[test]
fn keybind_switcher_test() {
    let cmds = vec![
        CommandSet::new(
            s("first"),
            s("third"),
            s("second"),
            vec![
                CommandBind::new(s("a"), s("echo kill")),
                CommandBind::new(s("s"), s("echo sex")),
            ],
        ),
        CommandSet::new(
            s("second"),
            s("first"),
            s("third"),
            vec![
                CommandBind::new(s("a"), s("echo blowjob")),
                CommandBind::new(s("a"), s("echo givehead")),
            ],
        ),
        CommandSet::new(
            s("third"),
            s("second"),
            s("first"),
            vec![
                CommandBind::new(s("a"), s("echo drink)")),
                CommandBind::new(s("a"), s("echo eat")),
            ],
        ),
    ];

    let kbsw = KeybindSwitcher::new(s("test"), s("pgup"), s("pgdn"), cmds);

    let g = kbsw.generate().unwrap();

    println!("{}", g);
}

#[test]
fn utils_test() {
    let cmds = vec![
        CommandSet::new(
            s("first"),
            s("third"),
            s("second"),
            vec![
                CommandBind::new(s("a"), s("echo kill")),
                CommandBind::new(s("s"), s("echo sex")),
            ],
        ),
        CommandSet::new(
            s("second"),
            s("first"),
            s("third"),
            vec![
                CommandBind::new(s("a"), s("echo blowjob")),
                CommandBind::new(s("a"), s("echo givehead")),
            ],
        ),
        CommandSet::new(
            s("third"),
            s("second"),
            s("first"),
            vec![
                CommandBind::new(s("a"), s("echo drink")),
                CommandBind::new(s("a"), s("echo eat")),
            ],
        ),
    ];

    let kbsw = KeybindSwitcher::new(s("test"), s("pgup"), s("pgdn"), cmds);

    let g = kbsw.generate().unwrap();

    println!("{}", g);
}
