//! Command lines: what they ask for, and what is to be done about it.

use clap::{Arg, ArgAction, ArgMatches, Command as Grammar};
use rmux::cli::{
    dispatch, server_args, starts_server, Action, Args, Command, DEFAULT_CREATION_FORMAT,
};
use rmux::format::CaptureMode;
use rmux::keys::format_key_byte;
use rmux::options::{
    parse_bound_command, parse_layout, parse_on_off, parse_prefix_key, parse_resize_direction,
    parse_session_option, parse_swap_direction, parse_window_option,
};
use rmux::protocol::{BoundCommand, ResizeDirection, RmuxCommand, SplitAxis, SwapDirection};
use rmux::send_keys::{encode_key_tokens, encode_send_keys};
use rmux::target::{
    begin_target, continue_target, parse_join_source, parse_target, resolve_target,
    target_request, CliTarget, PaneSelector, TargetStep, WindowSelector,
};

fn option(id: &'static str, short: char) -> Arg {
    Arg::new(id).long(id).short(short)
}

fn long(id: &'static str) -> Arg {
    Arg::new(id).long(id)
}

fn switch(arg: Arg) -> Arg {
    arg.action(ArgAction::SetTrue)
}

fn short_switch(id: &'static str, short: char) -> Arg {
    Arg::new(id).short(short).action(ArgAction::SetTrue)
}

fn place(id: &'static str) -> Arg {
    Arg::new(id).required(true)
}

fn creation_format() -> Arg {
    option("format", 'F').default_value(DEFAULT_CREATION_FORMAT)
}

fn targeted(name: &'static str) -> Grammar {
    Grammar::new(name).arg(option("target", 't'))
}

fn aimed(name: &'static str) -> Grammar {
    Grammar::new(name).arg(option("target", 't').required(true))
}

fn grammar() -> Grammar {
    Grammar::new("rmux")
        .arg(option("command", 'c'))
        .arg(option("session", 's').default_value("default"))
        .arg(long("tick-ms").default_value("16").global(true))
        .subcommand(
            Grammar::new("new-session")
                .arg(option("session", 's'))
                .arg(option("command", 'c'))
                .arg(switch(option("detached", 'd')))
                .arg(switch(option("attach", 'A')))
                .arg(switch(option("print", 'P')))
                .arg(creation_format()),
        )
        .subcommand(targeted("attach"))
        .subcommand(Grammar::new("list-sessions").arg(option("format", 'F')))
        .subcommand(Grammar::new("source-file").arg(place("path")))
        .subcommand(targeted("has-session"))
        .subcommand(
            targeted("wait-for")
                .arg(Arg::new("pattern"))
                .arg(long("timeout-ms").default_value("2000")),
        )
        .subcommand(
            targeted("send-keys")
                .arg(switch(option("literal", 'l')))
                .arg(Arg::new("keys").num_args(0..)),
        )
        .subcommand(targeted("send-prefix"))
        .subcommand(
            targeted("bind-key").arg(place("key")).arg(
                place("command")
                    .num_args(1..)
                    .trailing_var_arg(true)
                    .allow_hyphen_values(true),
            ),
        )
        .subcommand(targeted("list-keys"))
        .subcommand(targeted("capture-pane").arg(switch(long("all-panes"))))
        .subcommand(
            targeted("display-message")
                .arg(option("format", 'p').default_value(DEFAULT_CREATION_FORMAT)),
        )
        .subcommand(
            targeted("new-window")
                .arg(option("name", 'n'))
                .arg(option("command", 'c'))
                .arg(switch(option("print", 'P')))
                .arg(creation_format()),
        )
        .subcommand(
            targeted("split-window")
                .arg(switch(long("horizontal")))
                .arg(option("command", 'c'))
                .arg(switch(option("print", 'P')))
                .arg(creation_format()),
        )
        .subcommand(targeted("select-window").arg(place("index")))
        .subcommand(targeted("next-window"))
        .subcommand(targeted("previous-window"))
        .subcommand(targeted("last-window"))
        .subcommand(
            targeted("swap-window")
                .arg(short_switch("previous", 'U'))
                .arg(short_switch("next", 'D')),
        )
        .subcommand(targeted("move-window").arg(place("index")))
        .subcommand(
            targeted("break-pane")
                .arg(option("name", 'n'))
                .arg(switch(option("print", 'P')))
                .arg(creation_format()),
        )
        .subcommand(
            targeted("join-pane")
                .arg(option("source", 's').required(true))
                .arg(switch(option("print", 'P')))
                .arg(creation_format()),
        )
        .subcommand(targeted("select-pane").arg(place("index")))
        .subcommand(targeted("next-pane"))
        .subcommand(targeted("previous-pane"))
        .subcommand(targeted("select-layout").arg(place("layout")))
        .subcommand(
            targeted("resize-pane")
                .arg(short_switch("left", 'L'))
                .arg(short_switch("right", 'R'))
                .arg(short_switch("up", 'U'))
                .arg(short_switch("down", 'D'))
                .arg(Arg::new("amount").default_value("1")),
        )
        .subcommand(
            targeted("swap-pane")
                .arg(short_switch("previous", 'U'))
                .arg(short_switch("next", 'D')),
        )
        .subcommand(targeted("kill-pane").arg(switch(option("all-other", 'a'))))
        .subcommand(targeted("respawn-pane").arg(option("command", 'c')))
        .subcommand(targeted("list-panes").arg(option("format", 'F')))
        .subcommand(targeted("list-windows").arg(option("format", 'F')))
        .subcommand(targeted("set-window-option").arg(place("option")).arg(place("value")))
        .subcommand(targeted("set-option").arg(place("option")).arg(place("value")))
        .subcommand(targeted("respawn-window").arg(option("command", 'c')))
        .subcommand(targeted("kill-window"))
        .subcommand(targeted("rename-window").arg(place("name")))
        .subcommand(targeted("rename-session").arg(place("name")))
        .subcommand(targeted("kill-session"))
        .subcommand(targeted("detach-client"))
        .subcommand(Grammar::new("kill-server"))
        .subcommand(aimed("send-text").arg(place("text")))
        .subcommand(aimed("snapshot"))
        .subcommand(aimed("shutdown-server"))
        .subcommand(
            aimed("hold-client")
                .arg(long("millis").default_value("1000"))
                .arg(long("ready-file")),
        )
}

fn text(given: &ArgMatches, id: &str) -> Option<String> {
    given.get_one::<String>(id).cloned()
}

fn sure(given: &ArgMatches, id: &str) -> String {
    text(given, id).unwrap()
}

fn texts(given: &ArgMatches, id: &str) -> Vec<String> {
    given.get_many::<String>(id).map(|all| all.cloned().collect()).unwrap_or_default()
}

fn command(name: &str, given: &ArgMatches) -> Command {
    match name {
        "new-session" => Command::NewSession {
            session: text(given, "session"),
            command: text(given, "command"),
            detached: given.get_flag("detached"),
            attach: given.get_flag("attach"),
            print: given.get_flag("print"),
            format: sure(given, "format"),
        },
        "attach" => Command::Attach { target: text(given, "target") },
        "list-sessions" => Command::ListSessions { format: text(given, "format") },
        "source-file" => Command::SourceFile { path: sure(given, "path") },
        "has-session" => Command::HasSession { target: text(given, "target") },
        "wait-for" => Command::WaitFor {
            target: text(given, "target"),
            pattern: text(given, "pattern"),
            timeout_ms: sure(given, "timeout-ms").parse().unwrap(),
        },
        "send-keys" => Command::SendKeys {
            target: text(given, "target"),
            literal: given.get_flag("literal"),
            keys: texts(given, "keys"),
        },
        "send-prefix" => Command::SendPrefix { target: text(given, "target") },
        "bind-key" => Command::BindKey {
            target: text(given, "target"),
            key: sure(given, "key").parse().unwrap(),
            command: texts(given, "command"),
        },
        "list-keys" => Command::ListKeys { target: text(given, "target") },
        "capture-pane" => Command::CapturePane {
            target: text(given, "target"),
            all_panes: given.get_flag("all-panes"),
        },
        "display-message" => Command::DisplayMessage {
            target: text(given, "target"),
            format: sure(given, "format"),
        },
        "new-window" => Command::NewWindow {
            target: text(given, "target"),
            name: text(given, "name"),
            command: text(given, "command"),
            print: given.get_flag("print"),
            format: sure(given, "format"),
        },
        "split-window" => Command::SplitWindow {
            target: text(given, "target"),
            horizontal: given.get_flag("horizontal"),
            command: text(given, "command"),
            print: given.get_flag("print"),
            format: sure(given, "format"),
        },
        "select-window" => Command::SelectWindow {
            target: text(given, "target"),
            index: sure(given, "index").parse().unwrap(),
        },
        "next-window" => Command::NextWindow { target: text(given, "target") },
        "previous-window" => Command::PreviousWindow { target: text(given, "target") },
        "last-window" => Command::LastWindow { target: text(given, "target") },
        "swap-window" => Command::SwapWindow {
            target: text(given, "target"),
            previous: given.get_flag("previous"),
            next: given.get_flag("next"),
        },
        "move-window" => Command::MoveWindow {
            target: text(given, "target"),
            index: sure(given, "index").parse().unwrap(),
        },
        "break-pane" => Command::BreakPane {
            target: text(given, "target"),
            name: text(given, "name"),
            print: given.get_flag("print"),
            format: sure(given, "format"),
        },
        "join-pane" => Command::JoinPane {
            source: sure(given, "source"),
            target: text(given, "target"),
            print: given.get_flag("print"),
            format: sure(given, "format"),
        },
        "select-pane" => Command::SelectPane {
            target: text(given, "target"),
            index: sure(given, "index").parse().unwrap(),
        },
        "next-pane" => Command::NextPane { target: text(given, "target") },
        "previous-pane" => Command::PreviousPane { target: text(given, "target") },
        "select-layout" => Command::SelectLayout {
            target: text(given, "target"),
            layout: sure(given, "layout"),
        },
        "resize-pane" => Command::ResizePane {
            target: text(given, "target"),
            left: given.get_flag("left"),
            right: given.get_flag("right"),
            up: given.get_flag("up"),
            down: given.get_flag("down"),
            amount: sure(given, "amount").parse().unwrap(),
        },
        "swap-pane" => Command::SwapPane {
            target: text(given, "target"),
            previous: given.get_flag("previous"),
            next: given.get_flag("next"),
        },
        "kill-pane" => Command::KillPane {
            target: text(given, "target"),
            all_other: given.get_flag("all-other"),
        },
        "respawn-pane" => Command::RespawnPane {
            target: text(given, "target"),
            command: text(given, "command"),
        },
        "list-panes" => Command::ListPanes {
            target: text(given, "target"),
            format: text(given, "format"),
        },
        "list-windows" => Command::ListWindows {
            target: text(given, "target"),
            format: text(given, "format"),
        },
        "set-window-option" => Command::SetWindowOption {
            target: text(given, "target"),
            option: sure(given, "option"),
            value: sure(given, "value"),
        },
        "set-option" => Command::SetOption {
            target: text(given, "target"),
            option: sure(given, "option"),
            value: sure(given, "value"),
        },
        "respawn-window" => Command::RespawnWindow {
            target: text(given, "target"),
            command: text(given, "command"),
        },
        "kill-window" => Command::KillWindow { target: text(given, "target") },
        "rename-window" => Command::RenameWindow {
            target: text(given, "target"),
            name: sure(given, "name"),
        },
        "rename-session" => Command::RenameSession {
            target: text(given, "target"),
            name: sure(given, "name"),
        },
        "kill-session" => Command::KillSession { target: text(given, "target") },
        "detach-client" => Command::DetachClient { target: text(given, "target") },
        "kill-server" => Command::KillServer,
        "send-text" => Command::SendText {
            target: sure(given, "target"),
            text: sure(given, "text"),
        },
        "snapshot" => Command::Snapshot { target: sure(given, "target") },
        "shutdown-server" => Command::ShutdownServer { target: sure(given, "target") },
        "hold-client" => Command::HoldClient {
            target: sure(given, "target"),
            millis: sure(given, "millis").parse().unwrap(),
            ready_file: text(given, "ready-file"),
        },
        other => panic!("no command is called {other}"),
    }
}

/// The arguments of a command line.
fn parse_from<const N: usize>(line: [&str; N]) -> Args {
    let given = grammar().get_matches_from(line);
    Args {
        command: given.subcommand().map(|(name, own)| command(name, own)),
        shell_command: text(&given, "command"),
        session: sure(&given, "session"),
        tick_ms: sure(&given, "tick-ms").parse().unwrap(),
    }
}

/// What is to be done about a command line.
fn action<const N: usize>(line: [&str; N]) -> Action {
    dispatch(parse_from(line)).unwrap()
}

/// What a session is told to do by a command line, and what is printed then.
fn told<const N: usize>(line: [&str; N]) -> (CliTarget, RmuxCommand, Option<String>) {
    match action(line) {
        Action::Command { target, command, print } => (target, command, print),
        other => panic!("expected a command, got {other:?}"),
    }
}

/// Why nothing is done about a command line.
fn refusal<const N: usize>(line: [&str; N]) -> String {
    dispatch(parse_from(line)).unwrap_err().message()
}

fn whole(session: &str) -> CliTarget {
    CliTarget { session: session.to_string(), window: None, pane: None }
}

#[test]
fn parses_new_session_command() {
    let line = [
        "rmux",
        "new-session",
        "--session",
        "work",
        "--command",
        "zsh",
        "--detached",
        "--attach",
        "--print",
        "--format",
        "#{session_name}",
    ];
    let args = parse_from(line);

    match args.command {
        Some(Command::NewSession { session, command, detached, attach, print, format }) => {
            assert_eq!(session.as_deref(), Some("work"));
            assert_eq!(command.as_deref(), Some("zsh"));
            assert!(detached);
            assert!(attach);
            assert!(print);
            assert_eq!(format, "#{session_name}");
        }
        other => panic!("expected new-session, got {other:?}"),
    }

    match action(line) {
        Action::PrintSession { options, attach, format } => {
            assert_eq!(options.session, "work");
            assert_eq!(options.command.as_deref(), Some("zsh"));
            assert_eq!(options.tick_ms, 16);
            assert!(options.create_if_missing);
            assert!(options.initial_target.is_none());
            assert!(attach);
            assert_eq!(format, "#{session_name}");
        }
        other => panic!("expected a session to be printed, got {other:?}"),
    }
}

#[test]
fn parses_attach_target() {
    let args = parse_from(["rmux", "attach", "--target", "work:logs.1"]);

    match args.command {
        Some(Command::Attach { target }) => assert_eq!(target.as_deref(), Some("work:logs.1")),
        other => panic!("expected attach, got {other:?}"),
    }

    match action(["rmux", "attach", "--target", "work:logs.1"]) {
        Action::Run(options) => {
            assert_eq!(options.session, "work");
            assert!(!options.create_if_missing);
            assert_eq!(
                options.initial_target,
                Some(CliTarget {
                    session: "work".to_string(),
                    window: Some(WindowSelector::Name("logs".to_string())),
                    pane: Some(PaneSelector::Index(0)),
                })
            );
        }
        other => panic!("expected a client, got {other:?}"),
    }
}

#[test]
fn parses_list_sessions() {
    let args = parse_from(["rmux", "list-sessions"]);

    assert!(matches!(
        args.command,
        Some(Command::ListSessions { format }) if format.is_none()
    ));

    let args = parse_from([
        "rmux",
        "list-sessions",
        "--format",
        "#{session_name}:#{window_count}",
    ]);
    assert!(matches!(
        args.command,
        Some(Command::ListSessions { format })
            if format.as_deref() == Some("#{session_name}:#{window_count}")
    ));

    let args = parse_from(["rmux", "has-session", "--target", "work"]);
    assert!(matches!(
        args.command,
        Some(Command::HasSession { target }) if target.as_deref() == Some("work")
    ));

    let args = parse_from([
        "rmux",
        "wait-for",
        "--target",
        "work:1.2",
        "--timeout-ms",
        "25",
        "ready",
    ]);
    assert!(matches!(
        args.command,
        Some(Command::WaitFor {
            target,
            pattern,
            timeout_ms
        }) if target.as_deref() == Some("work:1.2")
            && pattern.as_deref() == Some("ready")
            && timeout_ms == 25
    ));

    assert!(matches!(
        action(["rmux", "has-session", "--target", "work"]),
        Action::HasSession { session } if session == "work"
    ));
    assert!(matches!(
        action(["rmux", "has-session"]),
        Action::HasSession { session } if session == "default"
    ));
    assert!(matches!(
        action(["rmux", "wait-for", "ready"]),
        Action::WaitFor { target, pattern, timeout_ms: 2000 }
            if target == whole("default") && pattern.as_deref() == Some("ready")
    ));
}

#[test]
fn parses_send_keys_and_capture_pane() {
    let args = parse_from([
        "rmux",
        "send-keys",
        "--target",
        "work",
        "--literal",
        "echo hi",
        "Enter",
    ]);
    match args.command {
        Some(Command::SendKeys { target, literal, keys }) => {
            assert_eq!(target.as_deref(), Some("work"));
            assert!(literal);
            assert_eq!(keys, ["echo hi", "Enter"]);
        }
        other => panic!("expected send-keys, got {other:?}"),
    }

    let args = parse_from(["rmux", "capture-pane", "--target", "work", "--all-panes"]);
    assert!(matches!(
        args.command,
        Some(Command::CapturePane { target, all_panes })
            if target.as_deref() == Some("work") && all_panes
    ));

    let args = parse_from([
        "rmux",
        "display-message",
        "--target",
        "work:1.2",
        "--format",
        "#{session_name}:#{window_index}.#{pane_index}",
    ]);
    assert!(matches!(
        args.command,
        Some(Command::DisplayMessage { target, format })
            if target.as_deref() == Some("work:1.2")
                && format == "#{session_name}:#{window_index}.#{pane_index}"
    ));

    let args = parse_from(["rmux", "send-prefix", "--target", "work:1.2"]);
    assert!(matches!(
        args.command,
        Some(Command::SendPrefix { target }) if target.as_deref() == Some("work:1.2")
    ));

    assert!(matches!(
        action(["rmux", "send-keys", "-t", "work", "echo", "Space", "hi", "Enter"]),
        Action::SendKeys { target, bytes } if target == whole("work") && bytes == b"echo hi\r"
    ));
    assert_eq!(
        refusal(["rmux", "send-keys", "C-?"]),
        "unsupported control token C-?"
    );
    assert!(matches!(
        action(["rmux", "capture-pane", "-t", "work"]),
        Action::Capture { target, mode: CaptureMode::ActivePane } if target == whole("work")
    ));
    assert!(matches!(
        action(["rmux", "capture-pane", "-t", "work", "--all-panes"]),
        Action::Capture { target, mode: CaptureMode::AllPanes } if target == whole("work")
    ));
}

#[test]
fn encodes_send_key_tokens() {
    let keys = [
        "echo".to_string(),
        "Space".to_string(),
        "ok".to_string(),
        "Enter".to_string(),
    ];
    assert_eq!(encode_key_tokens(&keys).unwrap(), b"echo ok\r");

    let keys = ["C-c".to_string(), "Tab".to_string(), "Left".to_string()];
    assert_eq!(encode_key_tokens(&keys).unwrap(), b"\x03\t\x1b[D");

    let keys = ["Enter".to_string(), "Tab".to_string()];
    assert_eq!(encode_send_keys(&keys, true).unwrap(), b"EnterTab");
}

#[test]
fn parses_cli_targets() {
    assert_eq!(
        parse_target("work", "default").unwrap(),
        CliTarget { session: "work".to_string(), window: None, pane: None }
    );
    assert_eq!(
        parse_target("work:2.3", "default").unwrap(),
        CliTarget {
            session: "work".to_string(),
            window: Some(WindowSelector::Index(1)),
            pane: Some(PaneSelector::Index(2))
        }
    );
    assert_eq!(
        parse_target("work:logs.1", "default").unwrap(),
        CliTarget {
            session: "work".to_string(),
            window: Some(WindowSelector::Name("logs".to_string())),
            pane: Some(PaneSelector::Index(0))
        }
    );
    assert_eq!(
        parse_target("work:#7.%42", "default").unwrap(),
        CliTarget {
            session: "work".to_string(),
            window: Some(WindowSelector::Id(7)),
            pane: Some(PaneSelector::Id(42))
        }
    );
    assert_eq!(
        parse_target(":1.2", "default").unwrap(),
        CliTarget {
            session: "default".to_string(),
            window: Some(WindowSelector::Index(0)),
            pane: Some(PaneSelector::Index(1))
        }
    );
    assert!(parse_target("work:0", "default").is_err());
}

#[test]
fn parts_of_a_target_may_be_left_out() {
    let read = |raw: &str| parse_target(raw, "default").unwrap();
    let target = |session: &str, window: Option<WindowSelector>, pane: Option<PaneSelector>| {
        CliTarget { session: session.to_string(), window, pane }
    };
    assert_eq!(read("work:.3"), target("work", None, Some(PaneSelector::Index(2))));
    assert_eq!(read(":.3"), target("default", None, Some(PaneSelector::Index(2))));
    assert_eq!(read("work:2"), target("work", Some(WindowSelector::Index(1)), None));
    assert_eq!(
        read(":10.%4"),
        target("default", Some(WindowSelector::Index(9)), Some(PaneSelector::Id(4)))
    );
    assert_eq!(
        read("work:a:b"),
        target("work", Some(WindowSelector::Name("a:b".to_string())), None)
    );
    assert_eq!(read("work:"), read("work"));
    assert_eq!(read(""), target("default", None, None));
}

#[test]
fn targets_that_cannot_be_read_say_why() {
    let told = |raw: &str| parse_target(raw, "default").unwrap_err().message();
    assert_eq!(told("work:0"), "target window index must be one-based");
    assert_eq!(told("work:1.0"), "target pane index must be one-based");
    assert_eq!(told("work:1.x"), "parse target pane index \"x\"");
    assert_eq!(told("work:#"), "target window id is empty");
    assert_eq!(told("work:1.%"), "target pane id is empty");
    assert_eq!(told("work:#x"), "parse target window id \"x\"");
    assert_eq!(resolve_target("home", None).unwrap(), whole("home"));
}

#[test]
fn a_pane_is_joined_within_its_session() {
    let into = parse_target("work:1", "default").unwrap();
    let from = parse_join_source(":2.1", &into).unwrap();
    assert_eq!(from.session, "work");
    assert_eq!(from.window, Some(WindowSelector::Index(1)));
    assert_eq!(
        parse_join_source("other:2.1", &into).unwrap_err().message(),
        "join-pane source and target must be in the same session"
    );
}

#[test]
fn a_target_is_chosen_window_first() {
    let target = parse_target("work:2.3", "default").unwrap();
    let step = begin_target(&target);
    assert_eq!(step, TargetStep::LookForWindow);
    assert!(target_request(step).is_some());
    let refused = rmux::protocol::ServerResponse::Error("window 2 does not exist".to_string());
    let error = continue_target(&target, TargetStep::SelectWindow(1), refused).unwrap_err();
    assert_eq!(error.message(), "select target window 2");
    assert_eq!(begin_target(&parse_target("work", "default").unwrap()), TargetStep::Done);
    assert!(target_request(TargetStep::Done).is_none());
}

#[test]
fn parses_scripted_tmux_commands() {
    let args = parse_from([
        "rmux",
        "new-window",
        "--target",
        "work",
        "--name",
        "logs",
        "--command",
        "tail -f /tmp/app.log",
        "--print",
        "--format",
        "#{window_id}",
    ]);
    assert!(matches!(
        args.command,
        Some(Command::NewWindow {
            target,
            name,
            command,
            print,
            format
        })
            if target.as_deref() == Some("work")
                && name.as_deref() == Some("logs")
                && command.as_deref() == Some("tail -f /tmp/app.log")
                && print
                && format == "#{window_id}"
    ));

    let args = parse_from([
        "rmux",
        "split-window",
        "--target",
        "work",
        "--horizontal",
        "--command",
        "top",
        "--print",
    ]);
    assert!(matches!(
        args.command,
        Some(Command::SplitWindow {
            target,
            horizontal,
            command,
            print,
            format
        })
            if target.as_deref() == Some("work")
                && horizontal
                && command.as_deref() == Some("top")
                && print
                && format == DEFAULT_CREATION_FORMAT
    ));

    let args = parse_from(["rmux", "select-window", "--target", "work", "2"]);
    assert!(matches!(
        args.command,
        Some(Command::SelectWindow { target, index })
            if target.as_deref() == Some("work") && index == 2
    ));

    let args = parse_from(["rmux", "next-window", "--target", "work"]);
    assert!(matches!(
        args.command,
        Some(Command::NextWindow { target }) if target.as_deref() == Some("work")
    ));

    let args = parse_from(["rmux", "previous-window", "--target", "work"]);
    assert!(matches!(
        args.command,
        Some(Command::PreviousWindow { target }) if target.as_deref() == Some("work")
    ));

    let args = parse_from(["rmux", "last-window", "--target", "work"]);
    assert!(matches!(
        args.command,
        Some(Command::LastWindow { target }) if target.as_deref() == Some("work")
    ));

    let args = parse_from(["rmux", "swap-window", "--target", "work", "-U"]);
    assert!(matches!(
        args.command,
        Some(Command::SwapWindow {
            target,
            previous,
            ..
        }) if target.as_deref() == Some("work") && previous
    ));

    let args = parse_from(["rmux", "move-window", "--target", "work", "1"]);
    assert!(matches!(
        args.command,
        Some(Command::MoveWindow { target, index })
            if target.as_deref() == Some("work") && index == 1
    ));

    let args = parse_from([
        "rmux",
        "break-pane",
        "--target",
        "work:1.2",
        "--name",
        "broken",
        "--print",
        "--format",
        "#{window_name}:#{pane_id}",
    ]);
    assert!(matches!(
        args.command,
        Some(Command::BreakPane {
            target,
            name,
            print,
            format
        }) if target.as_deref() == Some("work:1.2")
            && name.as_deref() == Some("broken")
            && print
            && format == "#{window_name}:#{pane_id}"
    ));

    let args = parse_from([
        "rmux",
        "join-pane",
        "--source",
        "work:broken.1",
        "--target",
        "work:1",
        "--print",
        "--format",
        "#{window_index}:#{pane_id}",
    ]);
    assert!(matches!(
        args.command,
        Some(Command::JoinPane {
            source,
            target,
            print,
            format
        }) if source == "work:broken.1"
            && target.as_deref() == Some("work:1")
            && print
            && format == "#{window_index}:#{pane_id}"
    ));

    let args = parse_from(["rmux", "select-pane", "--target", "work", "2"]);
    assert!(matches!(
        args.command,
        Some(Command::SelectPane { target, index })
            if target.as_deref() == Some("work") && index == 2
    ));

    let args = parse_from(["rmux", "next-pane", "--target", "work"]);
    assert!(matches!(
        args.command,
        Some(Command::NextPane { target }) if target.as_deref() == Some("work")
    ));

    let args = parse_from(["rmux", "previous-pane", "--target", "work"]);
    assert!(matches!(
        args.command,
        Some(Command::PreviousPane { target }) if target.as_deref() == Some("work")
    ));

    let args = parse_from(["rmux", "select-layout", "--target", "work", "even-vertical"]);
    assert!(matches!(
        args.command,
        Some(Command::SelectLayout { target, layout })
            if target.as_deref() == Some("work")
                && layout == "even-vertical"
                && parse_layout(&layout).unwrap() == SplitAxis::Vertical
    ));
    assert!(parse_layout("tiled").is_err());

    let args = parse_from(["rmux", "resize-pane", "--target", "work", "-R", "5"]);
    assert!(matches!(
        args.command,
        Some(Command::ResizePane {
            target,
            right,
            amount,
            ..
        }) if target.as_deref() == Some("work")
            && right
            && amount == 5
    ));
    assert_eq!(
        parse_resize_direction(false, true, false, false).unwrap(),
        ResizeDirection::Right
    );
    assert!(parse_resize_direction(false, false, false, false).is_err());
    assert!(parse_resize_direction(true, true, false, false).is_err());

    let args = parse_from(["rmux", "swap-pane", "--target", "work", "-D"]);
    assert!(matches!(
        args.command,
        Some(Command::SwapPane { target, next, .. })
            if target.as_deref() == Some("work")
                && next
    ));
    assert_eq!(
        parse_swap_direction(true, false).unwrap(),
        SwapDirection::Previous
    );
    assert!(parse_swap_direction(false, false).is_err());
    assert!(parse_swap_direction(true, true).is_err());

    let args = parse_from([
        "rmux",
        "bind-key",
        "--target",
        "work",
        "v",
        "split-window",
        "--horizontal",
    ]);
    assert!(matches!(
        args.command,
        Some(Command::BindKey {
            target,
            key,
            command
        }) if target.as_deref() == Some("work")
            && key == 'v'
            && command == ["split-window", "--horizontal"]
            && parse_bound_command(&command).unwrap() == BoundCommand::SplitHorizontal
    ));
    assert!(parse_bound_command(&["not-real".to_string()]).is_err());

    let args = parse_from(["rmux", "list-keys", "--target", "work"]);
    assert!(matches!(
        args.command,
        Some(Command::ListKeys { target }) if target.as_deref() == Some("work")
    ));

    let args = parse_from(["rmux", "kill-pane", "--target", "work", "--all-other"]);
    assert!(matches!(
        args.command,
        Some(Command::KillPane { target, all_other })
            if target.as_deref() == Some("work") && all_other
    ));

    let args = parse_from([
        "rmux",
        "respawn-pane",
        "--target",
        "work:1.1",
        "--command",
        "zsh",
    ]);
    assert!(matches!(
        args.command,
        Some(Command::RespawnPane { target, command })
            if target.as_deref() == Some("work:1.1")
                && command.as_deref() == Some("zsh")
    ));

    let args = parse_from([
        "rmux",
        "respawn-window",
        "--target",
        "work:logs",
        "--command",
        "zsh",
    ]);
    assert!(matches!(
        args.command,
        Some(Command::RespawnWindow { target, command })
            if target.as_deref() == Some("work:logs")
                && command.as_deref() == Some("zsh")
    ));

    let args = parse_from(["rmux", "source-file", "/tmp/rmux.conf"]);
    assert!(matches!(
        args.command,
        Some(Command::SourceFile { path }) if path == "/tmp/rmux.conf"
    ));

    let args = parse_from([
        "rmux",
        "list-panes",
        "--target",
        "work",
        "--format",
        "#{pane_index}:#{pane_id}",
    ]);
    assert!(matches!(
        args.command,
        Some(Command::ListPanes { target, format })
            if target.as_deref() == Some("work")
                && format.as_deref() == Some("#{pane_index}:#{pane_id}")
    ));

    let args = parse_from([
        "rmux",
        "list-windows",
        "--target",
        "work",
        "--format",
        "#{window_index}:#{window_name}",
    ]);
    assert!(matches!(
        args.command,
        Some(Command::ListWindows { target, format })
            if target.as_deref() == Some("work")
                && format.as_deref() == Some("#{window_index}:#{window_name}")
    ));

    let args = parse_from([
        "rmux",
        "set-window-option",
        "--target",
        "work",
        "synchronize-panes",
        "on",
    ]);
    assert!(matches!(
        args.command,
        Some(Command::SetWindowOption {
            target,
            option,
            value
        }) if target.as_deref() == Some("work")
            && option == "synchronize-panes"
            && value == "on"
            && matches!(
                parse_window_option(&option, &value).unwrap(),
                RmuxCommand::SetSynchronizePanes { enabled: true }
            )
    ));
    assert!(parse_window_option("bad-option", "on").is_err());
    assert!(parse_on_off("maybe").is_err());

    let args = parse_from([
        "rmux",
        "set-option",
        "--target",
        "work",
        "default-command",
        "cat",
    ]);
    assert!(matches!(
        args.command,
        Some(Command::SetOption {
            target,
            option,
            value
        }) if target.as_deref() == Some("work")
            && option == "default-command"
            && value == "cat"
            && matches!(
                parse_session_option(&option, &value).unwrap(),
                RmuxCommand::SetDefaultCommand { command: Some(command) }
                    if command == "cat"
            )
    ));
    assert!(matches!(
        parse_session_option("default-command", "default").unwrap(),
        RmuxCommand::SetDefaultCommand { command: None }
    ));
    assert!(matches!(
        parse_session_option("prefix", "C-a").unwrap(),
        RmuxCommand::SetPrefixKey { key: 1 }
    ));
    assert_eq!(parse_prefix_key("C-b").unwrap(), 0x02);
    assert!(parse_prefix_key("M-a").is_err());
    assert!(parse_session_option("bad-option", "cat").is_err());

    let args = parse_from(["rmux", "kill-window", "--target", "work"]);
    assert!(matches!(
        args.command,
        Some(Command::KillWindow { target }) if target.as_deref() == Some("work")
    ));

    let args = parse_from(["rmux", "kill-server"]);
    assert!(matches!(args.command, Some(Command::KillServer)));

    let args = parse_from(["rmux", "rename-window", "--target", "work", "editor"]);
    assert!(matches!(
        args.command,
        Some(Command::RenameWindow { target, name })
            if target.as_deref() == Some("work") && name == "editor"
    ));

    let args = parse_from(["rmux", "rename-session", "--target", "work", "client-a"]);
    assert!(matches!(
        args.command,
        Some(Command::RenameSession { target, name })
            if target.as_deref() == Some("work") && name == "client-a"
    ));

    let args = parse_from(["rmux", "kill-session", "--target", "work"]);
    assert!(matches!(
        args.command,
        Some(Command::KillSession { target }) if target.as_deref() == Some("work")
    ));

    let args = parse_from(["rmux", "detach-client", "--target", "work"]);
    assert!(matches!(
        args.command,
        Some(Command::DetachClient { target }) if target.as_deref() == Some("work")
    ));
}

#[test]
fn scripted_commands_are_told_to_their_session() {
    let (target, command, print) = told([
        "rmux", "new-window", "-t", "work", "-n", "logs", "-c", "top", "-P", "-F", "#{window_id}",
    ]);
    assert_eq!(target, whole("work"));
    assert!(matches!(
        command,
        RmuxCommand::NewWindow { name, command }
            if name.as_deref() == Some("logs") && command.as_deref() == Some("top")
    ));
    assert_eq!(print.as_deref(), Some("#{window_id}"));

    let (target, command, print) = told(["rmux", "split-window", "--horizontal"]);
    assert_eq!(target, whole("default"));
    assert!(matches!(
        command,
        RmuxCommand::SplitWindow { axis: SplitAxis::Horizontal, command: None }
    ));
    assert!(print.is_none());

    assert!(matches!(
        told(["rmux", "split-window"]).1,
        RmuxCommand::SplitWindow { axis: SplitAxis::Vertical, .. }
    ));
    // Indices are counted from one on the command line, and from zero elsewhere.
    assert!(matches!(
        told(["rmux", "select-window", "2"]).1,
        RmuxCommand::SelectWindow { index: 1 }
    ));
    assert!(matches!(
        told(["rmux", "select-window", "0"]).1,
        RmuxCommand::SelectWindow { index: 0 }
    ));
    assert!(matches!(
        told(["rmux", "select-pane", "3"]).1,
        RmuxCommand::SelectPane { index: 2 }
    ));
    assert!(matches!(
        told(["rmux", "move-window", "1"]).1,
        RmuxCommand::MoveWindow { index: 0 }
    ));
    assert!(matches!(
        told(["rmux", "swap-window", "-U"]).1,
        RmuxCommand::SwapWindow { direction: SwapDirection::Previous }
    ));
    assert!(matches!(
        told(["rmux", "swap-pane", "-D"]).1,
        RmuxCommand::SwapPane { direction: SwapDirection::Next }
    ));
    assert!(matches!(
        told(["rmux", "resize-pane", "-L"]).1,
        RmuxCommand::ResizePane { direction: ResizeDirection::Left, amount: 1 }
    ));
    assert!(matches!(
        told(["rmux", "select-layout", "even-vertical"]).1,
        RmuxCommand::SelectLayout { axis: SplitAxis::Vertical }
    ));
    assert!(matches!(
        told(["rmux", "bind-key", "v", "split-window", "--horizontal"]).1,
        RmuxCommand::BindKey { key: 'v', command: BoundCommand::SplitHorizontal }
    ));
    assert!(matches!(
        told(["rmux", "kill-pane", "-a"]).1,
        RmuxCommand::KillPane { all_other: true }
    ));
    assert!(matches!(
        told(["rmux", "set-window-option", "synchronize-panes", "off"]).1,
        RmuxCommand::SetSynchronizePanes { enabled: false }
    ));
    assert!(matches!(
        told(["rmux", "set-option", "prefix", "C-a"]).1,
        RmuxCommand::SetPrefixKey { key: 1 }
    ));
    assert!(matches!(
        told(["rmux", "rename-window", "editor"]).1,
        RmuxCommand::RenameWindow { name } if name == "editor"
    ));
    assert!(matches!(
        action(["rmux", "kill-session", "-t", "work"]),
        Action::KillSession { session } if session == "work"
    ));
    assert!(matches!(
        action(["rmux", "detach-client", "-t", "work"]),
        Action::DetachClient { target } if target == whole("work")
    ));
    assert!(matches!(action(["rmux", "kill-server"]), Action::KillServer));
}

#[test]
fn commands_that_make_no_sense_are_refused() {
    assert_eq!(
        refusal(["rmux", "select-layout", "tiled"]),
        "unsupported layout \"tiled\"; expected even-horizontal or even-vertical"
    );
    assert_eq!(
        refusal(["rmux", "resize-pane"]),
        "resize-pane needs one direction: -L, -R, -U, or -D"
    );
    assert_eq!(
        refusal(["rmux", "resize-pane", "-L", "-R"]),
        "resize-pane accepts only one direction flag"
    );
    assert_eq!(
        refusal(["rmux", "swap-pane"]),
        "swap-pane needs one direction: -U or -D"
    );
    assert_eq!(
        refusal(["rmux", "swap-window", "-U", "-D"]),
        "swap-pane accepts only one direction flag"
    );
    assert_eq!(
        refusal(["rmux", "set-window-option", "bad-option", "on"]),
        "unsupported window option \"bad-option\"; expected synchronize-panes"
    );
    assert_eq!(
        refusal(["rmux", "set-window-option", "synchronize-panes", "maybe"]),
        "expected on/off, true/false, or 1/0"
    );
    assert_eq!(
        refusal(["rmux", "set-option", "bad-option", "cat"]),
        "unsupported session option \"bad-option\"; expected default-command or prefix"
    );
    assert_eq!(
        refusal(["rmux", "set-option", "prefix", "M-a"]),
        "unsupported prefix key \"M-a\"; expected C-a through C-z or C-["
    );
    assert_eq!(
        refusal(["rmux", "set-option", "prefix", "C-1"]),
        "unsupported prefix key \"C-1\""
    );
    assert_eq!(
        refusal(["rmux", "bind-key", "v", "not-real"]),
        "unsupported bind-key command \"not-real\"; supported: split-window, new-window, next-pane, previous-pane, kill-pane, detach-client, last-window, select-layout next"
    );
    assert_eq!(
        parse_bound_command(&[]).unwrap_err().message(),
        "bind-key needs a command"
    );
    assert_eq!(
        refusal(["rmux", "join-pane", "-s", "a:1.1", "-t", "b:1"]),
        "join-pane source and target must be in the same session"
    );
}

#[test]
fn parses_hidden_smoke_commands() {
    let args = parse_from(["rmux", "send-text", "--target", "work", "hello"]);
    match args.command {
        Some(Command::SendText { target, text }) => {
            assert_eq!(target, "work");
            assert_eq!(text, "hello");
        }
        other => panic!("expected send-text, got {other:?}"),
    }

    let args = parse_from(["rmux", "snapshot", "--target", "work"]);
    assert!(matches!(
        args.command,
        Some(Command::Snapshot { target }) if target == "work"
    ));

    let args = parse_from(["rmux", "shutdown-server", "--target", "work"]);
    assert!(matches!(
        args.command,
        Some(Command::ShutdownServer { target }) if target == "work"
    ));

    let args = parse_from([
        "rmux",
        "hold-client",
        "--target",
        "work",
        "--millis",
        "25",
        "--ready-file",
        "/tmp/rmux-ready",
    ]);
    assert!(matches!(
        args.command,
        Some(Command::HoldClient {
            target,
            millis,
            ready_file,
        }) if target == "work"
            && millis == 25
            && ready_file.as_deref() == Some("/tmp/rmux-ready")
    ));
}

#[test]
fn a_command_line_without_a_command_starts_a_client() {
    match action(["rmux", "-s", "work", "-c", "zsh", "--tick-ms", "40"]) {
        Action::Run(options) => {
            assert_eq!(options.session, "work");
            assert_eq!(options.command.as_deref(), Some("zsh"));
            assert_eq!(options.tick_ms, 40);
            assert!(options.create_if_missing);
            assert!(options.initial_target.is_none());
        }
        other => panic!("expected a client, got {other:?}"),
    }
}

#[test]
fn servers_are_started_where_none_runs() {
    assert!(starts_server(false, false));
    assert!(starts_server(true, false));
    assert!(starts_server(false, true));
    assert!(!starts_server(true, true));
    assert_eq!(server_args("work", None), vec!["server", "--session", "work"]);
    assert_eq!(
        server_args("work", Some("zsh")),
        vec!["server", "--session", "work", "--command", "zsh"]
    );
}

#[test]
fn what_is_listed_can_be_asked_for_again() {
    for axis in [SplitAxis::Horizontal, SplitAxis::Vertical] {
        assert_eq!(parse_layout(axis.layout_name()).unwrap(), axis);
    }
    for key in [1u8, 2, 26, 0x1b] {
        assert_eq!(parse_prefix_key(format_key_byte(key).as_str()).unwrap(), key);
    }
    for bound in [
        BoundCommand::SplitHorizontal,
        BoundCommand::SplitVertical,
        BoundCommand::NewWindow,
        BoundCommand::NextPane,
        BoundCommand::PreviousPane,
        BoundCommand::KillPane,
        BoundCommand::DetachClient,
        BoundCommand::LastWindow,
        BoundCommand::ToggleLayout,
    ] {
        let words: Vec<String> = bound.command_name().split(' ').map(str::to_string).collect();
        assert_eq!(parse_bound_command(&words).unwrap(), bound);
    }
    assert_eq!(format_key_byte(0x2a), "0x2a");
}
