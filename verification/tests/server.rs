//! Servers, with everything outside in memory.
use std::path::PathBuf;
use wlproxy::server::{start, Mode, Server, ServerAction, ServerEvent, Upstream};
use wlproxy::{run, run_with_stop, Args};

fn args(upstream: Option<&str>) -> Args {
    Args {
        upstream: upstream.map(PathBuf::from),
        app_id: None,
        prefix_app_id: false,
        title: None,
        prefix_title: false,
        block: vec![],
        quiet: true,
        debug: false,
        downstream: PathBuf::from("/run/proxy.sock"),
    }
}

fn told(action: &ServerAction) -> String {
    match action {
        ServerAction::OpenLock(path) => format!("open {}", path.display()),
        ServerAction::TakeLock => "lock".to_string(),
        ServerAction::RemoveFile(path) => format!("remove {}", path.display()),
        ServerAction::Bind(path) => format!("bind {}", path.display()),
        ServerAction::NotifyReady => "notify".to_string(),
        ServerAction::AskStop => "stop?".to_string(),
        ServerAction::Accept => "accept".to_string(),
        ServerAction::ReadEnvironment => "environment".to_string(),
        ServerAction::Connect(Upstream::Given(path)) => format!("connect {}", path.display()),
        ServerAction::Connect(Upstream::Named(path)) => format!("connect to {path}"),
        ServerAction::Serve => "serve".to_string(),
        ServerAction::Finish(Ok(())) => "finish".to_string(),
        ServerAction::Finish(Err(e)) => format!("finish: {e}"),
    }
}

/// What the server does where the action `failing` fails, and where it is told to stop when
/// it asks for the time after `rounds`.
fn log(mode: Mode, upstream: Option<&str>, failing: &str, rounds: usize) -> Vec<String> {
    let mut server = Server::new(mode, &args(upstream));
    let mut log = vec![];
    let mut asked = 0;
    loop {
        let action = server.action();
        let line = told(&action);
        log.push(line.clone());
        let event = match action {
            ServerAction::Finish(_) => return log,
            _ if line == failing => ServerEvent::Failed("no".to_string()),
            ServerAction::AskStop => {
                asked += 1;
                ServerEvent::Stop(asked > rounds)
            }
            ServerAction::ReadEnvironment => ServerEvent::Environment {
                runtime_dir: "/run/user/1000".to_string(),
                wayland_display: None,
            },
            _ => ServerEvent::Done,
        };
        server.step(event);
    }
}

const SETUP: [&str; 5] = [
    "open /run/proxy.lock",
    "lock",
    "remove /run/proxy.sock",
    "bind /run/proxy.sock",
    "notify",
];

fn with_setup(rest: &[&str]) -> Vec<String> {
    SETUP.iter().chain(rest).map(|s| s.to_string()).collect()
}

#[test]
fn run_asks_before_it_accepts() {
    assert_eq!(
        log(Mode::Run, Some("/run/wayland-0"), "", 1),
        with_setup(&[
            "stop?",
            "accept",
            "connect /run/wayland-0",
            "serve",
            "stop?",
            "remove /run/proxy.sock",
            "remove /run/proxy.lock",
            "finish",
        ])
    );
}

#[test]
fn run_with_stop_asks_after_it_accepted() {
    assert_eq!(
        log(Mode::RunWithStop, None, "", 1),
        with_setup(&[
            "accept",
            "stop?",
            "environment",
            "connect to /run/user/1000/wayland-0",
            "serve",
            "accept",
            "stop?",
            "remove /run/proxy.sock",
            "remove /run/proxy.lock",
            "finish",
        ])
    );
}

#[test]
fn files_that_cannot_be_removed_are_passed_over() {
    let calm = log(Mode::Run, Some("/run/wayland-0"), "", 0);
    for failing in ["remove /run/proxy.sock", "remove /run/proxy.lock", "notify"] {
        assert_eq!(log(Mode::Run, Some("/run/wayland-0"), failing, 0), calm);
    }
}

#[test]
fn errors_before_the_socket_is_there() {
    let lock_text = "finish: Error getting exclusive lock for downstream listener, \
                     is another compositor already listening?: no";
    for mode in [Mode::Program, Mode::Run, Mode::RunWithStop] {
        assert_eq!(
            log(mode, None, "open /run/proxy.lock", 0),
            vec!["open /run/proxy.lock", "finish: Error opening lock file: no"]
        );
        assert_eq!(
            log(mode, None, "lock", 0),
            vec!["open /run/proxy.lock", "lock", lock_text]
        );
    }
    let bind_text = "finish: Error creating downstream listener: no";
    for mode in [Mode::Run, Mode::RunWithStop] {
        let lines = log(mode, None, "bind /run/proxy.sock", 0);
        assert_eq!(lines[..4], SETUP[..4]);
        assert_eq!(lines[4..], [bind_text]);
    }
    let lines = log(Mode::Program, None, "bind /run/proxy.sock", 0);
    assert_eq!(lines[..4], SETUP[..4]);
    assert_eq!(lines[4..], ["remove /run/proxy.lock", bind_text]);
}

#[test]
fn errors_after_the_socket_is_there() {
    let cleanup = ["remove /run/proxy.sock", "remove /run/proxy.lock"];
    let failures = [
        (Mode::Program, "accept", "finish: Error accepting downstream connection: no"),
        (Mode::Run, "accept", "finish: Error accepting downstream connection: no"),
        (Mode::RunWithStop, "accept", "finish: Error accepting: no"),
        (
            Mode::Program,
            "connect to /run/user/1000/wayland-0",
            "finish: Error creating upstream connection: no",
        ),
        (
            Mode::RunWithStop,
            "connect to /run/user/1000/wayland-0",
            "finish: Error creating upstream connection: no",
        ),
        (Mode::Run, "environment", "finish: no"),
    ];
    for (mode, failing, last) in failures {
        let lines = log(mode, None, failing, usize::MAX);
        let n = lines.len();
        assert_eq!(lines[n - 4], failing);
        assert_eq!(lines[n - 3..n - 1], cleanup);
        assert_eq!(lines[n - 1], last);
    }
}

#[test]
fn program_serves_on() {
    let mut server = Server::new(Mode::Program, &args(Some("/run/wayland-0")));
    let mut served = 0;
    while served < 100 {
        match server.action() {
            ServerAction::Serve => served += 1,
            ServerAction::AskStop | ServerAction::Finish(_) => panic!("the program stops"),
            _ => (),
        }
        server.step(ServerEvent::Done);
    }
}

#[test]
fn named_display_is_connected_to() {
    let mut server = Server::new(Mode::Program, &args(None));
    while !matches!(server.action(), ServerAction::ReadEnvironment) {
        server.step(ServerEvent::Done);
    }
    server.step(ServerEvent::Environment {
        runtime_dir: "/run/user/7/".to_string(),
        wayland_display: Some("wayland-9".to_string()),
    });
    assert_eq!(told(&server.action()), "connect to /run/user/7/wayland-9");
}

#[test]
fn lock_file_stands_beside_the_socket() {
    for (socket, lock) in [
        ("/run/wayland-1", "/run/wayland-1.lock"),
        ("/run/a.b.sock", "/run/a.b.lock"),
        ("x", "x.lock"),
    ] {
        let args = Args { downstream: PathBuf::from(socket), ..args(None) };
        let server = Server::new(Mode::Run, &args);
        assert_eq!(told(&server.action()), format!("open {lock}"));
    }
}

#[test]
fn misplaced_events_are_passed_over() {
    let mut server = Server::new(Mode::Run, &args(None));
    server.step(ServerEvent::Stop(true));
    server.step(ServerEvent::Environment {
        runtime_dir: String::new(),
        wayland_display: None,
    });
    assert_eq!(told(&server.action()), "open /run/proxy.lock");
}

#[test]
fn finished_server_stays_finished() {
    let mut server = Server::new(Mode::Run, &args(None));
    server.step(ServerEvent::Failed("no".to_string()));
    for _ in 0..3 {
        assert_eq!(told(&server.action()), "finish: Error opening lock file: no");
        server.step(ServerEvent::Done);
        server.step(ServerEvent::Failed("again".to_string()));
    }
}

#[test]
fn start_warns_first() {
    let unknown = Args { block: vec!["nonsense".to_string()], quiet: false, ..args(None) };
    let warned = vec!["Warning: unknown Wayland interface \"nonsense\" in --block list"];
    for (warnings, server) in [start(Mode::Program, &unknown), run(&unknown), run_with_stop(&unknown)]
    {
        assert_eq!(warnings, warned);
        assert_eq!(told(&server.action()), "open /run/proxy.lock");
    }
    let quiet = Args { quiet: true, ..unknown };
    assert!(run(&quiet).0.is_empty());
}

#[test]
fn run_and_run_with_stop_ask_at_their_time() {
    for (mut server, after_setup) in [(run(&args(None)).1, "stop?"), (run_with_stop(&args(None)).1, "accept")] {
        for line in SETUP {
            assert_eq!(told(&server.action()), line);
            server.step(ServerEvent::Done);
        }
        assert_eq!(told(&server.action()), after_setup);
    }
}

#[test]
fn settings_are_copied_whole() {
    let all = Args {
        upstream: Some(PathBuf::from("/run/wayland-0")),
        app_id: Some("app".to_string()),
        prefix_app_id: true,
        title: Some("title".to_string()),
        prefix_title: false,
        block: vec!["a".to_string(), "b".to_string()],
        quiet: false,
        debug: true,
        downstream: PathBuf::from("/run/proxy.sock"),
    };
    let copy = all.clone();
    assert_eq!(copy.upstream, all.upstream);
    assert_eq!(copy.app_id, all.app_id);
    assert_eq!(copy.prefix_app_id, all.prefix_app_id);
    assert_eq!(copy.title, all.title);
    assert_eq!(copy.prefix_title, all.prefix_title);
    assert_eq!(copy.block, all.block);
    assert_eq!(copy.quiet, all.quiet);
    assert_eq!(copy.debug, all.debug);
    assert_eq!(copy.downstream, all.downstream);
}
