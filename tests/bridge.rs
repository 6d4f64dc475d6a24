use std::sync::atomic::{AtomicUsize, Ordering};
use std::sync::{Arc, Mutex};
use nvim_bridge::channels::{
    find_channel_id, parse_channel_info, parse_channel_list, ChannelInfo, ClientInfo, MsgValue,
};
use nvim_bridge::command::{build_neovide_command, decimal_string};
use nvim_bridge::events::EventRouter;
use nvim_bridge::handshake::{
    client_name, exit_code, init_error_command, launch_failure, version_probe, Call,
    DisplayOption, Fatal, Halt, Handshake, Reply, Step, UiOptions,
};
use nvim_bridge::launch::{
    build_launch_args, plan_connection, resolve_binary, select_binary, stderr_mode, Candidate,
    ConnectionMode, Endpoint, LaunchError, LaunchOptions, StderrMode,
};
use nvim_bridge::lifecycle::{
    pump_step, watch_verdict, DriverOutcome, PumpAction, PumpEvent, RunningFlag,
};

fn chan(id: u64, name: Option<&str>) -> ChannelInfo {
    ChannelInfo { id, client: name.map(|n| ClientInfo { name: n.to_string() }) }
}

fn full_options() -> UiOptions {
    UiOptions { rgb: true, hlstate_external: true, linegrid_external: true, multigrid_external: true }
}

#[test]
fn decimal_rendering() {
    assert_eq!(decimal_string(0), "0");
    assert_eq!(decimal_string(7), "7");
    assert_eq!(decimal_string(10), "10");
    assert_eq!(decimal_string(u64::MAX), "18446744073709551615");
}

#[test]
fn neovide_command_without_args() {
    assert_eq!(
        build_neovide_command(3, 0, "NeovideToggle", "toggle"),
        "command! -nargs=0 -complete=expression NeovideToggle call rpcnotify(3, 'neovide.toggle')"
    );
}

#[test]
fn neovide_command_with_one_arg() {
    assert_eq!(
        build_neovide_command(12, 1, "NeovideFont", "font"),
        "command! -nargs=1 -complete=expression NeovideFont call rpcnotify(12, 'neovide.font', <args>)"
    );
}

#[test]
fn neovide_command_with_many_args() {
    assert_eq!(
        build_neovide_command(0, 5, "Cmd", "ev"),
        "command! -nargs=+ -complete=expression Cmd call rpcnotify(0, 'neovide.ev', <args>)"
    );
}

#[test]
fn channel_discovery_finds_named_client() {
    let chans = vec![chan(1, None), chan(3, Some("other")), chan(7, Some("bridge"))];
    assert_eq!(find_channel_id(&chans, &"bridge".to_string()), 7);
}

#[test]
fn channel_discovery_defaults_to_zero() {
    let chans = vec![chan(1, None), chan(3, Some("other"))];
    assert_eq!(find_channel_id(&chans, &"bridge".to_string()), 0);
    assert_eq!(find_channel_id(&Vec::new(), &"bridge".to_string()), 0);
}

#[test]
fn channel_discovery_takes_first_match() {
    let chans = vec![chan(4, Some("bridge")), chan(9, Some("bridge"))];
    assert_eq!(find_channel_id(&chans, &"bridge".to_string()), 4);
}

#[test]
fn select_prefers_explicit_path() {
    let r = select_binary(
        Some(Candidate { path: "/opt/nvim".to_string(), usable: true }),
        Some(Candidate { path: "/usr/bin/lvim".to_string(), usable: true }),
        None,
    );
    assert_eq!(r, Ok("/opt/nvim".to_string()));
}

#[test]
fn select_refuses_unusable_first_candidate() {
    let r = select_binary(
        None,
        Some(Candidate { path: "/usr/bin/lvim".to_string(), usable: false }),
        Some(Candidate { path: "/usr/bin/nvim".to_string(), usable: true }),
    );
    assert_eq!(r, Err(LaunchError::NoPermission));
}

#[test]
fn select_falls_back_to_nvim() {
    let r = select_binary(None, None, Some(Candidate { path: "/usr/bin/nvim".to_string(), usable: true }));
    assert_eq!(r, Ok("/usr/bin/nvim".to_string()));
}

#[test]
fn select_with_nothing_found() {
    assert_eq!(select_binary(None, None, None), Err(LaunchError::NotFound));
}

#[test]
fn resolve_missing_explicit_path_is_refused() {
    let r = resolve_binary(Some("/no/such/dir/nvim-binary".to_string()));
    assert_eq!(r, Err(LaunchError::NoPermission));
}

#[test]
fn launch_args_start_with_embed() {
    let args = build_launch_args(&vec!["-u".to_string(), "NONE".to_string()]);
    assert_eq!(args, vec!["--embed".to_string(), "-u".to_string(), "NONE".to_string()]);
    assert_eq!(build_launch_args(&Vec::new()), vec!["--embed".to_string()]);
}

#[test]
fn stderr_follows_build_profile() {
    assert_eq!(stderr_mode(true), StderrMode::Inherit);
    assert_eq!(stderr_mode(false), StderrMode::Piped);
}

#[test]
fn remote_mode_plans_tcp() {
    let opts = LaunchOptions {
        nvim_path: None,
        nvim_args: vec![],
        mode: ConnectionMode::RemoteTcp("127.0.0.1:6666".to_string()),
    };
    match plan_connection(&opts, false) {
        Ok(Endpoint::Tcp(a)) => assert_eq!(a, "127.0.0.1:6666"),
        _ => panic!("expected a tcp endpoint"),
    }
}

#[test]
fn child_mode_with_bad_path_fails_nonzero() {
    let opts = LaunchOptions {
        nvim_path: Some("/no/such/dir/nvim-binary".to_string()),
        nvim_args: vec![],
        mode: ConnectionMode::Child,
    };
    match plan_connection(&opts, true) {
        Err(e) => {
            assert_eq!(e, LaunchError::NoPermission);
            assert_ne!(exit_code(Halt::Fatal(launch_failure(e))), 0);
        }
        Ok(_) => panic!("expected a launch failure"),
    }
    assert_eq!(launch_failure(LaunchError::NotFound), Fatal::NoBinary);
    assert_ne!(exit_code(Halt::Fatal(launch_failure(LaunchError::NotFound))), 0);
}

#[test]
fn exit_codes() {
    assert_eq!(exit_code(Halt::Incompatible), 0);
    assert_eq!(exit_code(Halt::Fatal(Fatal::ApiInfo)), -1);
    assert_eq!(exit_code(Halt::Fatal(Fatal::Attach)), 1);
    assert_eq!(exit_code(Halt::Fatal(Fatal::NoBinary)), 1);
}

#[test]
fn protocol_texts() {
    assert_eq!(version_probe(), "echo has('nvim-0.6')");
    assert_eq!(client_name(), "neovide");
    assert_eq!(init_error_command("E5113"), "echomsg \"error encountered in ginit.vim E5113\"");
}

fn label(c: &Call) -> String {
    match c {
        Call::GetApiInfo => "api".to_string(),
        Call::CheckVersion => "version".to_string(),
        Call::SetPresenceVar => "setvar".to_string(),
        Call::SourceInitScript => "init".to_string(),
        Call::ReportInitError(e) => format!("report:{}", e),
        Call::SetClientInfo { major, minor } => format!("clientinfo:{}.{}", major, minor),
        Call::ListChannels => "chans".to_string(),
        Call::SetOption { option: DisplayOption::LazyRedraw, value } => format!("lazyredraw={}", value),
        Call::SetOption { option: DisplayOption::TermGuiColors, value } => format!("termguicolors={}", value),
        Call::UiAttach { width, height, options } => {
            assert_eq!(*options, full_options());
            format!("attach:{}x{}", width, height)
        }
        Call::Ready { channel } => format!("ready:{}", channel),
        Call::Exit(h) => format!("exit:{}", exit_code(*h)),
    }
}

fn run(replies: Vec<Reply>) -> (Vec<String>, Handshake) {
    let (mut h, first) = Handshake::start();
    let mut calls = vec![label(&first)];
    for r in replies {
        if h.is_done() {
            break;
        }
        let c = h.advance(r);
        calls.push(label(&c));
    }
    (calls, h)
}

#[test]
fn handshake_full_run() {
    let (calls, h) = run(vec![
        Reply::Ack,
        Reply::Output("1".to_string()),
        Reply::Ack,
        Reply::Ack,
        Reply::Ack,
        Reply::Channels(vec![chan(2, Some("other")), chan(5, Some("neovide"))]),
        Reply::Ack,
        Reply::Ack,
        Reply::Ack,
    ]);
    assert_eq!(
        calls,
        vec![
            "api", "version", "setvar", "init", "clientinfo:0.6", "chans", "lazyredraw=false",
            "termguicolors=true", "attach:80x24", "ready:5"
        ]
    );
    assert_eq!(h.step, Step::Attached);
    assert_eq!(h.channel, 5);
    assert_eq!(calls.iter().filter(|c| c.starts_with("attach")).count(), 1);
}

#[test]
fn handshake_reports_init_error_and_goes_on() {
    let (calls, h) = run(vec![
        Reply::Ack,
        Reply::Output("1".to_string()),
        Reply::Ack,
        Reply::Failed("bad config".to_string()),
        Reply::Ack,
        Reply::Failed("no client info".to_string()),
        Reply::Failed("no list".to_string()),
        Reply::Failed("x".to_string()),
        Reply::Failed("y".to_string()),
        Reply::Ack,
    ]);
    assert_eq!(
        calls,
        vec![
            "api", "version", "setvar", "init", "report:bad config", "clientinfo:0.6", "chans",
            "lazyredraw=false", "termguicolors=true", "attach:80x24", "ready:0"
        ]
    );
    assert_eq!(h.channel, 0);
}

#[test]
fn handshake_api_failure_is_fatal() {
    let (calls, h) = run(vec![Reply::Failed("unknown".to_string()), Reply::Ack]);
    assert_eq!(calls, vec!["api", "exit:-1"]);
    assert_eq!(h.step, Step::Halted);
}

#[test]
fn handshake_incompatible_version_exits_zero() {
    let (calls, _) = run(vec![Reply::Ack, Reply::Output("0".to_string()), Reply::Ack, Reply::Ack]);
    assert_eq!(calls, vec!["api", "version", "exit:0"]);
    assert!(!calls.iter().any(|c| c.starts_with("attach")));
    let (calls, _) = run(vec![Reply::Ack, Reply::Failed("E".to_string())]);
    assert_eq!(calls, vec!["api", "version", "exit:0"]);
}

#[test]
fn handshake_set_var_and_attach_failures_are_fatal() {
    let (calls, _) = run(vec![Reply::Ack, Reply::Output("1".to_string()), Reply::Failed("io".to_string())]);
    assert_eq!(calls, vec!["api", "version", "setvar", "exit:1"]);
    let (calls, h) = run(vec![
        Reply::Ack,
        Reply::Output("1".to_string()),
        Reply::Ack,
        Reply::Ack,
        Reply::Ack,
        Reply::Ack,
        Reply::Ack,
        Reply::Ack,
        Reply::Failed("attach".to_string()),
    ]);
    assert_eq!(calls.last().unwrap(), "exit:1");
    assert_eq!(h.step, Step::Halted);
    let attach = calls.iter().position(|c| c.starts_with("attach")).unwrap();
    let info = calls.iter().position(|c| c.starts_with("clientinfo")).unwrap();
    assert!(info < attach);
}

#[test]
fn pump_dispatches_each_command_once() {
    let mut dispatched = Vec::new();
    let events = vec![
        PumpEvent::Received("a"),
        PumpEvent::Received("b"),
        PumpEvent::Received("c"),
        PumpEvent::Closed,
    ];
    let mut stopped = false;
    for ev in events {
        match pump_step(ev) {
            PumpAction::Dispatch(c) => dispatched.push(c),
            PumpAction::Stop => {
                stopped = true;
                break;
            }
        }
    }
    assert!(stopped);
    assert_eq!(dispatched.len(), 3);
    let mut sorted = dispatched.clone();
    sorted.sort();
    assert_eq!(sorted, vec!["a", "b", "c"]);
}

#[test]
fn running_flag_only_falls() {
    let flag = RunningFlag::new();
    let other = flag.share();
    assert!(flag.is_running());
    other.stop();
    assert!(!flag.is_running());
    flag.stop();
    assert!(!other.is_running());
}

#[test]
fn close_watcher_verdicts() {
    let v = watch_verdict(DriverOutcome::Failed { channel_closed: true });
    assert!(v.stop && !v.log_error);
    let v = watch_verdict(DriverOutcome::Failed { channel_closed: false });
    assert!(v.stop && v.log_error);
    let v = watch_verdict(DriverOutcome::Aborted);
    assert!(v.stop && v.log_error);
    let v = watch_verdict(DriverOutcome::Finished);
    assert!(v.stop && !v.log_error);
}

#[test]
fn router_keeps_arrival_order() {
    let mut router = EventRouter::new();
    assert!(router.route(Some(vec!["A"])));
    assert!(!router.route(None));
    assert!(router.route(Some(vec!["B", "C"])));
    assert_eq!(router.len(), 3);
    assert_eq!(router.next_event(), Some("A"));
    assert_eq!(router.next_event(), Some("B"));
    assert_eq!(router.next_event(), Some("C"));
    assert_eq!(router.next_event(), None);
}

fn text(s: &str) -> MsgValue {
    MsgValue::Text(s.to_string())
}

fn channel_record(id: u64, client: Option<&str>) -> MsgValue {
    let mut entries = vec![(text("id"), MsgValue::UInt(id)), (text("stream"), text("stdio"))];
    if let Some(name) = client {
        entries.push((text("client"), MsgValue::Dict(vec![(text("name"), text(name))])));
    }
    MsgValue::Dict(entries)
}

#[test]
fn parse_channel_with_client() {
    let c = parse_channel_info(&channel_record(7, Some("bridge"))).unwrap();
    assert_eq!(c.id, 7);
    assert_eq!(c.client.unwrap().name, "bridge");
}

#[test]
fn parse_channel_without_client() {
    let c = parse_channel_info(&channel_record(2, None)).unwrap();
    assert_eq!(c.id, 2);
    assert!(c.client.is_none());
}

#[test]
fn parse_channel_rejects_malformed() {
    assert!(parse_channel_info(&MsgValue::Nil).is_none());
    assert!(parse_channel_info(&MsgValue::Dict(vec![(text("id"), text("seven"))])).is_none());
    assert!(parse_channel_info(&MsgValue::Dict(vec![
        (text("id"), MsgValue::UInt(1)),
        (text("client"), MsgValue::Dict(vec![(text("version"), MsgValue::UInt(1))])),
    ]))
    .is_none());
}

#[test]
fn parse_list_then_discover() {
    let values = vec![channel_record(1, None), channel_record(7, Some("bridge"))];
    let list = parse_channel_list(&values).unwrap();
    assert_eq!(list.len(), 2);
    assert_eq!(find_channel_id(&list, &"bridge".to_string()), 7);
    let bad = vec![channel_record(1, None), MsgValue::Other];
    assert!(parse_channel_list(&bad).is_none());
}

#[test]
fn pump_runs_every_submitted_command_on_runtime() {
    let runtime = tokio::runtime::Builder::new_current_thread().build().unwrap();
    let executed = Arc::new(AtomicUsize::new(0));
    let seen = Arc::new(Mutex::new(Vec::new()));
    let running = RunningFlag::new();
    let (tx, mut rx) = tokio::sync::mpsc::unbounded_channel::<u32>();
    for c in [10u32, 20, 30] {
        tx.send(c).unwrap();
    }
    drop(tx);
    let pump_flag = running.share();
    let (exec2, seen2) = (executed.clone(), seen.clone());
    runtime.block_on(async move {
        let mut handles = Vec::new();
        while pump_flag.is_running() {
            let ev = match rx.recv().await {
                Some(c) => PumpEvent::Received(c),
                None => PumpEvent::Closed,
            };
            match pump_step(ev) {
                PumpAction::Dispatch(c) => {
                    let (e, s) = (exec2.clone(), seen2.clone());
                    handles.push(tokio::spawn(async move {
                        e.fetch_add(1, Ordering::SeqCst);
                        s.lock().unwrap().push(c);
                    }));
                }
                PumpAction::Stop => pump_flag.stop(),
            }
        }
        for h in handles {
            h.await.unwrap();
        }
    });
    assert!(!running.is_running());
    assert_eq!(executed.load(Ordering::SeqCst), 3);
    let mut got = seen.lock().unwrap().clone();
    got.sort();
    assert_eq!(got, vec![10, 20, 30]);
}
