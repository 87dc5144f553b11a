use rtun::forward::{forwards_for_ports, ParseError};
use rtun::hosts::{get_hosts, visible_host_names, ConfigError};
use rtun::input::Key;
use rtun::lifecycle::{Lifecycle, Phase, TunnelAction, TunnelEvent};
use rtun::registry::Registry;
use rtun::session::{Command, Session};

fn press(s: &mut Session, text: &str) {
    for c in text.chars() {
        assert!(matches!(s.handle_key(Key::Char(c)), Command::Redraw));
    }
}

#[test]
fn initial_ports_start_and_quit_shuts_down() {
    let mut s = Session::new();
    let mut started = Vec::new();
    for spec in forwards_for_ports(&vec![8080, 9090], "example.com") {
        started.push(s.register(spec).unwrap());
    }
    assert_eq!(started[0].1, vec!["-N", "-T", "-L", "8080:127.0.0.1:8080", "example.com"]);
    assert_eq!(started[1].1, vec!["-N", "-T", "-L", "9090:127.0.0.1:9090", "example.com"]);
    assert_eq!(s.registry().rows().len(), 2);
    assert!(matches!(s.handle_key(Key::Esc), Command::Shutdown));
    assert!(s.is_fired());
    assert!(!s.finished());
    assert!(s.on_report(started[0].0, Phase::Running));
    assert_eq!(s.registry().rows()[0].phase, Phase::Running);
    for (id, _) in &started {
        assert!(s.on_report(*id, Phase::Exited));
    }
    assert!(s.finished());
}

#[test]
fn typed_tunnel_is_registered() {
    let mut s = Session::new();
    s.handle_key(Key::Char('n'));
    press(&mut s, "myhost 2222:22");
    match s.handle_key(Key::Enter) {
        Command::Start { id, args } => {
            assert_eq!(id, 0);
            assert_eq!(args, vec!["-N", "-T", "-L", "2222:127.0.0.1:22", "myhost"]);
        }
        _ => panic!("expected a start"),
    }
    let rows = s.registry().rows();
    assert_eq!(rows.len(), 1);
    assert_eq!(rows[0].spec.host, "myhost");
    assert_eq!((rows[0].spec.local_port, rows[0].spec.remote_port), (2222, 22));
    assert_eq!(rows[0].phase, Phase::Starting);
}

#[test]
fn escape_before_enter_creates_nothing() {
    let mut s = Session::new();
    s.handle_key(Key::Char('n'));
    press(&mut s, "myhost 2222:22");
    assert!(matches!(s.handle_key(Key::Esc), Command::Redraw));
    assert!(s.registry().rows().is_empty());
    assert!(!s.is_fired());
}

#[test]
fn malformed_entry_is_reported_and_kept() {
    let mut s = Session::new();
    s.handle_key(Key::Char('n'));
    press(&mut s, "badformat");
    assert!(matches!(s.handle_key(Key::Enter), Command::Redraw));
    assert_eq!(s.last_error(), Some(ParseError::BadSpacing));
    assert_eq!(s.input().draft().map(|t| t.as_str()), Some("badformat"));
    assert!(s.registry().rows().is_empty());
}

#[test]
fn signal_shuts_down_both_tunnels() {
    let mut s = Session::new();
    let mut tunnels = Vec::new();
    for spec in forwards_for_ports(&vec![8080, 9090], "example.com") {
        let (id, _) = s.register(spec).unwrap();
        let mut t = Lifecycle::new();
        t.on_event(TunnelEvent::Spawned);
        s.on_report(id, t.phase);
        tunnels.push((id, t));
    }
    assert!(s.on_signal());
    assert!(!s.on_signal());
    for (id, t) in tunnels.iter_mut() {
        assert_eq!(t.on_event(TunnelEvent::Shutdown), TunnelAction::Terminate);
        assert_eq!(t.on_event(TunnelEvent::ProcessExited), TunnelAction::Finished);
        s.on_report(*id, t.phase);
    }
    assert!(s.registry().rows().is_empty());
    assert!(s.finished());
}

#[test]
fn registry_tracks_rows_by_id() {
    let mut r = Registry::new();
    let specs = forwards_for_ports(&vec![1, 2, 3], "h");
    let mut ids = Vec::new();
    for spec in specs {
        ids.push(r.add(spec).unwrap());
    }
    assert_eq!(ids, vec![0, 1, 2]);
    assert_eq!(r.pending(), 3);
    assert!(r.set_phase(1, Phase::Exited));
    assert_eq!(r.pending(), 2);
    assert!(r.remove(0));
    assert!(!r.remove(0));
    assert!(!r.set_phase(7, Phase::Running));
    let ports: Vec<u16> = r.rows().iter().map(|row| row.spec.local_port).collect();
    assert_eq!(ports, vec![2, 3]);
}

#[test]
fn host_list_skips_the_catch_all() {
    let text = "Host alpha beta\n    HostName a.example\nHost *\n    User me\nHost gamma\n    Port 2222\n";
    assert_eq!(get_hosts(text).unwrap(), vec!["alpha", "gamma"]);
    assert_eq!(get_hosts("").unwrap(), Vec::<String>::new());
}

#[test]
fn malformed_config_is_refused() {
    assert_eq!(get_hosts("NoSuchOption yes\n").err(), Some(ConfigError::Malformed));
}

#[test]
fn visible_hosts_from_patterns() {
    let blocks = vec![
        vec!["*".to_string()],
        vec![],
        vec!["web".to_string(), "*".to_string()],
        vec!["**".to_string(), "db".to_string()],
    ];
    assert_eq!(visible_host_names(&blocks), vec!["web", "**"]);
}
