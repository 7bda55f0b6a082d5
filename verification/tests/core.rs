//! Behavior of the window, timer, runner and registry.

use chatterm::registry::{Error as RegistryError, Registry};
use chatterm::session::Event;
use chatterm::terminal::{Command, IdleStep, Runner, Timer, Window};

fn lines(w: &Window) -> Vec<String> {
    w.buffer.clone()
}

#[test]
fn window_starts_empty() {
    let w = Window::new(3);
    assert_eq!(w.height, 3);
    assert!(w.buffer.is_empty());
    assert_eq!(w.snapshot(), "");
}

#[test]
fn window_appends_in_order() {
    let mut w = Window::new(3);
    w.append(String::from("a"));
    w.append(String::from("b"));
    assert_eq!(lines(&w), vec!["a".to_string(), "b".to_string()]);
    assert_eq!(w.snapshot(), "a\nb");
}

#[test]
fn window_keeps_last_lines_when_full() {
    let mut w = Window::new(3);
    for t in ["one", "two", "three", "four", "five"] {
        w.append(String::from(t));
    }
    assert_eq!(
        lines(&w),
        vec!["three".to_string(), "four".to_string(), "five".to_string()]
    );
}

#[test]
fn window_with_height_one_holds_newest() {
    let mut w = Window::new(1);
    w.append(String::from("a"));
    w.append(String::from("b"));
    assert_eq!(lines(&w), vec!["b".to_string()]);
}

#[test]
fn snapshot_has_no_trailing_newline() {
    let mut w = Window::new(4);
    w.append(String::from("solo"));
    assert_eq!(w.snapshot(), "solo");
}

#[test]
fn timer_first_check_always_fires() {
    let mut t = Timer::new();
    assert!(t.check_and_update(0, 4));
}

#[test]
fn timer_suppresses_within_cooldown() {
    let mut t = Timer::new();
    assert!(t.check_and_update(100, 4));
    assert!(!t.check_and_update(102, 4));
    assert!(!t.check_and_update(104, 4));
    assert!(t.check_and_update(105, 4));
    assert!(!t.check_and_update(106, 4));
}

#[test]
fn runner_executes_commands_in_fifo_order() {
    let mut r: Runner<u32> = Runner::new(7, 3);
    r.on_control(Command::Run(String::from("A")));
    r.on_control(Command::Run(String::from("B")));
    r.on_control(Command::Run(String::from("C")));
    let mut started: Vec<String> = Vec::new();
    for _ in 0..3 {
        match r.poll_idle() {
            IdleStep::Start(c) => {
                started.push(c);
                r.on_eof();
            }
            _ => panic!("expected a start"),
        }
    }
    assert_eq!(
        started,
        vec!["A".to_string(), "B".to_string(), "C".to_string()]
    );
}

#[test]
fn runner_idles_when_nothing_pending() {
    let mut r: Runner<u32> = Runner::new(7, 3);
    assert!(matches!(r.poll_idle(), IdleStep::Sleep));
}

#[test]
fn output_updates_are_rate_limited() {
    let mut r: Runner<u32> = Runner::new(9, 5);
    r.on_control(Command::Run(String::from("slow")));
    assert!(matches!(r.poll_idle(), IdleStep::Start(_)));
    // first line always fires; the second comes too soon
    let first = r.on_line(String::from("one"), 10);
    match first {
        Some((id, Event::Update(frame))) => {
            assert_eq!(id, 9);
            assert_eq!(frame, "one");
        }
        _ => panic!("expected an update for the first line"),
    }
    assert!(r.on_line(String::from("two"), 11).is_none());
    assert!(r.on_line(String::from("three"), 13).is_none());
    // completion always fires an update and then a ready
    let (up, ready) = r.on_eof();
    match up {
        (9, Event::Update(frame)) => assert_eq!(frame, "one\ntwo\nthree\n >>> "),
        _ => panic!("expected the forced update"),
    }
    assert!(matches!(ready, (9, Event::Ready)));
}

#[test]
fn end_to_end_two_commands_trim_to_height() {
    let mut registry: Registry<u32> = Registry::new();
    assert!(registry.register(String::from("a"), 1).is_none());
    assert!(registry.submit(&String::from("a")).is_ok());

    let mut r: Runner<u32> = Runner::new(1, 3);
    r.on_control(Command::Run(String::from("echo one")));
    r.on_control(Command::Run(String::from("echo two")));

    let mut readies = 0;
    let mut forced_updates = 0;
    for expected in ["echo one", "echo two"] {
        match r.poll_idle() {
            IdleStep::Start(c) => assert_eq!(c, expected),
            _ => panic!("expected a start"),
        }
        let out = if expected == "echo one" { "one" } else { "two" };
        r.on_line(String::from(out), 0);
        let (up, ready) = r.on_eof();
        if matches!(up.1, Event::Update(_)) {
            forced_updates += 1;
        }
        if matches!(ready.1, Event::Ready) {
            readies += 1;
        }
    }
    assert_eq!(readies, 2);
    assert_eq!(forced_updates, 2);
    assert_eq!(
        lines(&r.window),
        vec![" >>> ".to_string(), "two".to_string(), " >>> ".to_string()]
    );
}

#[test]
fn channel_closed_mid_command_kills_the_child() {
    let mut r: Runner<u32> = Runner::new(4, 3);
    r.on_control(Command::Run(String::from("sleep 60")));
    assert!(matches!(r.poll_idle(), IdleStep::Start(_)));
    assert!(r.running);
    let (kill, up, closed) = r.on_channel_closed();
    assert!(kill, "a running child must be killed on the way out");
    assert!(!r.running);
    assert!(r.closed);
    assert!(matches!(up.1, Event::Update(_)));
    assert!(matches!(closed.1, Event::Closed));
}

#[test]
fn channel_closed_while_idle_kills_nothing() {
    let mut r: Runner<u32> = Runner::new(4, 3);
    let (kill, _, closed) = r.on_channel_closed();
    assert!(!kill);
    assert!(matches!(closed.1, Event::Closed));
}

#[test]
fn remove_drains_queue_then_closes() {
    let mut r: Runner<u32> = Runner::new(4, 2);
    r.on_control(Command::Run(String::from("echo hi")));
    r.on_control(Command::Remove);
    // the queued command still runs to completion
    match r.poll_idle() {
        IdleStep::Start(c) => assert_eq!(c, "echo hi"),
        _ => panic!("expected a start"),
    }
    r.on_line(String::from("hi"), 0);
    r.on_eof();
    // only then does the session close
    match r.poll_idle() {
        IdleStep::Close(up, closed) => {
            assert!(matches!(up.1, Event::Update(_)));
            assert!(matches!(closed.1, Event::Closed));
        }
        _ => panic!("expected the session to close"),
    }
    assert!(r.closed);
    assert!(!r.running);
}

#[test]
fn spawn_failure_is_recoverable() {
    let mut r: Runner<u32> = Runner::new(4, 2);
    r.on_control(Command::Run(String::from("bad")));
    r.on_control(Command::Run(String::from("good")));
    assert!(matches!(r.poll_idle(), IdleStep::Start(_)));
    r.on_spawn_failure();
    match r.poll_idle() {
        IdleStep::Start(c) => assert_eq!(c, "good"),
        _ => panic!("the session must advance past a spawn failure"),
    }
}

#[test]
fn replacement_leaves_exactly_one_entry() {
    let mut registry: Registry<u32> = Registry::new();
    assert!(registry.register(String::from("a"), 1).is_none());
    let displaced = registry.register(String::from("a"), 2);
    assert_eq!(displaced, Some(1));
    assert_eq!(registry.entries.len(), 1);
    assert_eq!(registry.lookup(&String::from("a")), Some(&2));
}

#[test]
fn registry_keeps_other_ids_on_replacement() {
    let mut registry: Registry<u32> = Registry::new();
    registry.register(String::from("a"), 1);
    registry.register(String::from("b"), 2);
    registry.register(String::from("a"), 3);
    assert_eq!(registry.lookup(&String::from("b")), Some(&2));
    assert_eq!(registry.lookup(&String::from("a")), Some(&3));
    assert_eq!(registry.entries.len(), 2);
}

#[test]
fn submit_on_unknown_id_is_not_found() {
    let registry: Registry<u32> = Registry::new();
    match registry.submit(&String::from("ghost")) {
        Err(RegistryError::NotFound(id)) => assert_eq!(id, "ghost"),
        _ => panic!("expected NotFound"),
    }
}

#[test]
fn remove_on_unknown_id_is_not_found() {
    let mut registry: Registry<u32> = Registry::new();
    match registry.remove(&String::from("ghost")) {
        Err(RegistryError::NotFound(id)) => assert_eq!(id, "ghost"),
        _ => panic!("expected NotFound"),
    }
}

#[test]
fn remove_returns_the_handle_and_clears_the_entry() {
    let mut registry: Registry<u32> = Registry::new();
    registry.register(String::from("a"), 5);
    match registry.remove(&String::from("a")) {
        Ok(h) => assert_eq!(h, 5),
        _ => panic!("expected the live handle"),
    }
    assert!(registry.lookup(&String::from("a")).is_none());
}

#[test]
fn not_found_describes_itself() {
    let e = RegistryError::NotFound(String::from("abc"));
    assert_eq!(e.describe(), "terminal `abc` not found");
}
