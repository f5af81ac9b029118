use std::collections::HashMap;

use bear100::app::{find_pid, Action, PROCESS_ACCESS, App, Event, HandleStatus, PipelineError, ProcessEntry, Stage};
use bear100::chain::offset_address;
use bear100::config::{Config, ConfigError};

fn config_with(offsets: Vec<u32>) -> Config {
    Config {
        process_name: "game.exe".to_string(),
        offsets,
        replace_value: 150_000,
        timeout_s: 4,
        refresh_rate_ms: 700,
        show_app_info: false,
    }
}

fn entry(pid: u32, name: &str) -> ProcessEntry {
    ProcessEntry { pid, name: name.to_string() }
}

/// A target process held in memory: what the OS would answer to each action.
struct Target {
    pid: u32,
    base: u64,
    memory: HashMap<u64, u64>,
    lists_before_start: u32,
    deny_handle: bool,
    fail_modules: bool,
    fail_write: bool,
    reads: Vec<u64>,
    writes: Vec<(u64, u32)>,
    closes: u32,
}

impl Target {
    fn new(base: u64, memory: &[(u64, u64)]) -> Target {
        Target {
            pid: 4242,
            base,
            memory: memory.iter().cloned().collect(),
            lists_before_start: 0,
            deny_handle: false,
            fail_modules: false,
            fail_write: false,
            reads: Vec::new(),
            writes: Vec::new(),
            closes: 0,
        }
    }

    fn answer(&mut self, action: Action) -> Option<Event> {
        match action {
            Action::ListProcesses { .. } => {
                let mut list = vec![entry(1, "idle.exe")];
                if self.lists_before_start == 0 {
                    list.push(entry(self.pid, "game.exe"));
                } else {
                    self.lists_before_start -= 1;
                }
                Some(Event::Processes { list })
            },
            Action::OpenHandle { .. } => Some(if self.deny_handle {
                Event::HandleDenied { code: 5 }
            } else {
                Event::HandleOpened
            }),
            Action::EnumerateModules => Some(if self.fail_modules {
                Event::ModulesFailed { code: 6 }
            } else {
                Event::ModulesListed { first: self.base }
            }),
            Action::ReadPointer { address } => {
                self.reads.push(address);
                Some(match self.memory.get(&address) {
                    Some(value) => Event::PointerRead { value: *value },
                    None => Event::ReadFailed { code: 299 },
                })
            },
            Action::WriteValue { address, value } => {
                self.writes.push((address, value));
                Some(if self.fail_write {
                    Event::WriteFailed { code: 998 }
                } else {
                    Event::ValueWritten
                })
            },
            Action::CloseHandle => {
                self.closes += 1;
                None
            },
            Action::Stop => None,
        }
    }
}

fn drive(app: &mut App, target: &mut Target) -> Vec<Action> {
    let mut actions = Vec::new();
    let mut action = app.next_action();
    loop {
        actions.push(action);
        match target.answer(action) {
            Some(event) => action = app.step(event),
            None => break,
        }
    }
    actions
}

#[test]
fn resolves_two_offsets_through_one_read() {
    let cfg = config_with(vec![0x8, 0x10]);
    let mut app = App::new(&cfg);
    let mut target = Target::new(0x1000, &[(0x1008, 0x2000)]);
    drive(&mut app, &mut target);
    assert_eq!(target.reads, vec![0x1008]);
    assert_eq!(target.writes, vec![(0x2010, 150_000)]);
    assert_eq!(target.closes, 1);
    assert_eq!(app.stage(), Stage::ValueWritten);
    let info = app.info();
    assert_eq!(info.pid, Some(4242));
    assert_eq!(info.base_addr, Some(0x1000));
    assert_eq!(info.reward_addr, Some(0x2010));
    assert_eq!(info.handle, HandleStatus::Closed);
}

#[test]
fn single_offset_reads_nothing() {
    let cfg = config_with(vec![0x74]);
    let mut app = App::new(&cfg);
    let mut target = Target::new(0x5000, &[]);
    let actions = drive(&mut app, &mut target);
    assert!(target.reads.is_empty());
    assert!(!actions.iter().any(|a| matches!(a, Action::ReadPointer { .. })));
    assert_eq!(target.writes, vec![(0x5074, 150_000)]);
    assert_eq!(target.closes, 1);
}

#[test]
fn default_chain_reads_four_times() {
    let cfg = Config::default();
    let mut app = App::new(&cfg);
    let mut target = Target::new(
        0x1_4000_0000,
        &[
            (0x1_4503_5070, 0x10_0000),
            (0x10_0008, 0x20_0000),
            (0x20_03C0, 0x30_0000),
            (0x30_0020, 0x40_0000),
        ],
    );
    // the default settings look for the game's own process name
    let list = vec![entry(77, "NeedForSpeedUnbound.exe")];
    assert_eq!(app.step(Event::Processes { list }), Action::OpenHandle { pid: 77, access: PROCESS_ACCESS });
    assert_eq!(app.step(Event::HandleOpened), Action::EnumerateModules);
    let mut action = app.step(Event::ModulesListed { first: target.base });
    while let Some(event) = target.answer(action) {
        action = app.step(event);
    }
    assert_eq!(target.reads, vec![0x1_4503_5070, 0x10_0008, 0x20_03C0, 0x30_0020]);
    assert_eq!(target.writes, vec![(0x40_0074, 150_000)]);
    assert_eq!(target.closes, 1);
}

#[test]
fn read_failure_on_first_hop_skips_write() {
    let cfg = config_with(vec![0x8, 0x10]);
    let mut app = App::new(&cfg);
    let mut target = Target::new(0x1000, &[]);
    let actions = drive(&mut app, &mut target);
    assert_eq!(app.stage(), Stage::Failed { error: PipelineError::MemoryReadFailed { code: 299 } });
    assert!(target.writes.is_empty());
    assert!(!actions.iter().any(|a| matches!(a, Action::WriteValue { .. })));
    assert_eq!(target.closes, 1);
    let info = app.info();
    assert_eq!(info.reward_addr, None);
    assert_eq!(info.base_addr, Some(0x1000));
    assert_eq!(info.pid, Some(4242));
}

#[test]
fn read_failure_on_later_hop_skips_write() {
    let cfg = config_with(vec![0x8, 0x10, 0x20]);
    let mut app = App::new(&cfg);
    let mut target = Target::new(0x1000, &[(0x1008, 0x2000)]);
    drive(&mut app, &mut target);
    assert_eq!(target.reads, vec![0x1008, 0x2010]);
    assert_eq!(app.stage(), Stage::Failed { error: PipelineError::MemoryReadFailed { code: 299 } });
    assert_eq!(app.info().reward_addr, None);
    assert!(target.writes.is_empty());
    assert_eq!(target.closes, 1);
    // nothing more is asked once the run has failed
    assert_eq!(app.step(Event::ValueWritten), Action::Stop);
    assert_eq!(app.step(Event::PointerRead { value: 1 }), Action::Stop);
}

#[test]
fn denied_handle_is_never_closed() {
    let cfg = config_with(vec![0x8, 0x10]);
    let mut app = App::new(&cfg);
    let mut target = Target::new(0x1000, &[(0x1008, 0x2000)]);
    target.deny_handle = true;
    let actions = drive(&mut app, &mut target);
    assert_eq!(app.stage(), Stage::Failed { error: PipelineError::AccessDenied { code: 5 } });
    assert_eq!(target.closes, 0);
    assert_eq!(actions.last(), Some(&Action::Stop));
    assert_eq!(app.info().handle, HandleStatus::NotAcquired);
    assert!(app.is_finished());
}

#[test]
fn module_listing_failure_closes_handle_once() {
    let cfg = config_with(vec![0x8, 0x10]);
    let mut app = App::new(&cfg);
    let mut target = Target::new(0x1000, &[(0x1008, 0x2000)]);
    target.fail_modules = true;
    drive(&mut app, &mut target);
    assert_eq!(app.stage(), Stage::Failed { error: PipelineError::EnumerationFailed { code: 6 } });
    assert!(target.reads.is_empty());
    assert_eq!(target.closes, 1);
    assert_eq!(app.next_action(), Action::Stop);
}

#[test]
fn write_failure_closes_handle_once() {
    let cfg = config_with(vec![0x8, 0x10]);
    let mut app = App::new(&cfg);
    let mut target = Target::new(0x1000, &[(0x1008, 0x2000)]);
    target.fail_write = true;
    drive(&mut app, &mut target);
    assert_eq!(app.stage(), Stage::Failed { error: PipelineError::MemoryWriteFailed { code: 998 } });
    assert_eq!(target.writes, vec![(0x2010, 150_000)]);
    assert_eq!(target.closes, 1);
}

#[test]
fn handle_is_asked_with_minimal_rights() {
    assert_eq!(PROCESS_ACCESS, 0x0438);
    let cfg = config_with(vec![0x74]);
    let mut app = App::new(&cfg);
    let list = vec![entry(5, "game.exe")];
    match app.step(Event::Processes { list }) {
        Action::OpenHandle { pid, access } => {
            assert_eq!(pid, 5);
            assert_eq!(access, 0x0008 | 0x0010 | 0x0020 | 0x0400);
        },
        other => panic!("unexpected action {:?}", other),
    }
}

#[test]
fn reward_address_unset_while_walking() {
    let cfg = config_with(vec![0x8, 0x10]);
    let mut app = App::new(&cfg);
    let list = vec![entry(5, "game.exe")];
    app.step(Event::Processes { list });
    app.step(Event::HandleOpened);
    assert_eq!(app.step(Event::ModulesListed { first: 0x1000 }), Action::ReadPointer { address: 0x1008 });
    assert_eq!(app.info().reward_addr, None);
    assert_eq!(app.info().base_addr, Some(0x1000));
    assert_eq!(app.step(Event::PointerRead { value: 0x2000 }), Action::WriteValue { address: 0x2010, value: 150_000 });
    assert_eq!(app.info().reward_addr, Some(0x2010));
}

#[test]
fn waits_until_the_process_appears() {
    let cfg = config_with(vec![0x74]);
    let mut app = App::new(&cfg);
    assert_eq!(app.stage(), Stage::Idle);
    assert_eq!(app.next_action(), Action::ListProcesses { delay_ms: 0 });
    let mut target = Target::new(0x5000, &[]);
    target.lists_before_start = 2;
    let actions = drive(&mut app, &mut target);
    assert_eq!(actions[0], Action::ListProcesses { delay_ms: 0 });
    assert_eq!(actions[1], Action::ListProcesses { delay_ms: 700 });
    assert_eq!(actions[2], Action::ListProcesses { delay_ms: 700 });
    assert_eq!(actions[3], Action::OpenHandle { pid: 4242, access: PROCESS_ACCESS });
    assert_eq!(target.writes, vec![(0x5074, 150_000)]);
}

#[test]
fn unexpected_event_repeats_pending_action() {
    let cfg = config_with(vec![0x8, 0x10]);
    let mut app = App::new(&cfg);
    assert_eq!(app.step(Event::HandleOpened), Action::ListProcesses { delay_ms: 0 });
    assert_eq!(app.stage(), Stage::Idle);
    let list = vec![entry(9, "game.exe")];
    assert_eq!(app.step(Event::Processes { list }), Action::OpenHandle { pid: 9, access: PROCESS_ACCESS });
    assert_eq!(app.step(Event::PointerRead { value: 3 }), Action::OpenHandle { pid: 9, access: PROCESS_ACCESS });
    assert_eq!(app.step(Event::HandleOpened), Action::EnumerateModules);
    assert_eq!(app.step(Event::ModulesListed { first: 0x1000 }), Action::ReadPointer { address: 0x1008 });
    assert_eq!(app.step(Event::ValueWritten), Action::ReadPointer { address: 0x1008 });
    assert_eq!(app.info().handle, HandleStatus::Open);
    assert!(!app.is_finished());
}

#[test]
fn fresh_run_reports_nothing_found() {
    let cfg = config_with(vec![0x8]);
    let app = App::new(&cfg);
    let info = app.info();
    assert_eq!(info.pid, None);
    assert_eq!(info.base_addr, None);
    assert_eq!(info.reward_addr, None);
    assert_eq!(info.handle, HandleStatus::NotAcquired);
}

#[test]
fn find_pid_takes_first_exact_name() {
    let list = vec![entry(1, "Game.exe"), entry(2, "game.exe"), entry(3, "game.exe")];
    assert_eq!(find_pid(&list, &"game.exe".to_string()), Some(2));
    assert_eq!(find_pid(&list, &"game".to_string()), None);
    assert_eq!(find_pid(&Vec::new(), &"game.exe".to_string()), None);
}

#[test]
fn offset_address_adds_and_wraps() {
    assert_eq!(offset_address(0x1000, 0x8), 0x1008);
    assert_eq!(offset_address(u64::MAX, 1), 0);
    assert_eq!(offset_address(u64::MAX - 1, 0x10), 0xE);
}

#[test]
fn address_wraps_at_top_of_address_space() {
    let cfg = config_with(vec![0x10]);
    let mut app = App::new(&cfg);
    let mut target = Target::new(u64::MAX - 7, &[]);
    drive(&mut app, &mut target);
    assert_eq!(target.writes, vec![(8, 150_000)]);
}

fn assert_default(cfg: &Config) {
    assert_eq!(cfg.process_name, "NeedForSpeedUnbound.exe");
    assert_eq!(cfg.offsets, vec![0x5035070, 0x8, 0x3C0, 0x20, 0x74]);
    assert_eq!(cfg.replace_value, 150_000);
    assert_eq!(cfg.timeout_s, 4);
    assert_eq!(cfg.refresh_rate_ms, 700);
    assert!(!cfg.show_app_info);
}

#[test]
fn default_config_values() {
    assert_default(&Config::default());
}

#[test]
fn corrupt_config_falls_back_to_default() {
    let err = Config::e_json_map("expected value at line 1 column 1".to_string());
    assert!(!err.is_load_failure());
    assert_default(&Config::new(Err(err)));
}

#[test]
fn missing_config_falls_back_to_default() {
    let err = Config::e_io_map("not found".to_string());
    assert!(err.is_load_failure());
    assert!(matches!(&err, ConfigError::LoadFailed { reason } if reason == "not found"));
    assert_default(&Config::new(Err(err)));
}

#[test]
fn error_messages_name_the_failure_and_reason() {
    assert_eq!(Config::e_io_map("gone".to_string()).message(), "unable to read config file (gone)");
    assert_eq!(
        Config::e_json_map("expected `,` at line 2 column 5".to_string()).message(),
        "config file has invalid syntax (expected `,` at line 2 column 5)"
    );
    assert_eq!(Config::e_io_map(String::new()).message(), "unable to read config file ()");
}

#[test]
fn loaded_config_is_kept() {
    let cfg = Config::new(Ok(config_with(vec![0x74])));
    assert_eq!(cfg.process_name, "game.exe");
    assert_eq!(cfg.offsets, vec![0x74]);
}
