use vstd::prelude::*;

use crate::chain::{hop, offset_address, read_address, resolved_address};
use crate::config::Config;

verus! {

/// One entry of the operating system's process list.
#[derive(Debug)]
pub struct ProcessEntry {
    pub pid: u32,
    pub name: String,
}

/// Why a run stopped short; each carries the error code the OS reported.
#[derive(Clone, Copy, PartialEq, Eq, Structural, Debug)]
pub enum PipelineError {
    /// The OS refused a handle to the process.
    AccessDenied { code: u32 },
    /// The process's modules could not be listed.
    EnumerationFailed { code: u32 },
    /// A read along the pointer chain failed.
    MemoryReadFailed { code: u32 },
    /// The final write failed.
    MemoryWriteFailed { code: u32 },
}

/// Where a run stands. Stages only move forward.
#[derive(Clone, Copy, PartialEq, Eq, Structural, Debug)]
pub enum Stage {
    Idle,
    WaitingForProcess,
    HandleAcquired,
    BaseResolved,
    AddressResolved,
    ValueWritten,
    Failed { error: PipelineError },
}

/// Lifecycle of the process handle.
#[derive(Clone, Copy, PartialEq, Eq, Structural, Debug)]
pub enum HandleStatus {
    NotAcquired,
    Open,
    Closed,
}

/// Right to perform operations on the address space of a process.
pub const PROCESS_VM_OPERATION: u32 = 0x0008;
/// Right to read the memory of a process.
pub const PROCESS_VM_READ: u32 = 0x0010;
/// Right to write the memory of a process.
pub const PROCESS_VM_WRITE: u32 = 0x0020;
/// Right to query information about a process, such as its modules.
pub const PROCESS_QUERY_INFORMATION: u32 = 0x0400;
/// The rights a run asks for: exactly what reading, writing and listing
/// modules need.
pub const PROCESS_ACCESS: u32 = PROCESS_VM_OPERATION | PROCESS_VM_WRITE | PROCESS_VM_READ
    | PROCESS_QUERY_INFORMATION;

/// What the caller is asked to do next.
#[derive(Clone, Copy, PartialEq, Eq, Structural, Debug)]
pub enum Action {
    /// Wait `delay_ms` milliseconds, then report a fresh process list.
    ListProcesses { delay_ms: u64 },
    /// Open a handle to process `pid` with the rights `access`.
    OpenHandle { pid: u32, access: u32 },
    /// List the modules of the process and report the first one's base address.
    EnumerateModules,
    /// Read the 64-bit value at `address` in the process.
    ReadPointer { address: u64 },
    /// Write the bytes of `value` at `address` in the process.
    WriteValue { address: u64, value: u32 },
    /// Close the process handle; the run is over.
    CloseHandle,
    /// Nothing is left to do; the run is over.
    Stop,
}

/// What the caller reports after doing what it was asked.
#[derive(Debug)]
pub enum Event {
    Processes { list: Vec<ProcessEntry> },
    HandleOpened,
    HandleDenied { code: u32 },
    ModulesListed { first: u64 },
    ModulesFailed { code: u32 },
    PointerRead { value: u64 },
    ReadFailed { code: u32 },
    ValueWritten,
    WriteFailed { code: u32 },
}

/// What a run has found so far about the target process.
#[derive(Clone, Copy, Debug)]
pub struct AppInfo {
    pub pid: Option<u32>,
    pub handle: HandleStatus,
    pub base_addr: Option<u64>,
    pub reward_addr: Option<u64>,
}

/// The state of a run, as the contracts see it.
pub struct AppView {
    pub config: Config,
    pub stage: Stage,
    pub pid: Option<u32>,
    pub handle: HandleStatus,
    pub base_addr: u64,
    /// The resolved address; set only once the whole chain is walked.
    pub reward_addr: u64,
    /// The running address of the chain walk.
    pub cursor: u64,
    /// Offsets consumed by reads so far.
    pub hops: nat,
}

/// The pid of the first entry named `name`.
pub open spec fn first_match(list: Seq<ProcessEntry>, name: Seq<char>) -> Option<u32>
    decreases list.len(),
{
    if list.len() == 0 {
        None
    } else if list[0].name@ == name {
        Some(list[0].pid)
    } else {
        first_match(list.drop_first(), name)
    }
}

pub open spec fn is_terminal(stage: Stage) -> bool {
    stage is ValueWritten || stage is Failed
}

/// The handle status that each stage implies.
pub open spec fn handle_for(stage: Stage) -> HandleStatus {
    match stage {
        Stage::Idle | Stage::WaitingForProcess => HandleStatus::NotAcquired,
        Stage::HandleAcquired | Stage::BaseResolved | Stage::AddressResolved => HandleStatus::Open,
        Stage::ValueWritten => HandleStatus::Closed,
        Stage::Failed { error } => if error is AccessDenied {
            HandleStatus::NotAcquired
        } else {
            HandleStatus::Closed
        },
    }
}

pub open spec fn wf(s: AppView) -> bool {
    let n = s.config.offsets@.len();
    &&& n > 0
    &&& s.hops < n
    &&& s.stage is BaseResolved ==> s.hops + 1 < n
    &&& s.stage is Idle ==> s.pid is None
    &&& s.handle == handle_for(s.stage)
}

/// A fresh run with settings `config`.
pub open spec fn initial(config: Config) -> AppView {
    AppView {
        config,
        stage: Stage::Idle,
        pid: None,
        handle: HandleStatus::NotAcquired,
        base_addr: 0,
        reward_addr: 0,
        cursor: 0,
        hops: 0,
    }
}

/// What the run waits for in state `s`.
pub open spec fn pending(s: AppView) -> Action {
    match s.stage {
        Stage::Idle => Action::ListProcesses { delay_ms: 0 },
        Stage::WaitingForProcess => match s.pid {
            Some(pid) => Action::OpenHandle { pid, access: PROCESS_ACCESS },
            None => Action::ListProcesses { delay_ms: s.config.refresh_rate_ms },
        },
        Stage::HandleAcquired => Action::EnumerateModules,
        Stage::BaseResolved => Action::ReadPointer {
            address: hop(s.cursor, s.config.offsets@[s.hops as int]),
        },
        Stage::AddressResolved => Action::WriteValue {
            address: s.reward_addr,
            value: s.config.replace_value,
        },
        Stage::ValueWritten | Stage::Failed { .. } => Action::Stop,
    }
}

/// One transition: the next state and the action it asks for. An event the
/// state does not wait for changes nothing and repeats the pending action.
pub open spec fn next(s: AppView, e: Event) -> (AppView, Action) {
    let offsets = s.config.offsets@;
    let n = offsets.len();
    let unchanged = (s, pending(s));
    match e {
        Event::Processes { list } => if s.stage is Idle || (s.stage is WaitingForProcess
            && s.pid is None) {
            match first_match(list@, s.config.process_name@) {
                Some(pid) => (
                    AppView { stage: Stage::WaitingForProcess, pid: Some(pid), ..s },
                    Action::OpenHandle { pid, access: PROCESS_ACCESS },
                ),
                None => (
                    AppView { stage: Stage::WaitingForProcess, ..s },
                    Action::ListProcesses { delay_ms: s.config.refresh_rate_ms },
                ),
            }
        } else {
            unchanged
        },
        Event::HandleOpened => if s.stage is WaitingForProcess && s.pid is Some {
            (
                AppView { stage: Stage::HandleAcquired, handle: HandleStatus::Open, ..s },
                Action::EnumerateModules,
            )
        } else {
            unchanged
        },
        Event::HandleDenied { code } => if s.stage is WaitingForProcess && s.pid is Some {
            (
                AppView {
                    stage: Stage::Failed { error: PipelineError::AccessDenied { code } },
                    ..s
                },
                Action::Stop,
            )
        } else {
            unchanged
        },
        Event::ModulesListed { first } => if s.stage is HandleAcquired {
            if n == 1 {
                let target = hop(first, offsets[0]);
                (
                    AppView {
                        stage: Stage::AddressResolved,
                        base_addr: first,
                        reward_addr: target,
                        hops: 0,
                        ..s
                    },
                    Action::WriteValue { address: target, value: s.config.replace_value },
                )
            } else {
                (
                    AppView {
                        stage: Stage::BaseResolved,
                        base_addr: first,
                        cursor: first,
                        hops: 0,
                        ..s
                    },
                    Action::ReadPointer { address: hop(first, offsets[0]) },
                )
            }
        } else {
            unchanged
        },
        Event::ModulesFailed { code } => if s.stage is HandleAcquired {
            (
                AppView {
                    stage: Stage::Failed { error: PipelineError::EnumerationFailed { code } },
                    handle: HandleStatus::Closed,
                    ..s
                },
                Action::CloseHandle,
            )
        } else {
            unchanged
        },
        Event::PointerRead { value } => if s.stage is BaseResolved {
            let k = s.hops + 1;
            if k + 1 == n {
                let target = hop(value, offsets[k as int]);
                (
                    AppView {
                        stage: Stage::AddressResolved,
                        reward_addr: target,
                        hops: k,
                        ..s
                    },
                    Action::WriteValue { address: target, value: s.config.replace_value },
                )
            } else {
                (
                    AppView { cursor: value, hops: k, ..s },
                    Action::ReadPointer { address: hop(value, offsets[k as int]) },
                )
            }
        } else {
            unchanged
        },
        Event::ReadFailed { code } => if s.stage is BaseResolved {
            (
                AppView {
                    stage: Stage::Failed { error: PipelineError::MemoryReadFailed { code } },
                    handle: HandleStatus::Closed,
                    ..s
                },
                Action::CloseHandle,
            )
        } else {
            unchanged
        },
        Event::ValueWritten => if s.stage is AddressResolved {
            (
                AppView { stage: Stage::ValueWritten, handle: HandleStatus::Closed, ..s },
                Action::CloseHandle,
            )
        } else {
            unchanged
        },
        Event::WriteFailed { code } => if s.stage is AddressResolved {
            (
                AppView {
                    stage: Stage::Failed { error: PipelineError::MemoryWriteFailed { code } },
                    handle: HandleStatus::Closed,
                    ..s
                },
                Action::CloseHandle,
            )
        } else {
            unchanged
        },
    }
}

/// The states and actions of a run that takes in `events` one by one from `s`.
pub open spec fn run_events(s: AppView, events: Seq<Event>) -> (AppView, Seq<Action>)
    decreases events.len(),
{
    if events.len() == 0 {
        (s, Seq::empty())
    } else {
        let first = next(s, events[0]);
        let rest = run_events(first.0, events.drop_first());
        (rest.0, seq![first.1] + rest.1)
    }
}

/// How many times `actions` asks for the handle to be closed.
pub open spec fn count_closes(actions: Seq<Action>) -> nat
    decreases actions.len(),
{
    if actions.len() == 0 {
        0
    } else {
        (if actions[0] is CloseHandle { 1nat } else { 0nat }) + count_closes(actions.drop_first())
    }
}

/// The events that report the values `values` read along the chain.
pub open spec fn read_events(values: Seq<u64>) -> Seq<Event> {
    values.map_values(|v: u64| Event::PointerRead { value: v })
}

/// A transition keeps a run well formed; the handle is asked to be closed
/// exactly when it goes from open to closed, and a closed handle stays closed.
pub proof fn lemma_step_handle(s: AppView, e: Event)
    requires
        wf(s),
    ensures
        wf(next(s, e).0),
        next(s, e).0.config == s.config,
        (next(s, e).1 is CloseHandle) == (s.handle is Open && next(s, e).0.handle is Closed),
        s.handle is Closed ==> next(s, e).0.handle is Closed,
        next(s, e).0.handle is Closed ==> !(s.handle is NotAcquired),
{
}

proof fn lemma_closes_follow_handle(s: AppView, events: Seq<Event>)
    requires
        wf(s),
    ensures
        wf(run_events(s, events).0),
        s.handle is Closed ==> run_events(s, events).0.handle is Closed,
        count_closes(run_events(s, events).1) == (if run_events(s, events).0.handle is Closed
            && !(s.handle is Closed) { 1nat } else { 0nat }),
    decreases events.len(),
{
    if events.len() > 0 {
        let first = next(s, events[0]);
        lemma_step_handle(s, events[0]);
        lemma_closes_follow_handle(first.0, events.drop_first());
        let acts = run_events(s, events).1;
        assert(acts.drop_first() =~= run_events(first.0, events.drop_first()).1);
    }
}

/// Handle release happens once: whatever events a fresh run takes in, it asks
/// for the handle to be closed at most once, and exactly when the handle was
/// acquired and released. A finished run never leaves the handle open: after
/// success, and after every failure but a refused handle, it has asked for
/// the close exactly once; after a refused handle, never.
pub proof fn lemma_handle_closed_once(config: Config, events: Seq<Event>)
    requires
        config.has_chain(),
    ensures
        count_closes(run_events(initial(config), events).1) <= 1,
        count_closes(run_events(initial(config), events).1) == 1 <==> run_events(
            initial(config),
            events,
        ).0.handle is Closed,
        is_terminal(run_events(initial(config), events).0.stage) ==> !(run_events(
            initial(config),
            events,
        ).0.handle is Open),
        run_events(initial(config), events).0.stage is ValueWritten ==> count_closes(
            run_events(initial(config), events).1,
        ) == 1,
        run_events(initial(config), events).0.stage matches Stage::Failed { error }
            ==> count_closes(run_events(initial(config), events).1) == (if error is AccessDenied {
            0nat
        } else {
            1nat
        }),
{
    lemma_closes_follow_handle(initial(config), events);
}

/// The reward address is set only by the transition that resolves the whole
/// chain; every other transition leaves it as it was.
pub proof fn lemma_reward_only_on_resolve(s: AppView, e: Event)
    requires
        wf(s),
    ensures
        !(next(s, e).0.stage is AddressResolved && !(s.stage is AddressResolved))
            ==> next(s, e).0.reward_addr == s.reward_addr,
        next(s, e).0.stage is AddressResolved && !(s.stage is AddressResolved) ==> next(
            s,
            e,
        ).1 == (Action::WriteValue {
            address: next(s, e).0.reward_addr,
            value: s.config.replace_value,
        }),
{
}

/// A finished run stays as it is and asks for nothing more.
pub proof fn lemma_finished_stays(s: AppView, events: Seq<Event>)
    requires
        is_terminal(s.stage),
    ensures
        run_events(s, events).0 == s,
        forall|i: int| 0 <= i < events.len() ==> #[trigger] run_events(s, events).1[i] is Stop,
        run_events(s, events).1.len() == events.len(),
    decreases events.len(),
{
    if events.len() > 0 {
        lemma_finished_stays(s, events.drop_first());
        let acts = run_events(s, events).1;
        assert forall|i: int| 0 <= i < events.len() implies #[trigger] acts[i] is Stop by {
            if i > 0 {
                assert(acts[i] == run_events(s, events.drop_first()).1[i - 1]);
            }
        }
    }
}

/// A failed read along the chain ends the run with `MemoryReadFailed`, and
/// no write is asked for afterwards, whatever events follow. The reward
/// address stays as it was (unset), as do the module base and the pid.
pub proof fn lemma_read_failure_stops(s: AppView, code: u32, rest: Seq<Event>)
    requires
        wf(s),
        s.stage is BaseResolved,
    ensures
        run_events(s, seq![Event::ReadFailed { code }] + rest).0.stage == (Stage::Failed {
            error: PipelineError::MemoryReadFailed { code },
        }),
        forall|i: int|
            0 <= i < run_events(s, seq![Event::ReadFailed { code }] + rest).1.len()
                ==> !(#[trigger] run_events(s, seq![Event::ReadFailed { code }] + rest).1[i] is WriteValue),
        run_events(s, seq![Event::ReadFailed { code }] + rest).0.reward_addr == s.reward_addr,
        run_events(s, seq![Event::ReadFailed { code }] + rest).0.base_addr == s.base_addr,
        run_events(s, seq![Event::ReadFailed { code }] + rest).0.pid == s.pid,
{
    let events = seq![Event::ReadFailed { code }] + rest;
    assert(events[0] == Event::ReadFailed { code });
    assert(events.drop_first() =~= rest);
    let failed = next(s, events[0]).0;
    lemma_finished_stays(failed, rest);
    let acts = run_events(s, events).1;
    assert forall|i: int| 0 <= i < acts.len() implies !(#[trigger] acts[i] is WriteValue) by {
        if i > 0 {
            assert(acts[i] == run_events(failed, rest).1[i - 1]);
        }
    }
}

/// With a single offset no read is made: once the module base is known, the
/// run asks at once to write at `base + offsets[0]`.
pub proof fn lemma_single_offset(s: AppView, base: u64)
    requires
        wf(s),
        s.stage is HandleAcquired,
        s.config.offsets@.len() == 1,
    ensures
        next(s, Event::ModulesListed { first: base }).1 == (Action::WriteValue {
            address: hop(base, s.config.offsets@[0]),
            value: s.config.replace_value,
        }),
        hop(base, s.config.offsets@[0]) == resolved_address(base, s.config.offsets@, Seq::empty()),
        next(s, Event::ModulesListed { first: base }).0.stage is AddressResolved,
{
}

proof fn lemma_walk_from(s: AppView, base: u64, values: Seq<u64>, events: Seq<Event>)
    requires
        wf(s),
        s.stage is BaseResolved,
        values.len() + 1 == s.config.offsets@.len(),
        s.cursor == (if s.hops == 0 { base } else { values[s.hops - 1] }),
        events.len() + s.hops == values.len(),
        forall|j: int| 0 <= j < events.len() ==> #[trigger] events[j] == (Event::PointerRead {
            value: values[s.hops + j],
        }),
    ensures
        ({
            let (z, acts) = run_events(s, events);
            let offsets = s.config.offsets@;
            &&& acts.len() == events.len()
            &&& forall|j: int|
                0 <= j < acts.len() - 1 ==> #[trigger] acts[j] == (Action::ReadPointer {
                    address: read_address(base, offsets, values, s.hops + 1 + j),
                })
            &&& acts[acts.len() - 1] == (Action::WriteValue {
                address: resolved_address(base, offsets, values),
                value: s.config.replace_value,
            })
            &&& z.stage is AddressResolved
            &&& z.reward_addr == resolved_address(base, offsets, values)
        }),
    decreases events.len(),
{
    assert(events[0] == Event::PointerRead { value: values[s.hops as int] });
    let t = next(s, events[0]).0;
    assert(t.hops == s.hops + 1);
    if events.len() > 1 {
        lemma_step_handle(s, events[0]);
        assert forall|j: int| 0 <= j < events.drop_first().len() implies #[trigger] events.drop_first()[j]
            == (Event::PointerRead { value: values[t.hops + j] }) by {
            assert(events.drop_first()[j] == events[j + 1]);
            assert(events[j + 1] == Event::PointerRead { value: values[s.hops + (j + 1)] });
        }
        lemma_walk_from(t, base, values, events.drop_first());
        let acts = run_events(s, events).1;
        let rest = run_events(t, events.drop_first()).1;
        assert forall|j: int| 0 <= j < acts.len() - 1 implies #[trigger] acts[j] == (
        Action::ReadPointer { address: read_address(base, s.config.offsets@, values, s.hops + 1 + j) }) by {
            if j > 0 {
                assert(acts[j] == rest[j - 1]);
            }
        }
        assert(acts[acts.len() - 1] == rest[rest.len() - 1]);
    } else {
        assert(events.drop_first().len() == 0);
    }
}

/// With `n > 1` offsets, once the module base is known the run asks for
/// exactly `n - 1` reads, the `i`-th at the running address plus
/// `offsets[i]`, and then to write at the last value read plus the last
/// offset.
pub proof fn lemma_chain_walk(s: AppView, base: u64, values: Seq<u64>)
    requires
        wf(s),
        s.stage is HandleAcquired,
        s.config.offsets@.len() > 1,
        values.len() + 1 == s.config.offsets@.len(),
    ensures
        ({
            let (z, acts) = run_events(
                s,
                seq![Event::ModulesListed { first: base }] + read_events(values),
            );
            let offsets = s.config.offsets@;
            let n = offsets.len() as int;
            &&& acts.len() == n
            &&& forall|i: int|
                0 <= i < n - 1 ==> #[trigger] acts[i] == (Action::ReadPointer {
                    address: read_address(base, offsets, values, i),
                })
            &&& acts[n - 1] == (Action::WriteValue {
                address: resolved_address(base, offsets, values),
                value: s.config.replace_value,
            })
            &&& z.stage is AddressResolved
            &&& z.reward_addr == resolved_address(base, offsets, values)
        }),
{
    let events = seq![Event::ModulesListed { first: base }] + read_events(values);
    assert(events[0] == Event::ModulesListed { first: base });
    assert(events.drop_first() =~= read_events(values));
    let t = next(s, events[0]).0;
    lemma_step_handle(s, events[0]);
    lemma_walk_from(t, base, values, read_events(values));
    let acts = run_events(s, events).1;
    let rest = run_events(t, read_events(values)).1;
    assert forall|i: int| 0 <= i < acts.len() - 1 implies #[trigger] acts[i] == (
    Action::ReadPointer { address: read_address(base, s.config.offsets@, values, i) }) by {
        if i > 0 {
            assert(acts[i] == rest[i - 1]);
        }
    }
    assert(acts[acts.len() - 1] == rest[rest.len() - 1]);
}

/// The pid of the first process in `list` whose name is exactly `name`.
pub fn find_pid(list: &Vec<ProcessEntry>, name: &String) -> (r: Option<u32>)
    ensures
        r == first_match(list@, name@),
{
    let mut i: usize = 0;
    assert(list@.subrange(0, list@.len() as int) =~= list@);
    while i < list.len()
        invariant
            i <= list@.len(),
            first_match(list@, name@) == first_match(list@.subrange(i as int, list@.len() as int), name@),
        decreases list.len() - i,
    {
        assert(list@.subrange(i as int, list@.len() as int).drop_first() =~= list@.subrange(
            i + 1,
            list@.len() as int,
        ));
        if list[i].name.eq(name) {
            return Some(list[i].pid);
        }
        i = i + 1;
    }
    None
}

/// A run of the pipeline: locate the process, open a handle, find the module
/// base, walk the pointer chain and write the replacement value.
pub struct App<'a> {
    cfg: &'a Config,
    stage: Stage,
    pid: Option<u32>,
    handle: HandleStatus,
    base_addr: u64,
    reward_addr: u64,
    cursor: u64,
    hops: usize,
}

impl<'a> View for App<'a> {
    type V = AppView;

    closed spec fn view(&self) -> AppView {
        AppView {
            config: *self.cfg,
            stage: self.stage,
            pid: self.pid,
            handle: self.handle,
            base_addr: self.base_addr,
            reward_addr: self.reward_addr,
            cursor: self.cursor,
            hops: self.hops as nat,
        }
    }
}

impl<'a> App<'a> {
    pub open spec fn well_formed(&self) -> bool {
        wf(self@)
    }

    /// A fresh run with settings `cfg`, which must name at least one offset.
    pub fn new(cfg: &'a Config) -> (r: App<'a>)
        requires
            cfg.has_chain(),
        ensures
            r@ == initial(*cfg),
            r.well_formed(),
    {
        App {
            cfg,
            stage: Stage::Idle,
            pid: None,
            handle: HandleStatus::NotAcquired,
            base_addr: 0,
            reward_addr: 0,
            cursor: 0,
            hops: 0,
        }
    }

    /// The action the run waits for.
    pub fn next_action(&self) -> (r: Action)
        requires
            self.well_formed(),
        ensures
            r == pending(self@),
    {
        match self.stage {
            Stage::Idle => Action::ListProcesses { delay_ms: 0 },
            Stage::WaitingForProcess => match self.pid {
                Some(pid) => Action::OpenHandle { pid, access: PROCESS_ACCESS },
                None => Action::ListProcesses { delay_ms: self.cfg.refresh_rate_ms },
            },
            Stage::HandleAcquired => Action::EnumerateModules,
            Stage::BaseResolved => Action::ReadPointer {
                address: offset_address(self.cursor, self.cfg.offsets[self.hops]),
            },
            Stage::AddressResolved => Action::WriteValue {
                address: self.reward_addr,
                value: self.cfg.replace_value,
            },
            Stage::ValueWritten | Stage::Failed { .. } => Action::Stop,
        }
    }

    /// Take in what the caller reports and say what to do next.
    pub fn step(&mut self, event: Event) -> (r: Action)
        requires
            old(self).well_formed(),
        ensures
            (final(self)@, r) == next(old(self)@, event),
            final(self).well_formed(),
    {
        let n = self.cfg.offsets.len();
        match event {
            Event::Processes { list } => {
                if self.stage == Stage::Idle || (self.stage == Stage::WaitingForProcess
                    && self.pid.is_none()) {
                    self.stage = Stage::WaitingForProcess;
                    match find_pid(&list, &self.cfg.process_name) {
                        Some(pid) => {
                            self.pid = Some(pid);
                            Action::OpenHandle { pid, access: PROCESS_ACCESS }
                        },
                        None => Action::ListProcesses { delay_ms: self.cfg.refresh_rate_ms },
                    }
                } else {
                    self.next_action()
                }
            },
            Event::HandleOpened => {
                if self.stage == Stage::WaitingForProcess && self.pid.is_some() {
                    self.stage = Stage::HandleAcquired;
                    self.handle = HandleStatus::Open;
                    Action::EnumerateModules
                } else {
                    self.next_action()
                }
            },
            Event::HandleDenied { code } => {
                if self.stage == Stage::WaitingForProcess && self.pid.is_some() {
                    self.stage = Stage::Failed { error: PipelineError::AccessDenied { code } };
                    Action::Stop
                } else {
                    self.next_action()
                }
            },
            Event::ModulesListed { first } => {
                if self.stage == Stage::HandleAcquired {
                    self.base_addr = first;
                    self.hops = 0;
                    let address = offset_address(first, self.cfg.offsets[0]);
                    if n == 1 {
                        self.stage = Stage::AddressResolved;
                        self.reward_addr = address;
                        Action::WriteValue { address, value: self.cfg.replace_value }
                    } else {
                        self.stage = Stage::BaseResolved;
                        self.cursor = first;
                        Action::ReadPointer { address }
                    }
                } else {
                    self.next_action()
                }
            },
            Event::ModulesFailed { code } => {
                if self.stage == Stage::HandleAcquired {
                    self.stage = Stage::Failed { error: PipelineError::EnumerationFailed { code } };
                    self.handle = HandleStatus::Closed;
                    Action::CloseHandle
                } else {
                    self.next_action()
                }
            },
            Event::PointerRead { value } => {
                if self.stage == Stage::BaseResolved {
                    let k = self.hops + 1;
                    self.hops = k;
                    let address = offset_address(value, self.cfg.offsets[k]);
                    if k + 1 == n {
                        self.stage = Stage::AddressResolved;
                        self.reward_addr = address;
                        Action::WriteValue { address, value: self.cfg.replace_value }
                    } else {
                        self.cursor = value;
                        Action::ReadPointer { address }
                    }
                } else {
                    self.next_action()
                }
            },
            Event::ReadFailed { code } => {
                if self.stage == Stage::BaseResolved {
                    self.stage = Stage::Failed { error: PipelineError::MemoryReadFailed { code } };
                    self.handle = HandleStatus::Closed;
                    Action::CloseHandle
                } else {
                    self.next_action()
                }
            },
            Event::ValueWritten => {
                if self.stage == Stage::AddressResolved {
                    self.stage = Stage::ValueWritten;
                    self.handle = HandleStatus::Closed;
                    Action::CloseHandle
                } else {
                    self.next_action()
                }
            },
            Event::WriteFailed { code } => {
                if self.stage == Stage::AddressResolved {
                    self.stage = Stage::Failed { error: PipelineError::MemoryWriteFailed { code } };
                    self.handle = HandleStatus::Closed;
                    Action::CloseHandle
                } else {
                    self.next_action()
                }
            },
        }
    }

    /// The stage the run has reached.
    pub fn stage(&self) -> (r: Stage)
        ensures
            r == self@.stage,
    {
        self.stage
    }

    /// Whether the run is over, by success or failure.
    pub fn is_finished(&self) -> (r: bool)
        ensures
            r == is_terminal(self@.stage),
    {
        match self.stage {
            Stage::ValueWritten | Stage::Failed { .. } => true,
            _ => false,
        }
    }

    /// What the run has found: the pid once a process matched, the handle's
    /// status, and the base and resolved addresses where they are not zero.
    pub fn info(&self) -> (r: AppInfo)
        ensures
            r.pid == self@.pid,
            r.handle == self@.handle,
            r.base_addr == (if self@.base_addr != 0 { Some(self@.base_addr) } else { None }),
            r.reward_addr == (if self@.reward_addr != 0 { Some(self@.reward_addr) } else { None }),
    {
        AppInfo {
            pid: self.pid,
            handle: self.handle,
            base_addr: if self.base_addr != 0 { Some(self.base_addr) } else { None },
            reward_addr: if self.reward_addr != 0 { Some(self.reward_addr) } else { None },
        }
    }
}

} // verus!
