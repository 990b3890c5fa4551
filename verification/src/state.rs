//! Shared component state and the command handler that every component
//! (emulator, reader, merger, sinks) runs on its control socket.

use vstd::prelude::*;
use vstd::string::*;
use tokio::sync::watch;
use crate::command::{
    state_name, valid_transition, Command, CommandResponse, ComponentState, EmulatorRuntimeConfig,
    RunConfig,
};
use crate::text::{decimal, u64_to_decimal};

verus! {

#[verifier::external_type_specification]
#[verifier::external_body]
#[verifier::reject_recursive_types(T)]
pub struct ExWatchSender<T>(watch::Sender<T>);

/// Broadcasts the new state to the component's tasks.
///
/// Calls `tokio::sync::watch::Sender::send`; the send fails only when every
/// receiver is gone, and that outcome is ignored, so nothing is claimed.
/// The sender is shared through `&` (its clones sit in other tasks), and a
/// value behind `&` never changes for Verus, so what the channel holds
/// after the call is left unsaid.
#[verifier::external_body]
fn broadcast_state(tx: &watch::Sender<ComponentState>, s: ComponentState) {
    let _ = tx.send(s);
}

/// Shared state between component tasks: the current state and the run
/// configuration (if configured).
#[derive(Debug, Clone)]
pub struct ComponentSharedState {
    /// Current component state
    pub state: ComponentState,
    /// Current run configuration (if configured)
    pub run_config: Option<RunConfig>,
}

/// Run number of a shared state, if configured.
pub open spec fn spec_run_number(s: ComponentSharedState) -> Option<u32> {
    match s.run_config {
        Some(c) => Some(c.run_number),
        None => None,
    }
}

impl ComponentSharedState {
    /// Create a new shared state in Idle
    pub fn new() -> (r: ComponentSharedState)
        ensures
            r.state == ComponentState::Idle,
            r.run_config is None,
    {
        ComponentSharedState { state: ComponentState::Idle, run_config: None }
    }

    /// Get current run number (if configured)
    pub fn run_number(&self) -> (r: Option<u32>)
        ensures
            r == spec_run_number(*self),
    {
        match &self.run_config {
            Some(c) => Some(c.run_number),
            None => None,
        }
    }
}

impl Default for ComponentSharedState {
    fn default() -> (r: ComponentSharedState)
        ensures
            r.state == ComponentState::Idle,
            r.run_config is None,
    {
        ComponentSharedState::new()
    }
}

/// The text of a hook's answer: `Ok`, or the refusal message.
pub open spec fn answer_text(r: Result<(), String>) -> Result<(), Seq<char>> {
    match r {
        Ok(()) => Ok(()),
        Err(m) => Err(m@),
    }
}

/// The text of optional status details.
pub open spec fn details_text(d: Option<String>) -> Option<Seq<char>> {
    match d {
        Some(s) => Some(s@),
        None => None,
    }
}

/// Hooks a component implements to add behaviour to state transitions.
///
/// Each hook's answer, and what it leaves of the component, is described by
/// spec functions of the component (its state before the call and the
/// hook's arguments); by default every hook accepts and changes nothing,
/// there are no status details, and an emulator configuration update is
/// refused. A hook that returns `Err` vetoes the transition; its message
/// becomes the response message.
pub trait CommandHandlerExt: Sized {
    /// Whether `post` is what `on_configure` leaves of the component.
    open spec fn configure_effect(&self, config: RunConfig, post: Self) -> bool {
        post == *self
    }

    /// Whether `post` is what `on_arm` leaves of the component.
    open spec fn arm_effect(&self, post: Self) -> bool {
        post == *self
    }

    /// Whether `post` is what `on_start` leaves of the component.
    open spec fn start_effect(&self, run_number: u32, post: Self) -> bool {
        post == *self
    }

    /// Whether `post` is what `on_stop` leaves of the component.
    open spec fn stop_effect(&self, post: Self) -> bool {
        post == *self
    }

    /// Whether `post` is what `on_reset` leaves of the component.
    open spec fn reset_effect(&self, post: Self) -> bool {
        post == *self
    }

    /// Whether `post` is what `on_update_emulator_config` leaves of the
    /// component.
    open spec fn update_effect(&self, config: EmulatorRuntimeConfig, post: Self) -> bool {
        post == *self
    }

    /// What `on_configure` answers.
    open spec fn configure_answer(&self, config: RunConfig) -> Result<(), Seq<char>> {
        Ok(())
    }

    /// What `on_arm` answers.
    open spec fn arm_answer(&self) -> Result<(), Seq<char>> {
        Ok(())
    }

    /// What `on_start` answers.
    open spec fn start_answer(&self, run_number: u32) -> Result<(), Seq<char>> {
        Ok(())
    }

    /// What `on_stop` answers.
    open spec fn stop_answer(&self) -> Result<(), Seq<char>> {
        Ok(())
    }

    /// What `on_reset` answers.
    open spec fn reset_answer(&self) -> Result<(), Seq<char>> {
        Ok(())
    }

    /// What `status_details` gives.
    open spec fn details(&self) -> Option<Seq<char>> {
        None
    }

    /// What `on_update_emulator_config` answers.
    open spec fn update_answer(&self, config: EmulatorRuntimeConfig) -> Result<(), Seq<char>> {
        Err(unsupported_update_text())
    }

    /// Component name for logging
    fn component_name(&self) -> &'static str;

    /// Called before the Configure transition
    fn on_configure(&mut self, config: &RunConfig) -> (r: Result<(), String>)
        ensures
            answer_text(r) == old(self).configure_answer(*config),
            old(self).configure_effect(*config, *final(self)),
    ;

    /// Called before the Arm transition
    fn on_arm(&mut self) -> (r: Result<(), String>)
        ensures
            answer_text(r) == old(self).arm_answer(),
            old(self).arm_effect(*final(self)),
    ;

    /// Called before the Start transition, with the run number of the start
    fn on_start(&mut self, run_number: u32) -> (r: Result<(), String>)
        ensures
            answer_text(r) == old(self).start_answer(run_number),
            old(self).start_effect(run_number, *final(self)),
    ;

    /// Called before the Stop transition
    fn on_stop(&mut self) -> (r: Result<(), String>)
        ensures
            answer_text(r) == old(self).stop_answer(),
            old(self).stop_effect(*final(self)),
    ;

    /// Called before the Reset transition
    fn on_reset(&mut self) -> (r: Result<(), String>)
        ensures
            answer_text(r) == old(self).reset_answer(),
            old(self).reset_effect(*final(self)),
    ;

    /// Additional status details for the GetStatus command
    fn status_details(&self) -> (r: Option<String>)
        ensures
            details_text(r) == self.details(),
    ;

    /// Called when an UpdateEmulatorConfig command is received; only the
    /// emulator accepts it
    fn on_update_emulator_config(&mut self, config: &EmulatorRuntimeConfig) -> (r: Result<(), String>)
        ensures
            answer_text(r) == old(self).update_answer(*config),
            old(self).update_effect(*config, *final(self)),
    ;
}

/// `"Cannot <verb> from <state> state"`.
pub open spec fn cannot_text(verb: Seq<char>, s: ComponentState) -> Seq<char> {
    "Cannot "@ + verb + " from "@ + state_name(s) + " state"@
}

/// The GetStatus message before component details are appended.
pub open spec fn status_text(s: ComponentSharedState) -> Seq<char> {
    match s.run_config {
        Some(c) => "State: "@ + state_name(s.state) + ", Run: "@ + decimal(c.run_number as nat),
        None => "State: "@ + state_name(s.state),
    }
}

/// The message of an UpdateEmulatorConfig command that no component takes.
pub open spec fn unsupported_update_text() -> Seq<char> {
    "UpdateEmulatorConfig not supported by this component"@
}

/// `s` with the run number of its run configuration (if any) replaced.
pub open spec fn with_start_run_number(s: ComponentSharedState, run_number: u32) -> ComponentSharedState {
    ComponentSharedState {
        run_config: match s.run_config {
            Some(c) => Some(RunConfig { run_number, ..c }),
            None => None,
        },
        ..s
    }
}

/// The run number reported when none is configured.
pub open spec fn run_number_or_zero(s: ComponentSharedState) -> u32 {
    match s.run_config {
        Some(c) => c.run_number,
        None => 0,
    }
}

/// Whether the state machine lets `cmd` run from `cur`; only then does
/// the component's hook for it run. GetStatus has no hook.
pub open spec fn command_allowed(cur: ComponentState, cmd: Command) -> bool {
    match cmd {
        Command::Configure(_) => valid_transition(cur, ComponentState::Configured),
        Command::Arm => valid_transition(cur, ComponentState::Armed),
        Command::Start { .. } => valid_transition(cur, ComponentState::Running),
        Command::Stop => cur == ComponentState::Running,
        Command::Reset => true,
        Command::GetStatus => false,
        Command::UpdateEmulatorConfig(_) => true,
    }
}

/// What the component's hook for `cmd` answers.
pub open spec fn hook_answer<E: CommandHandlerExt>(e: E, cmd: Command) -> Result<(), Seq<char>> {
    match cmd {
        Command::Configure(rc) => e.configure_answer(rc),
        Command::Arm => e.arm_answer(),
        Command::Start { run_number } => e.start_answer(run_number),
        Command::Stop => e.stop_answer(),
        Command::Reset => e.reset_answer(),
        Command::GetStatus => Ok(()),
        Command::UpdateEmulatorConfig(c) => e.update_answer(c),
    }
}

/// Whether `post` is what the component's hook for `cmd` leaves of `e`.
pub open spec fn hook_effect<E: CommandHandlerExt>(e: E, cmd: Command, post: E) -> bool {
    match cmd {
        Command::Configure(rc) => e.configure_effect(rc, post),
        Command::Arm => e.arm_effect(post),
        Command::Start { run_number } => e.start_effect(run_number, post),
        Command::Stop => e.stop_effect(post),
        Command::Reset => e.reset_effect(post),
        Command::GetStatus => post == e,
        Command::UpdateEmulatorConfig(c) => e.update_effect(c, post),
    }
}

/// What `handle_command` leaves of the extension `e`: exactly the effect of
/// the command's own hook when the state machine lets the command run
/// (that hook runs once, with the command's arguments, and no other hook
/// runs), and `e` unchanged otherwise (GetStatus only reads it).
pub open spec fn ext_effect<E: CommandHandlerExt>(e: E, cur: ComponentState, cmd: Command, post: E) -> bool {
    if command_allowed(cur, cmd) {
        hook_effect(e, cmd, post)
    } else {
        post == e
    }
}

/// The hook answer `handle_command` acts on: the extension's answer when
/// the command may run, nothing when there is no extension or the state
/// machine refuses the command first.
pub open spec fn ext_answer<E: CommandHandlerExt>(
    ext: Option<&mut E>,
    cur: ComponentState,
    cmd: Command,
) -> Option<Result<(), Seq<char>>> {
    match ext {
        Some(e) => if command_allowed(cur, cmd) { Some(hook_answer(*e, cmd)) } else { None },
        None => None,
    }
}

/// The status details `handle_command` appends: the extension's, for
/// GetStatus only.
pub open spec fn ext_details<E: CommandHandlerExt>(ext: Option<&mut E>, cmd: Command) -> Option<Seq<char>> {
    match ext {
        Some(e) => if cmd is GetStatus { e.details() } else { None },
        None => None,
    }
}

/// Whether the hook answer refuses.
pub open spec fn vetoed(hook: Option<Result<(), Seq<char>>>) -> bool {
    hook matches Some(Err(_))
}

/// The refusal message of a hook answer.
pub open spec fn veto_text(hook: Option<Result<(), Seq<char>>>) -> Seq<char> {
    match hook {
        Some(Err(m)) => m,
        _ => Seq::empty(),
    }
}

/// A refused command: failure, `message`, the state as it is.
pub open spec fn refused(pre: ComponentSharedState, post: ComponentSharedState, resp: CommandResponse, message: Seq<char>) -> bool {
    &&& !resp.success
    &&& resp.message@ == message
    &&& post == pre
    &&& resp.run_number is None
}

/// What one command does to the component's state and how it is answered,
/// given the hook's answer (`None`: no hook ran) and the component's status
/// details (used by GetStatus).
pub open spec fn command_response(
    pre: ComponentSharedState,
    cmd: Command,
    hook: Option<Result<(), Seq<char>>>,
    details: Option<Seq<char>>,
    post: ComponentSharedState,
    resp: CommandResponse,
) -> bool {
    let cur = pre.state;
    &&& resp.state == post.state
    &&& resp.error_code is None
    &&& match cmd {
        Command::Configure(rc) => if !valid_transition(cur, ComponentState::Configured) {
            refused(pre, post, resp, cannot_text("configure"@, cur))
        } else if vetoed(hook) {
            refused(pre, post, resp, veto_text(hook))
        } else {
            &&& resp.success
            &&& post == ComponentSharedState { state: ComponentState::Configured, run_config: Some(rc) }
            &&& resp.message@ == "Configured"@
            &&& resp.run_number == Some(rc.run_number)
        },
        Command::Arm => if !valid_transition(cur, ComponentState::Armed) {
            refused(pre, post, resp, cannot_text("arm"@, cur))
        } else if vetoed(hook) {
            refused(pre, post, resp, veto_text(hook))
        } else {
            &&& resp.success
            &&& post == ComponentSharedState { state: ComponentState::Armed, ..pre }
            &&& resp.message@ == "Armed"@
            &&& resp.run_number == Some(run_number_or_zero(pre))
        },
        Command::Start { run_number } => if !valid_transition(cur, ComponentState::Running) {
            refused(pre, post, resp, cannot_text("start"@, cur))
        } else if vetoed(hook) {
            refused(with_start_run_number(pre, run_number), post, resp, veto_text(hook))
        } else {
            &&& resp.success
            &&& post == ComponentSharedState {
                state: ComponentState::Running,
                ..with_start_run_number(pre, run_number)
            }
            &&& resp.message@ == "Started"@
            &&& resp.run_number == Some(run_number)
        },
        Command::Stop => if cur != ComponentState::Running {
            refused(pre, post, resp, "Not running"@)
        } else if vetoed(hook) {
            refused(pre, post, resp, veto_text(hook))
        } else {
            &&& resp.success
            &&& post == ComponentSharedState { state: ComponentState::Configured, ..pre }
            &&& resp.message@ == "Stopped"@
            &&& resp.run_number == Some(run_number_or_zero(pre))
        },
        Command::Reset => if vetoed(hook) {
            refused(pre, post, resp, veto_text(hook))
        } else {
            &&& resp.success
            &&& post == ComponentSharedState { state: ComponentState::Idle, run_config: None }
            &&& resp.message@ == "Reset to Idle"@
            &&& resp.run_number is None
        },
        Command::GetStatus => {
            &&& resp.success
            &&& post == pre
            &&& resp.run_number == spec_run_number(pre)
            &&& resp.message@ == match details {
                Some(d) => status_text(pre) + ", "@ + d,
                None => status_text(pre),
            }
        },
        Command::UpdateEmulatorConfig(_) => match hook {
            Some(Ok(())) => {
                &&& resp.success
                &&& post == pre
                &&& resp.message@ == "Config updated"@
                &&& resp.run_number is None
            },
            Some(Err(m)) => refused(pre, post, resp, m),
            None => refused(pre, post, resp, unsupported_update_text()),
        },
    }
}

/// The state a command sends to the component's other tasks: the new state
/// after a successful Configure, Arm, Start, Stop or Reset, nothing else.
pub open spec fn sent_state(
    pre: ComponentSharedState,
    cmd: Command,
    hook: Option<Result<(), Seq<char>>>,
) -> Option<ComponentState> {
    if vetoed(hook) {
        None
    } else {
        match cmd {
            Command::Configure(_) => if valid_transition(pre.state, ComponentState::Configured) {
                Some(ComponentState::Configured)
            } else {
                None
            },
            Command::Arm => if valid_transition(pre.state, ComponentState::Armed) {
                Some(ComponentState::Armed)
            } else {
                None
            },
            Command::Start { .. } => if valid_transition(pre.state, ComponentState::Running) {
                Some(ComponentState::Running)
            } else {
                None
            },
            Command::Stop => if pre.state == ComponentState::Running {
                Some(ComponentState::Configured)
            } else {
                None
            },
            Command::Reset => Some(ComponentState::Idle),
            _ => None,
        }
    }
}

/// `"Cannot <verb> from <state> state"`.
fn cannot_message(verb: &str, s: ComponentState) -> (r: String)
    ensures
        r@ == cannot_text(verb@, s),
{
    let mut m = String::from_str("Cannot ");
    m.append(verb);
    m.append(" from ");
    m.append(s.to_string().as_str());
    m.append(" state");
    m
}

/// Whether the state machine lets `cmd` run from `cur`.
fn allowed(cur: ComponentState, cmd: &Command) -> (r: bool)
    ensures
        r == command_allowed(cur, *cmd),
{
    match cmd {
        Command::Configure(_) => cur.can_transition_to(ComponentState::Configured),
        Command::Arm => cur.can_transition_to(ComponentState::Armed),
        Command::Start { .. } => cur.can_transition_to(ComponentState::Running),
        Command::Stop => cur == ComponentState::Running,
        Command::Reset => true,
        Command::GetStatus => false,
        Command::UpdateEmulatorConfig(_) => true,
    }
}

/// Run the component's hook for `cmd`.
fn run_hook<E: CommandHandlerExt>(e: &mut E, cmd: &Command) -> (r: Result<(), String>)
    requires
        !(cmd is GetStatus),
    ensures
        answer_text(r) == hook_answer(*old(e), *cmd),
        hook_effect(*old(e), *cmd, *final(e)),
{
    match cmd {
        Command::Configure(rc) => e.on_configure(rc),
        Command::Arm => e.on_arm(),
        Command::Start { run_number } => e.on_start(*run_number),
        Command::Stop => e.on_stop(),
        Command::Reset => e.on_reset(),
        Command::GetStatus => Ok(()),
        Command::UpdateEmulatorConfig(c) => e.on_update_emulator_config(c),
    }
}

/// The decision for one command, given the answer of the component's hook
/// (`None` when no hook ran) and the component's status details: the
/// state is updated, and the response and the state to send to the
/// component's other tasks are returned.
pub fn decide_command(
    state: &mut ComponentSharedState,
    cmd: Command,
    hook: Option<Result<(), String>>,
    details: Option<String>,
) -> (r: (CommandResponse, Option<ComponentState>))
    ensures
        command_response(
            *old(state),
            cmd,
            match hook {
                Some(a) => Some(answer_text(a)),
                None => None,
            },
            details_text(details),
            *final(state),
            r.0,
        ),
        r.1 == sent_state(
            *old(state),
            cmd,
            match hook {
                Some(a) => Some(answer_text(a)),
                None => None,
            },
        ),
{
    let current = state.state;
    if let Some(Err(msg)) = &hook {
        match &cmd {
            Command::Configure(_) | Command::Arm | Command::Start { .. } | Command::Stop => {
                if allowed(current, &cmd) {
                    if let Command::Start { run_number } = &cmd {
                        if let Some(ref mut cfg) = state.run_config {
                            cfg.run_number = *run_number;
                        }
                    }
                    return (CommandResponse::error(current, msg.as_str()), None);
                }
            },
            Command::Reset | Command::UpdateEmulatorConfig(_) => {
                return (CommandResponse::error(current, msg.as_str()), None);
            },
            Command::GetStatus => {},
        }
    }
    match cmd {
        Command::Configure(run_config) => {
            if !current.can_transition_to(ComponentState::Configured) {
                let m = cannot_message("configure", current);
                return (CommandResponse::error(current, m.as_str()), None);
            }
            let run_number = run_config.run_number;
            state.run_config = Some(run_config);
            state.state = ComponentState::Configured;
            (
                CommandResponse::success_with_run(ComponentState::Configured, "Configured", run_number),
                Some(ComponentState::Configured),
            )
        },
        Command::Arm => {
            if !current.can_transition_to(ComponentState::Armed) {
                let m = cannot_message("arm", current);
                return (CommandResponse::error(current, m.as_str()), None);
            }
            state.state = ComponentState::Armed;
            let run_number = match state.run_number() {
                Some(n) => n,
                None => 0,
            };
            (CommandResponse::success_with_run(ComponentState::Armed, "Armed", run_number), Some(ComponentState::Armed))
        },
        Command::Start { run_number } => {
            if !current.can_transition_to(ComponentState::Running) {
                let m = cannot_message("start", current);
                return (CommandResponse::error(current, m.as_str()), None);
            }
            if let Some(ref mut cfg) = state.run_config {
                cfg.run_number = run_number;
            }
            state.state = ComponentState::Running;
            (
                CommandResponse::success_with_run(ComponentState::Running, "Started", run_number),
                Some(ComponentState::Running),
            )
        },
        Command::Stop => {
            if current != ComponentState::Running {
                return (CommandResponse::error(current, "Not running"), None);
            }
            state.state = ComponentState::Configured;
            let run_number = match state.run_number() {
                Some(n) => n,
                None => 0,
            };
            (
                CommandResponse::success_with_run(ComponentState::Configured, "Stopped", run_number),
                Some(ComponentState::Configured),
            )
        },
        Command::Reset => {
            state.state = ComponentState::Idle;
            state.run_config = None;
            (CommandResponse::success(ComponentState::Idle, "Reset to Idle"), Some(ComponentState::Idle))
        },
        Command::GetStatus => {
            let mut msg = String::from_str("State: ");
            msg.append(state.state.to_string().as_str());
            match &state.run_config {
                Some(cfg) => {
                    msg.append(", Run: ");
                    msg.append(u64_to_decimal(cfg.run_number as u64).as_str());
                },
                None => {},
            }
            if let Some(d) = &details {
                msg.append(", ");
                msg.append(d.as_str());
            }
            let mut resp = CommandResponse::success(state.state, msg.as_str());
            resp.run_number = state.run_number();
            (resp, None)
        },
        Command::UpdateEmulatorConfig(_) => {
            match hook {
                Some(_) => (CommandResponse::success(current, "Config updated"), None),
                None => (
                    CommandResponse::error(current, "UpdateEmulatorConfig not supported by this component"),
                    None,
                ),
            }
        },
    }
}

/// Handle a command using the five-state machine.
///
/// A transition the state machine does not allow is refused with a message,
/// leaves the state unchanged and runs no hook; an allowed one runs the
/// component's hook first, and a hook error refuses it with the hook's
/// message. Reset is accepted in every state. GetStatus appends the
/// component's status details and never changes the state. The extension
/// ends as exactly its command hook leaves it (`ext_effect`): only the hook
/// of the command itself runs, once, with the command's arguments, and only
/// when the state machine lets the command run.
///
/// The body sends on `state_tx` exactly the second result of
/// `decide_command`, which is `sent_state`: the new state after a
/// successful Configure, Arm, Start, Stop or Reset
/// (`lemma_sent_state_is_new_state`), nothing otherwise. The contract
/// cannot say so itself: the channel is opaque and shared through `&`.
pub fn handle_command<E: CommandHandlerExt>(
    state: &mut ComponentSharedState,
    state_tx: &watch::Sender<ComponentState>,
    cmd: Command,
    ext: Option<&mut E>,
) -> (resp: CommandResponse)
    ensures
        command_response(
            *old(state),
            cmd,
            ext_answer(ext, old(state).state, cmd),
            ext_details(ext, cmd),
            *final(state),
            resp,
        ),
        match ext {
            Some(e) => ext_effect(*e, old(state).state, cmd, *final(e)),
            None => true,
        },
{
    let runs = allowed(state.state, &cmd);
    let is_status = match &cmd {
        Command::GetStatus => true,
        _ => false,
    };
    let (hook, details): (Option<Result<(), String>>, Option<String>) = match ext {
        Some(e) => {
            let h = if runs {
                Some(run_hook(e, &cmd))
            } else {
                None
            };
            let d = if is_status {
                e.status_details()
            } else {
                None
            };
            (h, d)
        },
        None => (None, None),
    };
    let (resp, sent) = decide_command(state, cmd, hook, details);
    if let Some(s) = sent {
        broadcast_state(state_tx, s);
    }
    resp
}

/// The extension of components without hooks of their own.
struct NoHooks {
    name: &'static str,
}

impl NoHooks {
    /// The component name this extension reports.
    pub closed spec fn reported_name(&self) -> &'static str {
        self.name
    }
}

impl CommandHandlerExt for NoHooks {
    fn on_configure(&mut self, config: &RunConfig) -> (r: Result<(), String>) {
        Ok(())
    }

    fn on_arm(&mut self) -> (r: Result<(), String>) {
        Ok(())
    }

    fn on_start(&mut self, run_number: u32) -> (r: Result<(), String>) {
        Ok(())
    }

    fn on_stop(&mut self) -> (r: Result<(), String>) {
        Ok(())
    }

    fn on_reset(&mut self) -> (r: Result<(), String>) {
        Ok(())
    }

    fn status_details(&self) -> (r: Option<String>) {
        None
    }

    fn on_update_emulator_config(&mut self, config: &EmulatorRuntimeConfig) -> (r: Result<(), String>) {
        Err(String::from_str("UpdateEmulatorConfig not supported by this component"))
    }

    fn component_name(&self) -> (r: &'static str)
        ensures
            r == self.reported_name(),
    {
        self.name
    }
}

/// Handle a command for a component without hooks of its own: every
/// transition the state machine allows succeeds.
pub fn handle_command_simple(
    state: &mut ComponentSharedState,
    state_tx: &watch::Sender<ComponentState>,
    cmd: Command,
    component_name: &'static str,
) -> (resp: CommandResponse)
    ensures
        command_response(*old(state), cmd, None, None, *final(state), resp),
{
    let _name = NoHooks { name: component_name }.component_name();
    handle_command::<NoHooks>(state, state_tx, cmd, None)
}

/// A command that is refused never changes the component's state (a
/// refused Start may still record its run number).
pub proof fn lemma_refused_command_keeps_state(
    pre: ComponentSharedState,
    cmd: Command,
    hook: Option<Result<(), Seq<char>>>,
    details: Option<Seq<char>>,
    post: ComponentSharedState,
    resp: CommandResponse,
)
    requires
        command_response(pre, cmd, hook, details, post, resp),
        !resp.success,
    ensures
        post.state == pre.state,
{
}

/// Every accepted command either leaves the state as it was or moves it
/// along an edge of the state machine.
pub proof fn lemma_accepted_command_follows_machine(
    pre: ComponentSharedState,
    cmd: Command,
    hook: Option<Result<(), Seq<char>>>,
    details: Option<Seq<char>>,
    post: ComponentSharedState,
    resp: CommandResponse,
)
    requires
        command_response(pre, cmd, hook, details, post, resp),
        resp.success,
    ensures
        post.state == pre.state || valid_transition(pre.state, post.state),
{
}

/// The response always reports the state the component is in afterwards.
pub proof fn lemma_response_reports_state(
    pre: ComponentSharedState,
    cmd: Command,
    hook: Option<Result<(), Seq<char>>>,
    details: Option<Seq<char>>,
    post: ComponentSharedState,
    resp: CommandResponse,
)
    requires
        command_response(pre, cmd, hook, details, post, resp),
    ensures
        resp.state == post.state,
{
}

/// The Error state is left only by a Reset, to Idle.
pub proof fn lemma_error_exits_only_to_idle(
    pre: ComponentSharedState,
    cmd: Command,
    hook: Option<Result<(), Seq<char>>>,
    details: Option<Seq<char>>,
    post: ComponentSharedState,
    resp: CommandResponse,
)
    requires
        command_response(pre, cmd, hook, details, post, resp),
        pre.state == ComponentState::Error,
    ensures
        post.state == ComponentState::Error || (post.state == ComponentState::Idle && cmd is Reset),
{
}

/// Running is entered only by a Start from Armed, and the run number of
/// that Start then replaces the configured one.
pub proof fn lemma_running_entered_by_start(
    pre: ComponentSharedState,
    cmd: Command,
    hook: Option<Result<(), Seq<char>>>,
    details: Option<Seq<char>>,
    post: ComponentSharedState,
    resp: CommandResponse,
)
    requires
        command_response(pre, cmd, hook, details, post, resp),
        pre.state != ComponentState::Running,
        post.state == ComponentState::Running,
    ensures
        pre.state == ComponentState::Armed,
        cmd matches Command::Start { run_number } && (spec_run_number(pre) is Some ==> spec_run_number(post)
            == Some(run_number)),
{
}

/// A Reset that no hook refuses always succeeds and clears the
/// configuration, whatever the state; Idle is then sent to the tasks.
pub proof fn lemma_reset_always_returns_to_idle(
    pre: ComponentSharedState,
    hook: Option<Result<(), Seq<char>>>,
    details: Option<Seq<char>>,
    post: ComponentSharedState,
    resp: CommandResponse,
)
    requires
        command_response(pre, Command::Reset, hook, details, post, resp),
        !vetoed(hook),
    ensures
        resp.success,
        post.state == ComponentState::Idle,
        post.run_config is None,
        sent_state(pre, Command::Reset, hook) == Some(ComponentState::Idle),
{
}

/// A transition the state machine allows and the hook accepts (or that
/// has no hook) succeeds, and its new state is sent to the tasks.
pub proof fn lemma_accepted_hook_lets_transition_happen(
    pre: ComponentSharedState,
    cmd: Command,
    hook: Option<Result<(), Seq<char>>>,
    details: Option<Seq<char>>,
    post: ComponentSharedState,
    resp: CommandResponse,
)
    requires
        command_response(pre, cmd, hook, details, post, resp),
        command_allowed(pre.state, cmd),
        !(cmd is UpdateEmulatorConfig),
        !vetoed(hook),
    ensures
        resp.success,
        sent_state(pre, cmd, hook) == Some(post.state),
{
}

/// A hook that refuses an allowed command refuses it with its own message,
/// the state stays, and nothing is sent.
pub proof fn lemma_hook_refusal_is_reported(
    pre: ComponentSharedState,
    cmd: Command,
    m: Seq<char>,
    details: Option<Seq<char>>,
    post: ComponentSharedState,
    resp: CommandResponse,
)
    requires
        command_response(pre, cmd, Some(Err(m)), details, post, resp),
        command_allowed(pre.state, cmd),
    ensures
        !resp.success,
        resp.message@ == m,
        post.state == pre.state,
        sent_state(pre, cmd, Some(Err(m))) is None,
{
}

/// A command the state machine refuses is answered the same whatever the
/// hooks would say, and sends nothing.
pub proof fn lemma_refused_transition_ignores_hooks(
    pre: ComponentSharedState,
    cmd: Command,
    hook: Option<Result<(), Seq<char>>>,
    details: Option<Seq<char>>,
    post: ComponentSharedState,
    resp: CommandResponse,
)
    requires
        command_response(pre, cmd, hook, details, post, resp),
        !command_allowed(pre.state, cmd),
        !(cmd is GetStatus),
    ensures
        command_response(pre, cmd, None, None, post, resp),
        !resp.success,
        post == pre,
        sent_state(pre, cmd, None) is None,
{
}

/// Whatever a command sends to the component's tasks is the state the
/// component is in afterwards, and only a successful command sends one.
pub proof fn lemma_sent_state_is_new_state(
    pre: ComponentSharedState,
    cmd: Command,
    hook: Option<Result<(), Seq<char>>>,
    details: Option<Seq<char>>,
    post: ComponentSharedState,
    resp: CommandResponse,
)
    requires
        command_response(pre, cmd, hook, details, post, resp),
        sent_state(pre, cmd, hook) is Some,
    ensures
        resp.success,
        sent_state(pre, cmd, hook) == Some(post.state),
{
}

/// A command the state machine refuses, and every GetStatus, leaves the
/// component's extension as it was: no hook runs. A command it lets run
/// leaves the extension as that command's own hook does.
pub proof fn lemma_hooks_run_only_for_allowed_commands<E: CommandHandlerExt>(
    e: E,
    cur: ComponentState,
    cmd: Command,
    post: E,
)
    requires
        ext_effect(e, cur, cmd, post),
    ensures
        !command_allowed(cur, cmd) ==> post == e,
        cmd is GetStatus ==> post == e,
        command_allowed(cur, cmd) ==> hook_effect(e, cmd, post),
{
}

/// The states each command runs from: Start only from Armed, Arm only from
/// Configured, Stop only from Running, Configure from Idle or Running (the
/// state machine's two ways into Configured), Reset from every state.
pub proof fn lemma_command_sources(cur: ComponentState, cmd: Command)
    ensures
        cmd is Start ==> (command_allowed(cur, cmd) <==> cur == ComponentState::Armed),
        cmd is Arm ==> (command_allowed(cur, cmd) <==> cur == ComponentState::Configured),
        cmd is Stop ==> (command_allowed(cur, cmd) <==> cur == ComponentState::Running),
        cmd is Configure ==> (command_allowed(cur, cmd) <==> (cur == ComponentState::Idle || cur
            == ComponentState::Running)),
        cmd is Reset ==> command_allowed(cur, cmd),
        cmd is GetStatus ==> !command_allowed(cur, cmd),
{
}

/// A Start in any state but Armed is refused with
/// `"Cannot start from <state> state"`, changes nothing (not the run
/// number either), and sends nothing, whatever the hooks would say.
pub proof fn lemma_start_only_from_armed(
    pre: ComponentSharedState,
    run_number: u32,
    hook: Option<Result<(), Seq<char>>>,
    details: Option<Seq<char>>,
    post: ComponentSharedState,
    resp: CommandResponse,
)
    requires
        command_response(pre, Command::Start { run_number }, hook, details, post, resp),
        pre.state != ComponentState::Armed,
    ensures
        !resp.success,
        post == pre,
        resp.state == pre.state,
        resp.message@ == "Cannot start from "@ + state_name(pre.state) + " state"@,
        sent_state(pre, Command::Start { run_number }, hook) is None,
{
    reveal_strlit("start");
    reveal_strlit("Cannot ");
    reveal_strlit(" from ");
    reveal_strlit("Cannot start from ");
    assert("Cannot "@ + "start"@ + " from "@ =~= "Cannot start from "@);
    assert(resp.message@ =~= "Cannot start from "@ + state_name(pre.state) + " state"@);
    assert(sent_state(pre, Command::Start { run_number }, hook) is None) by {
        if !vetoed(hook) {
        }
    }
}

} // verus!
