//! The action executor's decisions: the one owner of the connection turns each
//! queued command into what to do next, and runs a preset's actions in order,
//! stopping at the first one that fails.
use vstd::prelude::*;

use crate::models::{Button, ButtonAction, ButtonActionType, Preset};
use crate::session::{Command, CommandView, SessionError};

verus! {

/// Seconds between two refreshes of the button catalog while connected.
pub const REFRESH_INTERVAL_SECS: u64 = 10;

/// A command on the executor's queue.
pub enum ActionCommand {
    ExecutePreset(Preset),
    ExecuteSingle(ButtonAction),
    ConnectionSuccess(Vec<Button>),
    ConnectionError(String),
    /// Connect to an address with a credential.
    Connect(String, String),
    Disconnect,
}

/// One step of running actions.
#[derive(Clone, Debug)]
pub enum Step {
    /// Wait this many milliseconds.
    Wait(u64),
    /// Send a command and wait for its answer.
    Dispatch(Command),
}

pub enum StepView {
    Wait(u64),
    Dispatch(CommandView),
}

impl View for Step {
    type V = StepView;

    open spec fn view(&self) -> StepView {
        match self {
            Step::Wait(ms) => StepView::Wait(*ms),
            Step::Dispatch(c) => StepView::Dispatch(c@),
        }
    }
}

/// The command that carries out an action, by button name.
pub open spec fn action_command(a: ButtonAction) -> CommandView {
    match a.action {
        ButtonActionType::Press => CommandView::ButtonPress(a.button_name@),
        ButtonActionType::Release => CommandView::ButtonRelease(a.button_name@),
        ButtonActionType::Toggle => CommandView::Cue(a.button_name@),
    }
}

pub open spec fn wait_for(ms: u64) -> Seq<StepView> {
    if ms > 0 {
        seq![StepView::Wait(ms)]
    } else {
        Seq::empty()
    }
}

/// An action's own wait, then its dispatch.
pub open spec fn action_steps(a: ButtonAction) -> Seq<StepView> {
    wait_for(a.delay_ms) + seq![StepView::Dispatch(action_command(a))]
}

pub open spec fn actions_plan(actions: Seq<ButtonAction>) -> Seq<StepView>
    decreases actions.len(),
{
    if actions.len() == 0 {
        Seq::empty()
    } else {
        actions_plan(actions.drop_last()) + action_steps(actions.last())
    }
}

/// The preset's wait, then each action in order.
pub open spec fn preset_plan(p: Preset) -> Seq<StepView> {
    wait_for(p.delay_ms) + actions_plan(p.actions@)
}

pub open spec fn steps_view(steps: Seq<Step>) -> Seq<StepView> {
    steps.map_values(|s: Step| s@)
}

pub fn action_to_command(action: &ButtonAction) -> (r: Command)
    ensures
        r@ == action_command(*action),
{
    match action.action {
        ButtonActionType::Press => Command::ButtonPress(action.button_name.clone()),
        ButtonActionType::Release => Command::ButtonRelease(action.button_name.clone()),
        ButtonActionType::Toggle => Command::Cue(action.button_name.clone()),
    }
}

fn push_wait(steps: &mut Vec<Step>, ms: u64)
    ensures
        steps_view(final(steps)@) == steps_view(old(steps)@) + wait_for(ms),
{
    if ms > 0 {
        steps.push(Step::Wait(ms));
    }
    assert(steps_view(steps@) =~= steps_view(old(steps)@) + wait_for(ms));
}

/// The steps that running a preset takes.
pub fn plan_preset(preset: &Preset) -> (r: Vec<Step>)
    ensures
        steps_view(r@) == preset_plan(*preset),
{
    let mut steps: Vec<Step> = Vec::new();
    assert(steps_view(steps@) =~= Seq::<StepView>::empty());
    push_wait(&mut steps, preset.delay_ms);
    let actions = &preset.actions;
    let mut i: usize = 0;
    while i < actions.len()
        invariant
            i <= actions@.len(),
            actions@ == preset.actions@,
            steps_view(steps@) == wait_for(preset.delay_ms) + actions_plan(
                actions@.subrange(0, i as int),
            ),
        decreases actions@.len() - i,
    {
        let a = &actions[i];
        push_wait(&mut steps, a.delay_ms);
        let ghost before = steps_view(steps@);
        steps.push(Step::Dispatch(action_to_command(a)));
        assert(steps_view(steps@) =~= before + seq![StepView::Dispatch(action_command(*a))]);
        assert(actions@.subrange(0, i + 1).drop_last() =~= actions@.subrange(0, i as int));
        assert(steps_view(steps@) =~= wait_for(preset.delay_ms) + actions_plan(
            actions@.subrange(0, i + 1),
        ));
        i = i + 1;
    }
    assert(actions@.subrange(0, actions@.len() as int) =~= actions@);
    steps
}

/// A single action runs at once, without its wait.
pub fn plan_single(action: &ButtonAction) -> (r: Vec<Step>)
    ensures
        steps_view(r@) == seq![StepView::Dispatch(action_command(*action))],
{
    let mut steps: Vec<Step> = Vec::new();
    steps.push(Step::Dispatch(action_to_command(action)));
    assert(steps_view(steps@) =~= seq![StepView::Dispatch(action_command(*action))]);
    steps
}

fn copy_step(s: &Step) -> (r: Step)
    ensures
        r@ == s@,
{
    match s {
        Step::Wait(ms) => Step::Wait(*ms),
        Step::Dispatch(c) => Step::Dispatch(
            match c {
                Command::ButtonList => Command::ButtonList,
                Command::ButtonPress(n) => Command::ButtonPress(n.clone()),
                Command::ButtonRelease(n) => Command::ButtonRelease(n.clone()),
                Command::Cue(n) => Command::Cue(n.clone()),
                Command::Bpm(v) => Command::Bpm(*v),
            },
        ),
    }
}

/// Running a sequence of steps: they are handed out one at a time, in order, and
/// once a dispatch has failed none is handed out again.
pub struct ExecutionRun {
    steps: Vec<Step>,
    next: usize,
    failed: bool,
}

impl ExecutionRun {
    pub closed spec fn plan(&self) -> Seq<StepView> {
        steps_view(self.steps@)
    }

    /// How many steps have been handed out.
    pub closed spec fn position(&self) -> nat {
        self.next as nat
    }

    pub closed spec fn stopped(&self) -> bool {
        self.failed
    }

    pub closed spec fn wf(&self) -> bool {
        self.next <= self.steps@.len()
    }

    pub fn new(steps: Vec<Step>) -> (r: ExecutionRun)
        ensures
            r.wf(),
            r.plan() == steps_view(steps@),
            r.position() == 0,
            !r.stopped(),
    {
        ExecutionRun { steps, next: 0, failed: false }
    }

    /// Hands out the next step, unless the run is over or stopped.
    pub fn next_step(&mut self) -> (r: Option<Step>)
        requires
            old(self).wf(),
        ensures
            final(self).wf(),
            final(self).plan() == old(self).plan(),
            final(self).stopped() == old(self).stopped(),
            old(self).stopped() || old(self).position() == old(self).plan().len() ==> r is None
                && final(self).position() == old(self).position(),
            !old(self).stopped() && old(self).position() < old(self).plan().len() ==> (r matches Some(
                s,
            ) && s@ == old(self).plan()[old(self).position() as int] && final(self).position()
                == old(self).position() + 1),
    {
        if self.failed || self.next == self.steps.len() {
            return None;
        }
        let s = copy_step(&self.steps[self.next]);
        self.next = self.next + 1;
        Some(s)
    }

    /// Records that the last dispatch failed: the rest of the run is dropped.
    pub fn fail(&mut self)
        ensures
            final(self).plan() == old(self).plan(),
            final(self).position() == old(self).position(),
            final(self).stopped(),
            old(self).wf() ==> final(self).wf(),
    {
        self.failed = true;
    }
}


/// Planning keeps the order of actions: the plan of `xs + ys` is the plan of
/// `xs` followed by the plan of `ys`.
pub proof fn lemma_plan_keeps_order(xs: Seq<ButtonAction>, ys: Seq<ButtonAction>)
    ensures
        actions_plan(xs + ys) == actions_plan(xs) + actions_plan(ys),
    decreases ys.len(),
{
    if ys.len() == 0 {
        assert(xs + ys =~= xs);
        assert(actions_plan(xs) + actions_plan(ys) =~= actions_plan(xs));
    } else {
        assert((xs + ys).drop_last() =~= xs + ys.drop_last());
        assert((xs + ys).last() == ys.last());
        lemma_plan_keeps_order(xs, ys.drop_last());
        assert(actions_plan(xs + ys) =~= actions_plan(xs) + actions_plan(ys));
    }
}

/// Where the executor stands with its connection.
#[derive(Clone, Copy, Debug, PartialEq, Eq, Structural)]
pub enum ConnectionState {
    Disconnected,
    Connecting,
    Connected,
}

/// What the executor does for one queued command.
pub enum Directive {
    /// Drop any current connection, open one to this address and greet with the
    /// credential, then fetch the catalog.
    Open { address: String, credential: String },
    /// Run these steps on the current connection.
    Run(Vec<Step>),
    /// Drop the connection and report an empty catalog.
    Close,
    /// A status report meant for the user interface; nothing to do.
    Report,
}

/// The single owner of the connection. Commands are taken one at a time, so two
/// presets never interleave on the wire.
pub struct ActionExecutor {
    state: ConnectionState,
}

impl ActionExecutor {
    pub closed spec fn connection(&self) -> ConnectionState {
        self.state
    }

    pub fn new() -> (r: ActionExecutor)
        ensures
            r.connection() == ConnectionState::Disconnected,
    {
        ActionExecutor { state: ConnectionState::Disconnected }
    }

    pub fn state(&self) -> (r: ConnectionState)
        ensures
            r == self.connection(),
    {
        self.state
    }

    pub fn handle_command(&mut self, cmd: ActionCommand) -> (r: Directive)
        ensures
            match cmd {
                ActionCommand::Connect(a, c) => (r matches Directive::Open { address, credential }
                    && address@ == a@ && credential@ == c@) && final(self).connection()
                    == ConnectionState::Connecting,
                ActionCommand::ExecutePreset(p) => (r matches Directive::Run(steps) && steps_view(
                    steps@,
                ) == preset_plan(p)) && final(self).connection() == old(self).connection(),
                ActionCommand::ExecuteSingle(a) => (r matches Directive::Run(steps) && steps_view(
                    steps@,
                ) == seq![StepView::Dispatch(action_command(a))]) && final(self).connection()
                    == old(self).connection(),
                ActionCommand::Disconnect => r is Close && final(self).connection()
                    == ConnectionState::Disconnected,
                _ => r is Report && final(self).connection() == old(self).connection(),
            },
    {
        match cmd {
            ActionCommand::Connect(address, credential) => {
                self.state = ConnectionState::Connecting;
                Directive::Open { address, credential }
            },
            ActionCommand::ExecutePreset(preset) => Directive::Run(plan_preset(&preset)),
            ActionCommand::ExecuteSingle(action) => Directive::Run(plan_single(&action)),
            ActionCommand::Disconnect => {
                self.state = ConnectionState::Disconnected;
                Directive::Close
            },
            ActionCommand::ConnectionSuccess(_) => Directive::Report,
            ActionCommand::ConnectionError(_) => Directive::Report,
        }
    }

    /// Records how opening the connection went: connected, or back to disconnected.
    pub fn connection_opened(&mut self, ok: bool)
        ensures
            final(self).connection() == if ok {
                ConnectionState::Connected
            } else {
                ConnectionState::Disconnected
            },
    {
        self.state = if ok { ConnectionState::Connected } else { ConnectionState::Disconnected };
    }

    /// A dispatch needs a live connection.
    pub fn dispatch_allowed(&self) -> (r: Result<(), SessionError>)
        ensures
            r is Ok <==> self.connection() == ConnectionState::Connected,
            r matches Err(e) ==> e is NotConnected,
    {
        if self.state == ConnectionState::Connected {
            Ok(())
        } else {
            Err(SessionError::NotConnected)
        }
    }
}

/// The status report for the outcome of a catalog fetch.
pub fn catalog_report(result: Result<Vec<Button>, String>) -> (r: ActionCommand)
    ensures
        match result {
            Ok(b) => r matches ActionCommand::ConnectionSuccess(l) && l@ == b@,
            Err(e) => r matches ActionCommand::ConnectionError(s) && s@ == e@,
        },
{
    match result {
        Ok(buttons) => ActionCommand::ConnectionSuccess(buttons),
        Err(e) => ActionCommand::ConnectionError(e),
    }
}

} // verus!
