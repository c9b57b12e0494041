//! A component that shows what a command prints, line by line.

use vstd::prelude::*;
use std::time::Duration;

verus! {

/// The configuration of the pipe component.
pub struct Pipe {
    /// The command to run.
    pub command: String,
    /// Its arguments.
    pub args: Vec<String>,
    /// How long to wait before the command is run again; if there is none,
    /// the command is run once and its lines are shown as they come.
    pub refresh_rate: Option<Duration>,
}

impl Default for Pipe {
    /// The command `true` without arguments, run once.
    fn default() -> (pipe: Pipe)
        ensures
            pipe.command@ == "true"@,
            pipe.args@.len() == 0,
            pipe.refresh_rate is None,
    {
        Pipe { command: "true".to_string(), args: Vec::new(), refresh_rate: None }
    }
}

/// What the stream of a pipe component is waiting for.
#[derive(Clone, Copy, Debug, PartialEq, Eq, Structural)]
pub enum PipePhase {
    /// The next line of the running command.
    Command,
    /// The end of the pause before the command is run again.
    Sleep,
}

/// What the stream found when it looked at what it is waiting for.
#[derive(Debug, PartialEq, Eq)]
pub enum PipeEvent {
    /// Nothing yet.
    NotReady,
    /// Reading the command's output, or the timer, failed.
    Failed,
    /// The command printed a line.
    Line(String),
    /// The command's output has ended.
    CommandDone,
    /// The pause is over.
    SleepDone,
}

/// What the stream does next.
#[derive(Debug, PartialEq, Eq)]
pub enum PipeAction {
    /// Report that nothing is ready.
    Wait,
    /// Report the failure.
    Fail,
    /// Yield the line; if `sleep` is set, start the pause first.
    Emit { line: String, sleep: bool },
    /// End the stream.
    End,
    /// Start the pause, then look again.
    Sleep,
    /// Run the command again, then look again.
    Run,
}

/// Whether `event` can come up while the stream is in `phase`.
pub open spec fn event_fits(phase: PipePhase, event: PipeEvent) -> bool {
    match event {
        PipeEvent::NotReady | PipeEvent::Failed => true,
        PipeEvent::Line(_) | PipeEvent::CommandDone => phase == PipePhase::Command,
        PipeEvent::SleepDone => phase == PipePhase::Sleep,
    }
}

/// What the stream does on `event`, where `repeats` says whether the
/// command is to be run again and again.
pub open spec fn pipe_action(repeats: bool, event: PipeEvent) -> PipeAction {
    match event {
        PipeEvent::NotReady => PipeAction::Wait,
        PipeEvent::Failed => PipeAction::Fail,
        PipeEvent::Line(line) => PipeAction::Emit { line, sleep: repeats },
        PipeEvent::CommandDone => if repeats {
            PipeAction::Sleep
        } else {
            PipeAction::End
        },
        PipeEvent::SleepDone => PipeAction::Run,
    }
}

/// What the stream waits for after `action`.
pub open spec fn pipe_phase(phase: PipePhase, action: PipeAction) -> PipePhase {
    match action {
        PipeAction::Emit { sleep: true, .. } | PipeAction::Sleep => PipePhase::Sleep,
        PipeAction::Run => PipePhase::Command,
        _ => phase,
    }
}

impl Pipe {
    /// Whether the command is run again and again.
    pub fn repeats(&self) -> (r: bool)
        ensures
            r == self.refresh_rate is Some,
    {
        self.refresh_rate.is_some()
    }

    /// One step of the component's stream: what to do on `event`, and what
    /// to wait for afterwards.
    ///
    /// A line is yielded. If the command is to be run again, the pause
    /// starts with its first line, or with the end of its output if there
    /// was no line; after the pause the command is run again. If it is run
    /// once only, the stream ends with the command's output.
    pub fn poll(&self, phase: PipePhase, event: PipeEvent) -> (r: (PipePhase, PipeAction))
        requires
            event_fits(phase, event),
        ensures
            r.1 == pipe_action(self.refresh_rate is Some, event),
            r.0 == pipe_phase(phase, r.1),
    {
        let repeats = self.repeats();
        match event {
            PipeEvent::NotReady => (phase, PipeAction::Wait),
            PipeEvent::Failed => (phase, PipeAction::Fail),
            PipeEvent::Line(line) => {
                if repeats {
                    (PipePhase::Sleep, PipeAction::Emit { line, sleep: true })
                } else {
                    (phase, PipeAction::Emit { line, sleep: false })
                }
            },
            PipeEvent::CommandDone => {
                if repeats {
                    (PipePhase::Sleep, PipeAction::Sleep)
                } else {
                    (phase, PipeAction::End)
                }
            },
            PipeEvent::SleepDone => (PipePhase::Command, PipeAction::Run),
        }
    }
}

} // verus!
