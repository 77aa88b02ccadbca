//! The run of the commands, one after the other: what is started next, and
//! when the run ends.
use crate::shell::{shell_split, shell_split_words};
use vstd::prelude::*;

verus! {

/// Why a run ended early.
#[derive(Debug, PartialEq)]
pub enum RunError {
    /// The command cannot be parted into words.
    Malformed { command: String },
    /// The command could not be started.
    NotStarted { command: String },
    /// The command ran and reported a failure.
    Failed { command: String },
}

/// A run error as a mathematical value.
pub enum RunErrorView {
    Malformed { command: Seq<char> },
    NotStarted { command: Seq<char> },
    Failed { command: Seq<char> },
}

impl View for RunError {
    type V = RunErrorView;

    open spec fn view(&self) -> RunErrorView {
        match *self {
            RunError::Malformed { command } => RunErrorView::Malformed { command: command@ },
            RunError::NotStarted { command } => RunErrorView::NotStarted { command: command@ },
            RunError::Failed { command } => RunErrorView::Failed { command: command@ },
        }
    }
}

impl Clone for RunError {
    fn clone(&self) -> (r: Self)
        ensures
            r@ == self@,
    {
        match self {
            RunError::Malformed { command } => RunError::Malformed { command: command.clone() },
            RunError::NotStarted { command } => RunError::NotStarted { command: command.clone() },
            RunError::Failed { command } => RunError::Failed { command: command.clone() },
        }
    }
}

impl RunError {
    /// A sentence that names the error.
    pub fn message(&self) -> (r: String)
        ensures
            r@ == match self@ {
                RunErrorView::Malformed { command } => "Malformed command: "@ + command,
                RunErrorView::NotStarted { command } => "Command could not be started: "@
                    + command,
                RunErrorView::Failed { command } => "Command failed: "@ + command,
            },
    {
        match self {
            RunError::Malformed { command } => {
                let mut out = "Malformed command: ".to_owned();
                out.append(command.as_str());
                out
            },
            RunError::NotStarted { command } => {
                let mut out = "Command could not be started: ".to_owned();
                out.append(command.as_str());
                out
            },
            RunError::Failed { command } => {
                let mut out = "Command failed: ".to_owned();
                out.append(command.as_str());
                out
            },
        }
    }
}

/// How the command that was started last has ended.
#[derive(Debug, PartialEq, Eq, Clone, Copy, Structural)]
pub enum Event {
    /// The process ran to its end, with or without success.
    Exited { success: bool },
    /// No process could be started.
    SpawnFailed,
}

/// What is to be done next in a run.
#[derive(Debug, PartialEq)]
pub enum Step {
    /// Start `program` with `args`, wait for it, and report how it ended.
    Execute { command: String, program: String, args: Vec<String> },
    /// Start nothing more: the run has ended, well or with an error.
    Finished { result: Result<(), RunError> },
}

/// A step as a mathematical value.
pub enum StepView {
    Execute { command: Seq<char>, program: Seq<char>, args: Seq<Seq<char>> },
    Finished { result: Result<(), RunErrorView> },
}

impl View for Step {
    type V = StepView;

    open spec fn view(&self) -> StepView {
        match *self {
            Step::Execute { command, program, args } => StepView::Execute {
                command: command@,
                program: program@,
                args: args.deep_view(),
            },
            Step::Finished { result } => StepView::Finished {
                result: match result {
                    Ok(_) => Ok(()),
                    Err(error) => Err(error@),
                },
            },
        }
    }
}

/// A run as a mathematical value: the commands, how many of them have been
/// dealt with, and the error that ended the run, if one did.
pub struct RunView {
    pub commands: Seq<Seq<char>>,
    pub position: nat,
    pub failure: Option<RunErrorView>,
}

/// A run of commands, one at a time and in order, that ends at the first
/// failure.
pub struct Run {
    commands: Vec<String>,
    position: usize,
    failure: Option<RunError>,
}

impl View for Run {
    type V = RunView;

    closed spec fn view(&self) -> RunView {
        RunView {
            commands: self.commands.deep_view(),
            position: self.position as nat,
            failure: match self.failure {
                Some(error) => Some(error@),
                None => None,
            },
        }
    }
}

/// What is done with the words of a command: a command without words is
/// passed over, and any other is started, its first word being the program.
pub enum Launch {
    Skip,
    Start { program: String, args: Vec<String> },
}

/// What is done with the words `words` of a command.
pub fn launch_of(words: Vec<String>) -> (r: Launch)
    ensures
        match r {
            Launch::Skip => words.deep_view().len() == 0,
            Launch::Start { program, args } => words.deep_view().len() > 0 && program@
                == words.deep_view()[0] && args.deep_view() == words.deep_view().skip(1),
        },
{
    let mut words = words;
    if words.len() == 0 {
        return Launch::Skip;
    }
    let ghost all = words.deep_view();
    let program = words.remove(0);
    proof {
        assert(words.deep_view() =~= all.skip(1));
    }
    Launch::Start { program, args: words }
}

/// The run after its next step, and that step. A run that has failed stays as
/// it is. Otherwise the commands are looked at in order from `position` on:
/// one that cannot be parted into words ends the run with an error, one
/// without words is passed over, and the first with words is started.
pub open spec fn next_step_spec(run: RunView) -> (RunView, StepView)
    decreases run.commands.len() - run.position,
{
    if run.failure is Some {
        (run, StepView::Finished { result: Err(run.failure->0) })
    } else if run.position >= run.commands.len() {
        (run, StepView::Finished { result: Ok(()) })
    } else {
        let command = run.commands[run.position as int];
        let passed = RunView { position: run.position + 1, ..run };
        match shell_split_words(command) {
            None => {
                let error = RunErrorView::Malformed { command };
                (RunView { failure: Some(error), ..run }, StepView::Finished { result: Err(error) })
            },
            Some(words) => if words.len() == 0 {
                next_step_spec(passed)
            } else {
                (passed, StepView::Execute { command, program: words[0], args: words.skip(1) })
            },
        }
    }
}

/// The run after the command that was started last has ended with `event`.
/// Success changes nothing. A failure ends the run, unless it has ended
/// already or nothing was started yet.
pub open spec fn report_spec(run: RunView, event: Event) -> RunView {
    if run.failure is Some || run.position == 0 || run.position > run.commands.len() {
        run
    } else {
        let command = run.commands[run.position - 1];
        match event {
            Event::Exited { success } => if success {
                run
            } else {
                RunView { failure: Some(RunErrorView::Failed { command }), ..run }
            },
            Event::SpawnFailed => RunView {
                failure: Some(RunErrorView::NotStarted { command }),
                ..run
            },
        }
    }
}

impl Run {
    /// A run of `commands` of which none has been started.
    pub fn new(commands: Vec<String>) -> (r: Self)
        ensures
            r@ == (RunView { commands: commands.deep_view(), position: 0, failure: None }),
    {
        Run { commands, position: 0, failure: None }
    }

    /// Decides what is to be done next.
    pub fn next_step(&mut self) -> (r: Step)
        ensures
            (final(self)@, r@) == next_step_spec(old(self)@),
    {
        if let Some(error) = &self.failure {
            return Step::Finished { result: Err(error.clone()) };
        }
        while self.position < self.commands.len()
            invariant
                self.commands == old(self).commands,
                self.failure is None,
                old(self).position <= self.position,
                next_step_spec(old(self)@) == next_step_spec(self@),
            decreases self.commands.len() - self.position,
        {
            let command = self.commands[self.position].clone();
            assert(command@ == self@.commands[self.position as int]);
            match shell_split(command.as_str()) {
                None => {
                    self.failure = Some(RunError::Malformed { command: command.clone() });
                    return Step::Finished { result: Err(RunError::Malformed { command }) };
                },
                Some(words) => {
                    self.position = self.position + 1;
                    match launch_of(words) {
                        Launch::Skip => {},
                        Launch::Start { program, args } => {
                            return Step::Execute { command, program, args };
                        },
                    }
                },
            }
        }
        Step::Finished { result: Ok(()) }
    }

    /// Takes note of how the command that was started last has ended.
    pub fn report(&mut self, event: Event)
        ensures
            final(self)@ == report_spec(old(self)@, event),
    {
        if self.failure.is_some() || self.position == 0 || self.position > self.commands.len() {
            return ;
        }
        match event {
            Event::Exited { success } => {
                if !success {
                    let command = self.commands[self.position - 1].clone();
                    self.failure = Some(RunError::Failed { command });
                }
            },
            Event::SpawnFailed => {
                let command = self.commands[self.position - 1].clone();
                self.failure = Some(RunError::NotStarted { command });
            },
        }
    }
}

/// A run that has failed starts nothing more: every further step ends it with
/// the same error, and no report changes that.
pub proof fn lemma_failure_ends_the_run(run: RunView, event: Event)
    requires
        run.failure is Some,
    ensures
        next_step_spec(run) == (run, StepView::Finished { result: Err(run.failure->0) }),
        report_spec(run, event) == run,
{
}

/// A command that reports a failure, or that cannot be started, ends the run:
/// the step after the report starts nothing.
pub proof fn lemma_failed_command_ends_the_run(run: RunView, event: Event)
    requires
        run.failure is None,
        0 < run.position <= run.commands.len(),
        event != (Event::Exited { success: true }),
    ensures
        next_step_spec(report_spec(run, event)).1 is Finished,
        next_step_spec(report_spec(run, event)).1->result is Err,
{
}

} // verus!
