//! The life of a worker process: what is done to start it, to hand it its job and to end it.
use vstd::prelude::*;
use vstd::string::*;

use crate::{job_dispatcher, text};

verus! {

/// Why a worker did not run to its end.
#[derive(Debug, Clone, Copy, PartialEq, Eq, Structural)]
pub enum WorkerFailure {
    /// The channel to the worker could not be made.
    Channel,
    /// There is no worker program.
    NoWorker,
    Spawn,
    Accept,
    Send,
    Wait,
}

/// What is to be done next.
#[derive(Debug, Clone, Copy, PartialEq, Eq, Structural)]
pub enum WorkerAction {
    /// Make the channel to the worker.
    CreateChannel,
    /// Look for the worker program.
    FindWorker,
    /// Start the program, with the channel's place as its arguments.
    SpawnWorker,
    /// Wait for the worker to connect.
    AcceptConnection,
    /// Send the job.
    SendJob,
    /// Wait for the worker to exit, or for the order to stop it.
    AwaitExit,
    /// Kill the worker, and wait for it.
    KillWorker,
    /// The worker is gone, with this exit code.
    Exited(i32),
    /// The run has failed.
    Failed(WorkerFailure),
}

/// What came of an action.
#[derive(Debug, Clone, Copy, PartialEq, Eq, Structural)]
pub enum WorkerEvent {
    Done,
    Failed,
    /// The worker exited by itself, with this code or by this signal.
    Exited(Option<i32>, Option<i32>),
    /// The job is to be stopped.
    CancelRequested,
}

/// The exit code of a worker that exited by itself. A signal's number is small; of a number
/// that is not, no code is known.
pub open spec fn own_exit_code(code: Option<i32>, signal: Option<i32>) -> int {
    job_dispatcher::worker_exit_code(
        false,
        code,
        match signal {
            Some(s) => if s <= i32::MAX - 128 {
                Some(s)
            } else {
                None
            },
            None => None,
        },
    )
}

/// What is to be done after an action. An event that does not belong to the action changes
/// nothing.
pub open spec fn next_action(action: WorkerAction, event: WorkerEvent) -> WorkerAction {
    match (action, event) {
        (WorkerAction::CreateChannel, WorkerEvent::Done) => WorkerAction::FindWorker,
        (WorkerAction::CreateChannel, WorkerEvent::Failed) => WorkerAction::Failed(
            WorkerFailure::Channel,
        ),
        (WorkerAction::FindWorker, WorkerEvent::Done) => WorkerAction::SpawnWorker,
        (WorkerAction::FindWorker, WorkerEvent::Failed) => WorkerAction::Failed(
            WorkerFailure::NoWorker,
        ),
        (WorkerAction::SpawnWorker, WorkerEvent::Done) => WorkerAction::AcceptConnection,
        (WorkerAction::SpawnWorker, WorkerEvent::Failed) => WorkerAction::Failed(
            WorkerFailure::Spawn,
        ),
        (WorkerAction::AcceptConnection, WorkerEvent::Done) => WorkerAction::SendJob,
        (WorkerAction::AcceptConnection, WorkerEvent::Failed) => WorkerAction::Failed(
            WorkerFailure::Accept,
        ),
        (WorkerAction::SendJob, WorkerEvent::Done) => WorkerAction::AwaitExit,
        (WorkerAction::SendJob, WorkerEvent::Failed) => WorkerAction::Failed(WorkerFailure::Send),
        (WorkerAction::AwaitExit, WorkerEvent::Exited(code, signal)) => WorkerAction::Exited(
            own_exit_code(code, signal) as i32,
        ),
        (WorkerAction::AwaitExit, WorkerEvent::Failed) => WorkerAction::Failed(
            WorkerFailure::Wait,
        ),
        (WorkerAction::AwaitExit, WorkerEvent::CancelRequested) => WorkerAction::KillWorker,
        // Whether killing succeeds or not, the job counts as stopped.
        (WorkerAction::KillWorker, WorkerEvent::Done) => WorkerAction::Exited(
            job_dispatcher::worker_exit_code(true, None, None) as i32,
        ),
        (WorkerAction::KillWorker, WorkerEvent::Failed) => WorkerAction::Exited(
            job_dispatcher::worker_exit_code(true, None, None) as i32,
        ),
        _ => action,
    }
}

/// The run is over.
pub open spec fn over(action: WorkerAction) -> bool {
    action is Exited || action is Failed
}

/// The run of one worker.
#[derive(Debug)]
pub struct WorkerRun {
    action: WorkerAction,
}

impl WorkerRun {
    /// What is to be done next.
    pub closed spec fn current(self) -> WorkerAction {
        self.action
    }

    /// A run that begins.
    pub fn new() -> (r: Self)
        ensures
            r.current() == WorkerAction::CreateChannel,
    {
        WorkerRun { action: WorkerAction::CreateChannel }
    }

    /// What is to be done next.
    pub fn action(&self) -> (r: WorkerAction)
        ensures
            r == self.current(),
    {
        self.action
    }

    /// Takes note of what came of the action.
    pub fn step(&mut self, event: WorkerEvent) -> (r: WorkerAction)
        ensures
            final(self).current() == next_action(old(self).current(), event),
            r == final(self).current(),
    {
        let next = match (self.action, event) {
            (WorkerAction::CreateChannel, WorkerEvent::Done) => WorkerAction::FindWorker,
            (WorkerAction::CreateChannel, WorkerEvent::Failed) => WorkerAction::Failed(
                WorkerFailure::Channel,
            ),
            (WorkerAction::FindWorker, WorkerEvent::Done) => WorkerAction::SpawnWorker,
            (WorkerAction::FindWorker, WorkerEvent::Failed) => WorkerAction::Failed(
                WorkerFailure::NoWorker,
            ),
            (WorkerAction::SpawnWorker, WorkerEvent::Done) => WorkerAction::AcceptConnection,
            (WorkerAction::SpawnWorker, WorkerEvent::Failed) => WorkerAction::Failed(
                WorkerFailure::Spawn,
            ),
            (WorkerAction::AcceptConnection, WorkerEvent::Done) => WorkerAction::SendJob,
            (WorkerAction::AcceptConnection, WorkerEvent::Failed) => WorkerAction::Failed(
                WorkerFailure::Accept,
            ),
            (WorkerAction::SendJob, WorkerEvent::Done) => WorkerAction::AwaitExit,
            (WorkerAction::SendJob, WorkerEvent::Failed) => WorkerAction::Failed(
                WorkerFailure::Send,
            ),
            (WorkerAction::AwaitExit, WorkerEvent::Exited(code, signal)) => {
                let small = match signal {
                    Some(s) => if s <= i32::MAX - 128 {
                        Some(s)
                    } else {
                        None
                    },
                    None => None,
                };
                WorkerAction::Exited(job_dispatcher::exit_code_of(false, code, small))
            },
            (WorkerAction::AwaitExit, WorkerEvent::Failed) => WorkerAction::Failed(
                WorkerFailure::Wait,
            ),
            (WorkerAction::AwaitExit, WorkerEvent::CancelRequested) => WorkerAction::KillWorker,
            (WorkerAction::KillWorker, WorkerEvent::Done) => WorkerAction::Exited(
                job_dispatcher::exit_code_of(true, None, None),
            ),
            (WorkerAction::KillWorker, WorkerEvent::Failed) => WorkerAction::Exited(
                job_dispatcher::exit_code_of(true, None, None),
            ),
            (action, _) => action,
        };
        self.action = next;
        next
    }

    /// What a runner that takes one job is told at the end of the run: whether the worker ran
    /// to its end. `None` while the run goes on.
    pub fn completed(&self) -> (r: Option<bool>)
        ensures
            r == if over(self.current()) {
                Some(self.current() is Exited)
            } else {
                None
            },
    {
        match self.action {
            WorkerAction::Exited(_) => Some(true),
            WorkerAction::Failed(_) => Some(false),
            _ => None,
        }
    }
}

/// The name of the worker program, of the two that it may have, given which there are.
pub fn worker_program(plain: bool, exe: bool) -> (r: Option<&'static str>)
    ensures
        match r {
            Some(name) => name@ == (if plain {
                "Runner.Worker"@
            } else {
                "Runner.Worker.exe"@
            }) && (plain || exe),
            None => !plain && !exe,
        },
{
    if plain {
        Some("Runner.Worker")
    } else if exe {
        Some("Runner.Worker.exe")
    } else {
        None
    }
}

/// The arguments of the worker program.
pub fn worker_arguments(socket_path: &str) -> (r: Vec<String>)
    ensures
        text::views(r@) == seq!["--pipeIn"@, socket_path@, "--pipeOut"@, socket_path@],
{
    let mut v: Vec<String> = Vec::new();
    v.push("--pipeIn".to_owned());
    v.push(socket_path.to_owned());
    v.push("--pipeOut".to_owned());
    v.push(socket_path.to_owned());
    assert(text::views(v@) =~= seq!["--pipeIn"@, socket_path@, "--pipeOut"@, socket_path@]);
    v
}

/// How many actions a run can still take.
pub open spec fn actions_left(action: WorkerAction) -> nat {
    match action {
        WorkerAction::CreateChannel => 7,
        WorkerAction::FindWorker => 6,
        WorkerAction::SpawnWorker => 5,
        WorkerAction::AcceptConnection => 4,
        WorkerAction::SendJob => 3,
        WorkerAction::AwaitExit => 2,
        WorkerAction::KillWorker => 1,
        WorkerAction::Exited(_) => 0,
        WorkerAction::Failed(_) => 0,
    }
}

/// Each event that belongs to the action brings the run closer to its end, and what is over
/// stays as it is.
pub proof fn law_run_ends(action: WorkerAction, event: WorkerEvent)
    ensures
        next_action(action, event) != action ==> actions_left(next_action(action, event))
            < actions_left(action),
        over(action) ==> next_action(action, event) == action,
        !over(action) ==> next_action(action, WorkerEvent::Failed) != action,
{
}

/// A worker is sent its job only after it has connected, and is waited for only after it was
/// sent the job.
pub proof fn law_job_goes_to_connected_worker(action: WorkerAction, event: WorkerEvent)
    ensures
        next_action(action, event) is SendJob && action !is SendJob ==> action is AcceptConnection
            && event is Done,
        next_action(action, event) is AwaitExit && action !is AwaitExit ==> action is SendJob
            && event is Done,
{
}

/// A job that is stopped ends with the exit code of an error, however the killing goes.
pub proof fn law_stopped_is_an_error(event: WorkerEvent)
    requires
        event is Done || event is Failed,
    ensures
        next_action(WorkerAction::AwaitExit, WorkerEvent::CancelRequested)
            == WorkerAction::KillWorker,
        next_action(WorkerAction::KillWorker, event) == WorkerAction::Exited(1),
{
}

/// As long as all goes well a run takes its course: the channel, the program, the process,
/// the connection, the job, and the wait for the worker's end.
pub proof fn law_run_takes_its_course()
    ensures
        ({
            let a = next_action(WorkerAction::CreateChannel, WorkerEvent::Done);
            let b = next_action(a, WorkerEvent::Done);
            let c = next_action(b, WorkerEvent::Done);
            let d = next_action(c, WorkerEvent::Done);
            let e = next_action(d, WorkerEvent::Done);
            &&& a == WorkerAction::FindWorker
            &&& b == WorkerAction::SpawnWorker
            &&& c == WorkerAction::AcceptConnection
            &&& d == WorkerAction::SendJob
            &&& e == WorkerAction::AwaitExit
        }),
{
}

/// A failure ends the run at once, and the run tells where it failed.
pub proof fn law_failure_is_told()
    ensures
        next_action(WorkerAction::CreateChannel, WorkerEvent::Failed) == WorkerAction::Failed(
            WorkerFailure::Channel,
        ),
        next_action(WorkerAction::FindWorker, WorkerEvent::Failed) == WorkerAction::Failed(
            WorkerFailure::NoWorker,
        ),
        next_action(WorkerAction::SpawnWorker, WorkerEvent::Failed) == WorkerAction::Failed(
            WorkerFailure::Spawn,
        ),
        next_action(WorkerAction::AcceptConnection, WorkerEvent::Failed) == WorkerAction::Failed(
            WorkerFailure::Accept,
        ),
        next_action(WorkerAction::SendJob, WorkerEvent::Failed) == WorkerAction::Failed(
            WorkerFailure::Send,
        ),
        next_action(WorkerAction::AwaitExit, WorkerEvent::Failed) == WorkerAction::Failed(
            WorkerFailure::Wait,
        ),
{
}

/// The run of a worker that exits by itself ends with the worker's own code; with 128 and
/// the number of the signal that ended it; or with 1 if neither is known.
pub proof fn law_exit_code_is_the_workers(code: i32, signal: Option<i32>, s: i32)
    requires
        s <= 0x7fff_ff7f,
    ensures
        next_action(WorkerAction::AwaitExit, WorkerEvent::Exited(Some(code), signal))
            == WorkerAction::Exited(code),
        next_action(WorkerAction::AwaitExit, WorkerEvent::Exited(None, Some(s)))
            == WorkerAction::Exited((128 + s) as i32),
        next_action(WorkerAction::AwaitExit, WorkerEvent::Exited(None, None))
            == WorkerAction::Exited(1),
{
}

/// Only a worker that is waited for can exit or be stopped: at any other time these events
/// change nothing.
pub proof fn law_stray_events_change_nothing(
    action: WorkerAction,
    code: Option<i32>,
    signal: Option<i32>,
)
    requires
        action != WorkerAction::AwaitExit,
    ensures
        next_action(action, WorkerEvent::Exited(code, signal)) == action,
        next_action(action, WorkerEvent::CancelRequested) == action,
{
}

} // verus!
