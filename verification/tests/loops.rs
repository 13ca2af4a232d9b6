use actions_runner::broker_message_listener::BrokerMessageType;
use actions_runner::error_throttler::{ErrorThrottler, MAX_BACKOFF, MIN_BACKOFF};
use actions_runner::job_dispatcher::{exit_code_of, Dispatch, JobDispatcher};
use actions_runner::message_listener::MessageType;
use actions_runner::message_loop::{LoopAction, LoopEvent, LoopMessage, MessageLoop};
use actions_runner::polling::{
    broker_poll_step, is_success, poll_step, BrokerDrain, PollAction, PollEvent, PollResult,
};
use actions_runner::session_retry::{SessionRetry, SessionStep};
use actions_runner::worker_run::{
    worker_arguments, worker_program, WorkerAction, WorkerEvent, WorkerFailure, WorkerRun,
};

#[test]
fn test_initial_delay() {
    let throttler = ErrorThrottler::new();
    assert_eq!(throttler.current_delay(), MIN_BACKOFF);
}

#[test]
fn test_increment() {
    let mut throttler = ErrorThrottler::new();
    throttler.increment();
    assert_eq!(throttler.current_delay(), 2_000);
    throttler.increment();
    assert_eq!(throttler.current_delay(), 4_000);
}

#[test]
fn test_max_backoff() {
    let mut throttler = ErrorThrottler::new();
    for _ in 0..20 {
        throttler.increment();
    }
    assert_eq!(throttler.current_delay(), MAX_BACKOFF);
}

#[test]
fn test_reset() {
    let mut throttler = ErrorThrottler::new();
    throttler.increment();
    throttler.increment();
    throttler.reset();
    assert_eq!(throttler.current_delay(), MIN_BACKOFF);
}

#[test]
fn delays_stay_in_bounds() {
    let mut throttler = ErrorThrottler::default();
    for _ in 0..10 {
        assert!((MIN_BACKOFF..=MAX_BACKOFF).contains(&throttler.current_delay()));
        throttler.increment();
    }
}

fn drive(events: &[LoopEvent], run_once: bool) -> Vec<LoopAction> {
    let mut turn = MessageLoop::new(run_once);
    let mut seen = vec![turn.action()];
    for event in events {
        seen.push(turn.step(*event));
    }
    seen
}

#[test]
fn a_job_is_dispatched_and_its_message_deleted() {
    let seen = drive(
        &[
            LoopEvent::Yes,
            LoopEvent::No,
            LoopEvent::Message(LoopMessage::V1(MessageType::JobRequest)),
            LoopEvent::Yes,
            LoopEvent::Failed,
            LoopEvent::Yes,
        ],
        false,
    );
    assert_eq!(
        seen,
        [
            LoopAction::CreateSession,
            LoopAction::CheckShutdown,
            LoopAction::Poll,
            LoopAction::ReadJobRequest,
            LoopAction::DispatchJob,
            LoopAction::DeleteMessage,
            LoopAction::CheckShutdown,
        ]
    );
}

#[test]
fn a_referenced_job_is_acquired_and_its_message_kept() {
    let seen = drive(
        &[
            LoopEvent::Yes,
            LoopEvent::No,
            LoopEvent::Message(LoopMessage::V1(MessageType::RunnerJobRequest)),
            LoopEvent::Yes,
            LoopEvent::Failed,
            LoopEvent::Yes,
            LoopEvent::Yes,
        ],
        false,
    );
    assert_eq!(
        seen[3..],
        [
            LoopAction::ReadJobReference,
            LoopAction::Acknowledge,
            LoopAction::AcquireJob,
            LoopAction::DispatchAcquiredJob,
            LoopAction::CheckShutdown,
        ]
    );
}

#[test]
fn errors_back_off_and_a_message_resets_the_delay() {
    let mut turn = MessageLoop::new(false);
    turn.step(LoopEvent::Yes);
    turn.step(LoopEvent::No);
    assert_eq!(turn.step(LoopEvent::Failed), LoopAction::Backoff(1_000));
    turn.step(LoopEvent::Yes);
    turn.step(LoopEvent::No);
    assert_eq!(turn.step(LoopEvent::Failed), LoopAction::Backoff(2_000));
    turn.step(LoopEvent::Yes);
    turn.step(LoopEvent::No);
    turn.step(LoopEvent::Message(LoopMessage::V2(BrokerMessageType::Unknown)));
    turn.step(LoopEvent::Yes);
    turn.step(LoopEvent::No);
    assert_eq!(turn.step(LoopEvent::Failed), LoopAction::Backoff(1_000));
    assert_eq!(turn.step(LoopEvent::Failed), LoopAction::DeleteSession(0));
    assert_eq!(turn.step(LoopEvent::Failed), LoopAction::Exit(0));
    assert_eq!(turn.step(LoopEvent::Yes), LoopAction::Exit(0));
}

#[test]
fn updates_and_refreshes_end_the_loop_with_their_codes() {
    let exit = |message: LoopMessage| {
        let seen = drive(
            &[
                LoopEvent::Yes,
                LoopEvent::No,
                LoopEvent::Message(message),
                LoopEvent::Yes,
                LoopEvent::Yes,
                LoopEvent::Yes,
            ],
            false,
        );
        *seen.last().unwrap()
    };
    assert_eq!(exit(LoopMessage::V1(MessageType::AgentRefresh)), LoopAction::Exit(3));
    assert_eq!(exit(LoopMessage::V2(BrokerMessageType::RunnerRefresh)), LoopAction::Exit(3));
    assert_eq!(
        exit(LoopMessage::V2(BrokerMessageType::RunnerRefreshConfig)),
        LoopAction::Exit(6)
    );
    assert_eq!(
        exit(LoopMessage::V1(MessageType::RunnerRefresh)),
        LoopAction::Exit(0)
    );
}

#[test]
fn a_run_once_loop_asks_for_its_job() {
    let seen = drive(
        &[LoopEvent::Yes, LoopEvent::No, LoopEvent::No, LoopEvent::Yes, LoopEvent::Yes],
        true,
    );
    assert_eq!(
        seen[3..],
        [LoopAction::Pause(1_000), LoopAction::CheckRunOnce, LoopAction::DeleteSession(0)]
    );
    let seen = drive(&[LoopEvent::Yes, LoopEvent::Yes, LoopEvent::Yes], false);
    assert_eq!(seen[2..], [LoopAction::DeleteSession(0), LoopAction::Exit(0)]);
    assert_eq!(drive(&[LoopEvent::Failed], false)[1], LoopAction::Abort);
}

#[test]
fn a_poll_ends_by_its_status() {
    let send = |status| poll_step(PollAction::Send, PollEvent::Status(status));
    assert_eq!(send(202), PollAction::Done(PollResult::NoMessage));
    assert_eq!(send(401), PollAction::RefreshToken);
    assert_eq!(send(500), PollAction::Done(PollResult::HttpError(500)));
    assert_eq!(send(200), PollAction::ReadMessage);
    assert_eq!(
        poll_step(PollAction::Send, PollEvent::TimedOut),
        PollAction::Done(PollResult::NoMessage)
    );
    assert_eq!(
        poll_step(PollAction::Send, PollEvent::Failed),
        PollAction::Done(PollResult::TransportError)
    );
    assert_eq!(
        poll_step(PollAction::ReadMessage, PollEvent::Failed),
        PollAction::Done(PollResult::BadMessage)
    );
    assert_eq!(
        poll_step(PollAction::ReadMessage, PollEvent::Message(MessageType::BrokerMigration)),
        PollAction::ReadMigration
    );
    assert_eq!(
        poll_step(PollAction::ReadMigration, PollEvent::Failed),
        PollAction::Done(PollResult::BadMigration)
    );
    assert_eq!(
        poll_step(PollAction::AskBroker, PollEvent::No),
        PollAction::Done(PollResult::NoMessage)
    );
    assert_eq!(
        broker_poll_step(PollAction::Send, PollEvent::Status(403)),
        PollAction::RefreshToken
    );
    assert_eq!(
        broker_poll_step(PollAction::Send, PollEvent::Status(204)),
        PollAction::Done(PollResult::NoMessage)
    );
    assert!(is_success(200) && is_success(299) && !is_success(300) && !is_success(199));
}

#[test]
fn stale_cancellations_are_skipped_but_not_for_ever() {
    let mut drain = BrokerDrain::new();
    let mut turns = 0;
    loop {
        match drain.action() {
            PollAction::CheckCancelled => drain.step(PollEvent::No),
            PollAction::Send => drain.step(PollEvent::Status(200)),
            PollAction::ReadMessage => drain.step(PollEvent::Message(MessageType::JobCancel)),
            PollAction::CheckRunning => {
                turns += 1;
                drain.step(PollEvent::No)
            }
            PollAction::Done(result) => {
                assert_eq!(result, PollResult::NoMessage);
                break;
            }
            other => panic!("{other:?}"),
        };
    }
    assert_eq!(turns, 30);
    assert_eq!(drain.skipped(), 30);
}

#[test]
fn a_cancellation_of_a_running_job_is_delivered() {
    let mut drain = BrokerDrain::new();
    drain.step(PollEvent::No);
    drain.step(PollEvent::Status(200));
    drain.step(PollEvent::Message(MessageType::JobCancel));
    assert_eq!(drain.step(PollEvent::Yes), PollAction::Done(PollResult::Message));
    assert_eq!(drain.skipped(), 0);
}

#[test]
fn conflicts_are_waited_out() {
    let mut retry = SessionRetry::new(true);
    for _ in 0..100 {
        assert_eq!(retry.failed("HTTP 409"), SessionStep::Conflict(5));
    }
    assert_eq!(retry.failed("timeout"), SessionStep::Retry(1, 30));
    let mut plain = SessionRetry::new(false);
    assert_eq!(plain.failed("TaskAgentSessionConflict"), SessionStep::Retry(1, 30));
    for n in 2..30 {
        assert_eq!(plain.failed("x"), SessionStep::Retry(n, 30));
    }
    assert_eq!(plain.failed("x"), SessionStep::GiveUp);
}

#[test]
fn a_job_runs_once() {
    let mut jobs = JobDispatcher::new();
    assert!(!jobs.is_busy());
    assert_eq!(jobs.run(7), Dispatch::Start);
    jobs.worker_started(7, 1);
    jobs.worker_started(8, 2);
    assert_eq!(jobs.run(7), Dispatch::Duplicate);
    assert_eq!(jobs.running_job_ids(), [7, 8]);
    assert!(jobs.cancel(7));
    assert!(!jobs.cancel(9));
    assert!(jobs.is_running(7));
    assert!(jobs.wait(7));
    assert!(!jobs.wait(7));
    assert!(!jobs.wait(9));
    jobs.worker_finished(7);
    assert!(!jobs.is_running(7));
    assert!(jobs.is_running(8));
    assert!(jobs.is_busy());
    assert_eq!(jobs.shutdown(), [8]);
    jobs.worker_finished(8);
    assert!(!jobs.is_busy());
}

#[test]
fn exit_codes_of_workers() {
    assert_eq!(exit_code_of(false, Some(5), Some(9)), 5);
    assert_eq!(exit_code_of(false, None, Some(9)), 137);
    assert_eq!(exit_code_of(false, None, None), 1);
    assert_eq!(exit_code_of(true, Some(0), None), 1);
}

#[test]
fn a_worker_is_sent_its_job_once_it_has_connected() {
    let mut run = WorkerRun::new();
    assert_eq!(run.action(), WorkerAction::CreateChannel);
    assert_eq!(run.step(WorkerEvent::Done), WorkerAction::FindWorker);
    assert_eq!(run.step(WorkerEvent::Done), WorkerAction::SpawnWorker);
    assert_eq!(run.step(WorkerEvent::Done), WorkerAction::AcceptConnection);
    assert_eq!(run.step(WorkerEvent::CancelRequested), WorkerAction::AcceptConnection);
    assert_eq!(run.step(WorkerEvent::Done), WorkerAction::SendJob);
    assert_eq!(run.step(WorkerEvent::Done), WorkerAction::AwaitExit);
    assert_eq!(run.completed(), None);
    assert_eq!(run.step(WorkerEvent::Exited(None, Some(15))), WorkerAction::Exited(143));
    assert_eq!(run.completed(), Some(true));
    assert_eq!(run.step(WorkerEvent::Failed), WorkerAction::Exited(143));
}

#[test]
fn a_stopped_worker_is_killed() {
    let mut run = WorkerRun::new();
    for _ in 0..5 {
        run.step(WorkerEvent::Done);
    }
    assert_eq!(run.step(WorkerEvent::CancelRequested), WorkerAction::KillWorker);
    assert_eq!(run.step(WorkerEvent::Failed), WorkerAction::Exited(1));
}

#[test]
fn each_failure_of_a_worker_ends_its_run() {
    let failures = [
        WorkerFailure::Channel,
        WorkerFailure::NoWorker,
        WorkerFailure::Spawn,
        WorkerFailure::Accept,
        WorkerFailure::Send,
        WorkerFailure::Wait,
    ];
    for (done, failure) in failures.iter().enumerate() {
        let mut run = WorkerRun::new();
        for _ in 0..done {
            run.step(WorkerEvent::Done);
        }
        assert_eq!(run.step(WorkerEvent::Failed), WorkerAction::Failed(*failure));
        assert_eq!(run.completed(), Some(false));
    }
}

#[test]
fn the_worker_program_is_found_under_either_name() {
    assert_eq!(worker_program(true, true), Some("Runner.Worker"));
    assert_eq!(worker_program(false, true), Some("Runner.Worker.exe"));
    assert_eq!(worker_program(false, false), None);
    assert_eq!(worker_arguments("/s"), ["--pipeIn", "/s", "--pipeOut", "/s"]);
}
