//! What holds of whole runs, whatever events the driver reports.

use crate::command::accepts;
use crate::config::DeploymentConfig;
use crate::deployer::{
    initial, message_text, next, required_names, target_directory, ActionView, ErrorKind, Event,
    Failure, Snapshot, Stage,
};
use crate::environment::missing_of;
use crate::text::{contains_text, occurs_at};
use vstd::prelude::*;
use vstd::string::*;

verus! {

/// The state that a run is in after the events `events` were handled in
/// order, starting in the state `s`.
pub open spec fn state_after(
    config: DeploymentConfig,
    skip: bool,
    extra: Seq<Seq<char>>,
    s: Snapshot,
    events: Seq<Event>,
) -> Snapshot
    decreases events.len(),
{
    if events.len() == 0 {
        s
    } else {
        next(
            config,
            skip,
            extra,
            state_after(config, skip, extra, s, events.drop_last()),
            events.last(),
        ).0
    }
}

/// The action that the last of `events` gave, in a run that started in the
/// state `s`.
pub open spec fn action_after(
    config: DeploymentConfig,
    skip: bool,
    extra: Seq<Seq<char>>,
    s: Snapshot,
    events: Seq<Event>,
) -> ActionView
    recommends
        events.len() > 0,
{
    next(
        config,
        skip,
        extra,
        state_after(config, skip, extra, s, events.drop_last()),
        events.last(),
    ).1
}

/// Whether `action` starts a command: the setup command or the deployment.
pub open spec fn runs_command(action: ActionView) -> bool {
    action is RunSetup || action is Execute
}

/// Whether a run in the state `s` is past its work: cleaning up, or over.
pub open spec fn winding_down(s: Snapshot) -> bool {
    s.stage == Stage::CleaningUp || s.stage == Stage::Finished
}

/// The message of the failure to find a network holds the network's name.
pub proof fn law_unknown_network_is_named(name: Seq<char>)
    ensures
        contains_text(
            message_text(Failure { kind: ErrorKind::Network, details: seq![name], code: None }),
            name,
        ),
{
    reveal_strlit("Network '");
    let message = message_text(
        Failure { kind: ErrorKind::Network, details: seq![name], code: None },
    );
    assert(message.subrange(9, 9 + name.len() as int) =~= name);
    assert(occurs_at(message, name, 9));
}

/// Once a run is winding down, every further event leaves it over, with the
/// failure it had, and asks for nothing more.
pub proof fn law_winding_down_only_finishes(
    config: DeploymentConfig,
    skip: bool,
    extra: Seq<Seq<char>>,
    s: Snapshot,
    events: Seq<Event>,
)
    requires
        winding_down(s),
        events.len() > 0,
    ensures
        state_after(config, skip, extra, s, events).stage == Stage::Finished,
        state_after(config, skip, extra, s, events).failure == s.failure,
        state_after(config, skip, extra, s, events).command == s.command,
        action_after(config, skip, extra, s, events) == ActionView::Finish,
    decreases events.len(),
{
    if events.len() > 1 {
        law_winding_down_only_finishes(config, skip, extra, s, events.drop_last());
    }
}

/// Without a source repository nothing is ever fetched or removed, and no
/// directory is ever marked for cleanup.
pub proof fn law_no_repository_no_fetch(
    config: DeploymentConfig,
    skip: bool,
    extra: Seq<Seq<char>>,
    events: Seq<Event>,
)
    requires
        config.project.repo.is_none(),
    ensures
        state_after(config, skip, extra, initial(), events).cleanup_path.is_none(),
        events.len() > 0 ==> !(action_after(config, skip, extra, initial(), events)
            is CloneRepository) && !(action_after(config, skip, extra, initial(), events)
            is RemoveDirectory),
    decreases events.len(),
{
    if events.len() > 0 {
        law_no_repository_no_fetch(config, skip, extra, events.drop_last());
    }
}

/// Declining the confirmation ends the run without failure: the deployment
/// command is not run then, nor on any later event.
pub proof fn law_decline_never_executes(
    config: DeploymentConfig,
    skip: bool,
    extra: Seq<Seq<char>>,
    s: Snapshot,
    line: String,
    later: Seq<Event>,
)
    requires
        s.stage == Stage::Confirming,
        !accepts(line@),
    ensures
        ({
            let (declined, action) = next(config, skip, extra, s, Event::Answered(line));
            &&& winding_down(declined)
            &&& declined.declined
            &&& declined.failure.is_none()
            &&& !runs_command(action)
            &&& later.len() > 0 ==> {
                &&& action_after(config, skip, extra, declined, later) == ActionView::Finish
                &&& state_after(config, skip, extra, declined, later).stage == Stage::Finished
                &&& state_after(config, skip, extra, declined, later).failure.is_none()
            }
        }),
{
    let declined = next(config, skip, extra, s, Event::Answered(line)).0;
    if later.len() > 0 {
        law_winding_down_only_finishes(config, skip, extra, declined, later);
    }
}

/// A setup command that exits with a code other than zero ends the run in
/// failure: no network is resolved, no command is built, nothing is asked
/// and nothing more is run, then or on any later event.
pub proof fn law_setup_failure_stops(
    config: DeploymentConfig,
    skip: bool,
    extra: Seq<Seq<char>>,
    s: Snapshot,
    code: Option<i32>,
    later: Seq<Event>,
)
    requires
        s.stage == Stage::SettingUp,
        code != Some(0i32),
    ensures
        ({
            let (stopped, action) = next(config, skip, extra, s, Event::Exited(code));
            let failure = Failure { kind: ErrorKind::Setup, details: Seq::empty(), code: code };
            &&& winding_down(stopped)
            &&& stopped.failure == Some(failure)
            &&& stopped.command == s.command
            &&& !runs_command(action)
            &&& !(action is Confirm)
            &&& later.len() > 0 ==> {
                &&& action_after(config, skip, extra, stopped, later) == ActionView::Finish
                &&& state_after(config, skip, extra, stopped, later).stage == Stage::Finished
                &&& state_after(config, skip, extra, stopped, later).failure == Some(failure)
                &&& state_after(config, skip, extra, stopped, later).command == s.command
            }
        }),
{
    let stopped = next(config, skip, extra, s, Event::Exited(code)).0;
    if later.len() > 0 {
        law_winding_down_only_finishes(config, skip, extra, stopped, later);
    }
}

/// What holds of every state of a run with a source repository: the
/// directory marked for cleanup is the target directory; while the run works
/// the directory is marked; and a run that is cleaning up was just asked to
/// remove it.
pub open spec fn fetched_run(config: DeploymentConfig, s: Snapshot, last: Option<ActionView>) -> bool {
    let target = target_directory(config);
    &&& s.stage != Stage::LocatingDirectory
    &&& s.cleanup_path.is_some() ==> s.cleanup_path == Some(target)
    &&& (s.stage == Stage::ClearingTarget || s.stage == Stage::FetchingRepository)
        ==> s.working_directory == target
    &&& (s.stage == Stage::LoadingEnvironment || s.stage == Stage::SettingUp || s.stage
        == Stage::Confirming || s.stage == Stage::Executing) ==> s.cleanup_path.is_some()
    &&& s.stage == Stage::CleaningUp ==> last == Some(ActionView::RemoveDirectory { path: target })
    &&& s.stage == Stage::ClearingTarget ==> last == Some(
        ActionView::RemoveDirectory { path: target },
    )
    &&& s.stage == Stage::Created ==> s.cleanup_path.is_none()
    &&& (s.stage == Stage::Finished && s.cleanup_path.is_none()) ==> s.failure.is_some()
}

/// The action that the last of `events` gave, if there is one.
pub open spec fn last_action(
    config: DeploymentConfig,
    skip: bool,
    extra: Seq<Seq<char>>,
    events: Seq<Event>,
) -> Option<ActionView> {
    if events.len() == 0 {
        None
    } else {
        Some(action_after(config, skip, extra, initial(), events))
    }
}

/// `fetched_run` holds after any events of a run with a source repository.
proof fn lemma_fetched_run(
    config: DeploymentConfig,
    skip: bool,
    extra: Seq<Seq<char>>,
    events: Seq<Event>,
)
    requires
        config.project.repo.is_some(),
    ensures
        fetched_run(
            config,
            state_after(config, skip, extra, initial(), events),
            last_action(config, skip, extra, events),
        ),
    decreases events.len(),
{
    if events.len() > 0 {
        lemma_fetched_run(config, skip, extra, events.drop_last());
    }
}

/// With a source repository, the target directory is removed before
/// anything is fetched into it: the first action of a run asks for the
/// removal, and a fetch is only ever asked for in answer to the removal
/// having gone through, into that same directory.
pub proof fn law_target_removed_before_fetch(
    config: DeploymentConfig,
    skip: bool,
    extra: Seq<Seq<char>>,
    events: Seq<Event>,
)
    requires
        config.project.repo.is_some(),
        events.len() > 0,
    ensures
        events.len() == 1 && events[0] is Started ==> action_after(
            config,
            skip,
            extra,
            initial(),
            events,
        ) == (ActionView::RemoveDirectory { path: target_directory(config) }),
        action_after(config, skip, extra, initial(), events) is CloneRepository ==> {
            &&& events.len() >= 2
            &&& events.last() is Completed
            &&& action_after(config, skip, extra, initial(), events.drop_last()) == (
            ActionView::RemoveDirectory { path: target_directory(config) })
            &&& action_after(config, skip, extra, initial(), events) == (
            ActionView::CloneRepository {
                url: config.project.repo.unwrap()@,
                target: target_directory(config),
            })
        },
{
    lemma_fetched_run(config, skip, extra, events.drop_last());
    if events.len() == 1 {
        assert(events.drop_last().len() == 0);
    }
}

/// With a source repository, a run that is over without failure has been
/// asked, on its way there, to remove the target directory, and was cleaning
/// up from then on.
pub proof fn law_success_cleans_up(
    config: DeploymentConfig,
    skip: bool,
    extra: Seq<Seq<char>>,
    events: Seq<Event>,
)
    requires
        config.project.repo.is_some(),
        state_after(config, skip, extra, initial(), events).stage == Stage::Finished,
        state_after(config, skip, extra, initial(), events).failure.is_none(),
    ensures
        exists|k: int|
            0 < k < events.len() && state_after(
                config,
                skip,
                extra,
                initial(),
                #[trigger] events.take(k),
            ).stage == Stage::CleaningUp && action_after(
                config,
                skip,
                extra,
                initial(),
                events.take(k),
            ) == (ActionView::RemoveDirectory { path: target_directory(config) }),
    decreases events.len(),
{
    lemma_fetched_run(config, skip, extra, events);
    if events.len() > 0 {
        let front = events.drop_last();
        let before = state_after(config, skip, extra, initial(), front);
        lemma_fetched_run(config, skip, extra, front);
        if before.stage == Stage::Finished {
            law_success_cleans_up(config, skip, extra, front);
            let k = choose|k: int|
                0 < k < front.len() && state_after(
                    config,
                    skip,
                    extra,
                    initial(),
                    #[trigger] front.take(k),
                ).stage == Stage::CleaningUp && action_after(
                    config,
                    skip,
                    extra,
                    initial(),
                    front.take(k),
                ) == (ActionView::RemoveDirectory { path: target_directory(config) });
            assert(events.take(k) =~= front.take(k));
        } else {
            assert(before.stage == Stage::CleaningUp);
            let k = events.len() - 1;
            assert(events.take(k) =~= front);
            assert(front.len() > 0);
        }
    }
}

/// What holds of every state of a run, whatever the configuration: while a
/// command may still be started, the environment defines every required
/// name and no failure has been recorded.
pub open spec fn checked_run(s: Snapshot) -> bool {
    &&& (s.stage == Stage::SettingUp || s.stage == Stage::Confirming || s.stage
        == Stage::Executing) ==> missing_of(required_names(), s.env).len() == 0
    &&& !winding_down(s) ==> s.failure.is_none() && s.cleanup_failure.is_none()
}

/// No command is started before the environment defines every required
/// name: when the setup command or the deployment is asked for, none of the
/// required names is missing.
pub proof fn law_commands_need_required_variables(
    config: DeploymentConfig,
    skip: bool,
    extra: Seq<Seq<char>>,
    events: Seq<Event>,
)
    ensures
        checked_run(state_after(config, skip, extra, initial(), events)),
        events.len() > 0 && runs_command(action_after(config, skip, extra, initial(), events))
            ==> missing_of(
            required_names(),
            state_after(config, skip, extra, initial(), events).env,
        ).len() == 0,
    decreases events.len(),
{
    if events.len() > 0 {
        law_commands_need_required_variables(config, skip, extra, events.drop_last());
    }
}

} // verus!
