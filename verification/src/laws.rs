//! Properties that span the master's state and the worker's reaction to it.
use vstd::prelude::*;
use crate::archive::archive_path_text;
use crate::models::{WorkerActionView, WorkerInfoView};
use crate::start_infos::StartInfos;
use crate::state::{ActionView, State};
use crate::worker::{WorkerCommandView, status_commands};

verus! {

/// What `start(name)` makes of `before`, as its contract states it.
pub open spec fn start_step(before: State, after: State, name: Seq<char>) -> bool {
    &&& after.started_from(before, name)
    &&& after.last_start_info == before.last_start_info
    &&& (before.action@ == ActionView::Start(name) ==> after == before)
}

/// What `stop()` makes of `before`, as its contract states it.
pub open spec fn stop_step(before: State, after: State) -> bool {
    &&& after.stopped_from(before)
    &&& (before.action@ == ActionView::Stop ==> after == before)
}

/// `after` comes from `before` by one of the operator's changes: starting
/// a configuration, stopping, or publishing an update archive.
pub open spec fn operator_step(before: State, after: State) -> bool {
    ||| exists|name: Seq<char>| start_step(before, after, name)
    ||| stop_step(before, after)
    ||| exists|file: String| after.updated_from(before, file)
}

/// What `State::new(infos)` returns, as its contract states it.
pub open spec fn fresh_state(s: State, infos: StartInfos) -> bool {
    &&& s.version.0 == 0
    &&& s.update_version.0 == 0
    &&& s.action@ == ActionView::Stop
    &&& s.update_file is None
    &&& s.last_start_info is None
    &&& s.start_infos == infos
}

/// The versions and the update archive agree: updates are counted among
/// all changes, an archive is held exactly when an update was published,
/// and an update is only asked for with an archive to fetch.
pub open spec fn consistent(s: State) -> bool {
    &&& s.update_version.0 <= s.version.0
    &&& (s.update_file is Some <==> s.update_version.0 > 0)
    &&& (s.action@ == ActionView::Update ==> s.update_file is Some)
}

/// A fresh state is consistent.
pub proof fn law_fresh_state_is_consistent(s: State, infos: StartInfos)
    requires
        fresh_state(s, infos),
    ensures
        consistent(s),
{
}

/// Every operator change keeps a state consistent, and keeps its launch
/// configurations and its remembered last run.
pub proof fn law_operator_steps_keep_consistency(before: State, after: State)
    requires
        consistent(before),
        operator_step(before, after),
    ensures
        consistent(after),
        after.start_infos == before.start_infos,
        after.last_start_info == before.last_start_info,
{
}

/// Every state reached from `State::new(infos)` by starts, stops and
/// updates is consistent, still holds `infos`, and remembers no last run.
pub proof fn law_reachable_states_are_consistent(states: Seq<State>, infos: StartInfos)
    requires
        states.len() > 0,
        fresh_state(states[0], infos),
        forall|i: int| 0 <= i < states.len() - 1 ==> operator_step(#[trigger] states[i], states[i + 1]),
    ensures
        forall|i: int|
            0 <= i < states.len() ==> consistent(#[trigger] states[i]) && states[i].start_infos == infos
                && states[i].last_start_info is None,
    decreases states.len(),
{
    if states.len() == 1 {
        law_fresh_state_is_consistent(states[0], infos);
    } else {
        let prefix = states.drop_last();
        assert forall|i: int| 0 <= i < prefix.len() - 1 implies operator_step(
            #[trigger] prefix[i],
            prefix[i + 1],
        ) by {
            assert(operator_step(states[i], states[i + 1]));
        }
        law_reachable_states_are_consistent(prefix, infos);
        let n = states.len() - 1;
        assert(prefix[n - 1] == states[n - 1]);
        assert(operator_step(states[n - 1], states[n]));
        law_operator_steps_keep_consistency(states[n - 1], states[n]);
        assert forall|i: int| 0 <= i < states.len() implies consistent(#[trigger] states[i])
            && states[i].start_infos == infos && states[i].last_start_info is None by {
            if i < n {
                assert(prefix[i] == states[i]);
            }
        }
    }
}

/// Starting a configuration that is already running changes nothing at
/// all: `start(name)` twice leaves the state as `start(name)` once.
pub proof fn law_repeated_start_changes_nothing(s0: State, s1: State, s2: State, name: Seq<char>)
    requires
        start_step(s0, s1, name),
        start_step(s1, s2, name),
    ensures
        s2 == s1,
{
}

/// Stopping twice changes nothing the second time.
pub proof fn law_repeated_stop_changes_nothing(s0: State, s1: State, s2: State)
    requires
        stop_step(s0, s1),
        stop_step(s1, s2),
    ensures
        s2 == s1,
{
}

/// No operator change lowers the state version, and every change of what
/// workers are told, of the action, of the update version or of the update
/// archive raises it.
pub proof fn law_changes_raise_the_version(before: State, after: State)
    requires
        operator_step(before, after),
    ensures
        after.version.0 >= before.version.0,
        after.published() != before.published() ==> after.version.0 > before.version.0,
        after.action@ != before.action@ || after.update_version != before.update_version
            || after.update_file != before.update_file ==> after.version.0 > before.version.0,
{
}

/// A worker that saw the state before an operator change notices the change
/// when it fetches the state after it: it first stops what runs, fetches the
/// update exactly when the update version grew, and starts exactly the
/// configuration the state names. Where the change altered nothing that
/// workers are told, the worker does nothing.
pub proof fn law_workers_follow_every_change(before: State, after: State)
    requires
        operator_step(before, after),
    ensures
        after.published() != before.published() ==> {
            let cmds = status_commands(before.published(), after.published());
            &&& cmds.len() >= 1
            &&& cmds[0] == WorkerCommandView::Stop
            &&& (exists|i: int| 0 <= i < cmds.len() && cmds[i] == WorkerCommandView::Update(
                after.update_version.0,
            )) <==> after.update_version.0 > before.update_version.0
            &&& cmds.last() == match after.published().action {
                WorkerActionView::Start(info) => WorkerCommandView::Start(info),
                _ => if after.update_version.0 > before.update_version.0 {
                    WorkerCommandView::Update(after.update_version.0)
                } else {
                    WorkerCommandView::Stop
                },
            }
        },
        after.published() == before.published() ==> status_commands(
            before.published(),
            after.published(),
        ).len() == 0,
{
    let cmds = status_commands(before.published(), after.published());
    if after.published() != before.published() {
        if after.update_version.0 > before.update_version.0 {
            assert(cmds[1] == WorkerCommandView::Update(after.update_version.0));
        } else {
            assert forall|i: int| 0 <= i < cmds.len() implies cmds[i]
                != WorkerCommandView::Update(after.update_version.0) by {}
        }
    }
}

/// Seeing the same state twice calls for nothing the second time.
pub proof fn law_same_state_calls_for_nothing(status: WorkerInfoView)
    ensures
        status_commands(status, status).len() == 0,
{
}

/// An update archive named for the next update version (as the console
/// names it) carries the version that the published update announces, and
/// a worker fetching it looks for the file of the same name in its own
/// download directory.
pub proof fn law_update_archive_matches_version(
    before: State,
    after: State,
    file: String,
    dir: Seq<char>,
    download_dir: Seq<char>,
    prev: WorkerInfoView,
)
    requires
        before.update_version.0 < u32::MAX,
        file@ == archive_path_text(dir, (before.update_version.0 + 1) as u32),
        after.updated_from(before, file),
        prev.version < after.version.0,
        prev.update_version < after.update_version.0,
    ensures
        after.update_file matches Some(f) && f@ == archive_path_text(dir, after.update_version.0),
        status_commands(prev, after.published())[1] == WorkerCommandView::Update(
            after.update_version.0,
        ),
        archive_path_text(download_dir, after.update_version.0).subrange(
            download_dir.len() as int,
            archive_path_text(download_dir, after.update_version.0).len() as int,
        ) == archive_path_text(dir, after.update_version.0).subrange(
            dir.len() as int,
            archive_path_text(dir, after.update_version.0).len() as int,
        ),
{
    let v = after.update_version.0;
    assert(archive_path_text(download_dir, v).subrange(
        download_dir.len() as int,
        archive_path_text(download_dir, v).len() as int,
    ) =~= seq!['/'] + crate::models::decimal(v as nat) + seq!['.', 'z', 'i', 'p']);
    assert(archive_path_text(dir, v).subrange(dir.len() as int, archive_path_text(dir, v).len() as int)
        =~= seq!['/'] + crate::models::decimal(v as nat) + seq!['.', 'z', 'i', 'p']);
}

} // verus!
