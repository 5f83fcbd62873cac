//! The master's state: what workers should do, and the versions that let
//! them notice each change.
use vstd::prelude::*;
use vstd::std_specs::cmp::PartialEqSpecImpl;
use crate::models::{
    StateVersion, UpdateVersion, WorkerAction, WorkerActionView, WorkerInfo,
    WorkerInfoView,
};
use crate::start_infos::StartInfos;

verus! {

/// What an `Action` means.
pub enum ActionView {
    Stop,
    Start(Seq<char>),
    Update,
}

/// What the master currently asks of its workers; a start names one of the
/// launch configurations.
#[derive(Debug)]
pub enum Action {
    Stop,
    Start(String),
    Update,
}

impl View for Action {
    type V = ActionView;

    open spec fn view(&self) -> ActionView {
        match self {
            Action::Stop => ActionView::Stop,
            Action::Start(name) => ActionView::Start(name@),
            Action::Update => ActionView::Update,
        }
    }
}

impl PartialEq for Action {
    fn eq(&self, other: &Self) -> (r: bool) {
        match (self, other) {
            (Action::Stop, Action::Stop) => true,
            (Action::Start(a), Action::Start(b)) => a.eq(b),
            (Action::Update, Action::Update) => true,
            _ => false,
        }
    }
}

impl PartialEqSpecImpl for Action {
    open spec fn obeys_eq_spec() -> bool {
        true
    }

    open spec fn eq_spec(&self, other: &Action) -> bool {
        self@ == other@
    }
}

impl Action {
    /// A copy of this action.
    pub fn duplicate(&self) -> (r: Action)
        ensures
            r@ == self@,
    {
        match self {
            Action::Stop => Action::Stop,
            Action::Start(name) => Action::Start(name.clone()),
            Action::Update => Action::Update,
        }
    }
}

/// Holds current state of master
pub struct State {
    pub version: StateVersion,
    pub update_version: UpdateVersion,
    pub action: Action,
    pub update_file: Option<String>,
    pub last_start_info: Option<String>,
    pub start_infos: StartInfos,
}

/// The text of an optional string.
pub open spec fn opt_text(s: Option<String>) -> Option<Seq<char>> {
    match s {
        Some(t) => Some(t@),
        None => None,
    }
}

impl State {
    /// A stopped state at version zero with the given configurations.
    pub fn new(start_infos: StartInfos) -> (r: Self)
        ensures
            r.version.0 == 0,
            r.update_version.0 == 0,
            r.action@ == ActionView::Stop,
            r.update_file is None,
            r.last_start_info is None,
            r.start_infos == start_infos,
    {
        State {
            version: StateVersion(0),
            update_version: UpdateVersion(0),
            action: Action::Stop,
            update_file: None,
            last_start_info: None,
            start_infos,
        }
    }

    /// Asks workers to run the named configuration.
    pub fn start(&mut self, start_info: String)
        requires
            old(self).action@ != ActionView::Start(start_info@) ==> old(self).version.0 < u32::MAX,
        ensures
            final(self).started_from(*old(self), start_info@),
            final(self).last_start_info == old(self).last_start_info,
            old(self).action@ == ActionView::Start(start_info@) ==> *final(self) == *old(self),
    {
        self.set_action(Action::Start(start_info));
    }

    /// Asks workers to stop.
    pub fn stop(&mut self)
        requires
            old(self).action@ != ActionView::Stop ==> old(self).version.0 < u32::MAX,
        ensures
            final(self).stopped_from(*old(self)),
            old(self).action@ == ActionView::Stop ==> *final(self) == *old(self),
    {
        self.set_action(Action::Stop);
    }

    /// Publishes a new update archive: both versions move on, the archive is
    /// remembered and workers are asked to update.
    pub fn update(&mut self, update_file: String)
        requires
            old(self).version.0 < u32::MAX,
            old(self).update_version.0 < u32::MAX,
        ensures
            final(self).updated_from(*old(self), update_file),
    {
        self.version.increment();
        self.update_version.increment();
        self.update_file = Some(update_file);
        self.action = Action::Update;
    }

    /// This state is `before` with the action set to start `name`: the
    /// version moves on exactly when the action changes.
    pub open spec fn started_from(self, before: State, name: Seq<char>) -> bool {
        &&& self.action@ == ActionView::Start(name)
        &&& self.version.0 == if before.action@ == ActionView::Start(name) {
            before.version.0 as int
        } else {
            before.version.0 + 1
        }
        &&& self.update_version == before.update_version
        &&& self.update_file == before.update_file
        &&& self.start_infos == before.start_infos
    }

    /// This state is `before` with the action set to stop: the version moves
    /// on exactly when the action changes.
    pub open spec fn stopped_from(self, before: State) -> bool {
        &&& self.action@ == ActionView::Stop
        &&& self.version.0 == if before.action@ == ActionView::Stop {
            before.version.0 as int
        } else {
            before.version.0 + 1
        }
        &&& self.unchanged_besides_action(before)
    }

    /// This state is `before` after publishing the update archive `file`:
    /// both versions move on and workers are asked to update.
    pub open spec fn updated_from(self, before: State, file: String) -> bool {
        &&& self.version.0 == before.version.0 + 1
        &&& self.update_version.0 == before.update_version.0 + 1
        &&& self.update_file == Some(file)
        &&& self.action@ == ActionView::Update
        &&& self.last_start_info == before.last_start_info
        &&& self.start_infos == before.start_infos
    }

    /// Everything but the action and its version is as in `before`.
    pub open spec fn unchanged_besides_action(self, before: State) -> bool {
        &&& self.update_version == before.update_version
        &&& self.update_file == before.update_file
        &&& self.last_start_info == before.last_start_info
        &&& self.start_infos == before.start_infos
    }

    /// Whether the state can be published: a start must name a known
    /// configuration.
    pub open spec fn publishable(self) -> bool {
        match self.action@ {
            ActionView::Start(name) => self.start_infos@.dom().contains(name),
            _ => true,
        }
    }

    /// What workers are told: both versions, and the action with a start
    /// resolved to its launch configuration.
    pub open spec fn published(self) -> WorkerInfoView {
        WorkerInfoView {
            version: self.version.0,
            update_version: self.update_version.0,
            action: match self.action@ {
                ActionView::Update => WorkerActionView::Update,
                ActionView::Start(name) => WorkerActionView::Start(self.start_infos@[name]),
                ActionView::Stop => WorkerActionView::Stop,
            },
        }
    }

    /// The state as workers receive it.
    pub fn worker_info(&self) -> (info: WorkerInfo)
        requires
            self.publishable(),
        ensures
            info@ == self.published(),
    {
        let action = match &self.action {
            Action::Update => WorkerAction::Update,
            Action::Start(name) => {
                match self.start_infos.get(name.as_str()) {
                    Some(start_info) => WorkerAction::Start(start_info.clone()),
                    None => WorkerAction::Stop,
                }
            },
            Action::Stop => WorkerAction::Stop,
        };
        WorkerInfo::new(self.version, self.update_version, action)
    }

    fn set_action(&mut self, action: Action)
        requires
            old(self).action@ != action@ ==> old(self).version.0 < u32::MAX,
        ensures
            final(self).action@ == action@,
            final(self).version.0 == if old(self).action@ == action@ {
                old(self).version.0 as int
            } else {
                old(self).version.0 + 1
            },
            final(self).unchanged_besides_action(*old(self)),
            old(self).action@ == action@ ==> *final(self) == *old(self),
    {
        if self.action != action {
            self.version.increment();
            self.action = action;
        }
    }
}

} // verus!
