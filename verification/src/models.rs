//! Values exchanged between the master and its workers.
use vstd::prelude::*;

verus! {

/// The decimal text of a natural number, most significant digit first.
pub open spec fn decimal(n: nat) -> Seq<char>
    decreases n,
{
    if n < 10 {
        seq![digit_char(n)]
    } else {
        decimal(n / 10).push(digit_char(n % 10))
    }
}

/// The ASCII digit for a value below ten.
pub open spec fn digit_char(d: nat) -> char {
    ('0' as nat + d) as char
}

/// Decimal rendering of an unsigned integer, as `Display` for `u32` writes it.
#[verifier::external_body]
fn u32_decimal(n: u32) -> (text: String)
    ensures
        text@ == decimal(n as nat),
{
    n.to_string()
}

/// Version of the update archive that workers should be running.
#[derive(Debug, Clone, Copy, PartialEq, Eq, PartialOrd, Structural)]
pub struct UpdateVersion(pub u32);

impl UpdateVersion {
    /// Moves to the next version.
    pub fn increment(&mut self)
        requires
            old(self).0 < u32::MAX,
        ensures
            final(self).0 == old(self).0 + 1,
    {
        self.0 = self.0 + 1;
    }

    /// The version that follows this one.
    pub fn next(&self) -> (r: Self)
        requires
            self.0 < u32::MAX,
        ensures
            r.0 == self.0 + 1,
    {
        UpdateVersion(self.0 + 1)
    }

    /// The version number in decimal, as the type displays itself.
    pub fn to_string(&self) -> (text: String)
        ensures
            text@ == decimal(self.0 as nat),
    {
        u32_decimal(self.0)
    }
}

impl Default for UpdateVersion {
    fn default() -> (r: Self)
        ensures
            r.0 == 0,
    {
        UpdateVersion(0)
    }
}

/// Version of the master's published state; it grows whenever what a worker
/// should do changes.
#[derive(Debug, Clone, Copy, PartialEq, Eq, PartialOrd, Structural)]
pub struct StateVersion(pub u32);

impl StateVersion {
    /// Moves to the next version.
    pub fn increment(&mut self)
        requires
            old(self).0 < u32::MAX,
        ensures
            final(self).0 == old(self).0 + 1,
    {
        self.0 = self.0 + 1;
    }
}

impl Default for StateVersion {
    fn default() -> (r: Self)
        ensures
            r.0 == 0,
    {
        StateVersion(0)
    }
}

/// What `StartInfo` means: the command, its directory and its arguments as text.
pub struct StartInfoView {
    pub command: Seq<char>,
    pub current_dir: Seq<char>,
    pub args: Seq<Seq<char>>,
}

/// How to launch the bot process.
#[derive(Debug)]
pub struct StartInfo {
    pub command: String,
    pub current_dir: String,
    pub args: Vec<String>,
}

impl View for StartInfo {
    type V = StartInfoView;

    open spec fn view(&self) -> StartInfoView {
        StartInfoView {
            command: self.command@,
            current_dir: self.current_dir@,
            args: self.args.deep_view(),
        }
    }
}

impl Clone for StartInfo {
    fn clone(&self) -> (r: Self)
        ensures
            r@ == self@,
    {
        let args = self.args.clone();
        proof {
            assert(args.deep_view() =~= self.args.deep_view());
        }
        StartInfo { command: self.command.clone(), current_dir: self.current_dir.clone(), args }
    }
}

impl Default for StartInfo {
    fn default() -> (r: Self)
        ensures
            r@.command.len() == 0,
            r@.current_dir.len() == 0,
            r@.args.len() == 0,
    {
        StartInfo { command: String::new(), current_dir: String::new(), args: Vec::new() }
    }
}

/// What a `WorkerAction` means.
pub enum WorkerActionView {
    Start(StartInfoView),
    Stop,
    Update,
}

/// What the master asks its workers to do.
#[derive(Debug)]
pub enum WorkerAction {
    Start(StartInfo),
    Stop,
    Update,
}

impl View for WorkerAction {
    type V = WorkerActionView;

    open spec fn view(&self) -> WorkerActionView {
        match self {
            WorkerAction::Start(info) => WorkerActionView::Start(info@),
            WorkerAction::Stop => WorkerActionView::Stop,
            WorkerAction::Update => WorkerActionView::Update,
        }
    }
}

impl Clone for WorkerAction {
    fn clone(&self) -> (r: Self)
        ensures
            r@ == self@,
    {
        match self {
            WorkerAction::Start(info) => WorkerAction::Start(info.clone()),
            WorkerAction::Stop => WorkerAction::Stop,
            WorkerAction::Update => WorkerAction::Update,
        }
    }
}

/// What a `WorkerInfo` means: both versions as numbers, and the action.
pub struct WorkerInfoView {
    pub version: u32,
    pub update_version: u32,
    pub action: WorkerActionView,
}

/// The state the master publishes to workers.
#[derive(Debug)]
pub struct WorkerInfo {
    pub version: StateVersion,
    pub update_version: UpdateVersion,
    pub action: WorkerAction,
}

impl View for WorkerInfo {
    type V = WorkerInfoView;

    open spec fn view(&self) -> WorkerInfoView {
        WorkerInfoView {
            version: self.version.0,
            update_version: self.update_version.0,
            action: self.action@,
        }
    }
}

impl WorkerInfo {
    pub fn new(version: StateVersion, update_version: UpdateVersion, action: WorkerAction) -> (r:
        Self)
        ensures
            r.version == version,
            r.update_version == update_version,
            r.action@ == action@,
    {
        WorkerInfo { version, update_version, action }
    }
}

impl Clone for WorkerInfo {
    fn clone(&self) -> (r: Self)
        ensures
            r@ == self@,
    {
        WorkerInfo { version: self.version, update_version: self.update_version, action: self.action.clone() }
    }
}

impl Default for WorkerInfo {
    /// The state a worker assumes before it has heard from the master:
    /// both versions zero and nothing to run.
    fn default() -> (r: Self)
        ensures
            r@ == (WorkerInfoView { version: 0, update_version: 0, action: WorkerActionView::Stop }),
    {
        WorkerInfo {
            version: StateVersion(0),
            update_version: UpdateVersion(0),
            action: WorkerAction::Stop,
        }
    }
}

} // verus!
