//! The worker's decisions: which commands a published state calls for, and
//! what to do for each command.
use vstd::prelude::*;
use vstd::utf8::{
    encode_scalar, encode_utf8, has_width_1_encoding, has_width_2_encoding, has_width_3_encoding,
    is_char_boundary, is_scalar,
};
use vstd::string::StringSliceAdditionalSpecFns;
use crate::models::{
    StartInfo, StartInfoView, UpdateVersion, WorkerAction, WorkerActionView, WorkerInfo,
    WorkerInfoView,
};

verus! {

/// What a `WorkerCommand` means.
pub enum WorkerCommandView {
    Stop,
    Start(StartInfoView),
    Update(u32),
    Quit,
}

/// Work handed from the status poller to the process supervisor.
#[derive(Debug)]
pub enum WorkerCommand {
    Stop,
    Start(StartInfo),
    Update(UpdateVersion),
    Quit,
}

impl View for WorkerCommand {
    type V = WorkerCommandView;

    open spec fn view(&self) -> WorkerCommandView {
        match self {
            WorkerCommand::Stop => WorkerCommandView::Stop,
            WorkerCommand::Start(info) => WorkerCommandView::Start(info@),
            WorkerCommand::Update(v) => WorkerCommandView::Update(v.0),
            WorkerCommand::Quit => WorkerCommandView::Quit,
        }
    }
}

/// The meaning of a list of commands, in order.
pub open spec fn commands_view(commands: Seq<WorkerCommand>) -> Seq<WorkerCommandView> {
    commands.map_values(|c: WorkerCommand| c@)
}

/// The commands a worker issues on seeing `status` after `prev`: nothing
/// unless the state version grew; otherwise stop what runs, fetch the update
/// if the update version grew, and start the configuration if one is asked
/// for.
pub open spec fn status_commands(prev: WorkerInfoView, status: WorkerInfoView) -> Seq<
    WorkerCommandView,
> {
    if status.version > prev.version {
        seq![WorkerCommandView::Stop] + (if status.update_version > prev.update_version {
            seq![WorkerCommandView::Update(status.update_version)]
        } else {
            seq![]
        }) + match status.action {
            WorkerActionView::Start(info) => seq![WorkerCommandView::Start(info)],
            _ => seq![],
        }
    } else {
        seq![]
    }
}

/// The commands a newly published `status` calls for, given the state the
/// worker saw before.
pub fn commands_for_status(prev: &WorkerInfo, status: &WorkerInfo) -> (commands: Vec<WorkerCommand>)
    ensures
        commands_view(commands@) == status_commands(prev@, status@),
{
    let mut commands: Vec<WorkerCommand> = Vec::new();
    if status.version.0 > prev.version.0 {
        commands.push(WorkerCommand::Stop);
        if status.update_version.0 > prev.update_version.0 {
            commands.push(WorkerCommand::Update(status.update_version));
        }
        match &status.action {
            WorkerAction::Start(start_info) => {
                commands.push(WorkerCommand::Start(start_info.clone()));
            },
            WorkerAction::Stop => {},
            WorkerAction::Update => {},
        }
    }
    assert(commands_view(commands@) =~= status_commands(prev@, status@));
    commands
}

/// Remembers the last state the worker heard from the master.
pub struct StatusTracker {
    pub last_seen: WorkerInfo,
}

impl StatusTracker {
    /// A tracker that has heard nothing yet: it assumes the default state.
    pub fn new() -> (r: Self)
        ensures
            r.last_seen@ == (WorkerInfoView {
                version: 0,
                update_version: 0,
                action: WorkerActionView::Stop,
            }),
    {
        StatusTracker { last_seen: WorkerInfo::default() }
    }

    /// Takes in a freshly fetched state: returns the commands it calls for and
    /// remembers it.
    pub fn observe(&mut self, status: WorkerInfo) -> (commands: Vec<WorkerCommand>)
        ensures
            commands_view(commands@) == status_commands(old(self).last_seen@, status@),
            final(self).last_seen@ == status@,
    {
        let commands = commands_for_status(&self.last_seen, &status);
        self.last_seen = status;
        commands
    }
}

/// Whether the bytes begin with `./`.
pub open spec fn starts_with_dot_slash(bytes: Seq<u8>) -> bool {
    bytes.len() >= 2 && bytes[0] == 0x2e && bytes[1] == 0x2f
}

/// Whether a command can be resolved: its first two bytes, and unless they
/// are `./` its first three bytes, end on character boundaries.
pub open spec fn command_resolvable(command: Seq<u8>) -> bool {
    &&& is_char_boundary(command, 2)
    &&& (starts_with_dot_slash(command) || is_char_boundary(command, 3))
}

/// Tests `command_resolvable` on a command.
pub fn is_resolvable(command: &str) -> (b: bool)
    ensures
        b == command_resolvable(command.spec_bytes()),
{
    if !command.is_char_boundary(2) {
        return false;
    }
    let bytes = command.as_bytes();
    proof {
        vstd::utf8::encode_utf8_valid_utf8(command@);
        assert(bytes@.len() >= 2);
    }
    if bytes[0] == 0x2e && bytes[1] == 0x2f {
        true
    } else {
        command.is_char_boundary(3)
    }
}

/// Where the program of a launch is found.
pub enum ProgramPath {
    /// A file of this name inside the working directory.
    InWorkDir(String),
    /// The command as given.
    AsGiven(String),
}

/// How to launch a configuration: the working directory is the data
/// directory, extended by `work_subdir` where there is one.
pub struct LaunchPlan {
    pub work_subdir: Option<String>,
    pub program: ProgramPath,
    pub args: Vec<String>,
}

/// The program of a command: one that begins with `./` is a file in the
/// working directory, named by the rest of the command; any other is taken
/// as given.
pub open spec fn program_of(command: Seq<char>) -> (bool, Seq<char>) {
    if command.len() >= 2 && command[0] == '.' && command[1] == '/' {
        (true, command.skip(2))
    } else {
        (false, command)
    }
}

/// The first byte of a scalar's encoding is an ASCII byte `t` exactly when
/// the scalar is `t` itself.
proof fn lemma_leading_byte_ascii(s: u32, t: u8)
    requires
        is_scalar(s),
        t < 0x80,
    ensures
        encode_scalar(s).len() >= 1,
        encode_scalar(s)[0] == t <==> s == t as u32,
        s == t as u32 ==> encode_scalar(s) == seq![t],
{
    if has_width_1_encoding(s) {
        assert(((s & 0x7F) as u8 == t) <==> s == t as u32) by (bit_vector)
            requires
                s <= 0x7F,
                t < 0x80,
        ;
    } else if has_width_2_encoding(s) {
        let y = ((s >> 6) & 0x1F) as u8;
        assert((0xC0u8 | y) >= 0xC0u8) by (bit_vector);
    } else if has_width_3_encoding(s) {
        let y = ((s >> 12) & 0x0F) as u8;
        assert((0xE0u8 | y) >= 0xE0u8) by (bit_vector);
    } else {
        let y = ((s >> 18) & 0x7) as u8;
        assert((0xF0u8 | y) >= 0xF0u8) by (bit_vector);
    }
}

/// A command's bytes begin with `./` exactly when its characters do; the
/// rest of the bytes then encode the rest of the characters.
proof fn lemma_dot_slash_prefix(command: Seq<char>)
    ensures
        starts_with_dot_slash(encode_utf8(command)) <==> (command.len() >= 2 && command[0] == '.'
            && command[1] == '/'),
        starts_with_dot_slash(encode_utf8(command)) ==> encode_utf8(command).subrange(
            2,
            encode_utf8(command).len() as int,
        ) == encode_utf8(command.skip(2)),
{
    let b = encode_utf8(command);
    if command.len() >= 1 {
        let c0 = command[0];
        let rest = command.drop_first();
        vstd::utf8::char_is_scalar(c0);
        lemma_leading_byte_ascii(c0 as u32, 0x2e);
        assert(b == encode_scalar(c0 as u32) + encode_utf8(rest));
        assert(b[0] == encode_scalar(c0 as u32)[0]);
        assert((c0 as u32 == 0x2e) <==> c0 == '.') by {
            if c0 as u32 == 0x2e {
                vstd::utf8::char_u32_cast(c0, 0x2e);
                vstd::utf8::char_u32_cast('.', 0x2e);
            }
        }
        if c0 == '.' && rest.len() >= 1 {
            let c1 = rest[0];
            let rest2 = rest.drop_first();
            vstd::utf8::char_is_scalar(c1);
            lemma_leading_byte_ascii(c1 as u32, 0x2f);
            assert(encode_utf8(rest) == encode_scalar(c1 as u32) + encode_utf8(rest2));
            assert(b[1] == encode_scalar(c1 as u32)[0]);
            assert((c1 as u32 == 0x2f) <==> c1 == '/') by {
                if c1 as u32 == 0x2f {
                    vstd::utf8::char_u32_cast(c1, 0x2f);
                    vstd::utf8::char_u32_cast('/', 0x2f);
                }
            }
            if c1 == '/' {
                assert(rest2 =~= command.skip(2));
                assert(b =~= seq![0x2eu8, 0x2fu8] + encode_utf8(rest2));
                assert(b.subrange(2, b.len() as int) =~= encode_utf8(rest2));
            }
        } else if c0 == '.' {
            assert(encode_utf8(rest) == Seq::<u8>::empty());
        }
    }
}

/// Whether `plan` launches `info`: its arguments, its working subdirectory
/// (the configured one, unless that is empty) and its program.
pub open spec fn plan_launches(plan: LaunchPlan, info: StartInfoView) -> bool {
    &&& plan.args.deep_view() == info.args
    &&& match plan.work_subdir {
        Some(dir) => info.current_dir.len() > 0 && dir@ == info.current_dir,
        None => info.current_dir.len() == 0,
    }
    &&& match plan.program {
        ProgramPath::InWorkDir(name) => program_of(info.command) == (true, name@),
        ProgramPath::AsGiven(name) => program_of(info.command) == (false, name@),
    }
}

/// How to launch `info`.
pub fn launch_plan(info: &StartInfo) -> (plan: LaunchPlan)
    requires
        command_resolvable(encode_utf8(info.command@)),
    ensures
        plan_launches(plan, info@),
{
    let command = info.command.as_str();
    let bytes = command.as_bytes();
    proof {
        lemma_dot_slash_prefix(info.command@);
        vstd::utf8::encode_utf8_valid_utf8(info.command@);
        assert(bytes@.len() >= 2);
    }
    let program = if bytes[0] == 0x2e && bytes[1] == 0x2f {
        let (_, rest) = command.split_at(2);
        let name = rest.to_owned();
        proof {
            vstd::utf8::encode_utf8_decode_utf8(name@);
            vstd::utf8::encode_utf8_decode_utf8(info.command@.skip(2));
        }
        ProgramPath::InWorkDir(name)
    } else {
        ProgramPath::AsGiven(info.command.clone())
    };
    let work_subdir = if !info.current_dir.as_str().is_empty() {
        Some(info.current_dir.clone())
    } else {
        None
    };
    let args = info.args.clone();
    proof {
        assert(args.deep_view() =~= info.args.deep_view());
    }
    LaunchPlan { work_subdir, program, args }
}

/// What the process supervisor does for one command.
pub enum ProcessStep {
    /// Leave the supervision loop.
    Exit,
    /// Launch a process, which then counts as the running one.
    Launch(LaunchPlan),
    /// Kill the running process and forget it.
    KillRunning,
    /// Nothing to do.
    Idle,
    /// Download and unpack this update, retrying until it succeeds.
    FetchUpdate(UpdateVersion),
}

/// The step for `command`, given whether a launched process is held.
pub fn process_step(child_running: bool, command: &WorkerCommand) -> (step: ProcessStep)
    requires
        command matches WorkerCommand::Start(info) ==> command_resolvable(
            encode_utf8(info.command@),
        ),
    ensures
        match command {
            WorkerCommand::Quit => step is Exit,
            WorkerCommand::Start(info) => step matches ProcessStep::Launch(plan) && plan_launches(
                plan,
                info@,
            ),
            WorkerCommand::Stop => if child_running {
                step is KillRunning
            } else {
                step is Idle
            },
            WorkerCommand::Update(version) => step matches ProcessStep::FetchUpdate(v) && v
                == version,
        },
{
    match command {
        WorkerCommand::Quit => ProcessStep::Exit,
        WorkerCommand::Start(info) => ProcessStep::Launch(launch_plan(info)),
        WorkerCommand::Stop => if child_running {
            ProcessStep::KillRunning
        } else {
            ProcessStep::Idle
        },
        WorkerCommand::Update(version) => ProcessStep::FetchUpdate(*version),
    }
}

/// A launch plan passes on every configured argument, in order: as many
/// arguments as configured, each with the configured text.
pub proof fn law_plan_carries_every_argument(plan: LaunchPlan, info: StartInfoView)
    requires
        plan_launches(plan, info),
    ensures
        plan.args.len() == info.args.len(),
        forall|i: int| 0 <= i < info.args.len() ==> #[trigger] plan.args@[i]@ == info.args[i],
{
    assert forall|i: int| 0 <= i < info.args.len() implies #[trigger] plan.args@[i]@ == info.args[i] by {
        assert(plan.args.deep_view()[i] == plan.args@[i].deep_view());
    }
}

/// A state with a newer version always calls for commands, however far the
/// version jumped: first a stop, and no second one; the update exactly when
/// the update version grew; and last the configuration the state names, if
/// it names one. Nothing else is issued.
pub proof fn law_newer_state_commands(prev: WorkerInfoView, status: WorkerInfoView)
    requires
        status.version > prev.version,
    ensures
        ({
            let cmds = status_commands(prev, status);
            &&& cmds.len() >= 1
            &&& cmds[0] == WorkerCommandView::Stop
            &&& forall|i: int| 1 <= i < cmds.len() ==> cmds[i] != WorkerCommandView::Stop
            &&& (exists|i: int| 0 <= i < cmds.len() && cmds[i] == WorkerCommandView::Update(
                status.update_version,
            )) <==> status.update_version > prev.update_version
            &&& forall|i: int|
                0 <= i < cmds.len() ==> (#[trigger] cmds[i] matches WorkerCommandView::Update(v)
                    ==> v == status.update_version)
            &&& (status.action matches WorkerActionView::Start(info) ==> cmds.last()
                == WorkerCommandView::Start(info))
            &&& (!(status.action is Start) ==> forall|i: int|
                0 <= i < cmds.len() ==> !(#[trigger] cmds[i] is Start))
            &&& cmds.len() == 1 + (if status.update_version > prev.update_version {
                1int
            } else {
                0
            }) + (if status.action is Start {
                1int
            } else {
                0
            })
        }),
{
    let cmds = status_commands(prev, status);
    if status.update_version > prev.update_version {
        assert(cmds[1] == WorkerCommandView::Update(status.update_version));
    }
}

/// A state whose version did not grow calls for nothing, whatever else
/// differs.
pub proof fn law_no_commands_without_newer_version(prev: WorkerInfoView, status: WorkerInfoView)
    requires
        status.version <= prev.version,
    ensures
        status_commands(prev, status).len() == 0,
{
}

/// Whether a launched process is held after a step: a launch that spawned
/// holds the new process, a launch that failed to spawn keeps what was held,
/// a kill holds none, and every other step keeps what was held.
pub open spec fn holds_process_after(child_running: bool, step: ProcessStep, spawned: bool) -> bool {
    match step {
        ProcessStep::Launch(_) => spawned || child_running,
        ProcessStep::KillRunning => false,
        _ => child_running,
    }
}

/// Whether a launched process is held after `step`, given whether one was
/// held before and, for a launch, whether the spawn succeeded.
pub fn running_after(child_running: bool, step: &ProcessStep, spawned: bool) -> (b: bool)
    ensures
        b == holds_process_after(child_running, *step, spawned),
{
    match step {
        ProcessStep::Launch(_) => spawned || child_running,
        ProcessStep::KillRunning => false,
        _ => child_running,
    }
}

} // verus!
