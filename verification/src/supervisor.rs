//! Running the engine as a process of the application.

use crate::config::AppConfig;
use crate::error::EngineError;
use crate::locate::engine_root_dir;
#[allow(unused_imports)]
use crate::locate;
use crate::path::{borrowed, join_plain, parent_of, path_from};
#[allow(unused_imports)]
use crate::path;
use crate::render::render_config_in;
#[allow(unused_imports)]
use crate::render;
#[allow(unused_imports)]
use crate::yaml;
use std::path::{Path, PathBuf};
use vstd::prelude::*;

verus! {

/// The name of the engine's configuration file.
pub const ENGINE_CONFIG_FILE_NAME: &'static str = "config.yaml";

/// The option of the engine's program that names its configuration file.
pub const ENGINE_CONFIG_OPTION: &'static str = "-config";

/// How long to wait between two attempts to reach a starting engine.
pub const PROBE_INTERVAL_MS: u64 = 250;

// ---------------------------------------------------------------------------
// The process
// ---------------------------------------------------------------------------

/// What the operating system says of a process.
#[derive(Clone, Copy, Debug, PartialEq, Eq)]
pub enum WaitOutcome {
    /// It has not exited.
    Running,
    /// It has exited.
    Exited,
    /// The operating system cannot tell.
    Unknown,
}

/// Keeps track of whether there is an engine process to look after.
pub struct EngineSupervisor {
    has_child: bool,
}

impl View for EngineSupervisor {
    type V = bool;

    closed spec fn view(&self) -> bool {
        self.has_child
    }
}

impl Default for EngineSupervisor {
    fn default() -> (res: EngineSupervisor)
        ensures
            !res@,
    {
        EngineSupervisor { has_child: false }
    }
}

impl EngineSupervisor {
    /// Whether there is a process to look after.
    pub fn has_child(&self) -> (res: bool)
        ensures
            res == self@,
    {
        self.has_child
    }

    /// Whether the engine runs, given what the operating system says of the
    /// process, if there is one. A process that does not run is let go.
    pub fn is_running(&mut self, outcome: WaitOutcome) -> (res: bool)
        ensures
            res == (old(self)@ && outcome is Running),
            final(self)@ == res,
    {
        let running = match outcome {
            WaitOutcome::Running => self.has_child,
            _ => false,
        };
        self.has_child = running;
        running
    }

    /// Takes on a process that was started.
    pub fn adopt(&mut self)
        ensures
            final(self)@,
    {
        self.has_child = true;
    }

    /// Lets the process go. The answer says whether there was one, which is
    /// then to be killed and waited for.
    pub fn stop(&mut self) -> (res: bool)
        ensures
            res == old(self)@,
            !final(self)@,
    {
        let had_child = self.has_child;
        self.has_child = false;
        had_child
    }
}

// ---------------------------------------------------------------------------
// Starting it
// ---------------------------------------------------------------------------

/// What is needed to start the engine.
pub struct LaunchPlan {
    /// The program.
    pub binary: PathBuf,
    /// The directory to create.
    pub engine_dir: PathBuf,
    /// The file to write, and to name to the program.
    pub config_path: PathBuf,
    /// What to write to it.
    pub config_text: String,
    /// The directory to run the program in.
    pub working_dir: PathBuf,
}

/// What a request to start the engine comes to.
pub enum StartDecision {
    /// There is nothing to do.
    AlreadyRunning,
    /// The engine is to be started like this.
    Launch(LaunchPlan),
}

/// Whether a plan starts `binary` for an application with the given data
/// directory and settings, in the directory of the program, or in the current
/// one where the program's path names none.
pub open spec fn is_launch_plan(
    plan: LaunchPlan,
    binary: PathBuf,
    app_data_dir: &Path,
    config: AppConfig,
) -> bool {
    &&& plan.binary == binary
    &&& path::is_join(app_data_dir, locate::ENGINE_DATA_DIR_NAME@, plan.engine_dir)
    &&& is_config_path(plan.engine_dir, plan.config_path)
    &&& render::is_config_in(plan.engine_dir, config, plan.config_text@)
    &&& path::is_plain_dir(path::path_text(app_data_dir)) ==> plan.config_text@
        == render::config_text(
        render::slashed_engine_dirs(path::path_text(app_data_dir)),
        render::config_values(config),
    )
    &&& is_run_dir(binary, plan.working_dir)
}

/// Whether `file` is where the configuration file of an engine in `engine_dir`
/// stands.
pub open spec fn is_config_path(engine_dir: PathBuf, file: PathBuf) -> bool {
    exists|at: &Path| #[trigger]
        path::is_borrow(engine_dir, at) && path::is_join(at, ENGINE_CONFIG_FILE_NAME@, file)
}

/// Whether `dir` is where a program runs: in what the platform takes for its
/// parent.
pub open spec fn is_run_dir(binary: PathBuf, dir: PathBuf) -> bool {
    exists|program: &Path, parent: Option<PathBuf>|
        {
            &&& path::is_borrow(binary, program)
            &&& #[trigger] path::is_parent_dir(program, parent)
            &&& is_working_dir(parent, dir)
        }
}

/// Whether `dir` is the parent directory, or the current one where there is no
/// parent.
pub open spec fn is_working_dir(parent: Option<PathBuf>, dir: PathBuf) -> bool {
    match parent {
        Some(path) => dir == path,
        None => path::path_buf_text(dir) == "."@,
    }
}

/// The parent directory, or the current one where there is no parent.
pub fn working_dir_in(parent: Option<PathBuf>) -> (res: PathBuf)
    ensures
        is_working_dir(parent, res),
{
    match parent {
        Some(dir) => dir,
        None => path_from("."),
    }
}

/// Where the configuration file of an engine stands.
fn config_path_in(engine_dir: &PathBuf) -> (res: PathBuf)
    ensures
        is_config_path(*engine_dir, res),
{
    proof {
        reveal_strlit("config.yaml");
        assert(path::has_plain_chars("config.yaml"@));
        assert("config.yaml"@.len() > 2);
    }
    let at = borrowed(engine_dir);
    let config_path = join_plain(at, ENGINE_CONFIG_FILE_NAME);
    assert(path::is_borrow(*engine_dir, at));
    config_path
}

/// Where a program runs.
fn run_dir_of(binary: &PathBuf) -> (res: PathBuf)
    ensures
        is_run_dir(*binary, res),
{
    let program = borrowed(binary);
    let parent = parent_of(program);
    let ghost known = parent;
    let dir = working_dir_in(parent);
    assert(path::is_parent_dir(program, known));
    dir
}

/// What a request to start the engine comes to, given whether it runs, and its
/// program, if there is one.
pub fn plan_start(
    running: bool,
    binary: Option<PathBuf>,
    app_data_dir: &Path,
    config: &AppConfig,
) -> (res: Result<StartDecision, EngineError>)
    ensures
        match res {
            Ok(StartDecision::AlreadyRunning) => running,
            Ok(StartDecision::Launch(plan)) => !running && binary is Some && is_launch_plan(
                plan,
                binary->0,
                app_data_dir,
                *config,
            ),
            Err(error) => !running && binary is None && error == EngineError::MissingBinary,
        },
{
    if running {
        return Ok(StartDecision::AlreadyRunning);
    }
    match binary {
        None => Err(EngineError::MissingBinary),
        Some(binary) => {
            let engine_dir = engine_root_dir(app_data_dir);
            let config_path = config_path_in(&engine_dir);
            let config_text = render_config_in(&engine_dir, config);
            let working_dir = run_dir_of(&binary);
            proof {
                if path::is_plain_dir(path::path_text(app_data_dir)) {
                    render::law_config_below_plain_dir(
                        app_data_dir,
                        engine_dir,
                        *config,
                        config_text@,
                    );
                }
            }
            Ok(
                StartDecision::Launch(
                    LaunchPlan { binary, engine_dir, config_path, config_text, working_dir },
                ),
            )
        },
    }
}

/// The engine runs in the directory of its program.
pub proof fn law_engine_runs_in_its_directory(
    plan: LaunchPlan,
    binary: PathBuf,
    app_data_dir: &Path,
    config: AppConfig,
    base: Seq<char>,
    name: Seq<char>,
)
    requires
        is_launch_plan(plan, binary, app_data_dir, config),
        path::is_entry(path::path_buf_text(binary), base, name),
    ensures
        path::path_buf_text(plan.working_dir) == base,
{
}

// ---------------------------------------------------------------------------
// Waiting for it
// ---------------------------------------------------------------------------

/// What an attempt to reach a starting engine comes to.
pub enum ProbeVerdict {
    /// The wait is over.
    Finished(Result<(), EngineError>),
    /// The engine is to be tried again after this many milliseconds.
    RetryAfterMs(u64),
}

/// What an attempt to reach a starting engine comes to, given whether the
/// engine answered and the nanoseconds since the wait began. An answer ends the
/// wait, however late it comes; time is up once the whole time has passed.
pub open spec fn probe_verdict(timeout_s: u64, answered: bool, elapsed_ns: nat) -> ProbeVerdict {
    if answered {
        ProbeVerdict::Finished(Ok(()))
    } else if elapsed_ns >= timeout_s * 1_000_000_000 {
        ProbeVerdict::Finished(Err(EngineError::StartupTimeout))
    } else {
        ProbeVerdict::RetryAfterMs(PROBE_INTERVAL_MS)
    }
}

/// What an attempt to reach a starting engine comes to.
pub fn after_probe(timeout_s: u64, answered: bool, elapsed_ns: u128) -> (res: ProbeVerdict)
    ensures
        res == probe_verdict(timeout_s, answered, elapsed_ns as nat),
{
    if answered {
        ProbeVerdict::Finished(Ok(()))
    } else if elapsed_ns >= timeout_s as u128 * 1_000_000_000 {
        ProbeVerdict::Finished(Err(EngineError::StartupTimeout))
    } else {
        ProbeVerdict::RetryAfterMs(PROBE_INTERVAL_MS)
    }
}

/// One attempt to reach a starting engine: whether it answered, and the
/// nanoseconds since the wait began.
pub struct Probe {
    pub answered: bool,
    pub elapsed_ns: nat,
}

/// What a wait comes to after the given attempts, if it is over by then.
pub open spec fn wait_result(timeout_s: u64, probes: Seq<Probe>) -> Option<Result<(), EngineError>>
    decreases probes.len(),
{
    if probes.len() == 0 {
        None
    } else {
        match probe_verdict(timeout_s, probes.first().answered, probes.first().elapsed_ns) {
            ProbeVerdict::Finished(result) => Some(result),
            ProbeVerdict::RetryAfterMs(_) => wait_result(timeout_s, probes.drop_first()),
        }
    }
}

/// Whether an attempt leaves the wait going on.
pub open spec fn goes_on(timeout_s: u64, probe: Probe) -> bool {
    !probe.answered && probe.elapsed_ns < timeout_s * 1_000_000_000
}

/// A wait ends with the first attempt that is answered or comes when the time
/// is up, and no later: it succeeds exactly if that attempt is answered, it
/// fails only with a timeout, and even with no time at all one attempt is made.
pub proof fn law_wait_ends_with_first_decisive_probe(timeout_s: u64, probes: Seq<Probe>)
    ensures
        match wait_result(timeout_s, probes) {
            None => forall|i: int|
                0 <= i < probes.len() ==> goes_on(timeout_s, #[trigger] probes[i]),
            Some(result) => exists|i: int|
                {
                    &&& 0 <= i < probes.len()
                    &&& !goes_on(timeout_s, #[trigger] probes[i])
                    &&& forall|j: int| 0 <= j < i ==> goes_on(timeout_s, #[trigger] probes[j])
                    &&& probes[i].answered ==> result == Ok::<(), EngineError>(())
                    &&& !probes[i].answered ==> result == Err::<(), EngineError>(
                        EngineError::StartupTimeout,
                    )
                },
        },
    decreases probes.len(),
{
    if probes.len() > 0 {
        let rest = probes.drop_first();
        if goes_on(timeout_s, probes[0]) {
            law_wait_ends_with_first_decisive_probe(timeout_s, rest);
            if wait_result(timeout_s, rest) is None {
                assert forall|i: int| 0 <= i < probes.len() implies goes_on(
                    timeout_s,
                    #[trigger] probes[i],
                ) by {
                    if i > 0 {
                        assert(rest[i - 1] == probes[i]);
                    }
                }
            } else {
                let i = choose|i: int|
                    {
                        &&& 0 <= i < rest.len()
                        &&& !goes_on(timeout_s, #[trigger] rest[i])
                        &&& forall|j: int| 0 <= j < i ==> goes_on(timeout_s, #[trigger] rest[j])
                    };
                assert(probes[i + 1] == rest[i]);
                assert forall|j: int| 0 <= j < i + 1 implies goes_on(
                    timeout_s,
                    #[trigger] probes[j],
                ) by {
                    if j > 0 {
                        assert(rest[j - 1] == probes[j]);
                    }
                }
            }
        } else {
            assert(!goes_on(timeout_s, probes[0]));
        }
    }
}

/// An answer ends the wait however late it comes. Without one the wait goes on,
/// for a quarter of a second each time, as long as less than the whole time has
/// passed, and fails with a timeout from then on.
pub proof fn law_wait_lasts_the_whole_time(timeout_s: u64, elapsed_ns: nat)
    ensures
        probe_verdict(timeout_s, true, elapsed_ns) == ProbeVerdict::Finished(Ok(())),
        elapsed_ns < timeout_s * 1_000_000_000 ==> probe_verdict(timeout_s, false, elapsed_ns)
            == ProbeVerdict::RetryAfterMs(250),
        elapsed_ns >= timeout_s * 1_000_000_000 ==> probe_verdict(timeout_s, false, elapsed_ns)
            == ProbeVerdict::Finished(Err(EngineError::StartupTimeout)),
{
}

/// A plan starts the program it was given. Below a plain data directory it
/// writes `rag-engine/config.yaml`, told with slashes, in the directory
/// `rag-engine`. A program whose path has a parent runs in that parent, and one
/// whose path has none runs in the current directory.
pub proof fn law_plan_names_its_places(
    plan: LaunchPlan,
    binary: PathBuf,
    app_data_dir: &Path,
    config: AppConfig,
)
    requires
        is_launch_plan(plan, binary, app_data_dir, config),
    ensures
        plan.binary == binary,
        path::is_plain_dir(path::path_text(app_data_dir)) ==> {
            let base = yaml::slashed(path::path_text(app_data_dir));
            &&& yaml::slashed(path::path_buf_text(plan.engine_dir)) == base + "/rag-engine"@
            &&& yaml::slashed(path::path_buf_text(plan.config_path)) == base
                + "/rag-engine/config.yaml"@
        },
        exists|program: &Path, parent: Option<PathBuf>|
            {
                &&& path::path_text(program) == path::path_buf_text(binary)
                &&& #[trigger] path::is_parent_answer(program, parent)
                &&& match parent {
                    Some(dir) => plan.working_dir == dir,
                    None => path::path_buf_text(plan.working_dir) == seq!['.'],
                }
            },
{
    let (program, parent) = choose|program: &Path, parent: Option<PathBuf>|
        {
            &&& path::is_borrow(binary, program)
            &&& #[trigger] path::is_parent_dir(program, parent)
            &&& is_working_dir(parent, plan.working_dir)
        };
    assert(path::is_parent_answer(program, parent));
    assert("."@ =~= seq!['.']) by {
        reveal_strlit(".");
    }
    if path::is_plain_dir(path::path_text(app_data_dir)) {
        let root = path::path_text(app_data_dir);
        let base = yaml::slashed(root);
        let dir = path::path_buf_text(plan.engine_dir);
        let file = path::path_buf_text(plan.config_path);
        assert(path::is_plain_name("rag-engine"@)) by {
            reveal_strlit("rag-engine");
            assert(path::has_plain_chars("rag-engine"@) && "rag-engine"@.len() > 2);
        }
        assert(path::is_plain_name("config.yaml"@)) by {
            reveal_strlit("config.yaml");
            assert(path::has_plain_chars("config.yaml"@) && "config.yaml"@.len() > 2);
        }
        path::law_text_joined_to_plain_dir(root, "rag-engine"@, dir);
        path::law_text_joined_to_plain_dir(dir, "config.yaml"@, file);
        assert(seq!['/'] + "rag-engine"@ =~= "/rag-engine"@) by {
            reveal_strlit("rag-engine");
            reveal_strlit("/rag-engine");
        }
        assert("/rag-engine"@ + seq!['/'] + "config.yaml"@ =~= "/rag-engine/config.yaml"@) by {
            reveal_strlit("/rag-engine");
            reveal_strlit("config.yaml");
            reveal_strlit("/rag-engine/config.yaml");
        }
        assert(yaml::slashed(dir) =~= base + "/rag-engine"@);
        assert(yaml::slashed(file) =~= base + ("/rag-engine"@ + seq!['/'] + "config.yaml"@));
    }
}

/// The library decides on a start like this: nothing is done for an engine that
/// runs, an engine without a program is refused as missing, and every other one
/// is started with the program that was found. It waits as long as it is told.
pub proof fn law_starts_are_decided_like_this(
    running: bool,
    binary: Option<PathBuf>,
    app_data_dir: &Path,
    config: AppConfig,
    start: Result<StartDecision, EngineError>,
    timeout_s: u64,
    answered: bool,
    elapsed_ns: u128,
    verdict: ProbeVerdict,
)
    requires
        call_ensures(plan_start, (running, binary, app_data_dir, &config), start),
        call_ensures(after_probe, (timeout_s, answered, elapsed_ns), verdict),
    ensures
        running <==> start == Ok::<StartDecision, EngineError>(StartDecision::AlreadyRunning),
        !running && binary is None <==> start == Err::<StartDecision, EngineError>(
            EngineError::MissingBinary,
        ),
        !running && binary is Some ==> match start {
            Ok(StartDecision::Launch(plan)) => plan.binary == binary->0 && is_launch_plan(
                plan,
                binary->0,
                app_data_dir,
                config,
            ),
            _ => false,
        },
        answered ==> verdict == ProbeVerdict::Finished(Ok(())),
        !answered && elapsed_ns >= timeout_s * 1_000_000_000 ==> verdict == ProbeVerdict::Finished(
            Err(EngineError::StartupTimeout),
        ),
        !answered && elapsed_ns < timeout_s * 1_000_000_000 ==> verdict
            == ProbeVerdict::RetryAfterMs(250),
{
}

} // verus!
