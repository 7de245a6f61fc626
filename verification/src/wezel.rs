use vstd::prelude::*;

verus! {

/// The access a workflow or job grants to the repository contents.
#[derive(Clone, Copy, Debug, PartialEq, Eq, Structural)]
pub enum Access {
    Read,
    Write,
}

/// The runner a job runs on: the repository's default macOS or Linux runner.
#[derive(Clone, Copy, Debug, PartialEq, Eq, Structural)]
pub enum Runner {
    MacDefault,
    LinuxDefault,
}

/// One step of a job.
#[derive(Debug, PartialEq, Eq)]
pub enum WorkflowStep {
    /// A named shell command.
    Run { name: &'static str, command: &'static str },
    /// The repository checkout at `git_ref`; its credentials are kept in the
    /// git config only when `persist_credentials`.
    Checkout { git_ref: &'static str, persist_credentials: bool },
    /// A named step that uses the action `owner/repo@version` with the inputs `with`.
    Uses {
        name: &'static str,
        owner: &'static str,
        repo: &'static str,
        version: &'static str,
        with: Vec<(&'static str, &'static str)>,
    },
    /// The repository's Rust dependency cache.
    CacheRustDependencies,
    /// Build with clang.
    UseClang,
    /// The system packages a Linux build needs.
    InstallLinuxDependencies,
    /// The WASI SDK.
    DownloadWasiSdk,
}

/// The model of a step, with texts as character sequences.
pub enum StepModel {
    Run { name: Seq<char>, command: Seq<char> },
    Checkout { git_ref: Seq<char>, persist_credentials: bool },
    Uses {
        name: Seq<char>,
        owner: Seq<char>,
        repo: Seq<char>,
        version: Seq<char>,
        with: Seq<(Seq<char>, Seq<char>)>,
    },
    CacheRustDependencies,
    UseClang,
    InstallLinuxDependencies,
    DownloadWasiSdk,
}

/// The texts of a list of key and value pairs.
pub open spec fn pairs_view(pairs: Seq<(&'static str, &'static str)>) -> Seq<(Seq<char>, Seq<char>)> {
    pairs.map_values(|p: (&'static str, &'static str)| (p.0@, p.1@))
}

impl View for WorkflowStep {
    type V = StepModel;

    open spec fn view(&self) -> StepModel {
        match *self {
            WorkflowStep::Run { name, command } => StepModel::Run { name: name@, command: command@ },
            WorkflowStep::Checkout { git_ref, persist_credentials } => StepModel::Checkout {
                git_ref: git_ref@,
                persist_credentials,
            },
            WorkflowStep::Uses { name, owner, repo, version, with } => StepModel::Uses {
                name: name@,
                owner: owner@,
                repo: repo@,
                version: version@,
                with: pairs_view(with@),
            },
            WorkflowStep::CacheRustDependencies => StepModel::CacheRustDependencies,
            WorkflowStep::UseClang => StepModel::UseClang,
            WorkflowStep::InstallLinuxDependencies => StepModel::InstallLinuxDependencies,
            WorkflowStep::DownloadWasiSdk => StepModel::DownloadWasiSdk,
        }
    }
}

/// A job: who may read the repository, where and how long it runs, when it
/// runs, its environment and its steps.
#[derive(Debug, PartialEq, Eq)]
pub struct JobPlan {
    pub contents: Access,
    pub runner: Runner,
    pub timeout_minutes: u32,
    pub condition: String,
    pub env: Vec<(&'static str, &'static str)>,
    pub steps: Vec<WorkflowStep>,
}

/// The model of a job.
pub struct JobModel {
    pub contents: Access,
    pub runner: Runner,
    pub timeout_minutes: u32,
    pub condition: Seq<char>,
    pub env: Seq<(Seq<char>, Seq<char>)>,
    pub steps: Seq<StepModel>,
}

impl View for JobPlan {
    type V = JobModel;

    open spec fn view(&self) -> JobModel {
        JobModel {
            contents: self.contents,
            runner: self.runner,
            timeout_minutes: self.timeout_minutes,
            condition: self.condition@,
            env: pairs_view(self.env@),
            steps: self.steps@.map_values(|step: WorkflowStep| step@),
        }
    }
}

/// The manually dispatched workflow: its string inputs, its access to the
/// repository, its concurrency group, and its jobs by id.
#[derive(Debug, PartialEq, Eq)]
pub struct WorkflowPlan {
    pub dispatch_inputs: Vec<&'static str>,
    pub contents: Access,
    pub concurrency_group: &'static str,
    pub cancel_in_progress: bool,
    pub jobs: Vec<(&'static str, JobPlan)>,
}

/// The steps of an assigned run on `platform`: check the assigned commit,
/// check it out without keeping credentials, check HEAD, restore the
/// dependency cache, prepare the platform (clang and system packages on
/// Linux, the WASI SDK on macOS), make zstd available, and run the pinned
/// Wezel action, the only step that gets the runner token.
pub open spec fn assigned_run_steps(platform: Seq<char>) -> Seq<StepModel> {
    let common = seq![
        StepModel::Run {
            name: "Validate assigned commit"@,
            command: "[[ \"$ASSIGNED_COMMIT\" =~ ^[0-9a-f]{40}$ ]]"@,
        },
        StepModel::Checkout { git_ref: "${{ inputs.commit_sha }}"@, persist_credentials: false },
        StepModel::Run {
            name: "Verify assigned checkout"@,
            command: "test \"$(git rev-parse HEAD)\" = \"$ASSIGNED_COMMIT\""@,
        },
        StepModel::CacheRustDependencies,
    ];
    let linux = if platform == "linux"@ {
        seq![StepModel::UseClang, StepModel::InstallLinuxDependencies]
    } else {
        Seq::empty()
    };
    let macos = if platform == "macos"@ {
        seq![StepModel::DownloadWasiSdk]
    } else {
        Seq::empty()
    };
    common + linux + macos + seq![
        StepModel::Run {
            name: "Ensure zstd is available"@,
            command: zstd_install_command_text(platform),
        },
        StepModel::Uses {
            name: "Run assigned Wezel experiment"@,
            owner: "wezel-build"@,
            repo: "gh-action"@,
            version: "384b808f1de753a22abfadfe932452d0166c316f"@,
            with: seq![
                ("wezel-version"@, "v0.1.5-pre-pre.20260916103109+5a021a6"@),
                ("token"@, "${{ secrets.WEZEL_RUNNER_TOKEN }}"@),
                ("run-id"@, "${{ inputs.run_id }}"@),
                ("experiment-name"@, "${{ inputs.experiment_name }}"@),
                ("project-dir"@, "${{ inputs.project_dir }}"@),
            ],
        },
    ]
}

/// The assigned run on `platform`, on `runner`: it reads the repository,
/// stops after an hour, runs only for the platform's experiment, and sees the
/// assigned commit and a local target directory in its environment.
pub open spec fn assigned_run_job(platform: Seq<char>, runner: Runner) -> JobModel {
    JobModel {
        contents: Access::Read,
        runner,
        timeout_minutes: 60,
        condition: assigned_run_condition_text(platform),
        env: seq![
            ("ASSIGNED_COMMIT"@, "${{ inputs.commit_sha }}"@),
            ("CARGO_TARGET_DIR"@, "target"@),
        ],
        steps: assigned_run_steps(platform),
    }
}

/// Whether `text` is `literal`.
fn text_is(text: &str, literal: &str) -> (b: bool)
    ensures
        b == (text@ == literal@),
{
    String::from_str(text) == String::from_str(literal)
}

/// The inputs of the final Wezel step.
fn wezel_action_inputs() -> (with: Vec<(&'static str, &'static str)>)
    ensures
        pairs_view(with@) == seq![
            ("wezel-version"@, "v0.1.5-pre-pre.20260916103109+5a021a6"@),
            ("token"@, "${{ secrets.WEZEL_RUNNER_TOKEN }}"@),
            ("run-id"@, "${{ inputs.run_id }}"@),
            ("experiment-name"@, "${{ inputs.experiment_name }}"@),
            ("project-dir"@, "${{ inputs.project_dir }}"@),
        ],
{
    let mut with: Vec<(&'static str, &'static str)> = Vec::new();
    with.push(("wezel-version", "v0.1.5-pre-pre.20260916103109+5a021a6"));
    with.push(("token", "${{ secrets.WEZEL_RUNNER_TOKEN }}"));
    with.push(("run-id", "${{ inputs.run_id }}"));
    with.push(("experiment-name", "${{ inputs.experiment_name }}"));
    with.push(("project-dir", "${{ inputs.project_dir }}"));
    assert(pairs_view(with@) =~= seq![
        ("wezel-version"@, "v0.1.5-pre-pre.20260916103109+5a021a6"@),
        ("token"@, "${{ secrets.WEZEL_RUNNER_TOKEN }}"@),
        ("run-id"@, "${{ inputs.run_id }}"@),
        ("experiment-name"@, "${{ inputs.experiment_name }}"@),
        ("project-dir"@, "${{ inputs.project_dir }}"@),
    ]);
    with
}

/// The steps of an assigned run on `platform`.
pub fn assigned_run_step_plan(platform: &str) -> (steps: Vec<WorkflowStep>)
    ensures
        steps@.map_values(|step: WorkflowStep| step@) == assigned_run_steps(platform@),
{
    let mut steps: Vec<WorkflowStep> = Vec::new();
    steps.push(
        WorkflowStep::Run {
            name: "Validate assigned commit",
            command: "[[ \"$ASSIGNED_COMMIT\" =~ ^[0-9a-f]{40}$ ]]",
        },
    );
    steps.push(
        WorkflowStep::Checkout { git_ref: "${{ inputs.commit_sha }}", persist_credentials: false },
    );
    steps.push(
        WorkflowStep::Run {
            name: "Verify assigned checkout",
            command: "test \"$(git rev-parse HEAD)\" = \"$ASSIGNED_COMMIT\"",
        },
    );
    steps.push(WorkflowStep::CacheRustDependencies);
    if text_is(platform, "linux") {
        steps.push(WorkflowStep::UseClang);
        steps.push(WorkflowStep::InstallLinuxDependencies);
    }
    if text_is(platform, "macos") {
        steps.push(WorkflowStep::DownloadWasiSdk);
    }
    steps.push(
        WorkflowStep::Run {
            name: "Ensure zstd is available",
            command: zstd_install_command(platform),
        },
    );
    steps.push(
        WorkflowStep::Uses {
            name: "Run assigned Wezel experiment",
            owner: "wezel-build",
            repo: "gh-action",
            version: "384b808f1de753a22abfadfe932452d0166c316f",
            with: wezel_action_inputs(),
        },
    );
    assert(steps@.map_values(|step: WorkflowStep| step@) =~= assigned_run_steps(platform@));
    steps
}

/// The assigned run on `platform`, on `runner`.
pub fn assigned_run(platform: &str, runner: Runner) -> (job: JobPlan)
    ensures
        job@ == assigned_run_job(platform@, runner),
{
    let mut env: Vec<(&'static str, &'static str)> = Vec::new();
    env.push(("ASSIGNED_COMMIT", "${{ inputs.commit_sha }}"));
    env.push(("CARGO_TARGET_DIR", "target"));
    assert(pairs_view(env@) =~= seq![
        ("ASSIGNED_COMMIT"@, "${{ inputs.commit_sha }}"@),
        ("CARGO_TARGET_DIR"@, "target"@),
    ]);
    JobPlan {
        contents: Access::Read,
        runner,
        timeout_minutes: 60,
        condition: assigned_run_condition(platform),
        env,
        steps: assigned_run_step_plan(platform),
    }
}

/// The Wezel workflow: dispatched by hand with a run id, an experiment name, a
/// commit and a project directory; reading the repository; one run at a time
/// per run id, never cancelling one in progress; an assigned run on the
/// default macOS runner and one on the default Linux runner.
pub open spec fn wezel_plan_holds(plan: WorkflowPlan) -> bool {
    &&& plan.dispatch_inputs@.map_values(|name: &'static str| name@) == seq![
        "run_id"@,
        "experiment_name"@,
        "commit_sha"@,
        "project_dir"@,
    ]
    &&& plan.contents == Access::Read
    &&& plan.concurrency_group@ == "wezel-run-${{ inputs.run_id }}"@
    &&& !plan.cancel_in_progress
    &&& plan.jobs@.len() == 2
    &&& plan.jobs@[0].0@ == "macos"@
    &&& plan.jobs@[0].1@ == assigned_run_job("macos"@, Runner::MacDefault)
    &&& plan.jobs@[1].0@ == "linux"@
    &&& plan.jobs@[1].1@ == assigned_run_job("linux"@, Runner::LinuxDefault)
}

/// The Wezel workflow.
pub fn wezel() -> (plan: WorkflowPlan)
    ensures
        wezel_plan_holds(plan),
{
    let mut dispatch_inputs: Vec<&'static str> = Vec::new();
    dispatch_inputs.push("run_id");
    dispatch_inputs.push("experiment_name");
    dispatch_inputs.push("commit_sha");
    dispatch_inputs.push("project_dir");
    assert(dispatch_inputs@.map_values(|name: &'static str| name@) =~= seq![
        "run_id"@,
        "experiment_name"@,
        "commit_sha"@,
        "project_dir"@,
    ]);
    let mut jobs: Vec<(&'static str, JobPlan)> = Vec::new();
    jobs.push(("macos", assigned_run("macos", Runner::MacDefault)));
    jobs.push(("linux", assigned_run("linux", Runner::LinuxDefault)));
    WorkflowPlan {
        dispatch_inputs,
        contents: Access::Read,
        concurrency_group: "wezel-run-${{ inputs.run_id }}",
        cancel_in_progress: false,
        jobs,
    }
}

/// The condition under which the assigned run on `platform` runs: in the Zed
/// repository, at the project root, for that platform's binary-size experiment.
pub open spec fn assigned_run_condition_text(platform: Seq<char>) -> Seq<char> {
    "github.repository == 'zed-industries/zed' && inputs.project_dir == '.' && inputs.experiment_name == 'release-binary-size-"@
        + platform + "'"@
}

/// The condition under which the assigned run on `platform` runs.
pub fn assigned_run_condition(platform: &str) -> (condition: String)
    ensures
        condition@ == assigned_run_condition_text(platform@),
{
    let mut condition = String::from_str(
        "github.repository == 'zed-industries/zed' && inputs.project_dir == '.' && inputs.experiment_name == 'release-binary-size-",
    );
    condition.append(platform);
    condition.append("'");
    condition
}

/// The command that makes zstd available on `platform`: Homebrew on macOS,
/// apt everywhere else.
pub open spec fn zstd_install_command_text(platform: Seq<char>) -> Seq<char> {
    if platform == "macos"@ {
        "command -v zstd || brew install --force-bottle zstd"@
    } else {
        "command -v zstd || sudo apt-get install -y zstd"@
    }
}

/// The command that makes zstd available on `platform`.
pub fn zstd_install_command(platform: &str) -> (command: &'static str)
    ensures
        command@ == zstd_install_command_text(platform@),
{
    if text_is(platform, "macos") {
        "command -v zstd || brew install --force-bottle zstd"
    } else {
        "command -v zstd || sudo apt-get install -y zstd"
    }
}

} // verus!
