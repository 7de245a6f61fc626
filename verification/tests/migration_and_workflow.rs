use selection_comments::ranges::QueuedRange;
use selection_comments::settings_migration::{
    expand_terminal_card_display_mode, find_entry, make_expand_terminal_card_an_enum,
    MigrationError, SettingValue, SettingWrite, SettingsEntry,
};
use selection_comments::thread_queue::{selection_comment_request, SelectionCommentRequest};
use selection_comments::wezel::{
    assigned_run, assigned_run_condition, assigned_run_step_plan, wezel, zstd_install_command,
    Access, Runner, WorkflowStep,
};

fn settings_with_card(card: SettingValue) -> Vec<(String, SettingsEntry)> {
    vec![
        ("theme".to_string(), SettingsEntry::Value(SettingValue::Text("One Dark".to_string()))),
        (
            "agent".to_string(),
            SettingsEntry::Object(vec![
                ("enabled".to_string(), SettingValue::Flag(true)),
                ("expand_terminal_card".to_string(), card),
            ]),
        ),
    ]
}

fn write_of(mode: &str) -> SettingWrite {
    SettingWrite {
        path: vec!["agent".to_string(), "expand_terminal_card".to_string()],
        value: mode.to_string(),
    }
}

#[test]
fn booleans_become_display_modes() {
    assert_eq!(
        make_expand_terminal_card_an_enum(&settings_with_card(SettingValue::Flag(true))),
        Ok(Some(write_of("always_expanded")))
    );
    assert_eq!(
        make_expand_terminal_card_an_enum(&settings_with_card(SettingValue::Flag(false))),
        Ok(Some(write_of("always_collapsed")))
    );
}

#[test]
fn display_modes_and_absent_settings_stay() {
    for mode in ["auto", "always_expanded", "always_collapsed"] {
        assert_eq!(
            make_expand_terminal_card_an_enum(&settings_with_card(SettingValue::Text(
                mode.to_string()
            ))),
            Ok(None)
        );
    }
    assert_eq!(make_expand_terminal_card_an_enum(&[]), Ok(None));
    let no_card = vec![(
        "agent".to_string(),
        SettingsEntry::Object(vec![("enabled".to_string(), SettingValue::Flag(true))]),
    )];
    assert_eq!(make_expand_terminal_card_an_enum(&no_card), Ok(None));
    let agent_not_object =
        vec![("agent".to_string(), SettingsEntry::Value(SettingValue::Flag(true)))];
    assert_eq!(make_expand_terminal_card_an_enum(&agent_not_object), Ok(None));
    // The key path matters: the same key elsewhere is not migrated.
    let elsewhere = vec![(
        "terminal".to_string(),
        SettingsEntry::Object(vec![("expand_terminal_card".to_string(), SettingValue::Flag(true))]),
    )];
    assert_eq!(make_expand_terminal_card_an_enum(&elsewhere), Ok(None));
}

#[test]
fn other_values_are_refused() {
    let refused = Err(MigrationError::InvalidExpandTerminalCard);
    for card in [
        SettingValue::Text("Auto".to_string()),
        SettingValue::Text(String::new()),
        SettingValue::Other,
    ] {
        assert_eq!(make_expand_terminal_card_an_enum(&settings_with_card(card)), refused);
    }
    assert_eq!(
        MigrationError::InvalidExpandTerminalCard.message(),
        "Expected expand_terminal_card to be a boolean or valid enum value"
    );
}

#[test]
fn migrating_twice_is_migrating_once() {
    for flag in [true, false] {
        let mode = expand_terminal_card_display_mode(Some(&SettingValue::Flag(flag)))
            .unwrap()
            .unwrap();
        assert_eq!(
            make_expand_terminal_card_an_enum(&settings_with_card(SettingValue::Text(mode))),
            Ok(None)
        );
    }
}

#[test]
fn find_entry_takes_the_first_match() {
    let entries = vec![
        ("a".to_string(), 1),
        ("b".to_string(), 2),
        ("a".to_string(), 3),
    ];
    assert_eq!(find_entry(&entries, "a"), Some(&1));
    assert_eq!(find_entry(&entries, "b"), Some(&2));
    assert_eq!(find_entry(&entries, "c"), None);
}

#[test]
fn comment_action_needs_feature_editor_and_quotable_lines() {
    let quoted = [QueuedRange { buffer_id: 1, start: 0, end: 5 }];
    assert_eq!(selection_comment_request(false, Some(&quoted)), SelectionCommentRequest::FeatureOff);
    assert_eq!(selection_comment_request(false, None), SelectionCommentRequest::FeatureOff);
    assert_eq!(selection_comment_request(true, None), SelectionCommentRequest::NoActiveEditor);
    assert_eq!(selection_comment_request(true, Some(&[])), SelectionCommentRequest::NoQuotableLines);
    assert_eq!(selection_comment_request(true, Some(&quoted)), SelectionCommentRequest::Show);
}

fn common_steps() -> Vec<WorkflowStep> {
    vec![
        WorkflowStep::Run {
            name: "Validate assigned commit",
            command: r#"[[ "$ASSIGNED_COMMIT" =~ ^[0-9a-f]{40}$ ]]"#,
        },
        WorkflowStep::Checkout { git_ref: "${{ inputs.commit_sha }}", persist_credentials: false },
        WorkflowStep::Run {
            name: "Verify assigned checkout",
            command: "test \"$(git rev-parse HEAD)\" = \"$ASSIGNED_COMMIT\"",
        },
        WorkflowStep::CacheRustDependencies,
    ]
}

fn wezel_step() -> WorkflowStep {
    WorkflowStep::Uses {
        name: "Run assigned Wezel experiment",
        owner: "wezel-build",
        repo: "gh-action",
        version: "384b808f1de753a22abfadfe932452d0166c316f",
        with: vec![
            ("wezel-version", "v0.1.5-pre-pre.20260916103109+5a021a6"),
            ("token", "${{ secrets.WEZEL_RUNNER_TOKEN }}"),
            ("run-id", "${{ inputs.run_id }}"),
            ("experiment-name", "${{ inputs.experiment_name }}"),
            ("project-dir", "${{ inputs.project_dir }}"),
        ],
    }
}

#[test]
fn linux_run_builds_with_clang() {
    let mut expected = common_steps();
    expected.push(WorkflowStep::UseClang);
    expected.push(WorkflowStep::InstallLinuxDependencies);
    expected.push(WorkflowStep::Run {
        name: "Ensure zstd is available",
        command: "command -v zstd || sudo apt-get install -y zstd",
    });
    expected.push(wezel_step());
    assert_eq!(assigned_run_step_plan("linux"), expected);
}

#[test]
fn macos_run_fetches_wasi_sdk() {
    let mut expected = common_steps();
    expected.push(WorkflowStep::DownloadWasiSdk);
    expected.push(WorkflowStep::Run {
        name: "Ensure zstd is available",
        command: "command -v zstd || brew install --force-bottle zstd",
    });
    expected.push(wezel_step());
    assert_eq!(assigned_run_step_plan("macos"), expected);
    let other = assigned_run_step_plan("windows");
    assert_eq!(other.len(), 6);
    assert!(!other.contains(&WorkflowStep::UseClang));
    assert!(!other.contains(&WorkflowStep::DownloadWasiSdk));
}

#[test]
fn assigned_run_job_settings() {
    let job = assigned_run("linux", Runner::LinuxDefault);
    assert_eq!(job.contents, Access::Read);
    assert_eq!(job.runner, Runner::LinuxDefault);
    assert_eq!(job.timeout_minutes, 60);
    assert_eq!(job.condition, assigned_run_condition("linux"));
    assert_eq!(
        job.env,
        vec![("ASSIGNED_COMMIT", "${{ inputs.commit_sha }}"), ("CARGO_TARGET_DIR", "target")]
    );
    // Only the last step is handed the runner token.
    let with_token = job
        .steps
        .iter()
        .filter(|step| matches!(step, WorkflowStep::Uses { with, .. } if with.iter().any(|(k, _)| *k == "token")))
        .count();
    assert_eq!(with_token, 1);
    assert_eq!(job.steps.last(), Some(&wezel_step()));
}

#[test]
fn wezel_workflow_plan() {
    let plan = wezel();
    assert_eq!(plan.dispatch_inputs, vec!["run_id", "experiment_name", "commit_sha", "project_dir"]);
    assert_eq!(plan.contents, Access::Read);
    assert_eq!(plan.concurrency_group, "wezel-run-${{ inputs.run_id }}");
    assert!(!plan.cancel_in_progress);
    assert_eq!(plan.jobs.len(), 2);
    assert_eq!(plan.jobs[0].0, "macos");
    assert_eq!(plan.jobs[0].1, assigned_run("macos", Runner::MacDefault));
    assert_eq!(plan.jobs[1].0, "linux");
    assert_eq!(plan.jobs[1].1, assigned_run("linux", Runner::LinuxDefault));
}

#[test]
fn run_condition_names_the_platform_experiment() {
    assert_eq!(
        assigned_run_condition("macos"),
        "github.repository == 'zed-industries/zed' && inputs.project_dir == '.' && inputs.experiment_name == 'release-binary-size-macos'"
    );
}

#[test]
fn zstd_comes_from_brew_on_macos_and_apt_elsewhere() {
    assert_eq!(zstd_install_command("macos"), "command -v zstd || brew install --force-bottle zstd");
    assert_eq!(zstd_install_command("linux"), "command -v zstd || sudo apt-get install -y zstd");
}
