use kube_config_updater::config::Config;
use kube_config_updater::state::RunStatus;
use kube_config_updater::ui::{
    build_config_toml, friendly_error, status_display, toml_escape, validate,
    wizard_validate_current, MaskedInput, SetupStep, SetupWizardState, SpinnerState, WizardState,
    WizardStep,
};

fn empty_config() -> Config {
    Config {
        default_user: None,
        default_file_path: None,
        default_file_name: None,
        default_identity_file: None,
        local_output_dir: "".to_string(),
        servers: vec![],
    }
}

// ── Step navigation ───────────────────────────────────────────────────────────

#[test]
fn test_setup_step_forward_sequence() {
    assert_eq!(SetupStep::OutputDir.next(), Some(SetupStep::DefaultUser));
    assert_eq!(SetupStep::DefaultUser.next(), Some(SetupStep::DefaultFilePath));
    assert_eq!(SetupStep::DefaultFilePath.next(), Some(SetupStep::DefaultFileName));
    assert_eq!(SetupStep::DefaultFileName.next(), None);
}

#[test]
fn test_setup_step_backward_sequence() {
    assert_eq!(SetupStep::OutputDir.prev(), None);
    assert_eq!(SetupStep::DefaultUser.prev(), Some(SetupStep::OutputDir));
    assert_eq!(SetupStep::DefaultFilePath.prev(), Some(SetupStep::DefaultUser));
    assert_eq!(SetupStep::DefaultFileName.prev(), Some(SetupStep::DefaultFilePath));
}

#[test]
fn test_setup_step_index_matches_order() {
    assert_eq!(SetupStep::OutputDir.index(), 0);
    assert_eq!(SetupStep::DefaultUser.index(), 1);
    assert_eq!(SetupStep::DefaultFilePath.index(), 2);
    assert_eq!(SetupStep::DefaultFileName.index(), 3);
}

#[test]
fn test_wizard_step_sequence_round_trips() {
    let mut step = WizardStep::Name;
    let mut seen = 1;
    while let Some(next) = step.next() {
        assert_eq!(next.prev(), Some(step));
        assert_eq!(next.index(), step.index() + 1);
        step = next;
        seen += 1;
    }
    assert_eq!(seen, 8);
    assert_eq!(step.index(), 7);
}

// ── Validation ────────────────────────────────────────────────────────────────

#[test]
fn test_validate_rejects_empty_output_dir() {
    let ws = SetupWizardState::default(); // output_dir is ""
    assert!(validate(&ws).is_some(), "empty output_dir must be rejected");
}

#[test]
fn test_validate_rejects_whitespace_only_output_dir() {
    let ws = SetupWizardState { output_dir: "   ".to_string(), ..Default::default() };
    assert!(validate(&ws).is_some());
}

#[test]
fn test_validate_accepts_non_empty_output_dir() {
    let ws = SetupWizardState { output_dir: "/home/user/.kube".to_string(), ..Default::default() };
    assert!(validate(&ws).is_none());
}

#[test]
fn test_validate_optional_steps_always_pass_when_blank() {
    let base = SetupWizardState {
        output_dir: "/tmp/kube".to_string(),
        ..Default::default()
    };

    for step in [SetupStep::DefaultUser, SetupStep::DefaultFilePath, SetupStep::DefaultFileName] {
        let ws = SetupWizardState { step, ..base.clone() };
        assert!(validate(&ws).is_none(), "blank optional step should pass validation");
    }
}

// ── TOML generation ───────────────────────────────────────────────────────────

#[test]
fn test_build_config_toml_minimal() {
    let ws = SetupWizardState {
        output_dir: "/home/user/.kube".to_string(),
        ..Default::default()
    };
    let toml = build_config_toml(&ws);
    assert!(toml.contains("local_output_dir = \"/home/user/.kube\""));
    assert!(!toml.contains("default_user"));
    assert!(!toml.contains("default_file_path"));
    assert!(!toml.contains("default_file_name"));
}

#[test]
fn test_build_config_toml_with_all_defaults() {
    let ws = SetupWizardState {
        output_dir: "/home/user/.kube".to_string(),
        default_user: "ubuntu".to_string(),
        default_file_path: "/etc/rancher/k3s".to_string(),
        default_file_name: "k3s.yaml".to_string(),
        ..Default::default()
    };
    let toml = build_config_toml(&ws);
    assert!(toml.contains("local_output_dir = \"/home/user/.kube\""));
    assert!(toml.contains("default_user = \"ubuntu\""));
    assert!(toml.contains("default_file_path = \"/etc/rancher/k3s\""));
    assert!(toml.contains("default_file_name = \"k3s.yaml\""));
}

#[test]
fn test_build_config_toml_trims_whitespace() {
    let ws = SetupWizardState {
        output_dir: "  /tmp/kube  ".to_string(),
        default_user: "  ubuntu  ".to_string(),
        ..Default::default()
    };
    let toml = build_config_toml(&ws);
    assert!(toml.contains("\"/tmp/kube\""), "output_dir should be trimmed");
    assert!(toml.contains("\"ubuntu\""), "default_user should be trimmed");
}

#[test]
fn test_toml_escape_handles_double_quote() {
    assert_eq!(toml_escape(r#"path/with "quotes""#), r#"path/with \"quotes\""#);
}

#[test]
fn test_toml_escape_handles_backslash() {
    assert_eq!(toml_escape(r"C:\Users\foo"), r"C:\\Users\\foo");
}

#[test]
fn test_toml_escape_clean_path_unchanged() {
    assert_eq!(toml_escape("/home/user/.kube"), "/home/user/.kube");
}

// ── Add-server wizard validation ──────────────────────────────────────────────

#[test]
fn test_wizard_validate_name() {
    let config = empty_config();
    let mut ws = WizardState::new();
    assert_eq!(
        wizard_validate_current(&ws, &config).unwrap(),
        "Name cannot be empty"
    );
    ws.name = "has space".to_string();
    assert_eq!(
        wizard_validate_current(&ws, &config).unwrap(),
        "Name cannot contain spaces"
    );
    ws.name = "fine".to_string();
    assert!(wizard_validate_current(&ws, &config).is_none());
}

#[test]
fn test_wizard_validate_duplicate_name() {
    let mut config = empty_config();
    config.servers.push(kube_config_updater::config::Server {
        name: "taken".to_string(),
        address: "h".to_string(),
        target_cluster_ip: "1.2.3.4".to_string(),
        user: None,
        file_path: None,
        file_name: None,
        context_name: None,
        identity_file: None,
    });
    let mut ws = WizardState::new();
    ws.name = "taken".to_string();
    let msg = wizard_validate_current(&ws, &config).unwrap();
    assert!(msg.contains("already exists"));
}

#[test]
fn test_wizard_validate_target_ip() {
    let config = empty_config();
    let mut ws = WizardState::new();
    ws.step = WizardStep::TargetClusterIp;
    assert_eq!(
        wizard_validate_current(&ws, &config).unwrap(),
        "Target cluster IP cannot be empty"
    );
    for bad in ["1.2.3", "1.2.3.4.5", "a.b.c.d", "256.1.1.1", "1..2.3"] {
        ws.target_cluster_ip = bad.to_string();
        assert_eq!(
            wizard_validate_current(&ws, &config).unwrap(),
            "Invalid IP address (expected x.x.x.x)",
            "{bad} must be rejected"
        );
    }
    for good in ["10.0.0.5", "192.168.1.10", "0.0.0.0", "255.255.255.255"] {
        ws.target_cluster_ip = good.to_string();
        assert!(wizard_validate_current(&ws, &config).is_none(), "{good} must pass");
    }
}

// ── Masked input and spinner ──────────────────────────────────────────────────

#[test]
fn test_masked_input_masks_every_character() {
    let mut input = MaskedInput::new();
    input.push('a');
    input.push('b');
    input.push('c');
    assert_eq!(input.value, "abc");
    assert_eq!(input.masked_display(), "***");
    input.pop();
    assert_eq!(input.value, "ab");
    input.clear();
    assert_eq!(input.value, "");
    assert_eq!(input.masked_display(), "");
}

#[test]
fn test_spinner_wraps_around() {
    let mut s = SpinnerState::new();
    let first = s.current();
    for _ in 0..8 {
        s.tick();
    }
    assert_eq!(s.frame, 0);
    assert_eq!(s.current(), first);
}

// ── Display texts ─────────────────────────────────────────────────────────────

#[test]
fn test_status_display_texts() {
    assert_eq!(status_display(&RunStatus::Fetched), "✓ Fetched");
    assert_eq!(status_display(&RunStatus::Skipped), "— Skipped");
    assert_eq!(status_display(&RunStatus::NoCredential), "⚠ No credential");
    assert_eq!(status_display(&RunStatus::AuthRejected), "⚠ Auth rejected");
    assert_eq!(status_display(&RunStatus::Failed), "✗ Failed");
}

#[test]
fn test_friendly_error_classifies_common_failures() {
    assert_eq!(
        friendly_error("Connection refused (os error 111)"),
        "Could not reach host — is it up and reachable from this machine?"
    );
    assert_eq!(
        friendly_error("SSH Authentication failed"),
        "Password rejected by server. Check credentials with 'c'."
    );
    assert_eq!(
        friendly_error("sudo: a password is required"),
        "Connected but couldn't read the remote file — sudo may require a password or the path may be wrong."
    );
    assert_eq!(
        friendly_error("invalid YAML document"),
        "Remote file doesn't look like a kubeconfig — check the file path in config."
    );
    assert_eq!(
        friendly_error("No clusters found in the kubeconfig file."),
        "Kubeconfig has no cluster entries — expected standard k3s format."
    );
    assert_eq!(
        friendly_error("keyring is locked"),
        "OS keyring is locked or unavailable. Log in to unlock it, then retry."
    );
    assert_eq!(friendly_error("something else entirely"), "something else entirely");
}
