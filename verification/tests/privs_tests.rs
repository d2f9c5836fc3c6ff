use bastille::privs::{
    acquire_plan, cap_adjust_failure_tolerated, cap_sweep_actions, required_caps,
    switch_user_plan, Capability, PrivilegeMode,
};
use bastille::SandboxError;

#[test]
fn setuid_root_becomes_privileged() {
    assert_eq!(acquire_plan(1000, 0, false), Ok(PrivilegeMode::Privileged));
    assert_eq!(acquire_plan(1000, 0, true), Ok(PrivilegeMode::Privileged));
}

#[test]
fn setuid_to_non_root_is_refused() {
    assert_eq!(
        acquire_plan(1000, 500, false),
        Err(SandboxError::UnexpectedSetuidUser(500))
    );
}

#[test]
fn stray_capabilities_without_setuid_are_refused() {
    assert_eq!(
        acquire_plan(1000, 1000, true),
        Err(SandboxError::UnexpectedCapabilities)
    );
}

#[test]
fn real_root_inherits_its_capabilities() {
    assert_eq!(acquire_plan(0, 0, true), Ok(PrivilegeMode::RootInherit));
    assert_eq!(acquire_plan(0, 0, false), Ok(PrivilegeMode::RootInherit));
}

#[test]
fn plain_user_relies_on_user_namespaces() {
    assert_eq!(acquire_plan(1000, 1000, false), Ok(PrivilegeMode::Unprivileged));
}

#[test]
fn required_capability_set_is_the_minimum_six() {
    assert_eq!(
        required_caps(),
        vec![
            Capability::NetAdmin,
            Capability::SetGid,
            Capability::SetUid,
            Capability::SysAdmin,
            Capability::SysChroot,
            Capability::SysPtrace,
        ]
    );
}

#[test]
fn capability_sweep_raises_kept_and_drops_the_rest() {
    assert_eq!(cap_sweep_actions(true, true, true, true), (true, false));
    assert_eq!(cap_sweep_actions(false, true, true, true), (false, true));
    assert_eq!(cap_sweep_actions(true, true, true, false), (false, false));
    assert_eq!(cap_sweep_actions(false, false, true, true), (false, false));
}

#[test]
fn only_permission_style_failures_are_tolerated() {
    assert!(cap_adjust_failure_tolerated(1));
    assert!(cap_adjust_failure_tolerated(13));
    assert!(cap_adjust_failure_tolerated(22));
    assert!(!cap_adjust_failure_tolerated(12));
}

#[test]
fn switching_user_only_does_work_when_privileged() {
    let plan = switch_user_plan(true, 1000);
    assert!(plan.set_keepcaps);
    assert_eq!(plan.setuid_to, Some(1000));
    assert!(plan.reinstall_required_caps);
    let plan = switch_user_plan(false, 1000);
    assert!(!plan.set_keepcaps);
    assert_eq!(plan.setuid_to, None);
    assert!(!plan.reinstall_required_caps);
}
