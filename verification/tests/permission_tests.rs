use vida::permissions::{PermissionConfig, PermissionManager, PermissionMode, PermissionResult, PermissionType};

#[test]
fn test_yolo_mode_always_allows() {
    let manager = PermissionManager::new(PermissionMode::Yolo, PermissionConfig::default());

    assert_eq!(manager.check(PermissionType::FileRead), PermissionResult::Allowed);
    assert_eq!(manager.check(PermissionType::FileWrite), PermissionResult::Allowed);
    assert_eq!(manager.check(PermissionType::ShellExecute), PermissionResult::Allowed);
    assert_eq!(manager.check(PermissionType::NetworkAccess), PermissionResult::Allowed);
}

#[test]
fn test_ask_mode_with_defaults() {
    let manager = PermissionManager::new(PermissionMode::Ask, PermissionConfig::default());

    assert_eq!(manager.check(PermissionType::FileRead), PermissionResult::Allowed);
    assert_eq!(manager.check(PermissionType::NetworkAccess), PermissionResult::Allowed);
    assert_eq!(manager.check(PermissionType::FileWrite), PermissionResult::NeedsApproval);
    assert_eq!(manager.check(PermissionType::ShellExecute), PermissionResult::NeedsApproval);
}

#[test]
fn test_sandbox_mode_denies_unganted() {
    let manager = PermissionManager::new(PermissionMode::Sandbox, PermissionConfig::default());

    assert_eq!(manager.check(PermissionType::FileRead), PermissionResult::Allowed);
    assert_eq!(manager.check(PermissionType::NetworkAccess), PermissionResult::Allowed);
    assert_eq!(manager.check(PermissionType::FileWrite), PermissionResult::Denied);
    assert_eq!(manager.check(PermissionType::ShellExecute), PermissionResult::Denied);
}

#[test]
fn test_sandbox_all_granted() {
    let config = PermissionConfig {
        file_read: true,
        file_write: true,
        shell_execute: true,
        network_access: true,
    };
    let manager = PermissionManager::new(PermissionMode::Sandbox, config);

    assert_eq!(manager.check(PermissionType::FileRead), PermissionResult::Allowed);
    assert_eq!(manager.check(PermissionType::FileWrite), PermissionResult::Allowed);
    assert_eq!(manager.check(PermissionType::ShellExecute), PermissionResult::Allowed);
    assert_eq!(manager.check(PermissionType::NetworkAccess), PermissionResult::Allowed);
}

#[test]
fn test_ask_all_granted() {
    let config = PermissionConfig {
        file_read: true,
        file_write: true,
        shell_execute: true,
        network_access: true,
    };
    let manager = PermissionManager::new(PermissionMode::Ask, config);

    assert_eq!(manager.check(PermissionType::FileWrite), PermissionResult::Allowed);
    assert_eq!(manager.check(PermissionType::ShellExecute), PermissionResult::Allowed);
}

#[test]
fn test_mode_getter() {
    let manager = PermissionManager::new(PermissionMode::Yolo, PermissionConfig::default());
    assert_eq!(manager.mode(), &PermissionMode::Yolo);
}

#[test]
fn set_mode_keeps_grants() {
    let mut manager = PermissionManager::new(PermissionMode::Ask, PermissionConfig::default());
    manager.set_mode(PermissionMode::Sandbox);
    assert_eq!(manager.mode(), &PermissionMode::Sandbox);
    assert!(manager.config().file_read);
    assert!(!manager.config().file_write);
    assert_eq!(manager.check(PermissionType::FileWrite), PermissionResult::Denied);
}

#[test]
fn set_config_keeps_mode() {
    let mut manager = PermissionManager::new(PermissionMode::Ask, PermissionConfig::default());
    manager.set_config(PermissionConfig {
        file_read: false,
        file_write: true,
        shell_execute: false,
        network_access: false,
    });
    assert_eq!(manager.mode(), &PermissionMode::Ask);
    assert_eq!(manager.check(PermissionType::FileWrite), PermissionResult::Allowed);
    assert_eq!(manager.check(PermissionType::FileRead), PermissionResult::NeedsApproval);
}

#[test]
fn default_mode_is_ask() {
    assert_eq!(PermissionMode::default(), PermissionMode::Ask);
}
