use rustos_core::capability::Capability;
use rustos_core::capability::CapabilityError;
use rustos_core::capability::CapabilityId;
use rustos_core::capability::CapabilitySystem;
use rustos_core::capability::Permission;
use rustos_core::capability::PermissionSet;
use rustos_core::capability::ResourceHandle;

fn perms(list: Vec<Permission>) -> PermissionSet {
    PermissionSet { permissions: list }
}

#[test]
fn issue_assigns_monotonic_ids() {
    let mut sys = CapabilitySystem::new();
    let a = sys.issue(ResourceHandle::File("/a".to_string()), perms(vec![Permission::Read]), None);
    let b = sys.issue(ResourceHandle::File("/b".to_string()), perms(vec![Permission::Read]), None);
    assert_eq!(a.id, CapabilityId(1));
    assert_eq!(b.id, CapabilityId(2));
}

#[test]
fn check_accepts_live_capability_on_contained_path() {
    let mut sys = CapabilitySystem::new();
    let cap = sys.issue(
        ResourceHandle::File("/home/user".to_string()),
        perms(vec![Permission::Read, Permission::Write]),
        None,
    );
    assert!(sys.check(
        &cap,
        &ResourceHandle::File("/home/user/notes.txt".to_string()),
        &Permission::Read,
        0,
    ));
    assert!(sys.check(&cap, &ResourceHandle::File("/home/user".to_string()), &Permission::Write, 0));
    // A permission that was never granted is refused.
    assert!(!sys.check(
        &cap,
        &ResourceHandle::File("/home/user".to_string()),
        &Permission::Execute,
        0,
    ));
    // A path outside the granted subtree is refused.
    assert!(!sys.check(&cap, &ResourceHandle::File("/etc".to_string()), &Permission::Read, 0));
}

#[test]
fn check_is_false_once_expiry_has_passed() {
    let mut sys = CapabilitySystem::new();
    let cap = sys.issue(
        ResourceHandle::File("/tmp/data".to_string()),
        perms(vec![Permission::Read]),
        Some(100),
    );
    let res = ResourceHandle::File("/tmp/data".to_string());
    assert!(sys.check(&cap, &res, &Permission::Read, 99));
    // At and after the expiry instant the capability is dead, with no
    // explicit revocation.
    assert!(!sys.check(&cap, &res, &Permission::Read, 100));
    assert!(!sys.check(&cap, &res, &Permission::Read, 100_000));
    // And it stays dead on every subsequent check.
    assert!(!sys.check(&cap, &res, &Permission::Read, 101));
}

#[test]
fn revoke_kills_capability_and_is_idempotent() {
    let mut sys = CapabilitySystem::new();
    let cap = sys.issue(
        ResourceHandle::Device("console".to_string()),
        perms(vec![Permission::Write]),
        None,
    );
    let res = ResourceHandle::Device("console".to_string());
    assert!(sys.check(&cap, &res, &Permission::Write, 0));
    sys.revoke(cap.id);
    assert!(!sys.check(&cap, &res, &Permission::Write, 0));
    // Revoking again, or revoking an unknown id, is a quiet no-op.
    sys.revoke(cap.id);
    sys.revoke(CapabilityId(999));
    assert!(!sys.check(&cap, &res, &Permission::Write, 0));
}

#[test]
fn check_refuses_forged_identifier() {
    let mut sys = CapabilitySystem::new();
    let _ = sys.issue(ResourceHandle::Memory(0x1000), perms(vec![Permission::Read]), None);
    let forged = Capability {
        id: CapabilityId(42),
        permissions: perms(vec![Permission::Read]),
        resource: ResourceHandle::Memory(0x1000),
        expires_at: None,
    };
    assert!(!sys.check(&forged, &ResourceHandle::Memory(0x1000), &Permission::Read, 0));
}

#[test]
fn delegation_of_granted_subset_succeeds_and_of_more_fails() {
    // A capability over "/a/b" whose holder may delegate; handing down
    // {Read} for the deeper path succeeds, handing down {Write} — which the
    // parent itself lacks for delegation as a subset — fails.
    let mut sys = CapabilitySystem::new();
    let parent = sys.issue(
        ResourceHandle::File("/a/b".to_string()),
        perms(vec![Permission::Read, Permission::Delegate]),
        None,
    );
    let ok = sys.delegate(
        &parent,
        perms(vec![Permission::Read]),
        ResourceHandle::File("/a/b/c".to_string()),
        None,
    );
    assert!(ok.is_ok());
    let child = ok.unwrap();
    assert_eq!(child.id, CapabilityId(2));
    assert!(sys.check(&child, &ResourceHandle::File("/a/b/c".to_string()), &Permission::Read, 0));

    let denied = sys.delegate(
        &parent,
        perms(vec![Permission::Write]),
        ResourceHandle::File("/a/b/c".to_string()),
        None,
    );
    assert_eq!(denied, Err(CapabilityError::PermissionDenied));
}

#[test]
fn delegation_without_delegate_permission_fails() {
    let mut sys = CapabilitySystem::new();
    let parent = sys.issue(
        ResourceHandle::File("/a/b".to_string()),
        perms(vec![Permission::Read]),
        None,
    );
    let denied = sys.delegate(
        &parent,
        perms(vec![Permission::Read]),
        ResourceHandle::File("/a/b/c".to_string()),
        None,
    );
    assert_eq!(denied, Err(CapabilityError::PermissionDenied));
}

#[test]
fn delegation_outside_parent_resource_fails() {
    let mut sys = CapabilitySystem::new();
    let parent = sys.issue(
        ResourceHandle::File("/a/b".to_string()),
        perms(vec![Permission::Read, Permission::Delegate]),
        None,
    );
    let denied = sys.delegate(
        &parent,
        perms(vec![Permission::Read]),
        ResourceHandle::File("/elsewhere".to_string()),
        None,
    );
    assert_eq!(denied, Err(CapabilityError::PermissionDenied));
    // Containment for filesystem paths is exact-or-prefix on the path text:
    // "/a/b" also covers "/a/bc".
    let prefixed = sys.delegate(
        &parent,
        perms(vec![Permission::Read]),
        ResourceHandle::File("/a/bc".to_string()),
        None,
    );
    assert!(prefixed.is_ok());
}

#[test]
fn delegation_of_revoked_parent_fails() {
    let mut sys = CapabilitySystem::new();
    let parent = sys.issue(
        ResourceHandle::Network("10.0.0.1".to_string()),
        perms(vec![Permission::Read, Permission::Delegate]),
        None,
    );
    sys.revoke(parent.id);
    let denied = sys.delegate(
        &parent,
        perms(vec![Permission::Read]),
        ResourceHandle::Network("10.0.0.1".to_string()),
        None,
    );
    assert_eq!(denied, Err(CapabilityError::PermissionDenied));
}

#[test]
fn delegated_expiry_never_exceeds_parent() {
    let mut sys = CapabilitySystem::new();
    let parent = sys.issue(
        ResourceHandle::File("/data".to_string()),
        perms(vec![Permission::Read, Permission::Delegate]),
        Some(100),
    );
    // Asking for a later expiry is clamped to the parent's.
    let late = sys
        .delegate(
            &parent,
            perms(vec![Permission::Read]),
            ResourceHandle::File("/data/x".to_string()),
            Some(200),
        )
        .unwrap();
    assert_eq!(late.expires_at, Some(100));
    // Asking for an earlier one keeps the earlier.
    let early = sys
        .delegate(
            &parent,
            perms(vec![Permission::Read]),
            ResourceHandle::File("/data/x".to_string()),
            Some(50),
        )
        .unwrap();
    assert_eq!(early.expires_at, Some(50));
    // Asking for none inherits the parent's bound.
    let inherit = sys
        .delegate(
            &parent,
            perms(vec![Permission::Read]),
            ResourceHandle::File("/data/x".to_string()),
            None,
        )
        .unwrap();
    assert_eq!(inherit.expires_at, Some(100));
}

#[test]
fn delegated_permissions_are_subset_of_parent() {
    let mut sys = CapabilitySystem::new();
    let parent = sys.issue(
        ResourceHandle::File("/srv".to_string()),
        perms(vec![Permission::Read, Permission::Write, Permission::Delegate]),
        None,
    );
    let child = sys
        .delegate(
            &parent,
            perms(vec![Permission::Write, Permission::Read]),
            ResourceHandle::File("/srv/log".to_string()),
            None,
        )
        .unwrap();
    for p in &child.permissions.permissions {
        assert!(parent.permissions.contains(p));
    }
}

#[test]
fn custom_permissions_compare_by_name() {
    let mut sys = CapabilitySystem::new();
    let cap = sys.issue(
        ResourceHandle::Device("gpu0".to_string()),
        perms(vec![Permission::Custom("render".to_string())]),
        None,
    );
    let res = ResourceHandle::Device("gpu0".to_string());
    assert!(sys.check(&cap, &res, &Permission::Custom("render".to_string()), 0));
    assert!(!sys.check(&cap, &res, &Permission::Custom("compute".to_string()), 0));
    assert!(!sys.check(&cap, &res, &Permission::Read, 0));
}

#[test]
fn grant_and_delegate_cover_only_their_own_meta_operations() {
    let mut sys = CapabilitySystem::new();
    let cap = sys.issue(
        ResourceHandle::File("/a".to_string()),
        perms(vec![Permission::Grant, Permission::Delegate]),
        None,
    );
    let res = ResourceHandle::File("/a".to_string());
    // Holding Grant or Delegate does not stand in for Read or Write.
    assert!(!sys.check(&cap, &res, &Permission::Read, 0));
    assert!(!sys.check(&cap, &res, &Permission::Write, 0));
    assert!(sys.check(&cap, &res, &Permission::Delegate, 0));
}

#[test]
fn non_file_resources_demand_exact_equality() {
    let mut sys = CapabilitySystem::new();
    let net = sys.issue(
        ResourceHandle::Network("192.168.1.1".to_string()),
        perms(vec![Permission::Write]),
        None,
    );
    assert!(sys.check(&net, &ResourceHandle::Network("192.168.1.1".to_string()), &Permission::Write, 0));
    assert!(!sys.check(&net, &ResourceHandle::Network("192.168.1.10".to_string()), &Permission::Write, 0));

    let mem = sys.issue(ResourceHandle::Memory(0x4000), perms(vec![Permission::Delete]), None);
    assert!(sys.check(&mem, &ResourceHandle::Memory(0x4000), &Permission::Delete, 0));
    assert!(!sys.check(&mem, &ResourceHandle::Memory(0x4008), &Permission::Delete, 0));

    let proc_cap = sys.issue(ResourceHandle::Process(7), perms(vec![Permission::Delete]), None);
    assert!(sys.check(&proc_cap, &ResourceHandle::Process(7), &Permission::Delete, 0));
    assert!(!sys.check(&proc_cap, &ResourceHandle::Process(8), &Permission::Delete, 0));
    // Different kinds never match.
    assert!(!sys.check(&mem, &ResourceHandle::Process(7), &Permission::Delete, 0));
}

#[test]
fn error_messages_describe_each_variant() {
    assert_eq!(CapabilityError::PermissionDenied.message().as_str(), "Permission denied");
    assert_eq!(CapabilityError::ResourceNotFound.message().as_str(), "Resource not found");
    assert_eq!(CapabilityError::InvalidRequest.message().as_str(), "Invalid capability request");
    assert_eq!(CapabilityError::Expired.message().as_str(), "Capability expired");
    assert_eq!(
        CapabilityError::SystemError("disk on fire".to_string()).message().as_str(),
        "System error: disk on fire",
    );
}

#[test]
fn duplicate_permissions_carry_no_extra_authority() {
    let mut sys = CapabilitySystem::new();
    let parent = sys.issue(
        ResourceHandle::File("/a".to_string()),
        perms(vec![Permission::Read, Permission::Read, Permission::Delegate]),
        None,
    );
    let res = ResourceHandle::File("/a".to_string());
    assert!(sys.check(&parent, &res, &Permission::Read, 0));
    // A set with duplicates is still just {Read, Delegate}: the subset check
    // treats both sides as sets.
    let child = sys.delegate(
        &parent,
        perms(vec![Permission::Read, Permission::Read]),
        ResourceHandle::File("/a/x".to_string()),
        None,
    );
    assert!(child.is_ok());
    assert!(!sys.check(&parent, &res, &Permission::Write, 0));
}
