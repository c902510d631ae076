use rustos_core::capability::CapabilityError;
use rustos_core::capability::CapabilityRequest;
use rustos_core::capability::CapabilityResponse;
use rustos_core::capability::CapabilitySystem;
use rustos_core::capability::FileSystemRequest;
use rustos_core::capability::MemoryRequest;
use rustos_core::capability::NetworkRequest;
use rustos_core::capability::OpenMode;
use rustos_core::capability::Permission;
use rustos_core::capability::PermissionSet;
use rustos_core::capability::ProcessRequest;
use rustos_core::capability::ResourceHandle;
use rustos_core::channel::Collaborator;
use rustos_core::channel::CollaboratorOutcome;
use rustos_core::channel::validate_request;

fn perms(list: Vec<Permission>) -> PermissionSet {
    PermissionSet { permissions: list }
}

#[test]
fn zero_sized_receive_is_rejected_before_any_collaborator() {
    // A Receive request with buffer_size = 0 fails with InvalidRequest; the
    // service answers on the channel itself and never names the network
    // collaborator.
    let mut sys = CapabilitySystem::new();
    let cap = sys.issue(
        ResourceHandle::Network("10.0.0.1".to_string()),
        perms(vec![Permission::Read]),
        None,
    );
    let mut channel = sys.create_channel();
    let service = rustos_core::channel::CapabilityChannel::new().1;

    channel.submit(CapabilityRequest::Network(NetworkRequest::Receive { buffer_size: 0 }));
    let step = service.service_step(&mut channel, &sys, &cap, 0);
    match step {
        Some((_, decision)) => assert_eq!(decision, Err(CapabilityError::InvalidRequest)),
        None => panic!("a queued request was not serviced"),
    }
    match channel.take_response() {
        Some(CapabilityResponse::Error(e)) => assert_eq!(e, CapabilityError::InvalidRequest),
        other => panic!("expected an error response, got {:?}", other),
    }
}

#[test]
fn authorized_request_is_routed_to_its_collaborator() {
    let mut sys = CapabilitySystem::new();
    let cap = sys.issue(
        ResourceHandle::File("/home".to_string()),
        perms(vec![Permission::Read]),
        None,
    );
    let (mut channel, service) = rustos_core::channel::CapabilityChannel::new();
    channel.submit(CapabilityRequest::FileSystem(FileSystemRequest::Open {
        path: "/home/notes.txt".to_string(),
        mode: OpenMode::Read,
    }));
    let (request, decision) = service.service_step(&mut channel, &sys, &cap, 0).unwrap();
    assert_eq!(decision, Ok(Collaborator::FileSystem));
    assert!(matches!(request, CapabilityRequest::FileSystem(_)));
    // Nothing was answered yet: the collaborator's outcome completes it.
    assert!(channel.take_response().is_none());
    let response = service.complete_request(CollaboratorOutcome::Data(vec![1, 2, 3]));
    service.deliver_response(&mut channel, response);
    match channel.take_response() {
        Some(CapabilityResponse::Data(d)) => assert_eq!(d, vec![1, 2, 3]),
        other => panic!("expected data, got {:?}", other),
    }
}

#[test]
fn expired_capability_fails_with_expired() {
    let mut sys = CapabilitySystem::new();
    let cap = sys.issue(
        ResourceHandle::File("/home".to_string()),
        perms(vec![Permission::Read]),
        Some(10),
    );
    let (mut channel, service) = rustos_core::channel::CapabilityChannel::new();
    channel.submit(CapabilityRequest::FileSystem(FileSystemRequest::List {
        path: "/home".to_string(),
    }));
    let (_, decision) = service.service_step(&mut channel, &sys, &cap, 10).unwrap();
    assert_eq!(decision, Err(CapabilityError::Expired));
}

#[test]
fn missing_permission_fails_with_permission_denied() {
    let mut sys = CapabilitySystem::new();
    let cap = sys.issue(
        ResourceHandle::File("/home".to_string()),
        perms(vec![Permission::Read]),
        None,
    );
    let (mut channel, service) = rustos_core::channel::CapabilityChannel::new();
    // Deleting demands the Delete permission; the capability has only Read.
    channel.submit(CapabilityRequest::FileSystem(FileSystemRequest::Delete {
        path: "/home/notes.txt".to_string(),
    }));
    let (_, decision) = service.service_step(&mut channel, &sys, &cap, 0).unwrap();
    assert_eq!(decision, Err(CapabilityError::PermissionDenied));
}

#[test]
fn revoked_capability_fails_with_permission_denied() {
    let mut sys = CapabilitySystem::new();
    let cap = sys.issue(
        ResourceHandle::Network("10.0.0.9".to_string()),
        perms(vec![Permission::Write]),
        None,
    );
    sys.revoke(cap.id);
    let (mut channel, service) = rustos_core::channel::CapabilityChannel::new();
    channel.submit(CapabilityRequest::Network(NetworkRequest::Send { data: vec![0u8; 4] }));
    let (_, decision) = service.service_step(&mut channel, &sys, &cap, 0).unwrap();
    assert_eq!(decision, Err(CapabilityError::PermissionDenied));
}

#[test]
fn requests_are_serviced_strictly_in_submission_order() {
    let mut sys = CapabilitySystem::new();
    let cap = sys.issue(
        ResourceHandle::File("/srv".to_string()),
        perms(vec![Permission::Read]),
        None,
    );
    let (mut channel, service) = rustos_core::channel::CapabilityChannel::new();
    channel.submit(CapabilityRequest::FileSystem(FileSystemRequest::Open {
        path: "/srv/a".to_string(),
        mode: OpenMode::Read,
    }));
    channel.submit(CapabilityRequest::FileSystem(FileSystemRequest::Open {
        path: "/srv/b".to_string(),
        mode: OpenMode::Read,
    }));
    let (first, _) = service.service_step(&mut channel, &sys, &cap, 0).unwrap();
    let (second, _) = service.service_step(&mut channel, &sys, &cap, 0).unwrap();
    match (first, second) {
        (
            CapabilityRequest::FileSystem(FileSystemRequest::Open { path: pa, .. }),
            CapabilityRequest::FileSystem(FileSystemRequest::Open { path: pb, .. }),
        ) => {
            assert_eq!(pa, "/srv/a");
            assert_eq!(pb, "/srv/b");
        },
        other => panic!("unexpected requests {:?}", other),
    }
    assert!(service.service_step(&mut channel, &sys, &cap, 0).is_none());
}

#[test]
fn collaborator_outcomes_wrap_into_responses() {
    let (_, service) = rustos_core::channel::CapabilityChannel::new();
    match service.complete_request(CollaboratorOutcome::NotFound) {
        CapabilityResponse::Error(e) => assert_eq!(e, CapabilityError::ResourceNotFound),
        other => panic!("expected an error, got {:?}", other),
    }
    match service.complete_request(CollaboratorOutcome::Fault("bus reset".to_string())) {
        CapabilityResponse::Error(e) => {
            assert_eq!(e, CapabilityError::SystemError("bus reset".to_string()))
        },
        other => panic!("expected an error, got {:?}", other),
    }
    let mut sys = CapabilitySystem::new();
    let granted = sys.issue(
        ResourceHandle::File("/f".to_string()),
        PermissionSet { permissions: vec![Permission::Read] },
        None,
    );
    match service.complete_request(CollaboratorOutcome::Granted(granted)) {
        CapabilityResponse::Success(c) => assert_eq!(c.id.0, 1),
        other => panic!("expected a capability, got {:?}", other),
    }
}

#[test]
fn shape_validation_rejects_empty_names_and_sizes() {
    assert!(validate_request(&CapabilityRequest::Memory(MemoryRequest::Allocate { size: 0 }))
        .is_err());
    assert!(validate_request(&CapabilityRequest::Memory(MemoryRequest::Deallocate {
        address: 16,
        size: 0,
    }))
    .is_err());
    assert!(validate_request(&CapabilityRequest::Memory(MemoryRequest::MapRegion {
        address: 16,
        size: 0,
        permissions: 0,
    }))
    .is_err());
    assert!(validate_request(&CapabilityRequest::FileSystem(FileSystemRequest::Open {
        path: "".to_string(),
        mode: OpenMode::Read,
    }))
    .is_err());
    assert!(validate_request(&CapabilityRequest::Process(ProcessRequest::Spawn {
        program: "".to_string(),
        args: vec![],
    }))
    .is_err());
    assert!(validate_request(&CapabilityRequest::Network(NetworkRequest::Connect {
        address: "".to_string(),
        port: 80,
    }))
    .is_err());
    // Well-formed requests pass.
    assert!(validate_request(&CapabilityRequest::Memory(MemoryRequest::Allocate { size: 64 }))
        .is_ok());
    assert!(validate_request(&CapabilityRequest::Network(NetworkRequest::Receive {
        buffer_size: 128,
    }))
    .is_ok());
}

#[test]
fn request_permission_mapping_follows_operation_kind() {
    let mut sys = CapabilitySystem::new();
    // Write-mode open demands Write.
    let read_only = sys.issue(
        ResourceHandle::File("/d".to_string()),
        perms(vec![Permission::Read]),
        None,
    );
    let (mut channel, service) = rustos_core::channel::CapabilityChannel::new();
    channel.submit(CapabilityRequest::FileSystem(FileSystemRequest::Open {
        path: "/d/x".to_string(),
        mode: OpenMode::Write,
    }));
    let (_, decision) = service.service_step(&mut channel, &sys, &read_only, 0).unwrap();
    assert_eq!(decision, Err(CapabilityError::PermissionDenied));

    // Spawn demands Execute on a process capability.
    let exec_cap = sys.issue(
        ResourceHandle::Process(1),
        perms(vec![Permission::Execute]),
        None,
    );
    channel.submit(CapabilityRequest::Process(ProcessRequest::Spawn {
        program: "/bin/ls".to_string(),
        args: vec!["-l".to_string()],
    }));
    let (_, decision) = service.service_step(&mut channel, &sys, &exec_cap, 0).unwrap();
    assert_eq!(decision, Ok(Collaborator::Process));

    // A memory capability cannot authorize a network request.
    let mem_cap = sys.issue(
        ResourceHandle::Memory(0x100),
        perms(vec![Permission::Read, Permission::Write]),
        None,
    );
    channel.submit(CapabilityRequest::Network(NetworkRequest::Listen { port: 8080 }));
    let (_, decision) = service.service_step(&mut channel, &sys, &mem_cap, 0).unwrap();
    assert_eq!(decision, Err(CapabilityError::PermissionDenied));
}
