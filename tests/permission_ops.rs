use permissions::catalog::{
    allowed_in_nonsecure_contexts, get_descriptor_permission_state, name_from_text,
    PermissionName, PermissionState,
};
use permissions::permissions::{
    Error, PermissionAlgorithm, PermissionDescriptor, PermissionStatus, Permissions,
    RawDescriptor, ROOT_DESC_CONVERSION_ERROR,
};
use permissions::promise::{Callback, Engine, PromiseState};

const ALL: [(&str, PermissionName, bool); 11] = [
    ("geolocation", PermissionName::Geolocation, true),
    ("notifications", PermissionName::Notifications, true),
    ("push", PermissionName::Push, false),
    ("midi", PermissionName::Midi, true),
    ("camera", PermissionName::Camera, false),
    ("microphone", PermissionName::Microphone, false),
    ("speaker", PermissionName::Speaker, false),
    ("device-info", PermissionName::DeviceInfo, false),
    ("background-sync", PermissionName::BackgroundSync, false),
    ("bluetooth", PermissionName::Bluetooth, false),
    ("persistent-storage", PermissionName::PersistentStorage, false),
];

fn raw(name: &str) -> RawDescriptor {
    RawDescriptor { name: Some(name.to_string()) }
}

fn fulfilled(name: PermissionName, state: PermissionState) -> PromiseState<PermissionStatus, Error> {
    PromiseState::Fulfilled(PermissionStatus { descriptor: PermissionDescriptor { name }, state })
}

#[test]
fn query_geolocation_is_granted() {
    let mut engine = Engine::new();
    let p = Permissions::new().Query(&mut engine, &raw("geolocation"));
    assert_eq!(engine.state(p), fulfilled(PermissionName::Geolocation, PermissionState::Granted));
    assert_eq!(engine.queued_jobs(), 0);
}

#[test]
fn query_push_is_denied() {
    let mut engine = Engine::new();
    let p = Permissions::new().Query(&mut engine, &raw("push"));
    assert_eq!(engine.state(p), fulfilled(PermissionName::Push, PermissionState::Denied));
}

#[test]
fn request_bluetooth_is_denied() {
    let mut engine = Engine::new();
    let p = Permissions::new().Request(&mut engine, &raw("bluetooth"));
    assert_eq!(engine.state(p), fulfilled(PermissionName::Bluetooth, PermissionState::Denied));
}

#[test]
fn revoke_notifications_is_granted() {
    let mut engine = Engine::new();
    let p = Permissions::new().Revoke(&mut engine, &raw("notifications"));
    assert_eq!(
        engine.state(p),
        fulfilled(PermissionName::Notifications, PermissionState::Granted)
    );
    assert_eq!(engine.len(), 1);
}

#[test]
fn query_without_name_rejects() {
    let mut engine = Engine::new();
    let p = Permissions::new().Query(&mut engine, &RawDescriptor { name: None });
    assert_eq!(engine.state(p), PromiseState::Rejected(Error::DescriptorConversion));
    assert_eq!(engine.len(), 1);
    assert_eq!(engine.queued_jobs(), 0);
}

#[test]
fn unknown_names_reject_everywhere() {
    let perms = Permissions::new();
    for name in ["", "Geolocation", "device_info", "geolocation ", "usb"] {
        let mut engine = Engine::new();
        let q = perms.Query(&mut engine, &raw(name));
        let r = perms.Request(&mut engine, &raw(name));
        let v = perms.Revoke(&mut engine, &raw(name));
        for p in [q, r, v] {
            assert_eq!(engine.state(p), PromiseState::Rejected(Error::DescriptorConversion));
        }
    }
}

#[test]
fn query_follows_the_catalog() {
    let perms = Permissions::new();
    let mut engine = Engine::new();
    for (text, name, allowed) in ALL {
        let p = perms.Query(&mut engine, &raw(text));
        let state = if allowed { PermissionState::Granted } else { PermissionState::Denied };
        assert_eq!(engine.state(p), fulfilled(name, state));
    }
}

#[test]
fn request_never_prompts_and_matches_query() {
    let perms = Permissions::new();
    let mut engine = Engine::new();
    for (text, _, _) in ALL {
        let q = perms.Query(&mut engine, &raw(text));
        let r = perms.Request(&mut engine, &raw(text));
        assert_eq!(engine.state(q), engine.state(r));
        assert!(!matches!(
            engine.state(r),
            PromiseState::Fulfilled(PermissionStatus { state: PermissionState::Prompt, .. })
        ));
    }
}

#[test]
fn revoke_answers_as_a_later_query() {
    let perms = Permissions::new();
    let mut engine = Engine::new();
    for (text, _, _) in ALL {
        let v = perms.Revoke(&mut engine, &raw(text));
        let q = perms.Query(&mut engine, &raw(text));
        assert_eq!(engine.state(v), engine.state(q));
    }
    let v = perms.Revoke(&mut engine, &RawDescriptor { name: None });
    let q = perms.Query(&mut engine, &RawDescriptor { name: None });
    assert_eq!(engine.state(v), engine.state(q));
}

#[test]
fn catalog_table() {
    for (text, name, allowed) in ALL {
        assert_eq!(allowed_in_nonsecure_contexts(name), allowed);
        assert_eq!(name_from_text(text), Some(name));
        let state = get_descriptor_permission_state(name);
        assert_eq!(state == PermissionState::Granted, allowed);
        assert_ne!(state, PermissionState::Prompt);
    }
    assert_eq!(name_from_text("pus"), None);
    assert_eq!(name_from_text("pushy"), None);
}

#[test]
fn create_descriptor_converts_or_fails() {
    assert_eq!(
        Permissions::create_descriptor(&raw("midi")),
        Ok(PermissionDescriptor { name: PermissionName::Midi })
    );
    assert_eq!(
        Permissions::create_descriptor(&RawDescriptor { name: None }),
        Err(Error::DescriptorConversion)
    );
    assert_eq!(
        Permissions::create_descriptor(&raw("MIDI")),
        Err(Error::DescriptorConversion)
    );
}

#[test]
fn algorithm_steps_write_the_status() {
    let d = PermissionDescriptor { name: PermissionName::Camera };
    let mut status = PermissionStatus { descriptor: d, state: PermissionState::Prompt };
    Permissions::permission_query(&d, &mut status);
    assert_eq!(status.state, PermissionState::Denied);
    let g = PermissionDescriptor { name: PermissionName::Midi };
    let mut status = PermissionStatus { descriptor: g, state: PermissionState::Prompt };
    Permissions::permission_request(&g, &mut status);
    assert_eq!(status, PermissionStatus { descriptor: g, state: PermissionState::Granted });
    Permissions::permission_revoke(&g, &status);
    assert_eq!(status.state, PermissionState::Granted);
}

#[test]
fn conversion_error_message() {
    assert_eq!(
        Error::DescriptorConversion.message(),
        "Can't convert to an IDL value of type PermissionDescriptor"
    );
    assert_eq!(Error::DescriptorConversion.message(), ROOT_DESC_CONVERSION_ERROR);
}

#[test]
fn continuation_on_a_query_runs_later() {
    let mut engine = Engine::new();
    let p = Permissions::new().Query(&mut engine, &raw("camera"));
    let ok = Callback { id: 1 };
    let bad = Callback { id: 2 };
    let d = p.Then(&mut engine, ok, bad);
    assert_eq!(engine.state(d), PromiseState::Pending);
    let job = engine.next_job().unwrap();
    assert_eq!(job.callback, ok);
    assert_eq!(job.argument, Ok(PermissionStatus {
        descriptor: PermissionDescriptor { name: PermissionName::Camera },
        state: PermissionState::Denied,
    }));
    assert_eq!(job.derived, d);
}
