use vstd::prelude::*;

verus! {

/// The closed set of capabilities that a descriptor may name.
#[derive(Clone, Copy, Debug, PartialEq, Eq, Structural)]
pub enum PermissionName {
    Geolocation,
    Notifications,
    Push,
    Midi,
    Camera,
    Microphone,
    Speaker,
    DeviceInfo,
    BackgroundSync,
    Bluetooth,
    PersistentStorage,
}

/// The state that a permission status reports.
#[derive(Clone, Copy, Debug, PartialEq, Eq, Structural)]
pub enum PermissionState {
    Granted,
    Denied,
    Prompt,
}

/// Whether a capability may be used outside a secure context.
pub open spec fn spec_allowed_in_nonsecure_contexts(name: PermissionName) -> bool {
    match name {
        PermissionName::Geolocation => true,
        PermissionName::Notifications => true,
        PermissionName::Midi => true,
        _ => false,
    }
}

/// The state that the default policy gives a capability: no consent store
/// exists yet, so only the catalog decides.
pub open spec fn spec_permission_state(name: PermissionName) -> PermissionState {
    if spec_allowed_in_nonsecure_contexts(name) {
        PermissionState::Granted
    } else {
        PermissionState::Denied
    }
}

pub fn allowed_in_nonsecure_contexts(permission_name: PermissionName) -> (r: bool)
    ensures
        r == spec_allowed_in_nonsecure_contexts(permission_name),
{
    match permission_name {
        PermissionName::Geolocation => true,
        PermissionName::Notifications => true,
        PermissionName::Push => false,
        PermissionName::Midi => true,
        PermissionName::Camera => false,
        PermissionName::Microphone => false,
        PermissionName::Speaker => false,
        PermissionName::DeviceInfo => false,
        PermissionName::BackgroundSync => false,
        PermissionName::Bluetooth => false,
        PermissionName::PersistentStorage => false,
    }
}

/// The state of a capability under the default policy. The secure-context
/// probe is not performed: a capability that the catalog does not allow in
/// nonsecure contexts is denied, every other one granted.
pub fn get_descriptor_permission_state(permission_name: PermissionName) -> (r: PermissionState)
    ensures
        r == spec_permission_state(permission_name),
        r != PermissionState::Prompt,
{
    if !allowed_in_nonsecure_contexts(permission_name) {
        return PermissionState::Denied;
    }
    PermissionState::Granted
}

/// The capability that a descriptor's wire name denotes, if any.
pub open spec fn spec_name_from_text(s: Seq<char>) -> Option<PermissionName> {
    if s == "geolocation"@ {
        Some(PermissionName::Geolocation)
    } else if s == "notifications"@ {
        Some(PermissionName::Notifications)
    } else if s == "push"@ {
        Some(PermissionName::Push)
    } else if s == "midi"@ {
        Some(PermissionName::Midi)
    } else if s == "camera"@ {
        Some(PermissionName::Camera)
    } else if s == "microphone"@ {
        Some(PermissionName::Microphone)
    } else if s == "speaker"@ {
        Some(PermissionName::Speaker)
    } else if s == "device-info"@ {
        Some(PermissionName::DeviceInfo)
    } else if s == "background-sync"@ {
        Some(PermissionName::BackgroundSync)
    } else if s == "bluetooth"@ {
        Some(PermissionName::Bluetooth)
    } else if s == "persistent-storage"@ {
        Some(PermissionName::PersistentStorage)
    } else {
        None
    }
}

/// Character-wise equality of two strings.
fn text_equals(a: &str, b: &str) -> (r: bool)
    ensures
        r == (a@ == b@),
{
    let n = a.unicode_len();
    if n != b.unicode_len() {
        return false;
    }
    let mut i: usize = 0;
    while i < n
        invariant
            n == a@.len(),
            n == b@.len(),
            i <= n,
            a@.subrange(0, i as int) == b@.subrange(0, i as int),
        decreases n - i,
    {
        if a.get_char(i) != b.get_char(i) {
            assert(a@[i as int] != b@[i as int]);
            return false;
        }
        assert(a@.subrange(0, i + 1) == a@.subrange(0, i as int).push(a@[i as int]));
        assert(b@.subrange(0, i + 1) == b@.subrange(0, i as int).push(b@[i as int]));
        i = i + 1;
    }
    assert(a@ == a@.subrange(0, n as int));
    assert(b@ == b@.subrange(0, n as int));
    true
}

/// Reads a capability from its wire name (`"device-info"`, ...).
pub fn name_from_text(s: &str) -> (r: Option<PermissionName>)
    ensures
        r == spec_name_from_text(s@),
{
    if text_equals(s, "geolocation") {
        Some(PermissionName::Geolocation)
    } else if text_equals(s, "notifications") {
        Some(PermissionName::Notifications)
    } else if text_equals(s, "push") {
        Some(PermissionName::Push)
    } else if text_equals(s, "midi") {
        Some(PermissionName::Midi)
    } else if text_equals(s, "camera") {
        Some(PermissionName::Camera)
    } else if text_equals(s, "microphone") {
        Some(PermissionName::Microphone)
    } else if text_equals(s, "speaker") {
        Some(PermissionName::Speaker)
    } else if text_equals(s, "device-info") {
        Some(PermissionName::DeviceInfo)
    } else if text_equals(s, "background-sync") {
        Some(PermissionName::BackgroundSync)
    } else if text_equals(s, "bluetooth") {
        Some(PermissionName::Bluetooth)
    } else if text_equals(s, "persistent-storage") {
        Some(PermissionName::PersistentStorage)
    } else {
        None
    }
}

} // verus!
