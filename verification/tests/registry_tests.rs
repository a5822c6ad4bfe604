use matios_host::resource_local_registry::{Resource, ResourceRegistry};
use matios_host::resources::{
    generateMethods, resolve_resource_path, ResourcePath, CURRENT_DIRECTORY_RESOURCE_UUID,
    DESKTOP_RESOURCE_UUID, HOST_MACHINE_RESOURCE_UUID, RESOURCE_DESKTOP_ID,
    RESOURCE_FILESYSTEM_ITEM_CURRENT_DIR_TAG, RESOURCE_FILESYSTEM_ITEM_ID,
    RESOURCE_HOST_MACHINE_ID, RESOURCE_PROCESS_ID,
};
use matios_host::uuid::Uuid;

const PID: u32 = 4242;
const PROCESS_UUID: u128 = 0x30312746_893c_4654_a9b5_000000000000 + 4242;

#[test]
fn default_resource_is_empty() {
    let r = Resource::default();
    assert_eq!(r.uuid.as_u128(), 0);
    assert_eq!(r.resource_type.as_u128(), 0);
    assert!(r.name.is_empty());
    assert!(r.methods.is_empty() && r.tags.is_empty() && r.connected_resources.is_empty());
}

#[test]
fn a_registered_resource_reads_back() {
    let mut reg = ResourceRegistry::new();
    let mut r = Resource::default();
    r.uuid = Uuid::from_u128(77);
    r.name = "Thing".to_string();
    reg.insert(r);
    let got = reg.get(Uuid::from_u128(77)).unwrap();
    assert_eq!(got.name, "Thing");
    assert!(reg.contains(Uuid::from_u128(77)));
    assert!(reg.get(Uuid::from_u128(78)).is_none());
}

#[test]
fn registering_again_replaces() {
    let mut reg = ResourceRegistry::new();
    let mut a = Resource::default();
    a.uuid = Uuid::from_u128(5);
    a.name = "first".to_string();
    let mut b = Resource::default();
    b.uuid = Uuid::from_u128(5);
    b.name = "second".to_string();
    reg.insert(a);
    reg.insert(b);
    assert_eq!(reg.get(Uuid::from_u128(5)).unwrap().name, "second");
}

#[test]
fn process_and_host_machine_resources() {
    let mut reg = ResourceRegistry::new();
    let p = reg.prepare_process_resource(PID);
    assert_eq!(p.as_u128(), PROCESS_UUID);
    let h = reg.prepare_host_machine_resource();
    assert_eq!(h.as_u128(), HOST_MACHINE_RESOURCE_UUID);
    let pr = reg.get(p).unwrap();
    assert_eq!(pr.name, "Process");
    assert_eq!(pr.resource_type.as_u128(), RESOURCE_PROCESS_ID);
    assert!(pr.methods.is_empty());
    let hr = reg.get(h).unwrap();
    assert_eq!(hr.name, "Host machine");
    assert_eq!(hr.resource_type.as_u128(), RESOURCE_HOST_MACHINE_ID);
    assert_eq!(hr.methods, vec!["getOsVersion".to_string(), "getCpuArchitecture".to_string()]);
}

#[test]
fn desktop_resource() {
    let mut reg = ResourceRegistry::new();
    reg.prepare_current_desktop();
    let d = reg.get(Uuid::from_u128(DESKTOP_RESOURCE_UUID)).unwrap();
    assert_eq!(d.name, "Desktop");
    assert_eq!(d.resource_type.as_u128(), RESOURCE_DESKTOP_ID);
    assert_eq!(d.methods, vec!["getWindows".to_string()]);
}

#[test]
fn filesystem_connects_the_process_to_the_current_directory() {
    let mut reg = ResourceRegistry::new();
    reg.prepare_process_resource(PID);
    assert!(reg.prepare_filesystem(PID));
    let dir = reg.get(Uuid::from_u128(CURRENT_DIRECTORY_RESOURCE_UUID)).unwrap();
    assert_eq!(dir.name, "Current directory");
    assert_eq!(dir.resource_type.as_u128(), RESOURCE_FILESYSTEM_ITEM_ID);
    assert_eq!(dir.tags, vec![Uuid::from_u128(RESOURCE_FILESYSTEM_ITEM_CURRENT_DIR_TAG)]);
    assert_eq!(dir.methods, vec!["getChildren".to_string()]);
    let p = reg.get(Uuid::from_u128(PROCESS_UUID)).unwrap();
    assert_eq!(p.connected_resources, vec![Uuid::from_u128(CURRENT_DIRECTORY_RESOURCE_UUID)]);
}

#[test]
fn filesystem_without_process_still_registers_the_directory() {
    let mut reg = ResourceRegistry::new();
    assert!(!reg.prepare_filesystem(PID));
    assert!(reg.contains(Uuid::from_u128(CURRENT_DIRECTORY_RESOURCE_UUID)));
    assert!(!reg.contains(Uuid::from_u128(PROCESS_UUID)));
}

#[test]
fn connecting_an_unknown_resource_changes_nothing() {
    let mut reg = ResourceRegistry::new();
    assert!(!reg.connect(Uuid::from_u128(9), Uuid::from_u128(10)));
    assert!(!reg.contains(Uuid::from_u128(9)));
}

#[test]
fn file_system_items_answer_get_children() {
    assert_eq!(generateMethods(".".to_string()), vec!["getChildren".to_string()]);
    assert_eq!(generateMethods("/".to_string()), vec!["getChildren".to_string()]);
}

#[test]
fn resolves_paths() {
    assert_eq!(resolve_resource_path("matios:currentProcess"), ResourcePath::CurrentProcess);
    assert_eq!(resolve_resource_path("matios:other"), ResourcePath::Unknown);
    assert_eq!(resolve_resource_path("other:currentProcess"), ResourcePath::Unknown);
    assert_eq!(resolve_resource_path("matios:currentProcess:x"), ResourcePath::Unknown);
    assert_eq!(resolve_resource_path(":"), ResourcePath::Unknown);
    assert_eq!(
        resolve_resource_path("00000000-0000-0000-0000-000000000002"),
        ResourcePath::Id(2)
    );
    assert_eq!(
        resolve_resource_path("urn:uuid:00000000-0000-0000-0000-000000000002"),
        ResourcePath::Unknown
    );
    assert_eq!(resolve_resource_path("not a uuid"), ResourcePath::Unknown);
    assert_eq!(resolve_resource_path(""), ResourcePath::Unknown);
}

#[test]
fn finds_resources_by_path() {
    let mut reg = ResourceRegistry::new();
    reg.prepare_process_resource(PID);
    reg.prepare_current_desktop();
    let p = reg.get_resource_by_path("matios:currentProcess", PID).unwrap();
    assert_eq!(p.uuid.as_u128(), PROCESS_UUID);
    assert!(reg.get_resource_by_path("matios:currentProcess", PID + 1).is_none());
    let d = reg.get_resource_by_path("00000000-0000-0000-0000-070000000007", PID).unwrap();
    assert_eq!(d.name, "Desktop");
    assert!(reg.get_resource_by_path("00000000-0000-0000-0000-070000000008", PID).is_none());
    assert!(reg.get_resource_by_path("elsewhere:x", PID).is_none());
}
