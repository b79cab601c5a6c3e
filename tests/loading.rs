use scout::error::LoadError;
use scout::loader::{check_declaration, load_step, LoadAction, LoadEvent, PluginDeclaration};

fn decl(rustc: &str, core: &str) -> PluginDeclaration {
    PluginDeclaration { rustc_version: rustc.to_string(), core_version: core.to_string() }
}

fn is_fail(a: &LoadAction, e: &LoadError) -> bool {
    matches!(a, LoadAction::Fail(x) if x == e)
}

#[test]
fn matching_versions_lead_to_registration() {
    let host = decl("1.80.0", "0.3.0");
    assert!(check_declaration(&decl("1.80.0", "0.3.0"), &host).is_ok());
    let a = load_step(&host, LoadEvent::DescriptorRead(Ok(decl("1.80.0", "0.3.0"))));
    assert!(matches!(a, LoadAction::InvokeRegistration));
}

#[test]
fn protocol_mismatch_never_registers() {
    let host = decl("1.80.0", "0.3.0");
    assert_eq!(check_declaration(&decl("1.80.0", "0.2.0"), &host), Err(LoadError::VersionMismatch));
    let a = load_step(&host, LoadEvent::DescriptorRead(Ok(decl("1.80.0", "0.2.0"))));
    assert!(is_fail(&a, &LoadError::VersionMismatch));
    let b = load_step(&host, LoadEvent::DescriptorRead(Ok(decl("1.79.0", "0.3.0"))));
    assert!(is_fail(&b, &LoadError::VersionMismatch));
}

#[test]
fn open_and_descriptor_failures() {
    let host = decl("r", "c");
    let a = load_step(&host, LoadEvent::Opened(Err("no such file".to_string())));
    assert!(is_fail(&a, &LoadError::Open("no such file".to_string())));
    let b = load_step(&host, LoadEvent::Opened(Ok(())));
    assert!(matches!(b, LoadAction::ReadDescriptor));
    let c = load_step(&host, LoadEvent::DescriptorRead(Err("undefined symbol".to_string())));
    assert!(is_fail(&c, &LoadError::MalformedPlugin("undefined symbol".to_string())));
}
