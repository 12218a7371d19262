use java_locator::errors::{ErrorKind, JavaLocatorError};
use java_locator::get_jvm_dyn_lib_file_name;
use java_locator::host::{CommandOutcome, Host, LinkAnswer};
use java_locator::platform::{get_jvm_dyn_lib_pattern, Lookup, PathStyle, Platform};

#[test]
fn dynamic_library_name_by_platform() {
    assert_eq!(get_jvm_dyn_lib_file_name(Platform::Windows), "jvm.dll");
    assert_eq!(get_jvm_dyn_lib_file_name(Platform::MacOs), "libjvm.dylib");
    assert_eq!(get_jvm_dyn_lib_file_name(Platform::Unix), "libjvm.so");
    assert_eq!(get_jvm_dyn_lib_file_name(Platform::Android), "libjvm.so");
}

#[test]
fn dynamic_library_pattern_by_platform() {
    assert_eq!(get_jvm_dyn_lib_pattern(Platform::Windows), "jvm.dll");
    assert_eq!(get_jvm_dyn_lib_pattern(Platform::MacOs), "libjvm.*");
    assert_eq!(get_jvm_dyn_lib_pattern(Platform::Unix), "libjvm.*");
    assert_eq!(get_jvm_dyn_lib_pattern(Platform::Android), "libjvm.*");
}

#[test]
fn library_pattern_covers_the_library_name() {
    for platform in [Platform::Windows, Platform::MacOs, Platform::Android, Platform::Unix] {
        let pattern = glob::Pattern::new(get_jvm_dyn_lib_pattern(platform)).unwrap();
        assert!(pattern.matches(get_jvm_dyn_lib_file_name(platform)));
    }
}

#[test]
fn lookup_command_by_platform() {
    assert_eq!(Platform::Windows.lookup(), Lookup::Where);
    assert_eq!(Platform::MacOs.lookup(), Lookup::JavaHomeUtility);
    assert_eq!(Platform::Unix.lookup(), Lookup::Which);
    assert_eq!(Platform::Android.lookup(), Lookup::Which);
}

#[test]
fn lookup_commands_and_their_arguments() {
    assert_eq!(Lookup::Where.program(), "where");
    assert_eq!(Lookup::Where.argument(), Some("java"));
    assert_eq!(Lookup::Which.program(), "which");
    assert_eq!(Lookup::Which.argument(), Some("java"));
    assert_eq!(Lookup::JavaHomeUtility.program(), "/usr/libexec/java_home");
    assert_eq!(Lookup::JavaHomeUtility.argument(), None);
}

#[test]
fn only_the_utility_has_a_fallback() {
    assert_eq!(Lookup::JavaHomeUtility.fallback(), Some(Lookup::Which));
    assert_eq!(Lookup::Which.fallback(), None);
    assert_eq!(Lookup::Where.fallback(), None);
}

#[test]
fn what_a_lookup_prints() {
    assert!(Lookup::Where.names_executable());
    assert!(Lookup::Which.names_executable());
    assert!(!Lookup::JavaHomeUtility.names_executable());
    assert!(Lookup::Where.lists_candidates());
    assert!(!Lookup::Which.lists_candidates());
    assert!(!Lookup::JavaHomeUtility.lists_candidates());
}

#[test]
fn path_style_by_platform() {
    assert_eq!(Platform::Windows.path_style(), PathStyle::Windows);
    assert_eq!(Platform::MacOs.path_style(), PathStyle::Posix);
    assert_eq!(Platform::Unix.path_style(), PathStyle::Posix);
    assert_eq!(Platform::Android.path_style(), PathStyle::Posix);
}

#[test]
fn new_host_knows_nothing() {
    let host = Host::new(Platform::MacOs);
    assert_eq!(host.platform, Platform::MacOs);
    assert!(!host.legacy_java_compat);
    assert!(host.java_home_var.is_none());
    assert!(host.outcome(Lookup::Where).is_none());
    assert!(host.outcome(Lookup::Which).is_none());
    assert!(host.outcome(Lookup::JavaHomeUtility).is_none());
    assert!(host.link("/usr/bin/java").is_none());
    assert!(host.glob_entries.is_empty());
}

#[test]
fn host_keeps_what_is_recorded() {
    let mut host = Host::new(Platform::Unix);
    host.record_java_home_var(None);
    assert_eq!(host.java_home_var, Some(None));
    host.record_command(Lookup::Which, CommandOutcome::LaunchFailed("gone".to_string()));
    assert!(matches!(
        host.outcome(Lookup::Which),
        Some(CommandOutcome::LaunchFailed(reason)) if reason == "gone"
    ));
    assert!(host.outcome(Lookup::Where).is_none());
    host.record_link("/a".to_string(), LinkAnswer::Target("b".to_string()));
    assert!(matches!(host.link("/a"), Some(LinkAnswer::Target(target)) if target == "b"));
    assert!(host.link("/b").is_none());
    assert!(host.link("/A").is_none());
}

#[test]
fn errors_carry_their_kind_and_message() {
    let err = JavaLocatorError::new(ErrorKind::FileNotFound, "nothing there".to_string());
    assert_eq!(err.kind(), ErrorKind::FileNotFound);
    assert_eq!(err.description(), "nothing there");
    assert_eq!(err.message(), "nothing there");

    let err = JavaLocatorError::java_not_found();
    assert_eq!(err.kind(), ErrorKind::JavaNotFound);
    assert_eq!(err.description(), "Java is not installed or not in the system PATH");

    let err = JavaLocatorError::launch_failure(Lookup::JavaHomeUtility, "denied");
    assert_eq!(err.kind(), ErrorKind::SubprocessLaunchFailure);
    assert_eq!(err.description(), "Failed to run command `/usr/libexec/java_home` (denied)");

    let err = JavaLocatorError::invalid_path("\"/opt/\\xFF\"");
    assert_eq!(err.kind(), ErrorKind::InvalidEncoding);
    assert_eq!(err.description(), "Java path \"/opt/\\xFF\" is invalid utf8");

    let err = JavaLocatorError::invalid_output("bad byte".to_string());
    assert_eq!(err.kind(), ErrorKind::InvalidEncoding);
    assert_eq!(err.description(), "bad byte");

    let err = JavaLocatorError::too_many_links("/x/a");
    assert_eq!(err.kind(), ErrorKind::JavaNotFound);
    assert_eq!(err.description(), "Too many levels of symbolic links at /x/a");

    let err = JavaLocatorError::file_not_found("libjvm.*", "/opt/jdk");
    assert_eq!(err.kind(), ErrorKind::FileNotFound);
    assert_eq!(
        err.description(),
        "Could not find the libjvm.* library in any subdirectory of /opt/jdk"
    );

    let err = JavaLocatorError::invalid_pattern("unbalanced".to_string());
    assert_eq!(err.kind(), ErrorKind::PatternError);
    assert_eq!(err.description(), "unbalanced");
}
