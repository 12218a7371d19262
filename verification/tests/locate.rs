use java_locator::errors::{ErrorKind, JavaLocatorError};
use java_locator::home::{
    do_locate_java_home, java_exec_path_validation, java_home_of_executable, locate_from_output,
    locate_from_path, lookup_warning, read_lookup_output, read_lookup_text,
};
use java_locator::links::{follow_symlinks, resolve_link, MAX_LINK_HOPS};
use java_locator::host::{CommandOutcome, GlobAnswer, Host, LinkAnswer, Progress, Query};
use java_locator::platform::{Lookup, PathStyle, Platform};
use java_locator::{locate_file, locate_java_home, locate_jvm_dyn_library};

/// A made-up machine: what its environment, its commands and its file
/// system would answer.
struct Machine {
    java_home_var: Option<String>,
    commands: Vec<(Lookup, Result<Vec<u8>, String>)>,
    links: Vec<(String, String)>,
    files: Vec<Result<String, ()>>,
}

impl Machine {
    fn new() -> Machine {
        Machine { java_home_var: None, commands: Vec::new(), links: Vec::new(), files: Vec::new() }
    }

    /// A Linux machine with one development kit, reached through two links.
    fn debian() -> Machine {
        let mut machine = Machine::new();
        machine.commands.push((Lookup::Which, Ok(b"/usr/bin/java\n".to_vec())));
        machine.links.push(("/usr/bin/java".to_string(), "/etc/alternatives/java".to_string()));
        machine.links.push((
            "/etc/alternatives/java".to_string(),
            "/usr/lib/jvm/java-11-openjdk-amd64/bin/java".to_string(),
        ));
        for file in [
            "/usr/lib/jvm/java-11-openjdk-amd64/bin/java",
            "/usr/lib/jvm/java-11-openjdk-amd64/include/jni.h",
            "/usr/lib/jvm/java-11-openjdk-amd64/lib/libjsig.so",
            "/usr/lib/jvm/java-11-openjdk-amd64/lib/server/libjvm.so",
        ] {
            machine.files.push(Ok(file.to_string()));
        }
        machine
    }

    fn answer(&self, host: &mut Host, query: Query) {
        match query {
            Query::JavaHomeVar => host.record_java_home_var(self.java_home_var.clone()),
            Query::Command(lookup) => {
                let outcome = match self.commands.iter().find(|c| c.0 == lookup) {
                    Some((_, Ok(bytes))) => CommandOutcome::Output(bytes.clone()),
                    Some((_, Err(reason))) => CommandOutcome::LaunchFailed(reason.clone()),
                    None => CommandOutcome::LaunchFailed("No such file or directory".to_string()),
                };
                host.record_command(lookup, outcome);
            }
            Query::Link(path) => {
                let answer = match self.links.iter().find(|l| l.0 == path) {
                    Some((_, target)) => LinkAnswer::Target(target.clone()),
                    None => LinkAnswer::NotALink,
                };
                host.record_link(path, answer);
            }
            Query::GlobEntry { pattern, index } => {
                let answer = match glob::Pattern::new(&pattern) {
                    Err(err) => GlobAnswer::Refused(format!("{:?}", err)),
                    Ok(compiled) => {
                        let options = glob::MatchOptions {
                            case_sensitive: true,
                            require_literal_separator: true,
                            require_literal_leading_dot: false,
                        };
                        let steps: Vec<&Result<String, ()>> = self
                            .files
                            .iter()
                            .filter(|f| match f {
                                Ok(path) => compiled.matches_with(path, options),
                                Err(()) => true,
                            })
                            .collect();
                        match steps.get(index) {
                            Some(Ok(path)) => GlobAnswer::Match(path.to_string()),
                            Some(Err(())) => GlobAnswer::Unreadable,
                            None => GlobAnswer::End,
                        }
                    }
                };
                host.record_glob_entry(pattern, answer);
            }
        }
    }

    fn run(
        &self,
        host: &mut Host,
        lookup: &dyn Fn(&Host) -> Progress,
    ) -> (Result<String, JavaLocatorError>, Vec<String>) {
        let mut asked = Vec::new();
        for _ in 0..1000 {
            match lookup(host) {
                Progress::Done(result) => return (result, asked),
                Progress::Need(query) => {
                    asked.push(format!("{:?}", query));
                    self.answer(host, query);
                }
            }
        }
        panic!("the lookup does not come to an end");
    }
}

fn home_of(machine: &Machine, platform: Platform) -> Result<String, JavaLocatorError> {
    let mut host = Host::new(platform);
    machine.run(&mut host, &|h| locate_java_home(h)).0
}

fn file_of(machine: &Machine, platform: Platform, name: &str) -> Result<String, JavaLocatorError> {
    let mut host = Host::new(platform);
    machine.run(&mut host, &|h| locate_file(h, name)).0
}

#[test]
fn locate_java_home_test() {
    let machine = Machine::debian();
    let mut host = Host::new(Platform::Unix);
    println!(
        "locate_java_home: {}",
        machine.run(&mut host, &|h| locate_java_home(h)).0.unwrap()
    );
    println!(
        "locate_jvm_dyn_library: {}",
        machine.run(&mut host, &|h| locate_jvm_dyn_library(h)).0.unwrap()
    );
}

#[test]
fn locate_java_from_exec_test() {
    let machine = Machine::debian();
    let mut host = Host::new(Platform::Unix);
    println!(
        "do_locate_java_home: {}",
        machine.run(&mut host, &|h| do_locate_java_home(h)).0.unwrap()
    );
}

#[test]
fn jni_headers_test() {
    let machine = Machine::debian();
    let mut host = Host::new(Platform::Unix);
    let java_home = machine.run(&mut host, &|h| do_locate_java_home(h)).0.unwrap();
    let header = std::path::PathBuf::from(java_home).join("include").join("jni.h");
    assert!(machine.files.contains(&Ok(header.to_str().unwrap().to_string())));
}

#[test]
fn test_javahome_can_be_escaped() {
    let test_path = std::path::PathBuf::from("/tmp")
        .join("[funky-javahome]")
        .join("nested")
        .join("*dir*");
    let mut machine = Machine::new();
    machine.files.push(Ok("/tmp/funky-javahome/nested/dir/libjvm.so".to_string()));
    machine.files.push(Ok("/tmp/f/nested/some-dir-here/libjvm.so".to_string()));
    machine.files.push(Ok(test_path.join("libjvm.so").to_str().unwrap().to_string()));
    machine.java_home_var = Some(test_path.to_str().expect("no invalid characters").to_string());
    let mut host = Host::new(Platform::Unix);
    assert_eq!(
        machine
            .run(&mut host, &|h| locate_jvm_dyn_library(h))
            .0
            .expect("failed to located jvm library"),
        format!(
            "{}",
            std::path::PathBuf::from("/tmp").join("[funky-javahome]/nested/*dir*").display()
        )
    );
}

#[test]
fn discovered_home_is_two_segments_above_the_real_executable() {
    let machine = Machine::debian();
    assert_eq!(
        home_of(&machine, Platform::Unix).unwrap(),
        "/usr/lib/jvm/java-11-openjdk-amd64"
    );
    assert_eq!(
        home_of(&machine, Platform::Android).unwrap(),
        "/usr/lib/jvm/java-11-openjdk-amd64"
    );
}

#[test]
fn discovery_asks_in_order_and_only_what_it_needs() {
    let machine = Machine::debian();
    let mut host = Host::new(Platform::Unix);
    let (home, asked) = machine.run(&mut host, &|h| locate_java_home(h));
    assert_eq!(home.unwrap(), "/usr/lib/jvm/java-11-openjdk-amd64");
    assert_eq!(
        asked,
        vec![
            "JavaHomeVar".to_string(),
            "Command(Which)".to_string(),
            "Link(\"/usr/bin/java\")".to_string(),
            "Link(\"/etc/alternatives/java\")".to_string(),
            "Link(\"/usr/lib/jvm/java-11-openjdk-amd64/bin/java\")".to_string(),
        ]
    );
}

#[test]
fn java_home_override_is_returned_verbatim() {
    let mut machine = Machine::debian();
    machine.java_home_var = Some("/does/not/exist/ ".to_string());
    let mut host = Host::new(Platform::Unix);
    let (home, asked) = machine.run(&mut host, &|h| locate_java_home(h));
    assert_eq!(home.unwrap(), "/does/not/exist/ ");
    assert_eq!(asked, vec!["JavaHomeVar".to_string()]);
}

#[test]
fn java_home_override_needs_no_other_answer() {
    for platform in [Platform::Windows, Platform::MacOs, Platform::Android, Platform::Unix] {
        let mut host = Host::new(platform);
        host.record_java_home_var(Some("C:\\jdk".to_string()));
        match locate_java_home(&host) {
            Progress::Done(Ok(home)) => assert_eq!(home, "C:\\jdk"),
            other => panic!("unexpected {:?}", other),
        }
    }
}

#[test]
fn empty_java_home_is_the_same_as_unset() {
    let mut unset = Machine::debian();
    unset.java_home_var = None;
    let mut empty = Machine::debian();
    empty.java_home_var = Some(String::new());
    let mut host_unset = Host::new(Platform::Unix);
    let mut host_empty = Host::new(Platform::Unix);
    let (home_unset, asked_unset) = unset.run(&mut host_unset, &|h| locate_java_home(h));
    let (home_empty, asked_empty) = empty.run(&mut host_empty, &|h| locate_java_home(h));
    assert_eq!(home_unset.unwrap(), home_empty.unwrap());
    assert_eq!(asked_unset, asked_empty);
    assert!(asked_empty.contains(&"Command(Which)".to_string()));
}

#[test]
fn first_question_is_the_environment() {
    let host = Host::new(Platform::Unix);
    assert!(matches!(locate_java_home(&host), Progress::Need(Query::JavaHomeVar)));
    assert!(matches!(locate_file(&host, "jni.h"), Progress::Need(Query::JavaHomeVar)));
    assert!(matches!(locate_jvm_dyn_library(&host), Progress::Need(Query::JavaHomeVar)));
}

#[test]
fn chain_of_relative_links_resolves_to_the_real_file() {
    // /opt/x/A -> B, /opt/x/B -> sub/C, /opt/x/sub/C is a real file
    let mut machine = Machine::new();
    machine.links.push(("/opt/x/A".to_string(), "B".to_string()));
    machine.links.push(("/opt/x/B".to_string(), "sub/C".to_string()));
    let mut host = Host::new(Platform::Unix);
    let (resolved, asked) = machine.run(&mut host, &|h| follow_symlinks(h, "/opt/x/A"));
    assert_eq!(resolved.unwrap(), "/opt/x/sub/C");
    assert_eq!(asked.len(), 3);
}

#[test]
fn relative_link_counts_from_the_directory_of_the_link() {
    assert_eq!(resolve_link(PathStyle::Posix, "/usr/bin/java", "../lib/jvm/bin/java"),
        "/usr/bin/../lib/jvm/bin/java");
    assert_eq!(resolve_link(PathStyle::Posix, "/usr/bin/java", "java11"), "/usr/bin/java11");
    assert_eq!(resolve_link(PathStyle::Posix, "/usr/bin/java", "/opt/jdk/bin/java"),
        "/opt/jdk/bin/java");
    assert_eq!(resolve_link(PathStyle::Posix, "java", "real/java"), "real/java");
    assert_eq!(resolve_link(PathStyle::Windows, "C:\\tools\\java.exe", "jdk\\bin\\java.exe"),
        "C:\\tools\\jdk\\bin\\java.exe");
    assert_eq!(resolve_link(PathStyle::Windows, "C:\\tools\\java.exe", "D:\\jdk\\bin\\java.exe"),
        "D:\\jdk\\bin\\java.exe");
    assert_eq!(resolve_link(PathStyle::Windows, "C:\\tools\\java.exe", "\\jdk\\java.exe"),
        "C:\\jdk\\java.exe");
}

#[test]
fn path_that_is_no_link_resolves_to_itself() {
    let mut host = Host::new(Platform::Unix);
    host.record_link("/opt/jdk/bin/java".to_string(), LinkAnswer::NotALink);
    match follow_symlinks(&host, "/opt/jdk/bin/java") {
        Progress::Done(Ok(path)) => assert_eq!(path, "/opt/jdk/bin/java"),
        other => panic!("unexpected {:?}", other),
    }
}

#[test]
fn first_answer_for_a_link_counts() {
    let mut host = Host::new(Platform::Unix);
    host.record_link("/a".to_string(), LinkAnswer::Target("/b".to_string()));
    host.record_link("/a".to_string(), LinkAnswer::Target("/c".to_string()));
    host.record_link("/b".to_string(), LinkAnswer::NotALink);
    host.record_link("/c".to_string(), LinkAnswer::NotALink);
    match follow_symlinks(&host, "/a") {
        Progress::Done(Ok(path)) => assert_eq!(path, "/b"),
        other => panic!("unexpected {:?}", other),
    }
}

#[test]
fn cycle_of_links_ends_with_an_error() {
    let mut machine = Machine::new();
    machine.links.push(("/x/a".to_string(), "b".to_string()));
    machine.links.push(("/x/b".to_string(), "a".to_string()));
    let mut host = Host::new(Platform::Unix);
    let (resolved, _) = machine.run(&mut host, &|h| follow_symlinks(h, "/x/a"));
    let err = resolved.unwrap_err();
    assert_eq!(err.kind(), ErrorKind::JavaNotFound);
    assert_eq!(err.description(), "Too many levels of symbolic links at /x/a");
}

#[test]
fn chain_of_exactly_the_limit_is_followed() {
    let mut machine = Machine::new();
    for i in 0..MAX_LINK_HOPS {
        machine.links.push((format!("/l/{}", i), format!("/l/{}", i + 1)));
    }
    let mut host = Host::new(Platform::Unix);
    let (resolved, _) = machine.run(&mut host, &|h| follow_symlinks(h, "/l/0"));
    assert_eq!(resolved.unwrap(), format!("/l/{}", MAX_LINK_HOPS));
    machine.links.push((
        format!("/l/{}", MAX_LINK_HOPS),
        format!("/l/{}", MAX_LINK_HOPS + 1),
    ));
    let mut host = Host::new(Platform::Unix);
    let (resolved, _) = machine.run(&mut host, &|h| follow_symlinks(h, "/l/0"));
    assert_eq!(resolved.unwrap_err().kind(), ErrorKind::JavaNotFound);
}

#[test]
fn link_target_that_is_no_text_is_an_encoding_error() {
    let mut host = Host::new(Platform::Unix);
    host.record_link("/usr/bin/java".to_string(), LinkAnswer::Unrepresentable("\"/opt/\\xFF\"".to_string()));
    match follow_symlinks(&host, "/usr/bin/java") {
        Progress::Done(Err(err)) => {
            assert_eq!(err.kind(), ErrorKind::InvalidEncoding);
            assert_eq!(err.description(), "Java path \"/opt/\\xFF\" is invalid utf8");
        }
        other => panic!("unexpected {:?}", other),
    }
}

#[test]
fn empty_path_fails_validation() {
    let err = java_exec_path_validation("").unwrap_err();
    assert_eq!(err.kind(), ErrorKind::JavaNotFound);
    assert_eq!(err.description(), "Java is not installed or not in the system PATH");
    assert_eq!(err.message(), "Java is not installed or not in the system PATH");
    assert!(java_exec_path_validation(" ").is_ok());
    assert!(java_exec_path_validation("/usr/bin/java").is_ok());
}

#[test]
fn empty_output_means_java_not_found() {
    for output in ["", "\n", "  \r\n", "\t"] {
        let mut machine = Machine::new();
        machine.commands.push((Lookup::Which, Ok(output.as_bytes().to_vec())));
        let err = home_of(&machine, Platform::Unix).unwrap_err();
        assert_eq!(err.kind(), ErrorKind::JavaNotFound);
        assert_eq!(err.description(), "Java is not installed or not in the system PATH");
    }
}

#[test]
fn command_that_cannot_start_is_a_launch_failure() {
    let mut machine = Machine::new();
    machine.commands.push((Lookup::Which, Err("No such file or directory (os error 2)".to_string())));
    let err = home_of(&machine, Platform::Unix).unwrap_err();
    assert_eq!(err.kind(), ErrorKind::SubprocessLaunchFailure);
    assert_eq!(
        err.description(),
        "Failed to run command `which` (No such file or directory (os error 2))"
    );
    let mut machine = Machine::new();
    machine.commands.push((Lookup::Where, Err("denied".to_string())));
    let err = home_of(&machine, Platform::Windows).unwrap_err();
    assert_eq!(err.kind(), ErrorKind::SubprocessLaunchFailure);
    assert_eq!(err.description(), "Failed to run command `where` (denied)");
}

#[test]
fn output_that_is_no_utf8_is_an_encoding_error() {
    let mut machine = Machine::new();
    machine.commands.push((Lookup::Which, Ok(vec![b'/', 0xff, b'\n'])));
    let err = home_of(&machine, Platform::Unix).unwrap_err();
    assert_eq!(err.kind(), ErrorKind::InvalidEncoding);
    let expected = format!("{:?}", std::str::from_utf8(&[b'/', 0xff, b'\n']).unwrap_err());
    assert_eq!(err.description(), expected);
}

#[test]
fn output_is_decoded_as_utf8() {
    let path = read_lookup_output(Lookup::Which, "/opt/j\u{e4}va/bin/java\n".as_bytes()).unwrap();
    assert_eq!(path, "/opt/j\u{e4}va/bin/java");
}

#[test]
fn which_output_is_trimmed_as_a_whole() {
    assert_eq!(read_lookup_text(Lookup::Which, "  /usr/bin/java \n\n").unwrap(), "/usr/bin/java");
    assert_eq!(read_lookup_text(Lookup::Which, "/a\n/b\n").unwrap(), "/a\n/b");
    assert_eq!(
        read_lookup_text(Lookup::JavaHomeUtility, "/Library/Java/Home\n").unwrap(),
        "/Library/Java/Home"
    );
}

#[test]
fn where_output_counts_by_its_first_line() {
    let text = "C:\\jdk\\bin\\java.exe\r\nC:\\other\\bin\\java.exe\r\n";
    assert_eq!(read_lookup_text(Lookup::Where, text).unwrap(), "C:\\jdk\\bin\\java.exe");
    assert_eq!(read_lookup_text(Lookup::Where, " C:\\j.exe \n").unwrap(), "C:\\j.exe");
    assert_eq!(
        read_lookup_text(Lookup::Where, "\nC:\\j.exe\n").unwrap_err().kind(),
        ErrorKind::JavaNotFound
    );
}

#[test]
fn windows_home_is_found_and_warns_of_other_candidates() {
    let mut machine = Machine::new();
    machine.commands.push((
        Lookup::Where,
        Ok(b"C:\\Program Files\\Java\\jdk-17\\bin\\java.exe\r\nC:\\old\\bin\\java.exe\r\n".to_vec()),
    ));
    let mut host = Host::new(Platform::Windows);
    let (home, _) = machine.run(&mut host, &|h| locate_java_home(h));
    assert_eq!(home.unwrap(), "C:\\Program Files\\Java\\jdk-17");
    assert_eq!(
        lookup_warning(&host).unwrap(),
        "WARNING: java_locator found 2 possible java locations. Using the first one. To silence this warning set JAVA_HOME env var."
    );
}

#[test]
fn no_warning_for_one_candidate_or_an_override() {
    let mut machine = Machine::new();
    machine.commands.push((Lookup::Where, Ok(b"C:\\jdk\\bin\\java.exe\r\n".to_vec())));
    let mut host = Host::new(Platform::Windows);
    machine.run(&mut host, &|h| locate_java_home(h)).0.unwrap();
    assert_eq!(lookup_warning(&host), None);

    let mut host = Host::new(Platform::Windows);
    host.record_java_home_var(Some("C:\\jdk".to_string()));
    host.record_command(Lookup::Where, CommandOutcome::Output(b"C:\\a\\b\\j.exe\nC:\\c\\d\\j.exe\n".to_vec()));
    assert_eq!(lookup_warning(&host), None);

    let mut host = Host::new(Platform::Unix);
    host.record_java_home_var(None);
    host.record_command(Lookup::Which, CommandOutcome::Output(b"/a/b/java\n/c/d/java\n".to_vec()));
    assert_eq!(lookup_warning(&host), None);
}

#[test]
fn warning_counts_twelve_candidates() {
    let mut output = String::new();
    for i in 0..12 {
        output.push_str(&format!("C:\\jdk{}\\bin\\java.exe\r\n", i));
    }
    let mut host = Host::new(Platform::Windows);
    host.record_java_home_var(None);
    host.record_command(Lookup::Where, CommandOutcome::Output(output.into_bytes()));
    assert_eq!(
        lookup_warning(&host).unwrap(),
        "WARNING: java_locator found 12 possible java locations. Using the first one. To silence this warning set JAVA_HOME env var."
    );
}

#[test]
fn macos_utility_names_the_home_itself() {
    let mut machine = Machine::new();
    machine.commands.push((
        Lookup::JavaHomeUtility,
        Ok(b"/Library/Java/JavaVirtualMachines/jdk-17.jdk/Contents/Home\n".to_vec()),
    ));
    assert_eq!(
        home_of(&machine, Platform::MacOs).unwrap(),
        "/Library/Java/JavaVirtualMachines/jdk-17.jdk/Contents/Home"
    );
}

#[test]
fn macos_falls_back_to_which_when_the_utility_cannot_start() {
    let mut machine = Machine::new();
    machine.commands.push((Lookup::JavaHomeUtility, Err("not found".to_string())));
    machine.commands.push((Lookup::Which, Ok(b"/opt/jdk/bin/java\n".to_vec())));
    let mut host = Host::new(Platform::MacOs);
    let (home, asked) = machine.run(&mut host, &|h| locate_java_home(h));
    assert_eq!(home.unwrap(), "/opt/jdk");
    assert_eq!(asked[1], "Command(JavaHomeUtility)");
    assert_eq!(asked[2], "Command(Which)");
}

#[test]
fn macos_reports_the_fallback_when_both_commands_cannot_start() {
    let mut machine = Machine::new();
    machine.commands.push((Lookup::JavaHomeUtility, Err("not found".to_string())));
    machine.commands.push((Lookup::Which, Err("gone".to_string())));
    let err = home_of(&machine, Platform::MacOs).unwrap_err();
    assert_eq!(err.kind(), ErrorKind::SubprocessLaunchFailure);
    assert_eq!(err.description(), "Failed to run command `which` (gone)");
}

#[test]
fn macos_utility_without_output_means_java_not_found() {
    let mut machine = Machine::new();
    machine.commands.push((Lookup::JavaHomeUtility, Ok(Vec::new())));
    machine.commands.push((Lookup::Which, Ok(b"/opt/jdk/bin/java\n".to_vec())));
    let err = home_of(&machine, Platform::MacOs).unwrap_err();
    assert_eq!(err.kind(), ErrorKind::JavaNotFound);
}

#[test]
fn legacy_layout_strips_the_jre_directory() {
    assert_eq!(
        java_home_of_executable(PathStyle::Posix, true, "/usr/lib/jvm/java-8-oracle/jre/bin/java"),
        "/usr/lib/jvm/java-8-oracle"
    );
    assert_eq!(
        java_home_of_executable(PathStyle::Posix, false, "/usr/lib/jvm/java-8-oracle/jre/bin/java"),
        "/usr/lib/jvm/java-8-oracle/jre"
    );
    assert_eq!(
        java_home_of_executable(PathStyle::Posix, true, "/usr/lib/jvm/java-11/bin/java"),
        "/usr/lib/jvm/java-11"
    );
    assert_eq!(
        java_home_of_executable(PathStyle::Posix, true, "/usr/lib/jvm/myjre/bin/java"),
        "/usr/lib/jvm/myjre"
    );
    assert_eq!(
        java_home_of_executable(PathStyle::Windows, true, "C:\\Java\\jdk8\\jre\\bin\\java.exe"),
        "C:\\Java\\jdk8"
    );
}

#[test]
fn legacy_layout_is_read_through_the_host() {
    let mut machine = Machine::new();
    machine.commands.push((Lookup::Which, Ok(b"/usr/bin/java\n".to_vec())));
    machine.links.push((
        "/usr/bin/java".to_string(),
        "/usr/lib/jvm/java-8-oracle/jre/bin/java".to_string(),
    ));
    let mut host = Host::new(Platform::Unix);
    host.legacy_java_compat = true;
    let (home, _) = machine.run(&mut host, &|h| locate_java_home(h));
    assert_eq!(home.unwrap(), "/usr/lib/jvm/java-8-oracle");
    assert_eq!(home_of(&machine, Platform::Unix).unwrap(), "/usr/lib/jvm/java-8-oracle/jre");
}

#[test]
fn home_is_read_off_a_named_path() {
    let mut host = Host::new(Platform::Unix);
    host.record_link("/opt/jdk/bin/java".to_string(), LinkAnswer::NotALink);
    match locate_from_path(&host, Lookup::Which, "/opt/jdk/bin/java") {
        Progress::Done(Ok(home)) => assert_eq!(home, "/opt/jdk"),
        other => panic!("unexpected {:?}", other),
    }
    match locate_from_path(&host, Lookup::JavaHomeUtility, "/opt/jdk/bin/java") {
        Progress::Done(Ok(home)) => assert_eq!(home, "/opt/jdk/bin/java"),
        other => panic!("unexpected {:?}", other),
    }
    match locate_from_output(&host, Lookup::Which, b" /opt/jdk/bin/java\n") {
        Progress::Done(Ok(home)) => assert_eq!(home, "/opt/jdk"),
        other => panic!("unexpected {:?}", other),
    }
    match locate_from_output(&host, Lookup::Which, b"/elsewhere/bin/java\n") {
        Progress::Need(Query::Link(path)) => assert_eq!(path, "/elsewhere/bin/java"),
        other => panic!("unexpected {:?}", other),
    }
}

#[test]
fn missing_file_fails_with_file_not_found() {
    let mut machine = Machine::new();
    machine.java_home_var = Some("/opt/empty".to_string());
    let err = file_of(&machine, Platform::Unix, "nonexistent-file").unwrap_err();
    assert_eq!(err.kind(), ErrorKind::FileNotFound);
    assert_eq!(
        err.description(),
        "Could not find the nonexistent-file library in any subdirectory of /opt/empty"
    );
}

#[test]
fn first_match_gives_its_directory() {
    let mut machine = Machine::new();
    machine.java_home_var = Some("/opt/jdk".to_string());
    machine.files.push(Ok("/opt/jdk/a/b/c/libjsig.so".to_string()));
    let found = file_of(&machine, Platform::Unix, "libjsig.so").unwrap();
    assert_eq!(found, "/opt/jdk/a/b/c");
    assert_ne!(found, "/opt/jdk/a/b/c/libjsig.so");
    assert_ne!(found, "/opt/jdk");
}

#[test]
fn first_of_several_matches_counts() {
    let mut machine = Machine::new();
    machine.java_home_var = Some("/opt/jdk".to_string());
    machine.files.push(Ok("/opt/jdk/lib/client/libjvm.so".to_string()));
    machine.files.push(Ok("/opt/jdk/lib/server/libjvm.so".to_string()));
    let mut host = Host::new(Platform::Unix);
    assert_eq!(
        machine.run(&mut host, &|h| locate_jvm_dyn_library(h)).0.unwrap(),
        "/opt/jdk/lib/client"
    );
}

#[test]
fn unreadable_directory_does_not_end_the_search() {
    let mut machine = Machine::new();
    machine.java_home_var = Some("/opt/jdk".to_string());
    machine.files.push(Err(()));
    machine.files.push(Err(()));
    machine.files.push(Ok("/opt/jdk/lib/libjsig.so".to_string()));
    let mut host = Host::new(Platform::Unix);
    let (found, asked) = machine.run(&mut host, &|h| locate_file(h, "libjsig.so"));
    assert_eq!(found.unwrap(), "/opt/jdk/lib");
    assert_eq!(
        asked[1..],
        [
            "GlobEntry { pattern: \"/opt/jdk/**/libjsig.so\", index: 0 }".to_string(),
            "GlobEntry { pattern: \"/opt/jdk/**/libjsig.so\", index: 1 }".to_string(),
            "GlobEntry { pattern: \"/opt/jdk/**/libjsig.so\", index: 2 }".to_string(),
        ]
    );
}

#[test]
fn only_unreadable_directories_means_file_not_found() {
    let mut machine = Machine::new();
    machine.java_home_var = Some("/opt/jdk".to_string());
    machine.files.push(Err(()));
    let err = file_of(&machine, Platform::Unix, "libjsig.so").unwrap_err();
    assert_eq!(err.kind(), ErrorKind::FileNotFound);
}

#[test]
fn wildcards_in_the_file_name_work() {
    let mut machine = Machine::debian();
    machine.java_home_var = Some("/usr/lib/jvm/java-11-openjdk-amd64".to_string());
    assert_eq!(
        file_of(&machine, Platform::Unix, "libjsig*").unwrap(),
        "/usr/lib/jvm/java-11-openjdk-amd64/lib"
    );
    assert_eq!(
        file_of(&machine, Platform::Unix, "jni.?").unwrap(),
        "/usr/lib/jvm/java-11-openjdk-amd64/include"
    );
}

#[test]
fn search_runs_below_the_discovered_home() {
    let machine = Machine::debian();
    assert_eq!(
        file_of(&machine, Platform::Unix, "libjsig.so").unwrap(),
        "/usr/lib/jvm/java-11-openjdk-amd64/lib"
    );
    let mut host = Host::new(Platform::Unix);
    assert_eq!(
        machine.run(&mut host, &|h| locate_jvm_dyn_library(h)).0.unwrap(),
        "/usr/lib/jvm/java-11-openjdk-amd64/lib/server"
    );
}

#[test]
fn search_fails_as_the_home_does() {
    let mut machine = Machine::new();
    machine.commands.push((Lookup::Which, Ok(Vec::new())));
    let err = file_of(&machine, Platform::Unix, "libjvm.so").unwrap_err();
    assert_eq!(err.kind(), ErrorKind::JavaNotFound);
}

#[test]
fn malformed_file_name_is_a_pattern_error() {
    let mut machine = Machine::new();
    machine.java_home_var = Some("/opt/jdk".to_string());
    let mut host = Host::new(Platform::Unix);
    let (found, asked) = machine.run(&mut host, &|h| locate_file(h, "lib[jvm"));
    let err = found.unwrap_err();
    assert_eq!(err.kind(), ErrorKind::PatternError);
    let expected = format!("{:?}", glob::Pattern::new("/opt/jdk/**/lib[jvm").unwrap_err());
    assert_eq!(err.description(), expected);
    assert_eq!(asked, vec!["JavaHomeVar".to_string()]);
    let err = file_of(&machine, Platform::Unix, "a***").unwrap_err();
    assert_eq!(err.kind(), ErrorKind::PatternError);
}

#[test]
fn pattern_refused_by_the_traversal_is_a_pattern_error() {
    let mut host = Host::new(Platform::Unix);
    host.record_java_home_var(Some("/opt/jdk".to_string()));
    host.record_glob_entry(
        "/opt/jdk/**/a[/]b".to_string(),
        GlobAnswer::Refused("PatternError { pos: 1, msg: \"invalid range pattern\" }".to_string()),
    );
    match locate_file(&host, "a[/]b") {
        Progress::Done(Err(err)) => {
            assert_eq!(err.kind(), ErrorKind::PatternError);
            assert_eq!(err.description(), "PatternError { pos: 1, msg: \"invalid range pattern\" }");
        }
        other => panic!("unexpected {:?}", other),
    }
}

#[test]
fn match_in_a_directory_that_is_no_text_is_an_encoding_error() {
    let mut host = Host::new(Platform::Unix);
    host.record_java_home_var(Some("/opt/jdk".to_string()));
    host.record_glob_entry(
        "/opt/jdk/**/libjvm.*".to_string(),
        GlobAnswer::Unrepresentable("\"/opt/jdk/\\xFF\"".to_string()),
    );
    match locate_jvm_dyn_library(&host) {
        Progress::Done(Err(err)) => {
            assert_eq!(err.kind(), ErrorKind::InvalidEncoding);
            assert_eq!(err.description(), "Java path \"/opt/jdk/\\xFF\" is invalid utf8");
        }
        other => panic!("unexpected {:?}", other),
    }
}

#[test]
fn steps_of_other_traversals_are_passed_over() {
    let mut host = Host::new(Platform::Unix);
    host.record_java_home_var(Some("/opt/jdk".to_string()));
    host.record_glob_entry("/opt/jdk/**/other".to_string(), GlobAnswer::End);
    host.record_glob_entry("/opt/jdk/**/jni.h".to_string(), GlobAnswer::Unreadable);
    match locate_file(&host, "jni.h") {
        Progress::Need(Query::GlobEntry { pattern, index }) => {
            assert_eq!(pattern, "/opt/jdk/**/jni.h");
            assert_eq!(index, 1);
        }
        other => panic!("unexpected {:?}", other),
    }
    host.record_glob_entry("/opt/jdk/**/jni.h".to_string(), GlobAnswer::Match("/opt/jdk/include/jni.h".to_string()));
    match locate_file(&host, "jni.h") {
        Progress::Done(Ok(dir)) => assert_eq!(dir, "/opt/jdk/include"),
        other => panic!("unexpected {:?}", other),
    }
}

#[test]
fn windows_library_is_looked_for_by_its_exact_name() {
    let mut host = Host::new(Platform::Windows);
    host.record_java_home_var(Some("C:\\jdk".to_string()));
    match locate_jvm_dyn_library(&host) {
        Progress::Need(Query::GlobEntry { pattern, index }) => {
            assert_eq!(pattern, "C:\\jdk/**/jvm.dll");
            assert_eq!(index, 0);
        }
        other => panic!("unexpected {:?}", other),
    }
    host.record_glob_entry(
        "C:\\jdk/**/jvm.dll".to_string(),
        GlobAnswer::Match("C:\\jdk\\bin\\server\\jvm.dll".to_string()),
    );
    match locate_jvm_dyn_library(&host) {
        Progress::Done(Ok(dir)) => assert_eq!(dir, "C:\\jdk\\bin\\server"),
        other => panic!("unexpected {:?}", other),
    }
}
