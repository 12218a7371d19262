//! The platforms the locator knows, and what differs between them.

use vstd::prelude::*;

verus! {

/// The kind of system whose Java installation is looked for.
#[derive(Clone, Copy, Debug, PartialEq, Eq, Structural)]
pub enum Platform {
    Windows,
    MacOs,
    Android,
    Unix,
}

/// How paths are written on a platform.
#[derive(Clone, Copy, Debug, PartialEq, Eq, Structural)]
pub enum PathStyle {
    /// `/` separates segments; a leading `/` is the root.
    Posix,
    /// `/` and `\` separate segments; a path may start with a drive, `C:`.
    Windows,
}

/// A command that tells where Java is.
#[derive(Clone, Copy, Debug, PartialEq, Eq, Structural)]
pub enum Lookup {
    /// `where java`: prints every `java` on the search path, one per line.
    Where,
    /// `/usr/libexec/java_home`: prints the home of the active installation.
    JavaHomeUtility,
    /// `which java`: prints the `java` executable on the search path.
    Which,
}

impl Platform {
    pub open spec fn spec_path_style(self) -> PathStyle {
        if self == Platform::Windows {
            PathStyle::Windows
        } else {
            PathStyle::Posix
        }
    }

    /// How this platform writes paths.
    #[verifier::when_used_as_spec(spec_path_style)]
    pub fn path_style(self) -> (style: PathStyle)
        ensures
            style == self.spec_path_style(),
    {
        match self {
            Platform::Windows => PathStyle::Windows,
            _ => PathStyle::Posix,
        }
    }

    pub open spec fn spec_lookup(self) -> Lookup {
        match self {
            Platform::Windows => Lookup::Where,
            Platform::MacOs => Lookup::JavaHomeUtility,
            _ => Lookup::Which,
        }
    }

    /// The command this platform asks first.
    #[verifier::when_used_as_spec(spec_lookup)]
    pub fn lookup(self) -> (lookup: Lookup)
        ensures
            lookup == self.spec_lookup(),
    {
        match self {
            Platform::Windows => Lookup::Where,
            Platform::MacOs => Lookup::JavaHomeUtility,
            _ => Lookup::Which,
        }
    }
}

impl Lookup {
    pub open spec fn spec_program(self) -> Seq<char> {
        match self {
            Lookup::Where => "where"@,
            Lookup::JavaHomeUtility => "/usr/libexec/java_home"@,
            Lookup::Which => "which"@,
        }
    }

    /// The program to run.
    pub fn program(self) -> (program: &'static str)
        ensures
            program@ == self.spec_program(),
    {
        match self {
            Lookup::Where => "where",
            Lookup::JavaHomeUtility => "/usr/libexec/java_home",
            Lookup::Which => "which",
        }
    }

    pub open spec fn spec_argument(self) -> Option<Seq<char>> {
        match self {
            Lookup::JavaHomeUtility => None,
            _ => Some("java"@),
        }
    }

    /// The one argument the program is run with, if it takes one.
    pub fn argument(self) -> (argument: Option<&'static str>)
        ensures
            argument is Some == self.spec_argument() is Some,
            argument matches Some(a) ==> Some(a@) == self.spec_argument(),
    {
        match self {
            Lookup::JavaHomeUtility => None,
            _ => Some("java"),
        }
    }

    pub open spec fn spec_fallback(self) -> Option<Lookup> {
        match self {
            Lookup::JavaHomeUtility => Some(Lookup::Which),
            _ => None,
        }
    }

    /// The command to ask when this one cannot be started.
    #[verifier::when_used_as_spec(spec_fallback)]
    pub fn fallback(self) -> (next: Option<Lookup>)
        ensures
            next == self.spec_fallback(),
    {
        match self {
            Lookup::JavaHomeUtility => Some(Lookup::Which),
            _ => None,
        }
    }

    pub open spec fn spec_names_executable(self) -> bool {
        self != Lookup::JavaHomeUtility
    }

    /// Whether the command prints the path of the `java` executable, not
    /// that of the Java home.
    #[verifier::when_used_as_spec(spec_names_executable)]
    pub fn names_executable(self) -> (b: bool)
        ensures
            b == self.spec_names_executable(),
    {
        match self {
            Lookup::JavaHomeUtility => false,
            _ => true,
        }
    }

    pub open spec fn spec_lists_candidates(self) -> bool {
        self == Lookup::Where
    }

    /// Whether the command may print several lines, the first of which counts.
    #[verifier::when_used_as_spec(spec_lists_candidates)]
    pub fn lists_candidates(self) -> (b: bool)
        ensures
            b == self.spec_lists_candidates(),
    {
        match self {
            Lookup::Where => true,
            _ => false,
        }
    }
}

/// The file name of the JVM's dynamic library on `platform`.
pub open spec fn jvm_dyn_lib_file_name(platform: Platform) -> Seq<char> {
    match platform {
        Platform::Windows => "jvm.dll"@,
        Platform::MacOs => "libjvm.dylib"@,
        _ => "libjvm.so"@,
    }
}

/// Returns the name of the JVM dynamic library: `jvm.dll` on Windows,
/// `libjvm.dylib` on macOS, `libjvm.so` elsewhere.
pub fn get_jvm_dyn_lib_file_name(platform: Platform) -> (name: &'static str)
    ensures
        name@ == jvm_dyn_lib_file_name(platform),
{
    match platform {
        Platform::Windows => "jvm.dll",
        Platform::MacOs => "libjvm.dylib",
        _ => "libjvm.so",
    }
}

/// The pattern that finds the JVM's dynamic library on `platform`.
pub open spec fn jvm_dyn_lib_pattern(platform: Platform) -> Seq<char> {
    if platform == Platform::Windows {
        "jvm.dll"@
    } else {
        "libjvm.*"@
    }
}

/// The pattern that finds the JVM's dynamic library: the exact name on
/// Windows, `libjvm.*` elsewhere, which covers `.so` and `.dylib`.
pub fn get_jvm_dyn_lib_pattern(platform: Platform) -> (pattern: &'static str)
    ensures
        pattern@ == jvm_dyn_lib_pattern(platform),
{
    match platform {
        Platform::Windows => "jvm.dll",
        _ => "libjvm.*",
    }
}

} // verus!
