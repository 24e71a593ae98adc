//! The settings of a package, as its manifest gives them, and the rules
//! that they must meet.
use vstd::prelude::*;
use vstd::string::StringExecFns;

verus! {

#[derive(Debug, Clone, Copy, PartialEq, Eq, Structural)]
pub enum WeslTomlPackageManager {
    Cargo,
    Npm,
}

#[derive(Debug, Clone, Copy, PartialEq, Eq, Structural)]
pub enum DependenciesAuto {
    Auto,
}

/// The `package` table of the manifest.
#[derive(Debug, Clone, PartialEq, Eq)]
pub struct WeslTomlPackage {
    pub edition: String,
    pub root: String,
    pub package_manager: Option<WeslTomlPackageManager>,
    pub dependencies: Option<DependenciesAuto>,
}

/// One line of the `dependencies` table of the manifest.
#[derive(Debug, Clone, PartialEq, Eq)]
pub struct WeslTomlDependency {
    pub package: Option<String>,
    pub path: Option<String>,
}

/// The manifest: the package and its dependencies by their local names.
#[derive(Debug, Clone, PartialEq, Eq)]
pub struct WeslToml {
    pub package: WeslTomlPackage,
    pub dependencies: Vec<(String, WeslTomlDependency)>,
}

/// Why a manifest is not accepted.
#[derive(Debug, Clone, Copy, PartialEq, Eq, Structural)]
pub enum WeslTomlError {
    UnsupportedEdition,
    UnsupportedPackageManager,
    AutoWithExplicitDependencies,
}

/// The one edition that is supported.
pub open spec fn supported_edition() -> Seq<char> {
    "unstable_2025"@
}

/// The first rule that a manifest breaks: its edition is not the
/// supported one; its package manager is npm; or it asks for automatic
/// dependencies and lists dependencies as well.
pub open spec fn first_fault(toml: WeslToml) -> Option<WeslTomlError> {
    if toml.package.edition@ != supported_edition() {
        Some(WeslTomlError::UnsupportedEdition)
    } else if toml.package.package_manager == Some(WeslTomlPackageManager::Npm) {
        Some(WeslTomlError::UnsupportedPackageManager)
    } else if toml.package.dependencies == Some(DependenciesAuto::Auto) && toml.dependencies@.len()
        > 0 {
        Some(WeslTomlError::AutoWithExplicitDependencies)
    } else {
        None
    }
}

impl WeslToml {
    /// Accepts the manifest, or names the first rule that it breaks.
    pub fn validate(&self) -> (r: Result<(), WeslTomlError>)
        ensures
            match first_fault(*self) {
                Some(e) => r == Err::<(), WeslTomlError>(e),
                None => r.is_ok(),
            },
    {
        if self.package.edition != latest_known_edition() {
            return Err(WeslTomlError::UnsupportedEdition);
        }
        let npm = match self.package.package_manager {
            Some(WeslTomlPackageManager::Npm) => true,
            Some(WeslTomlPackageManager::Cargo) => false,
            None => false,
        };
        if npm {
            return Err(WeslTomlError::UnsupportedPackageManager);
        }
        let auto = match self.package.dependencies {
            Some(DependenciesAuto::Auto) => true,
            None => false,
        };
        if auto && self.dependencies.len() > 0 {
            assert(self.package.dependencies == Some(DependenciesAuto::Auto));
            return Err(WeslTomlError::AutoWithExplicitDependencies);
        }
        Ok(())
    }
}

impl WeslTomlError {
    /// The message of the error.
    pub fn message(&self) -> (r: String)
        ensures
            r@ == match self {
                WeslTomlError::UnsupportedEdition => "only edition 'unstable_2025' is supported"@,
                WeslTomlError::UnsupportedPackageManager => "npm package manager is not supported yet"@,
                WeslTomlError::AutoWithExplicitDependencies => "cannot have both 'dependencies = \"auto\"' and explicit dependencies"@,
            },
    {
        match self {
            WeslTomlError::UnsupportedEdition => String::from_str(
                "only edition 'unstable_2025' is supported",
            ),
            WeslTomlError::UnsupportedPackageManager => String::from_str(
                "npm package manager is not supported yet",
            ),
            WeslTomlError::AutoWithExplicitDependencies => String::from_str(
                "cannot have both 'dependencies = \"auto\"' and explicit dependencies",
            ),
        }
    }
}

/// The edition that a manifest without one is taken to have.
pub fn latest_known_edition() -> (r: String)
    ensures
        r@ == supported_edition(),
{
    String::from_str("unstable_2025")
}

/// The directory of the sources that a manifest without one is taken to have.
pub fn default_root() -> (r: String)
    ensures
        r@ == "shaders"@,
{
    String::from_str("shaders")
}

/// A file of a package: its text and where it lies.
#[derive(Debug, Clone, PartialEq, Eq)]
pub struct File {
    pub source: String,
    pub path: String,
}

/// The name of the module that a file or directory stands for: its name
/// without the extension, each `-` replaced by `_`.
pub open spec fn module_name(stem: Seq<char>) -> Seq<char> {
    Seq::new(
        stem.len(),
        |i: int|
            if stem[i] == '-' {
                '_'
            } else {
                stem[i]
            },
    )
}

/// The name of the module for a file or directory with the given stem.
pub fn name_from_stem(stem: &str) -> (r: String)
    ensures
        r@ == module_name(stem@),
{
    let chars = crate::text::chars_of(stem);
    let mut r = String::new();
    let mut i: usize = 0;
    while i < chars.len()
        invariant
            i <= chars.len(),
            chars@ == stem@,
            r@ == module_name(stem@).subrange(0, i as int),
        decreases chars.len() - i,
    {
        let c = if chars[i] == '-' {
            '_'
        } else {
            chars[i]
        };
        crate::text::push_char(&mut r, c);
        assert(r@ =~= module_name(stem@).subrange(0, i + 1));
        i += 1;
    }
    assert(module_name(stem@).subrange(0, chars.len() as int) =~= module_name(stem@));
    r
}

} // verus!
