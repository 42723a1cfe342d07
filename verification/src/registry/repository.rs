//! The root document of a repository: the registry it draws on and the
//! dependencies it names.

use vstd::prelude::*;
use vstd::string::*;

verus! {

/// The registry that a repository draws on.
#[derive(Debug, Clone)]
pub struct RegistryConfig {
    pub default: String,
}

/// The root document of a repository. No dependency is named twice by
/// `add_dependency`.
#[derive(Debug, Clone)]
pub struct CanonRepository {
    pub canon: String,
    pub registry: RegistryConfig,
    pub dependencies: Vec<String>,
}

/// A repository as a plain value.
pub struct RepositoryView {
    pub canon: Seq<char>,
    pub registry: Seq<char>,
    pub dependencies: Seq<Seq<char>>,
}

impl View for CanonRepository {
    type V = RepositoryView;

    open spec fn view(&self) -> RepositoryView {
        RepositoryView {
            canon: self.canon@,
            registry: self.registry.default@,
            dependencies: self.dependencies.deep_view(),
        }
    }
}

/// Whether `uris` names `uri`.
pub open spec fn names(uris: Seq<Seq<char>>, uri: Seq<char>) -> bool {
    exists|i: int| 0 <= i < uris.len() && uris[i] == uri
}

/// The dependencies that every new repository names.
pub open spec fn core_dependencies() -> Seq<Seq<char>> {
    seq![
        "canon-protocol.org/type@1.0.0"@,
        "canon-protocol.org/transformation@1.0.0"@,
        "canon-protocol.org/auto-version@1.0.0"@,
    ]
}

/// A repository at protocol version `1.0` that draws on the default
/// registry and names the core dependencies.
pub open spec fn new_repository() -> RepositoryView {
    RepositoryView {
        canon: "1.0"@,
        registry: "https://spec.farm"@,
        dependencies: core_dependencies(),
    }
}

/// The repository with `uri` named as a dependency, after those named so
/// far; the repository as it is where it names `uri` already.
pub open spec fn with_dependency(repository: RepositoryView, uri: Seq<char>) -> RepositoryView {
    if names(repository.dependencies, uri) {
        repository
    } else {
        RepositoryView { dependencies: repository.dependencies.push(uri), ..repository }
    }
}

impl CanonRepository {
    /// A repository at protocol version `1.0` that draws on the default
    /// registry and names the core dependencies.
    pub fn new() -> (repository: CanonRepository)
        ensures
            repository@ == new_repository(),
    {
        let mut dependencies: Vec<String> = Vec::new();
        dependencies.push(String::from_str("canon-protocol.org/type@1.0.0"));
        dependencies.push(String::from_str("canon-protocol.org/transformation@1.0.0"));
        dependencies.push(String::from_str("canon-protocol.org/auto-version@1.0.0"));
        assert(dependencies.deep_view() =~= core_dependencies());
        CanonRepository {
            canon: String::from_str("1.0"),
            registry: RegistryConfig { default: String::from_str("https://spec.farm") },
            dependencies,
        }
    }

    /// Whether the repository names `uri`.
    pub fn has_dependency(&self, uri: &String) -> (r: bool)
        ensures
            r == names(self@.dependencies, uri@),
    {
        let mut i: usize = 0;
        while i < self.dependencies.len()
            invariant
                i <= self.dependencies@.len(),
                forall|k: int| 0 <= k < i ==> self.dependencies.deep_view()[k] != uri@,
            decreases self.dependencies@.len() - i,
        {
            assert(self.dependencies.deep_view()[i as int] == self.dependencies@[i as int]@);
            if self.dependencies[i] == *uri {
                return true;
            }
            i += 1;
        }
        false
    }

    /// Names `uri` as a dependency, after those named so far; nothing
    /// changes where the repository names it already.
    pub fn add_dependency(&mut self, uri: String)
        ensures
            final(self)@ == with_dependency(old(self)@, uri@),
    {
        if !self.has_dependency(&uri) {
            self.dependencies.push(uri);
            assert(self.dependencies.deep_view() =~= old(self).dependencies.deep_view().push(uri@));
        }
    }
}

impl Default for CanonRepository {
    fn default() -> (repository: CanonRepository)
        ensures
            repository@ == new_repository(),
    {
        CanonRepository::new()
    }
}

} // verus!
