use canon::error::CanonError;
use canon::registry::dependency::Dependency;
use canon::registry::repository::CanonRepository;
use canon::registry::specification::CanonSpecification;
use std::path::PathBuf;

fn path_of(segments: &[String]) -> PathBuf {
    let mut path = PathBuf::new();
    for segment in segments {
        path.push(segment);
    }
    path
}

#[test]
fn test_parse_dependency() {
    let dep = Dependency::parse("canon-protocol.org/type@1.0.0").unwrap();
    assert_eq!(dep.publisher, "canon-protocol.org");
    assert_eq!(dep.name, "type");
    assert_eq!(dep.version, Some("1.0.0".to_string()));

    let dep_no_version = Dependency::parse("example.com/api").unwrap();
    assert_eq!(dep_no_version.publisher, "example.com");
    assert_eq!(dep_no_version.name, "api");
    assert_eq!(dep_no_version.version, None);
}

#[test]
fn test_local_path() {
    let dep = Dependency {
        publisher: "canon-protocol.org".to_string(),
        name: "type".to_string(),
        version: Some("1.0.0".to_string()),
    };

    let path = dep.local_path("spec.farm");
    assert_eq!(
        path_of(&path),
        PathBuf::from(".canon/specs/spec.farm/canon-protocol.org/type/1.0.0")
    );
    assert_eq!(
        path,
        vec![".canon", "specs", "spec.farm", "canon-protocol.org", "type", "1.0.0"]
    );
}

#[test]
fn test_registry_url() {
    let dep = Dependency {
        publisher: "canon-protocol.org".to_string(),
        name: "type".to_string(),
        version: Some("1.0.0".to_string()),
    };

    let url = dep.registry_url("https://spec.farm");
    assert_eq!(
        url,
        "https://spec.farm/specs/canon-protocol.org/type/1.0.0/"
    );

    // Test with trailing slash
    let url_with_slash = dep.registry_url("https://spec.farm/");
    assert_eq!(
        url_with_slash,
        "https://spec.farm/specs/canon-protocol.org/type/1.0.0/"
    );
}

#[test]
fn test_registry_url_without_version() {
    let dep = Dependency {
        publisher: "example.com".to_string(),
        name: "api".to_string(),
        version: None,
    };

    let url = dep.registry_url("https://registry.canon-protocol.org");
    assert_eq!(
        url,
        "https://registry.canon-protocol.org/specs/example.com/api/latest/"
    );
}

#[test]
fn registry_url_drops_every_trailing_slash() {
    let dep = Dependency::parse("a/b@1").unwrap();
    assert_eq!(dep.registry_url("https://r.example///"), "https://r.example/specs/a/b/1/");
    assert_eq!(dep.registry_url("///"), "/specs/a/b/1/");
    assert_eq!(dep.registry_url(""), "/specs/a/b/1/");
}

#[test]
fn registry_parse_keeps_the_version_as_written() {
    let dep = Dependency::parse("a/b@^1.0.0").unwrap();
    assert_eq!(dep.version, Some("^1.0.0".to_string()));
    match Dependency::parse("a-b") {
        Err(CanonError::Config { message }) => {
            assert_eq!(message, "Invalid dependency URI format: a-b")
        }
        other => panic!("unexpected: {:?}", other),
    }
}

#[test]
fn new_repository_names_the_core_dependencies() {
    let repo = CanonRepository::new();
    assert_eq!(repo.canon, "1.0");
    assert_eq!(repo.registry.default, "https://spec.farm");
    assert_eq!(
        repo.dependencies,
        vec![
            "canon-protocol.org/type@1.0.0",
            "canon-protocol.org/transformation@1.0.0",
            "canon-protocol.org/auto-version@1.0.0",
        ]
    );
    let by_default = CanonRepository::default();
    assert_eq!(by_default.dependencies, repo.dependencies);
}

#[test]
fn add_dependency_names_nothing_twice() {
    let mut repo = CanonRepository::new();
    repo.add_dependency("api.io/openapi@2.0.0".to_string());
    assert_eq!(repo.dependencies.len(), 4);
    assert_eq!(repo.dependencies[3], "api.io/openapi@2.0.0");
    repo.add_dependency("api.io/openapi@2.0.0".to_string());
    repo.add_dependency("canon-protocol.org/type@1.0.0".to_string());
    assert_eq!(repo.dependencies.len(), 4);
}

#[test]
fn new_specification_starts_with_one_source_tree() {
    let spec = CanonSpecification::new(
        "demo".to_string(),
        "library".to_string(),
        Some("someone".to_string()),
        None,
    );
    assert_eq!(spec.canon, "1.0");
    assert_eq!(spec.spec_type, "library");
    assert_eq!(spec.name, "demo");
    assert_eq!(spec.version, "0.1.0");
    let metadata = spec.metadata.unwrap();
    assert_eq!(metadata.author, Some("someone".to_string()));
    assert_eq!(metadata.license, None);
    assert_eq!(metadata.description, None);
    assert!(metadata.tags.is_none());
    let sources = spec.sources.unwrap();
    assert_eq!(sources.len(), 1);
    assert_eq!(sources[0].path, "sources/");
    assert_eq!(sources[0].source_type, "general");
    assert!(sources[0].included.is_none() && sources[0].excluded.is_none());
    assert!(spec.transformations.is_none());
    assert!(spec.output.is_none());
}
