use canon::dependency::{Dependency, VersionOperator};
use canon::error::ProtocolError;
use std::path::PathBuf;

fn path_of(segments: &[String]) -> PathBuf {
    let mut path = PathBuf::new();
    for segment in segments {
        path.push(segment);
    }
    path
}

#[test]
fn dependency_test_parse_dependency() {
    let dep = Dependency::parse("canon-protocol.org/type@1.0.0").unwrap();
    assert_eq!(dep.publisher, "canon-protocol.org");
    assert_eq!(dep.id, "type");
    assert_eq!(dep.version, Some("1.0.0".to_string()));
    assert_eq!(dep.version_operator, None);

    let dep_no_version = Dependency::parse("example.com/api").unwrap();
    assert_eq!(dep_no_version.publisher, "example.com");
    assert_eq!(dep_no_version.id, "api");
    assert_eq!(dep_no_version.version, None);
    assert_eq!(dep_no_version.version_operator, None);
}

#[test]
fn test_parse_dependency_with_operators() {
    let dep_caret = Dependency::parse("profiles.org/author@^1.0.0").unwrap();
    assert_eq!(dep_caret.publisher, "profiles.org");
    assert_eq!(dep_caret.id, "author");
    assert_eq!(dep_caret.version, Some("1.0.0".to_string()));
    assert_eq!(dep_caret.version_operator, Some(VersionOperator::Caret));

    let dep_tilde = Dependency::parse("standards.org/metadata@~2.1.0").unwrap();
    assert_eq!(dep_tilde.publisher, "standards.org");
    assert_eq!(dep_tilde.id, "metadata");
    assert_eq!(dep_tilde.version, Some("2.1.0".to_string()));
    assert_eq!(dep_tilde.version_operator, Some(VersionOperator::Tilde));
}

#[test]
fn dependency_test_local_path() {
    let dep = Dependency {
        publisher: "canon-protocol.org".to_string(),
        id: "type".to_string(),
        version: Some("1.0.0".to_string()),
        version_operator: None,
    };

    let path = dep.local_path();
    assert_eq!(path, vec![".canon", "canon-protocol.org", "type", "1.0.0"]);
    assert_eq!(
        path_of(&path),
        PathBuf::from(".canon/canon-protocol.org/type/1.0.0")
    );
}

#[test]
fn test_canon_url() {
    let dep = Dependency {
        publisher: "canon-protocol.org".to_string(),
        id: "type".to_string(),
        version: Some("1.0.0".to_string()),
        version_operator: None,
    };

    let url = dep.canon_url();
    assert_eq!(
        url,
        "https://canon.canon-protocol.org/canon-protocol.org/type/1.0.0/canon.yml"
    );
}

#[test]
fn test_to_uri() {
    let dep = Dependency {
        publisher: "canon-protocol.org".to_string(),
        id: "type".to_string(),
        version: Some("1.0.0".to_string()),
        version_operator: None,
    };
    assert_eq!(dep.to_uri(), "canon-protocol.org/type@1.0.0");

    let dep_caret = Dependency {
        publisher: "profiles.org".to_string(),
        id: "author".to_string(),
        version: Some("1.0.0".to_string()),
        version_operator: Some(VersionOperator::Caret),
    };
    assert_eq!(dep_caret.to_uri(), "profiles.org/author@^1.0.0");
}

#[test]
fn parse_rejects_paths_without_exactly_one_slash() {
    for uri in ["", "publisher", "a/b/c", "a/b/c@1.0.0", "@1.0.0", "nothing@a/b"] {
        match Dependency::parse(uri) {
            Err(ProtocolError::InvalidUri(message)) => assert_eq!(
                message,
                format!(
                    "Invalid dependency URI format: {}. Expected format: publisher/id[@version]",
                    uri
                )
            ),
            other => panic!("{:?} should be refused, got {:?}", uri, other),
        }
    }
}

#[test]
fn parse_then_write_gives_the_text_back() {
    for uri in [
        "publisher/id",
        "publisher/id@1.2.3",
        "publisher/id@^1.2.3",
        "publisher/id@~1.2.3",
        "a/b@",
        "a/b@^",
        "a/b@^^1",
        "/@",
        "a/b@c@d/e",
    ] {
        let dep = Dependency::parse(uri).unwrap();
        assert_eq!(dep.to_uri(), uri);
    }
}

#[test]
fn parse_splits_at_the_first_at_sign_only() {
    let dep = Dependency::parse("a/b@1.0@x/y").unwrap();
    assert_eq!(dep.publisher, "a");
    assert_eq!(dep.id, "b");
    assert_eq!(dep.version, Some("1.0@x/y".to_string()));
    assert_eq!(dep.version_operator, None);
}

#[test]
fn canon_url_defaults_to_latest() {
    let dep = Dependency::parse("example.com/api").unwrap();
    assert_eq!(
        dep.canon_url(),
        "https://canon.canon-protocol.org/example.com/api/latest/canon.yml"
    );
    assert_eq!(dep.local_path(), vec![".canon", "example.com", "api"]);
}

#[test]
fn protocol_error_text_names_its_kind() {
    assert_eq!(
        ProtocolError::InvalidUri("x".to_string()).message(),
        "Invalid URI format: x"
    );
    assert_eq!(
        ProtocolError::Yaml("bad".to_string()).message(),
        "YAML error: bad"
    );
}

#[test]
fn empty_version_segment_is_an_empty_version() {
    let dep = Dependency::parse("a/b@").unwrap();
    assert_eq!(dep.version, Some(String::new()));
    assert_eq!(dep.version_operator, None);

    let dep = Dependency::parse("a/b@^").unwrap();
    assert_eq!(dep.version, Some(String::new()));
    assert_eq!(dep.version_operator, Some(VersionOperator::Caret));

    let dep = Dependency::parse("a/b@~^1").unwrap();
    assert_eq!(dep.version, Some("^1".to_string()));
    assert_eq!(dep.version_operator, Some(VersionOperator::Tilde));

    let dep = Dependency::parse("/").unwrap();
    assert_eq!(dep.publisher, "");
    assert_eq!(dep.id, "");
    assert_eq!(dep.version, None);
}

#[test]
fn operator_without_version_is_not_written() {
    let dep = Dependency {
        publisher: "a".to_string(),
        id: "b".to_string(),
        version: None,
        version_operator: Some(VersionOperator::Tilde),
    };
    assert_eq!(dep.to_uri(), "a/b");
    let dep = Dependency {
        publisher: "a".to_string(),
        id: "b".to_string(),
        version: Some("2.1.0".to_string()),
        version_operator: Some(VersionOperator::Tilde),
    };
    assert_eq!(dep.to_uri(), "a/b@~2.1.0");
    let again = Dependency::parse(&dep.to_uri()).unwrap();
    assert_eq!(again.publisher, dep.publisher);
    assert_eq!(again.id, dep.id);
    assert_eq!(again.version, dep.version);
    assert_eq!(again.version_operator, dep.version_operator);
}
