use canon::commands::add::{add_dependency, has_text_value};
use canon::commands::clean::{check_project, drop_line, lines, strip_gitignore_entry};
use canon::commands::init::{
    add_to_gitignore, check_overwrite, create_project_spec, format_title, get_default_values,
    is_valid_project_id, is_valid_publisher_input, next_steps, with_dashes,
};
use canon::commands::install::{
    dependencies_of, manifest_url, replace_all, signature_url, InstallOutcome, InstallTally,
};
use canon::commands::publish::{
    bearer, build_path, discovery_failed, discovery_url, has_method, is_registry_url,
    publication_failed, publish_endpoint, publish_url, token_needed, verify_domain_ownership,
    AuthenticationConfig, DnsVerificationConfig, EndpointsConfig, HttpsVerificationConfig,
    RegistryCapabilities, VerificationConfig, VerificationStep,
};
use canon::error::{CanonError, ProtocolError};
use canon::registry::install::{domain_of_host, extract_domain};
use canon::text::{
    chars_of, count_char, decimal_text, find_char, has_prefix, has_suffix, has_text, join,
    parses_as_u32, same_text,
};
use canon::value::{Number, Value};

fn text(s: &str) -> Value {
    Value::String(s.to_string())
}

#[test]
fn title_capitalises_each_word() {
    assert_eq!(format_title("my-project"), "My Project");
    assert_eq!(format_title("a"), "A");
    assert_eq!(format_title(""), "");
    assert_eq!(format_title("-"), " ");
    assert_eq!(format_title("a--b-"), "A  B ");
    assert_eq!(format_title("-lead"), " Lead");
    assert_eq!(format_title("already-Upper"), "Already Upper");
    assert_eq!(format_title("9-lives"), "9 Lives");
    assert_eq!(format_title("ßeta-éa"), "SSeta Éa");
    assert_eq!(format_title("with space-x"), "With space X");
}

#[test]
fn default_values_come_from_the_directory_name() {
    let (id, title, description, publisher, version) = get_default_values(Some("My Cool_Project"));
    assert_eq!(id, "my-cool-project");
    assert_eq!(title, "My Cool Project");
    assert_eq!(description, "A Canon Protocol project");
    assert_eq!(publisher, "example.com");
    assert_eq!(version, "0.1.0");

    let (id, title, _, _, _) = get_default_values(None);
    assert_eq!(id, "my-project");
    assert_eq!(title, "My Project");

    let (id, _, _, _, _) = get_default_values(Some("ÄB c"));
    assert_eq!(id, "äb-c");
}

#[test]
fn dashes_replace_spaces_and_underscores() {
    assert_eq!(with_dashes("a b_c-d"), "a-b-c-d");
    assert_eq!(with_dashes("  __"), "----");
    assert_eq!(with_dashes(""), "");
}

#[test]
fn entered_values_are_checked() {
    assert!(is_valid_project_id("my-project-2"));
    assert!(is_valid_project_id(""));
    assert!(!is_valid_project_id("My-project"));
    assert!(!is_valid_project_id("my_project"));
    assert!(!is_valid_project_id("café"));
    assert!(is_valid_publisher_input("example.com"));
    assert!(is_valid_publisher_input("localhost"));
    assert!(!is_valid_publisher_input("example"));
    assert!(!is_valid_publisher_input(""));
}

#[test]
fn existing_document_needs_force() {
    assert!(check_overwrite(false, false).is_ok());
    assert!(check_overwrite(false, true).is_ok());
    assert!(check_overwrite(true, true).is_ok());
    match check_overwrite(true, false) {
        Err(CanonError::Command { message }) => {
            assert_eq!(message, "canon.yml already exists. Use --force to overwrite.")
        }
        other => panic!("unexpected: {:?}", other),
    }
}

#[test]
fn first_document_depends_on_the_type_of_types() {
    let spec = create_project_spec("demo", "0.1.0", "example.com", "Demo", "A demo");
    assert_eq!(spec.canon, "1.0");
    assert_eq!(spec.type_reference, "canon-protocol.org/project@1.0.0");
    assert_eq!(spec.metadata.id, "demo");
    assert_eq!(spec.metadata.version, "0.1.0");
    assert_eq!(spec.metadata.publisher, "example.com");
    assert_eq!(spec.metadata.title, Some("Demo".to_string()));
    assert_eq!(spec.metadata.description, Some("A demo".to_string()));
    assert!(spec.includes.is_none());
    assert!(spec.schema.is_none());
    assert_eq!(spec.content.len(), 1);
    assert_eq!(spec.content[0].0, "dependencies");
    assert!(spec.content[0]
        .1
        .same(&Value::Sequence(vec![text("canon-protocol.org/type@1.0.0")])));
    assert_eq!(dependencies_of(&spec.content), vec!["canon-protocol.org/type@1.0.0"]);
}

#[test]
fn ignore_file_gets_the_store_once() {
    assert_eq!(add_to_gitignore(None), Some(".canon/\n".to_string()));
    assert_eq!(add_to_gitignore(Some("")), Some("\n.canon/\n".to_string()));
    assert_eq!(
        add_to_gitignore(Some("target\n")),
        Some("target\n.canon/\n".to_string())
    );
    assert_eq!(
        add_to_gitignore(Some("target")),
        Some("target\n.canon/\n".to_string())
    );
    assert_eq!(add_to_gitignore(Some("target\n.canon/\n")), None);
    assert_eq!(add_to_gitignore(Some("x/.canon/y")), None);
}

#[test]
fn next_steps_start_with_the_publisher_where_it_is_the_default() {
    assert_eq!(
        next_steps("example.com"),
        vec![
            "  1. Update the publisher field in canon.yml to your domain",
            "  2. Run canon validate to validate your specification",
            "  3. Run canon add <uri> to add dependencies as needed",
        ]
    );
    assert_eq!(
        next_steps("mine.org"),
        vec![
            "  1. Run canon validate to validate your specification",
            "  2. Run canon add <uri> to add dependencies as needed",
        ]
    );
}

#[test]
fn dependency_is_added_behind_the_others() {
    let mut content = vec![
        ("title".to_string(), text("x")),
        ("dependencies".to_string(), Value::Sequence(vec![text("a/b@1.0.0")])),
        ("more".to_string(), Value::Null),
    ];
    assert_eq!(add_dependency(&mut content, "c/d@2.0.0").unwrap(), true);
    assert_eq!(content.len(), 3);
    assert_eq!(content[0].0, "title");
    assert_eq!(content[1].0, "dependencies");
    assert_eq!(content[2].0, "more");
    assert!(content[1]
        .1
        .same(&Value::Sequence(vec![text("a/b@1.0.0"), text("c/d@2.0.0")])));

    assert_eq!(add_dependency(&mut content, "a/b@1.0.0").unwrap(), false);
    assert_eq!(add_dependency(&mut content, "c/d@2.0.0").unwrap(), false);
    assert_eq!(dependencies_of(&content), vec!["a/b@1.0.0", "c/d@2.0.0"]);
}

#[test]
fn dependencies_are_created_where_there_are_none() {
    let mut content = vec![("title".to_string(), text("x"))];
    assert_eq!(add_dependency(&mut content, "a/b").unwrap(), true);
    assert_eq!(content.len(), 2);
    assert_eq!(content[1].0, "dependencies");
    assert!(content[1].1.same(&Value::Sequence(vec![text("a/b")])));
}

#[test]
fn dependency_is_refused_where_it_cannot_be_added() {
    let mut content = vec![("dependencies".to_string(), text("a/b"))];
    match add_dependency(&mut content, "c/d") {
        Err(CanonError::Config { message }) => {
            assert_eq!(message, "Dependencies field must be an array")
        }
        other => panic!("unexpected: {:?}", other),
    }
    assert!(content[0].1.same(&text("a/b")));

    let mut content = vec![("dependencies".to_string(), Value::Sequence(vec![]))];
    match add_dependency(&mut content, "not a reference") {
        Err(CanonError::Protocol(ProtocolError::InvalidUri(message))) => assert_eq!(
            message,
            "Invalid dependency URI format: not a reference. Expected format: \
             publisher/id[@version]"
        ),
        other => panic!("unexpected: {:?}", other),
    }
    assert!(content[0].1.same(&Value::Sequence(vec![])));
}

#[test]
fn text_values_are_found_among_values() {
    let values = vec![Value::Null, text("a"), Value::Number(Number::PosInt(1))];
    assert!(has_text_value(&values, &"a".to_string()));
    assert!(!has_text_value(&values, &"1".to_string()));
    assert!(!has_text_value(&Vec::new(), &"a".to_string()));
}

#[test]
fn named_dependencies_are_the_texts_of_the_sequence() {
    let content = vec![
        ("other".to_string(), Value::Sequence(vec![text("no")])),
        (
            "dependencies".to_string(),
            Value::Sequence(vec![
                text("a/b@1"),
                Value::Number(Number::PosInt(3)),
                Value::Null,
                text("c/d"),
                Value::Sequence(vec![text("nested")]),
            ]),
        ),
    ];
    assert_eq!(dependencies_of(&content), vec!["a/b@1", "c/d"]);
    assert!(dependencies_of(&Vec::new()).is_empty());
    let content = vec![("dependencies".to_string(), text("a/b"))];
    assert!(dependencies_of(&content).is_empty());
}

#[test]
fn tally_counts_each_outcome_once() {
    let mut tally = InstallTally::new(4);
    assert!(!tally.is_complete());
    tally.record(InstallOutcome::Installed);
    tally.record(InstallOutcome::AlreadyInstalled);
    tally.record(InstallOutcome::Failed);
    tally.record(InstallOutcome::Failed);
    assert_eq!(
        tally,
        InstallTally { total: 4, installed: 1, skipped: 1, failed: 2 }
    );
    assert!(tally.is_complete());
    tally.record(InstallOutcome::Installed);
    assert_eq!(
        tally,
        InstallTally { total: 4, installed: 1, skipped: 1, failed: 2 }
    );
    match tally.finish() {
        Err(CanonError::Command { message }) => {
            assert_eq!(message, "2 dependencies failed to install")
        }
        other => panic!("unexpected: {:?}", other),
    }
    let mut fine = InstallTally::new(1);
    fine.record(InstallOutcome::AlreadyInstalled);
    assert!(fine.finish().is_ok());
    assert!(InstallTally::new(0).finish().is_ok());
    assert!(InstallTally::new(0).is_complete());
}

#[test]
fn companion_files_stand_beside_the_document() {
    let url = "https://canon.canon-protocol.org/a/b/1.0.0/canon.yml";
    assert_eq!(
        manifest_url(url),
        "https://canon.canon-protocol.org/a/b/1.0.0/canon-manifest.yml"
    );
    assert_eq!(
        signature_url(url),
        "https://canon.canon-protocol.org/a/b/1.0.0/canon-signature.yml"
    );
    assert_eq!(manifest_url("x/canon.yml/canon.yml"), "x/canon-manifest.yml/canon-manifest.yml");
    assert_eq!(manifest_url("nothing"), "nothing");
}

#[test]
fn replace_all_agrees_with_the_standard_library() {
    let cases = [
        ("", "a", "b"),
        ("aaa", "a", "bb"),
        ("aaa", "aa", "b"),
        ("abcabc", "bc", ""),
        ("abcabc", "abcabc", "x"),
        ("abcabc", "abcabcd", "x"),
        ("ababab", "aba", "-"),
        ("héllo wörld", "ö", "oe"),
        ("a/canon.yml", "/canon.yml", "/canon-manifest.yml"),
        ("tail/canon.ym", "/canon.yml", "!"),
        ("unchanged", "", "x"),
    ];
    for (s, pattern, replacement) in cases {
        let expected = if pattern.is_empty() {
            s.to_string()
        } else {
            s.replace(pattern, replacement)
        };
        assert_eq!(replace_all(s, pattern, replacement), expected, "{:?}", (s, pattern));
    }
}

#[test]
fn lines_agree_with_the_standard_library() {
    let cases = [
        "",
        "\n",
        "a",
        "a\n",
        "a\nb",
        "a\r\nb\r\n",
        "a\r",
        "a\r\n\r\n",
        "\r\n",
        "\r",
        "a\n\nb\n",
        "a\rb\nc",
        "\n\n\n",
        "x\r\r\ny",
        ".canon/\ntarget\n",
    ];
    for case in cases {
        let expected: Vec<String> = case.lines().map(String::from).collect();
        assert_eq!(lines(case), expected, "{:?}", case);
    }
}

#[test]
fn store_is_taken_out_of_the_ignore_file() {
    assert_eq!(
        strip_gitignore_entry("target\n.canon/\nnode_modules\n"),
        Some("target\nnode_modules".to_string())
    );
    assert_eq!(strip_gitignore_entry(".canon/"), Some("".to_string()));
    assert_eq!(strip_gitignore_entry(".canon/\n.canon/\n"), Some("".to_string()));
    assert_eq!(
        strip_gitignore_entry("a\r\n.canon/\r\nb"),
        Some("a\nb".to_string())
    );
    assert_eq!(strip_gitignore_entry("é\n.canon/"), Some("é".to_string()));
    // Nothing is written where no line names the store.
    assert_eq!(strip_gitignore_entry("target\n"), None);
    assert_eq!(strip_gitignore_entry("target"), None);
    assert_eq!(strip_gitignore_entry(""), None);
    assert_eq!(strip_gitignore_entry("a\nb"), None);
    assert_eq!(strip_gitignore_entry("a\r\nb\r\n"), None);
    // A line that only holds the entry among other text stays.
    assert_eq!(strip_gitignore_entry("x.canon/\ny"), None);
    assert_eq!(strip_gitignore_entry(" .canon/\n"), None);
    for case in ["target\n.canon/\nnode_modules\n", "a\r\nb", "é\n.canon/", "a\n\n"] {
        let kept: Vec<&str> = case.lines().filter(|line| *line != ".canon/").collect();
        let expected = if case.lines().any(|line| line == ".canon/") {
            Some(kept.join("\n"))
        } else {
            None
        };
        assert_eq!(strip_gitignore_entry(case), expected, "{:?}", case);
    }
}

#[test]
fn lines_are_dropped_by_their_text() {
    let all = vec!["a".to_string(), "x".to_string(), "b".to_string(), "x".to_string()];
    assert_eq!(drop_line(&all, "x"), vec!["a", "b"]);
    assert_eq!(drop_line(&all, "y"), all);
    assert!(drop_line(&Vec::new(), "x").is_empty());
}

#[test]
fn cleaning_needs_a_project() {
    assert!(check_project(true, false).is_ok());
    assert!(check_project(false, true).is_ok());
    assert!(check_project(true, true).is_ok());
    match check_project(false, false) {
        Err(CanonError::Command { message }) => {
            assert_eq!(message, "No Canon project found in current directory")
        }
        other => panic!("unexpected: {:?}", other),
    }
}

fn registry() -> RegistryCapabilities {
    RegistryCapabilities {
        name: "Example".to_string(),
        url: "https://registry.example".to_string(),
        api_version: "1".to_string(),
        read_only: false,
        authentication: None,
        verification: None,
        endpoints: EndpointsConfig {
            discovery: "/.well-known/canon-registry".to_string(),
            packages: "/packages".to_string(),
            download: "/download".to_string(),
            publish: Some("/publish".to_string()),
        },
    }
}

#[test]
fn registry_addresses_start_with_a_scheme() {
    assert!(is_registry_url("https://registry.example"));
    assert!(is_registry_url("http://localhost:8080"));
    assert!(is_registry_url("http://"));
    assert!(!is_registry_url("ftp://registry.example"));
    assert!(!is_registry_url("registry.example"));
    assert!(!is_registry_url(" https://registry.example"));
    assert!(!is_registry_url(""));
}

#[test]
fn registry_says_what_it_offers_at_a_well_known_address() {
    assert_eq!(
        discovery_url("https://registry.example"),
        "https://registry.example/.well-known/canon-registry"
    );
    match discovery_failed("https://registry.example") {
        CanonError::Command { message } => assert_eq!(
            message,
            "Failed to discover registry capabilities at \
             https://registry.example/.well-known/canon-registry\nThe registry may not \
             implement the Canon Registry specification."
        ),
        other => panic!("unexpected: {:?}", other),
    }
}

#[test]
fn publishing_needs_a_writable_registry_with_an_endpoint() {
    assert_eq!(publish_endpoint(&registry()).unwrap(), "/publish");

    let mut read_only = registry();
    read_only.read_only = true;
    match publish_endpoint(&read_only) {
        Err(CanonError::Command { message }) => assert_eq!(
            message,
            "Registry 'Example' is read-only and does not accept publications"
        ),
        other => panic!("unexpected: {:?}", other),
    }

    let mut closed = registry();
    closed.endpoints.publish = None;
    match publish_endpoint(&closed) {
        Err(CanonError::Command { message }) => {
            assert_eq!(message, "Registry does not provide a publish endpoint")
        }
        other => panic!("unexpected: {:?}", other),
    }
    closed.read_only = true;
    match publish_endpoint(&closed) {
        Err(CanonError::Command { message }) => assert_eq!(
            message,
            "Registry 'Example' is read-only and does not accept publications"
        ),
        other => panic!("unexpected: {:?}", other),
    }
}

#[test]
fn token_is_asked_for_where_it_is_required_and_missing() {
    let mut capabilities = registry();
    assert!(!token_needed(&capabilities, &None));
    capabilities.authentication = Some(AuthenticationConfig {
        required: false,
        methods: Vec::new(),
        endpoints: None,
    });
    assert!(!token_needed(&capabilities, &None));
    capabilities.authentication = Some(AuthenticationConfig {
        required: true,
        methods: vec!["token".to_string()],
        endpoints: None,
    });
    assert!(token_needed(&capabilities, &None));
    assert!(!token_needed(&capabilities, &Some("secret".to_string())));
}

#[test]
fn domain_is_verified_by_record_before_file() {
    let dns = DnsVerificationConfig {
        prefix: "_canon".to_string(),
        format: "canon-verify={token}".to_string(),
        ttl: None,
    };
    let file = HttpsVerificationConfig {
        path: "/.well-known/canon-verify".to_string(),
        format: "{token}".to_string(),
    };
    let both = VerificationConfig {
        methods: vec!["https-file".to_string(), "dns-txt".to_string()],
        dns_txt: Some(dns.clone()),
        https_file: Some(file.clone()),
    };
    match verify_domain_ownership("example.com", &both) {
        Ok(VerificationStep::DnsTxt { record }) => assert_eq!(record, "_canon.example.com"),
        other => panic!("unexpected: {:?}", other),
    }
    let unconfigured = VerificationConfig {
        methods: vec!["dns-txt".to_string(), "https-file".to_string()],
        dns_txt: None,
        https_file: Some(file.clone()),
    };
    match verify_domain_ownership("example.com", &unconfigured) {
        Ok(VerificationStep::HttpsFile { url }) => {
            assert_eq!(url, "https://example.com/.well-known/canon-verify")
        }
        other => panic!("unexpected: {:?}", other),
    }
    let unnamed = VerificationConfig {
        methods: vec!["email".to_string()],
        dns_txt: Some(dns),
        https_file: Some(file),
    };
    match verify_domain_ownership("example.com", &unnamed) {
        Err(CanonError::Command { message }) => {
            assert_eq!(message, "No supported verification method available")
        }
        other => panic!("unexpected: {:?}", other),
    }
    assert!(has_method(&unnamed.methods, "email"));
    assert!(!has_method(&unnamed.methods, "dns-txt"));
}

#[test]
fn publication_goes_to_the_endpoint() {
    assert_eq!(
        publish_url("https://registry.example", "/publish"),
        "https://registry.example/publish"
    );
    assert_eq!(
        publish_url("https://registry.example", "https://upload.example/publish"),
        "https://upload.example/publish"
    );
    assert_eq!(publish_url("https://r", "httpx"), "httpx");
    assert_eq!(publish_url("https://r", ""), "https://r");
    assert_eq!(bearer("secret"), "Bearer secret");
    assert_eq!(
        build_path("example.com", "demo", "0.1.0"),
        vec![".canon", "localhost", "example.com", "demo", "0.1.0"]
    );
    match publication_failed("403 Forbidden", "no") {
        CanonError::Network { message } => {
            assert_eq!(message, "Publication failed (status: 403 Forbidden): no")
        }
        other => panic!("unexpected: {:?}", other),
    }
}

#[test]
fn registry_domain_is_the_host_of_its_address() {
    assert_eq!(extract_domain("https://spec.farm").unwrap(), "spec.farm");
    assert_eq!(
        extract_domain("https://Registry.Canon-Protocol.org:8443/specs/").unwrap(),
        "registry.canon-protocol.org"
    );
    assert_eq!(extract_domain("http://127.0.0.1/x").unwrap(), "127.0.0.1");
    match extract_domain("spec.farm") {
        Err(CanonError::Config { message }) => {
            assert_eq!(message, "Invalid registry URL: relative URL without a base")
        }
        other => panic!("unexpected: {:?}", other),
    }
    match extract_domain("https://") {
        Err(CanonError::Config { message }) => assert_eq!(message, "Invalid registry URL: empty host"),
        other => panic!("unexpected: {:?}", other),
    }
    match extract_domain("data:text/plain,Stuff") {
        Err(CanonError::Config { message }) => assert_eq!(message, "Registry URL must have a host"),
        other => panic!("unexpected: {:?}", other),
    }
}

#[test]
fn host_decides_the_domain() {
    assert_eq!(
        domain_of_host(Ok(Some("spec.farm".to_string()))).unwrap(),
        "spec.farm"
    );
    match domain_of_host(Ok(None)) {
        Err(CanonError::Config { message }) => assert_eq!(message, "Registry URL must have a host"),
        other => panic!("unexpected: {:?}", other),
    }
    match domain_of_host(Err("empty host".to_string())) {
        Err(CanonError::Config { message }) => {
            assert_eq!(message, "Invalid registry URL: empty host")
        }
        other => panic!("unexpected: {:?}", other),
    }
}

#[test]
fn text_helpers_agree_with_the_standard_library() {
    let samples = ["", "a", "ab", "abc", "b", "bc", "c", "abcabc", "é", "aé", "éa", "x/y@z"];
    for s in samples {
        assert_eq!(chars_of(s), s.chars().collect::<Vec<char>>());
        for part in samples {
            assert_eq!(has_prefix(s, part), s.starts_with(part), "{:?}", (s, part));
            assert_eq!(has_suffix(s, part), s.ends_with(part), "{:?}", (s, part));
            assert_eq!(has_text(s, part), s.contains(part), "{:?}", (s, part));
            assert_eq!(same_text(s, part), s == part);
        }
        let chars = chars_of(s);
        for c in ['a', 'c', 'é', '/', '@'] {
            assert_eq!(count_char(&chars, c), s.matches(c).count());
            assert_eq!(
                find_char(&chars, c),
                s.chars().position(|x| x == c).unwrap_or(s.chars().count())
            );
        }
    }
    let parts = vec!["a".to_string(), "".to_string(), "b".to_string()];
    assert_eq!(join(&parts, ", "), "a, , b");
    assert_eq!(join(&Vec::new(), ", "), "");
    assert_eq!(join(&parts[..1].to_vec(), ", "), "a");
}

#[test]
fn numbers_are_written_and_read_in_decimal() {
    for n in [0u64, 1, 9, 10, 11, 99, 100, 12345, 4294967295, 4294967296, u64::MAX] {
        assert_eq!(decimal_text(n), n.to_string());
    }
    for s in [
        "0", "00", "1", "+1", "+0", "4294967295", "4294967296", "04294967295", "", "+", "-", "-1",
        "++1", "1+", "1 ", " 1", "1_000", "0x10", "１", "٣", "99999999999999999999999999",
    ] {
        assert_eq!(parses_as_u32(&chars_of(s)), s.parse::<u32>().is_ok(), "{:?}", s);
    }
}
