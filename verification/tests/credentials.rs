use autodok::credentials::{
    credentials_from_decoded, parse_repository, registry_credentials, split_credentials,
    DockerConfig,
};

#[test]
fn repository_without_slash_is_on_the_default_registry() {
    let r = parse_repository("nginx:latest");
    assert_eq!(r.registry, "docker.io");
    assert_eq!(r.image, "nginx:latest");
}

#[test]
fn repository_with_an_organisation_is_on_the_default_registry() {
    let r = parse_repository("library/nginx");
    assert_eq!(r.registry, "docker.io");
    assert_eq!(r.image, "library/nginx");
}

#[test]
fn repository_with_a_host_names_its_registry() {
    let r = parse_repository("ghcr.io/owner/app:1.0");
    assert_eq!(r.registry, "ghcr.io");
    assert_eq!(r.image, "owner/app:1.0");
    let r = parse_repository("localhost:5000/python_server:abc");
    assert_eq!(r.registry, "localhost:5000");
    assert_eq!(r.image, "python_server:abc");
    let r = parse_repository("localhost/app");
    assert_eq!(r.registry, "localhost");
    assert_eq!(r.image, "app");
    let r = parse_repository("docker.io/library/nginx");
    assert_eq!(r.registry, "docker.io");
    assert_eq!(r.image, "library/nginx");
}

#[test]
fn split_credentials_splits_at_the_first_colon() {
    let (u, p) = split_credentials("user:pa:ss").unwrap();
    assert_eq!(u, "user");
    assert_eq!(p, "pa:ss");
    assert!(split_credentials("nocolon").is_none());
    let (u, p) = split_credentials(":").unwrap();
    assert_eq!(u, "");
    assert_eq!(p, "");
}

#[test]
fn credentials_from_decoded_needs_utf8() {
    let (u, p) = credentials_from_decoded(b"me:secret".to_vec()).unwrap();
    assert_eq!(u, "me");
    assert_eq!(p, "secret");
    assert!(credentials_from_decoded(vec![0xff, b':', b'a']).is_none());
}

fn sample_config() -> DockerConfig {
    let mut config = DockerConfig::new();
    // "user:pass"
    config.insert("ghcr.io".to_string(), "dXNlcjpwYXNz".to_string());
    // "user" (no colon)
    config.insert("nocolon.io".to_string(), "dXNlcg==".to_string());
    // not base64
    config.insert("broken.io".to_string(), "***".to_string());
    // a single 0xff byte
    config.insert("binary.io".to_string(), "/w==".to_string());
    config
}

#[test]
fn docker_config_get_decodes_the_auth_field() {
    let config = sample_config();
    let (u, p) = config.get("ghcr.io").unwrap();
    assert_eq!(u, "user");
    assert_eq!(p, "pass");
    assert!(config.get("nocolon.io").is_none());
    assert!(config.get("broken.io").is_none());
    assert!(config.get("binary.io").is_none());
    assert!(config.get("unknown.io").is_none());
}

#[test]
fn docker_config_insert_replaces_an_entry() {
    let mut config = sample_config();
    // "other:pw"
    config.insert("ghcr.io".to_string(), "b3RoZXI6cHc=".to_string());
    let (u, p) = config.get("ghcr.io").unwrap();
    assert_eq!(u, "other");
    assert_eq!(p, "pw");
    assert!(config.get("nocolon.io").is_none());
}

#[test]
fn registry_credentials_for_the_registry_of_the_image() {
    let config = sample_config();
    let c = registry_credentials("ghcr.io/owner/app:1", Some(&config)).unwrap();
    assert_eq!(c.username, "user");
    assert_eq!(c.password, "pass");
    assert_eq!(c.serveraddress, "ghcr.io");
    assert!(registry_credentials("owner/app:1", Some(&config)).is_none());
    assert!(registry_credentials("ghcr.io/owner/app:1", None).is_none());
}

#[test]
fn registry_credentials_for_the_default_registry() {
    let mut config = DockerConfig::new();
    config.insert("docker.io".to_string(), "dXNlcjpwYXNz".to_string());
    let c = registry_credentials("library/nginx", Some(&config)).unwrap();
    assert_eq!(c.serveraddress, "docker.io");
    assert_eq!(c.username, "user");
}

#[test]
fn readme_example_image_lives_on_its_own_registry() {
    let image = autodok::parse::parse_image_tag(
        "docker.elastic.co/elasticsearch/elasticsearch:8.8.0".to_string(),
    )
    .unwrap();
    assert_eq!(image, "docker.elastic.co/elasticsearch/elasticsearch:8.8.0");
    let r = parse_repository(&image);
    assert_eq!(r.registry, "docker.elastic.co");
    assert_eq!(r.image, "elasticsearch/elasticsearch:8.8.0");
    let r = parse_repository("foo:latest");
    assert_eq!(r.registry, "docker.io");
}

#[test]
fn repository_parts_rebuild_the_reference() {
    for name in ["ghcr.io/owner/app:1", "localhost:5000/x", "owner/app", "app", "docker.io/a/b"] {
        let r = parse_repository(name);
        assert!(!r.registry.contains('/'));
        let rebuilt = format!("{}/{}", r.registry, r.image);
        assert!((r.registry == "docker.io" && r.image == name) || rebuilt == name);
    }
}

#[test]
fn split_credentials_rejoin() {
    for s in ["a:b", "a:b:c", ":x", "y:"] {
        let (u, p) = split_credentials(s).unwrap();
        assert!(!u.contains(':'));
        assert_eq!(format!("{u}:{p}"), s);
    }
}
