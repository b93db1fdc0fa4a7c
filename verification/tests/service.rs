use autodok::api_key::{api_key, generate_api_key, API_KEY_LENGTH};
use autodok::auth::authorize;
use autodok::config::Config;
use autodok::docker::{plan_container_update, plan_networks};
use autodok::error::{status_or_internal, AutodokError, DockerFailure, ImageParseError};
use autodok::random::random_string;
use autodok::routes::{
    container_name, parse_update_image_params, success_status, trim_leading_slashes,
    update_targets, ContainerSummary, UpdateContainerParams, UpdateContainerResponse,
    UpdateImageParams, UpdateImageResponse,
};

#[test]
fn config_defaults_and_addr() {
    let config = Config::new(None, None);
    assert_eq!(config.host, "0.0.0.0");
    assert_eq!(config.port, "3000");
    assert_eq!(config.addr(), "0.0.0.0:3000");
    let config = Config::new(Some("127.0.0.1".to_string()), Some("8080".to_string()));
    assert_eq!(config.addr(), "127.0.0.1:8080");
}

#[test]
fn random_string_is_alphanumeric_of_the_length() {
    let s = random_string(12);
    assert_eq!(s.chars().count(), 12);
    assert!(s.chars().all(|c| c.is_ascii_alphanumeric()));
    assert_eq!(random_string(0), "");
}

#[test]
fn api_key_keeps_a_stored_key() {
    let k = api_key(Some("stored-key".to_string()));
    assert_eq!(k.key, "stored-key");
    assert!(!k.generated);
}

#[test]
fn api_key_generates_a_key_where_none_is_stored() {
    let k = api_key(None);
    assert!(k.generated);
    assert_eq!(k.key.len(), API_KEY_LENGTH);
    assert!(k.key.chars().all(|c| c.is_ascii_alphanumeric()));
    let later = api_key(Some(k.key.clone()));
    assert_eq!(later.key, k.key);
    assert!(!later.generated);
    assert_eq!(generate_api_key().len(), 30);
}

#[test]
fn authorize_needs_the_exact_key() {
    assert_eq!(authorize(Some("secret"), "secret"), Ok(()));
    assert_eq!(authorize(Some("secret "), "secret"), Err(401));
    assert_eq!(authorize(Some(""), "secret"), Err(401));
    assert_eq!(authorize(None, "secret"), Err(401));
}

#[test]
fn image_error_messages() {
    assert_eq!(ImageParseError::EmptyImage.message(), "image missing");
    assert_eq!(
        ImageParseError::EmptyPart("a:".to_string()).message(),
        "invalid image: a:"
    );
}

#[test]
fn status_codes_fall_back_to_internal_error() {
    assert_eq!(status_or_internal(404), 404);
    assert_eq!(status_or_internal(100), 100);
    assert_eq!(status_or_internal(999), 999);
    assert_eq!(status_or_internal(99), 500);
    assert_eq!(status_or_internal(1000), 500);
    assert_eq!(status_or_internal(0), 500);
}

#[test]
fn error_responses() {
    let e = AutodokError::from_bollard(404, "No such container: foo".to_string());
    assert_eq!(e.response_parts(), (404, "No such container: foo".to_string()));
    let e = AutodokError::from_bollard(42, "odd".to_string());
    assert_eq!(e.response_parts(), (500, "odd".to_string()));
    let e = AutodokError::from_docker_failure(DockerFailure::Other("timeout".to_string()));
    assert_eq!(
        e.response_parts(),
        (500, "something went wrong: timeout".to_string())
    );
    let e = AutodokError::from_docker_failure(DockerFailure::ResponseServer {
        status_code: 409,
        message: "conflict".to_string(),
    });
    assert_eq!(e.response_parts(), (409, "conflict".to_string()));
    let e: AutodokError = ImageParseError::EmptyImage.into();
    assert_eq!(e.response_parts(), (400, "image missing".to_string()));
    let e = AutodokError::from(ImageParseError::EmptyPart(":x".to_string()));
    assert_eq!(e.response_parts(), (400, "invalid image: :x".to_string()));
}

#[test]
fn waiting_for_completion_defaults_to_no() {
    let mut p = UpdateContainerParams {
        container: "c".to_string(),
        pull: None,
        wait_for_completion: None,
    };
    assert!(!p.waits_for_completion());
    p.wait_for_completion = Some(true);
    assert!(p.waits_for_completion());
    p.wait_for_completion = Some(false);
    assert!(!p.waits_for_completion());
    let q = UpdateImageParams {
        previous_image: None,
        image: "i".to_string(),
        wait_for_completion: Some(true),
    };
    assert!(q.waits_for_completion());
    assert_eq!(success_status(true), 200);
    assert_eq!(success_status(false), 204);
}

#[test]
fn responses_hold_what_they_were_made_of() {
    let r = UpdateContainerResponse::new("c".to_string(), "i:t".to_string());
    assert_eq!(r.container, "c");
    assert_eq!(r.image, "i:t");
    let all = UpdateImageResponse::new(vec![r]);
    assert_eq!(all.containers.len(), 1);
    assert_eq!(all.containers[0].container, "c");
}

#[test]
fn update_image_params_are_normalised() {
    let p = UpdateImageParams {
        previous_image: Some("app".to_string()),
        image: "app:2".to_string(),
        wait_for_completion: None,
    };
    let (target, previous) = parse_update_image_params(&p).unwrap();
    assert_eq!(target, "app:2");
    assert_eq!(previous, Some("app:latest".to_string()));
    let p = UpdateImageParams {
        previous_image: Some(":x".to_string()),
        image: "".to_string(),
        wait_for_completion: None,
    };
    assert!(matches!(
        parse_update_image_params(&p),
        Err(ImageParseError::EmptyImage)
    ));
    let p = UpdateImageParams {
        previous_image: Some("x:".to_string()),
        image: "ok".to_string(),
        wait_for_completion: None,
    };
    assert!(matches!(
        parse_update_image_params(&p),
        Err(ImageParseError::EmptyPart(ref s)) if s == "x:"
    ));
}

fn summary(id: Option<&str>, image: Option<&str>, names: Option<Vec<&str>>) -> ContainerSummary {
    ContainerSummary {
        id: id.map(|s| s.to_string()),
        image: image.map(|s| s.to_string()),
        names: names.map(|v| v.into_iter().map(|s| s.to_string()).collect()),
    }
}

#[test]
fn container_names() {
    assert_eq!(trim_leading_slashes("//a/b"), "a/b");
    assert_eq!(trim_leading_slashes("a"), "a");
    assert_eq!(
        container_name(&summary(Some("id1"), None, Some(vec!["/web", "/other"]))),
        "web"
    );
    assert_eq!(container_name(&summary(Some("id1"), None, Some(vec![]))), "id1");
    assert_eq!(container_name(&summary(Some("id1"), None, None)), "id1");
    assert_eq!(container_name(&summary(None, None, None)), "");
}

#[test]
fn update_targets_without_previous_image() {
    let cs = vec![
        summary(Some("1"), Some("app:1"), Some(vec!["/a"])),
        summary(Some("2"), Some("app:2"), Some(vec!["/b"])),
        summary(Some("3"), None, Some(vec!["/c"])),
        summary(Some("4"), Some("app:1"), None),
        summary(None, Some("app:1"), Some(vec!["/"])),
        summary(Some("6"), Some("app:1"), Some(vec!["/f"])),
    ];
    let names = update_targets(&cs, &"app:1".to_string(), &None);
    assert_eq!(names, vec!["a".to_string(), "4".to_string(), "f".to_string()]);
}

#[test]
fn update_targets_with_previous_image() {
    let cs = vec![
        summary(Some("1"), Some("app:1"), Some(vec!["/a"])),
        summary(Some("2"), Some("app:2"), Some(vec!["/b"])),
    ];
    let names = update_targets(&cs, &"app:2".to_string(), &Some("app:1".to_string()));
    assert_eq!(names, vec!["a".to_string()]);
    let names = update_targets(&cs, &"app:3".to_string(), &None);
    assert!(names.is_empty());
}

#[test]
fn container_update_plans() {
    let u = plan_container_update(None, Some("app:1".to_string()), None).unwrap();
    assert_eq!(u.image, "app:1");
    assert!(u.pull);
    let u = plan_container_update(Some("app:2".to_string()), Some("app:1".to_string()), Some(false))
        .unwrap();
    assert_eq!(u.image, "app:2");
    assert!(!u.pull);
    assert!(plan_container_update(None, None, Some(true)).is_none());
}

#[test]
fn network_plans() {
    assert!(plan_networks(vec![]).is_none());
    let p = plan_networks(vec!["a".to_string(), "b".to_string(), "c".to_string()]).unwrap();
    assert_eq!(p.create_with, "a");
    assert_eq!(p.connect_after, vec!["b".to_string(), "c".to_string()]);
    let p = plan_networks(vec!["only".to_string()]).unwrap();
    assert_eq!(p.create_with, "only");
    assert!(p.connect_after.is_empty());
}
