use autodok::error::ImageParseError;
use autodok::parse::parse_image_tag;

#[test]
fn test_parse_image_tag_with_image_and_tag() {
    let input = "myimage:v1".to_string();
    let result = parse_image_tag(input).unwrap();
    assert_eq!(result, "myimage:v1");
}

#[test]
fn test_parse_image_tag_with_image_only() {
    let input = "myimage".to_string();
    let result = parse_image_tag(input).unwrap();
    assert_eq!(result, "myimage:latest");
}

#[test]
fn test_parse_image_tag_with_empty_string() {
    let input = "".to_string();
    let result = parse_image_tag(input);
    assert!(matches!(result, Err(ImageParseError::EmptyImage)));
}

#[test]
fn test_parse_image_tag_with_empty_image_part() {
    let input = ":v1".to_string();
    let result = parse_image_tag(input);
    assert!(matches!(result, Err(ImageParseError::EmptyPart(ref s)) if s == ":v1"));
}

#[test]
fn test_parse_image_tag_with_empty_tag_part() {
    let input = "myimage:".to_string();
    let result = parse_image_tag(input);
    assert!(matches!(result, Err(ImageParseError::EmptyPart(ref s)) if s == "myimage:"));
}

#[test]
fn parse_image_tag_is_a_fixed_point_on_its_output() {
    let once = parse_image_tag("nginx".to_string()).unwrap();
    assert_eq!(once, "nginx:latest");
    let twice = parse_image_tag(once.clone()).unwrap();
    assert_eq!(twice, once);
}

#[test]
fn parse_image_tag_keeps_everything_after_the_first_colon() {
    let result = parse_image_tag("localhost:5000/python_server:abc".to_string()).unwrap();
    assert_eq!(result, "localhost:5000/python_server:abc");
    let result = parse_image_tag("registry.example.com/team/app".to_string()).unwrap();
    assert_eq!(result, "registry.example.com/team/app:latest");
}

#[test]
fn parse_image_tag_refuses_a_lone_colon() {
    let result = parse_image_tag(":".to_string());
    assert!(matches!(result, Err(ImageParseError::EmptyPart(ref s)) if s == ":"));
}

#[test]
fn parse_image_tag_counts_characters_not_bytes() {
    let result = parse_image_tag("bild-ä".to_string()).unwrap();
    assert_eq!(result, "bild-ä:latest");
    let result = parse_image_tag("ä:".to_string());
    assert!(matches!(result, Err(ImageParseError::EmptyPart(ref s)) if s == "ä:"));
}
