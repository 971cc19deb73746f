use lucide_icons::ident::{gen_ident, gen_idents, ident_of_slug, slug_of_path, IdentError, NameError};

#[test]
fn strips_path_and_pascal_cases() {
    assert_eq!(slug_of_path("/icons/alarm-clock.svg"), Some("alarm-clock"));
    assert_eq!(gen_ident("/icons/alarm-clock.svg"), Ok("AlarmClock".to_string()));
}

#[test]
fn trailing_number_group_keeps_digits() {
    assert_eq!(ident_of_slug("alarm-clock-10"), Ok("AlarmClock10".to_string()));
}

#[test]
fn adjacent_number_groups_get_separator() {
    assert_eq!(ident_of_slug("icon-2-5"), Ok("Icon2_5".to_string()));
    assert_eq!(gen_ident("/icons/arrow-down-1-0.svg"), Ok("ArrowDown1_0".to_string()));
}

#[test]
fn letter_then_number_group_has_no_separator() {
    assert_eq!(ident_of_slug("a-1-b"), Ok("A1B".to_string()));
    assert_eq!(ident_of_slug("x"), Ok("X".to_string()));
}

#[test]
fn same_slug_same_identifier() {
    let a = ident_of_slug("circle-dot-dashed");
    let b = ident_of_slug("circle-dot-dashed");
    assert_eq!(a, b);
    assert_eq!(a, Ok("CircleDotDashed".to_string()));
}

#[test]
fn path_without_prefix_or_suffix_is_rejected() {
    assert_eq!(slug_of_path("/other/alarm.svg"), None);
    assert_eq!(gen_ident("/icons/alarm.png"), Err(IdentError::BadPath));
    assert_eq!(gen_ident("alarm"), Err(IdentError::BadPath));
    assert_eq!(gen_ident("/icons/.svg"), Err(IdentError::MalformedSlug));
}

#[test]
fn malformed_slugs_are_rejected() {
    assert_eq!(ident_of_slug(""), Err(IdentError::MalformedSlug));
    assert_eq!(ident_of_slug("a--b"), Err(IdentError::MalformedSlug));
    assert_eq!(ident_of_slug("alarm-"), Err(IdentError::MalformedSlug));
    assert_eq!(ident_of_slug("-alarm"), Err(IdentError::MalformedSlug));
    assert_eq!(ident_of_slug("1alarm"), Err(IdentError::MalformedSlug));
    assert_eq!(ident_of_slug("al_arm"), Err(IdentError::MalformedSlug));
}

#[test]
fn identifiers_for_a_manifest() {
    let paths = vec!["/icons/alarm-clock.svg".to_string(), "/icons/icon-2-5.svg".to_string()];
    assert_eq!(gen_idents(&paths), Ok(vec!["AlarmClock".to_string(), "Icon2_5".to_string()]));
}

#[test]
fn colliding_identifiers_are_fatal() {
    let paths = vec![
        "/icons/box.svg".to_string(),
        "/icons/a-1.svg".to_string(),
        "/icons/a1.svg".to_string(),
    ];
    assert_eq!(gen_idents(&paths), Err(NameError::Collision(1, 2)));
}

#[test]
fn invalid_path_in_manifest_is_reported_by_position() {
    let paths = vec!["/icons/box.svg".to_string(), "/icons/a--b.svg".to_string()];
    assert_eq!(gen_idents(&paths), Err(NameError::Invalid(1, IdentError::MalformedSlug)));
}
