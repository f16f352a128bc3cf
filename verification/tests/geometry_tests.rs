use resizeimg::geometry::extract_geometry;

#[test]
fn qualifying_pair_between_others() {
    assert_eq!(
        extract_geometry("a=1&im=Resize=(800,600)&b=2".to_string()),
        Some((800, 600))
    );
}

#[test]
fn zero_width_is_rejected() {
    assert_eq!(extract_geometry("im=Resize=(0,600)".to_string()), None);
}

#[test]
fn single_field_is_rejected() {
    assert_eq!(extract_geometry("im=Resize=(800)".to_string()), None);
}

#[test]
fn plain_pair_alone() {
    assert_eq!(
        extract_geometry("im=Resize=(800,600)".to_string()),
        Some((800, 600))
    );
}

#[test]
fn no_qualifying_pair_yields_none() {
    assert_eq!(extract_geometry("a=1&b=2".to_string()), None);
    assert_eq!(extract_geometry("".to_string()), None);
    assert_eq!(extract_geometry("im=Resize".to_string()), None);
    assert_eq!(extract_geometry("Resize=(800,600)".to_string()), None);
    assert_eq!(extract_geometry("xim=Resize=(800,600)".to_string()), None);
}

#[test]
fn zero_height_is_rejected() {
    assert_eq!(extract_geometry("im=Resize=(800,0)".to_string()), None);
}

#[test]
fn three_fields_are_rejected() {
    assert_eq!(extract_geometry("im=Resize=(1,2,3)".to_string()), None);
}

#[test]
fn whitespace_around_fields_is_trimmed() {
    assert_eq!(
        extract_geometry("im=Resize=( 800 , 600 )".to_string()),
        Some((800, 600))
    );
}

#[test]
fn unicode_whitespace_is_trimmed_too() {
    assert_eq!(
        extract_geometry("im=Resize=(\u{a0}800\u{a0},\u{2003}600 )".to_string()),
        Some((800, 600))
    );
}

#[test]
fn leading_plus_parses() {
    assert_eq!(
        extract_geometry("im=Resize=(+800,+600)".to_string()),
        Some((800, 600))
    );
}

#[test]
fn non_numeric_field_is_rejected() {
    assert_eq!(extract_geometry("im=Resize=(abc,600)".to_string()), None);
}

#[test]
fn overflowing_field_is_rejected() {
    assert_eq!(
        extract_geometry("im=Resize=(99999999999,600)".to_string()),
        None
    );
}

#[test]
fn largest_size_parses() {
    assert_eq!(
        extract_geometry("im=Resize=(4294967295,4294967295)".to_string()),
        Some((4294967295, 4294967295))
    );
}

#[test]
fn value_too_short_degrades_to_none() {
    assert_eq!(extract_geometry("im=Resize=x".to_string()), None);
    assert_eq!(extract_geometry("im=Resize=".to_string()), None);
}

#[test]
fn value_stops_at_next_resize_token() {
    assert_eq!(
        extract_geometry("im=Resize=(800,600)Resize=x".to_string()),
        Some((800, 600))
    );
}

#[test]
fn first_qualifying_pair_wins() {
    assert_eq!(
        extract_geometry("im=Resize=(1,2)&im=Resize=(3,4)".to_string()),
        Some((1, 2))
    );
    // An earlier qualifying pair with a bad value is not skipped.
    assert_eq!(
        extract_geometry("im=Resize=(0,2)&im=Resize=(3,4)".to_string()),
        None
    );
}
