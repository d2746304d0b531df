use ray_tracing::output::{output_target, target_for_name, OutputTarget};

fn file_name(t: OutputTarget) -> Option<String> {
    match t {
        OutputTarget::Stdout => None,
        OutputTarget::File(f) => Some(f),
    }
}

#[test]
fn empty_name_is_stdout() {
    assert!(matches!(output_target(""), OutputTarget::Stdout));
    assert!(matches!(target_for_name(""), OutputTarget::Stdout));
}

#[test]
fn dash_is_stdout() {
    assert!(matches!(output_target("-"), OutputTarget::Stdout));
    assert!(matches!(target_for_name("-"), OutputTarget::Stdout));
}

#[test]
fn blank_and_padded_dash_are_stdout() {
    assert!(matches!(output_target(" \t\n "), OutputTarget::Stdout));
    assert!(matches!(output_target("  -  "), OutputTarget::Stdout));
}

#[test]
fn file_name_is_trimmed() {
    assert_eq!(file_name(output_target("  image.ppm \n")), Some("image.ppm".to_string()));
}

#[test]
fn inner_spaces_are_kept() {
    assert_eq!(file_name(output_target(" my image.ppm ")), Some("my image.ppm".to_string()));
}

#[test]
fn other_dashes_are_files() {
    assert_eq!(file_name(output_target("--")), Some("--".to_string()));
    assert_eq!(file_name(target_for_name("-x")), Some("-x".to_string()));
}

#[test]
fn untrimmed_name_is_taken_as_given() {
    assert_eq!(file_name(target_for_name(" - ")), Some(" - ".to_string()));
}

#[test]
fn unicode_whitespace_is_trimmed() {
    assert!(matches!(output_target("\u{3000}-\u{a0}\u{2029}"), OutputTarget::Stdout));
    assert_eq!(file_name(output_target("\u{85}a.ppm\u{2000}")), Some("a.ppm".to_string()));
}

#[test]
fn zero_width_space_is_not_whitespace() {
    assert_eq!(file_name(output_target("\u{200b}-")), Some("\u{200b}-".to_string()));
}
