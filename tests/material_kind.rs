use ray_tracing::scene::MaterialKind;

#[test]
fn indices_name_the_three_kinds() {
    assert_eq!(MaterialKind::from_index(0), Some(MaterialKind::Diffuse));
    assert_eq!(MaterialKind::from_index(1), Some(MaterialKind::Metal));
    assert_eq!(MaterialKind::from_index(2), Some(MaterialKind::Glass));
}

#[test]
fn other_indices_name_no_kind() {
    assert_eq!(MaterialKind::from_index(3), None);
    assert_eq!(MaterialKind::from_index(usize::MAX), None);
}
