use powerext::backup::{backup_name, new_backup_name};

#[test]
fn a_backup_is_named_after_its_identifier() {
    assert_eq!(backup_name("id", "png"), "id.png");
    assert_eq!(backup_name("id", ""), "id.");
}

#[test]
fn new_backups_have_random_names() {
    let a = new_backup_name("png");
    let b = new_backup_name("png");
    assert_ne!(a, b);
    for name in [a, b] {
        assert_eq!(name.len(), 40);
        let id = uuid::Uuid::parse_str(&name[..36]).unwrap();
        assert_eq!(id.get_version_num(), 4);
        assert_eq!(id.to_string(), &name[..36]);
        assert_eq!(&name[36..], ".png");
    }
}
