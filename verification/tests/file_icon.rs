use tui_lipan::file_icon::{extension_of, extension_of_name};

#[test]
fn extension_follows_the_last_dot_of_the_file_name() {
    assert_eq!(extension_of("dir/archive.tar.gz"), Some("gz".to_string()));
    assert_eq!(extension_of("src/main.rs"), Some("rs".to_string()));
    assert_eq!(extension_of("notes"), None);
    assert_eq!(extension_of("home/.bashrc"), None);
    assert_eq!(extension_of("home/.config.toml"), Some("toml".to_string()));
    assert_eq!(extension_of("trailing."), Some(String::new()));
    assert_eq!(extension_of("/"), None);
    assert_eq!(extension_of_name("a.b.c"), Some("c".to_string()));
}
