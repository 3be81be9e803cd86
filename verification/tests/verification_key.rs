use leo_compiler::verification_key::VerificationKeyFile;

fn path(components: &[&str]) -> Vec<String> {
    components.iter().map(|c| c.to_string()).collect()
}

#[test]
fn key_file_lies_in_outputs_directory() {
    let file = VerificationKeyFile::new("hello");
    assert_eq!(file.package_name, "hello");
    assert_eq!(
        file.setup_file_path(&path(&["home", "project"]), true),
        path(&["home", "project", "outputs", "hello.lvk"])
    );
}

#[test]
fn outputs_directory_is_not_repeated() {
    let file = VerificationKeyFile::new("hello");
    assert_eq!(
        file.setup_file_path(&path(&["project", "outputs"]), true),
        path(&["project", "outputs", "hello.lvk"])
    );
}

#[test]
fn path_that_is_no_directory_is_the_file() {
    let file = VerificationKeyFile::new("hello");
    assert_eq!(
        file.setup_file_path(&path(&["project", "other.lvk"]), false),
        path(&["project", "other.lvk"])
    );
}

#[test]
fn empty_directory_path() {
    let file = VerificationKeyFile::new("p");
    assert_eq!(file.setup_file_path(&path(&[]), true), path(&["outputs", "p.lvk"]));
}

#[test]
fn exists_at_finds_the_located_file() {
    let file = VerificationKeyFile::new("hello");
    let present = vec![path(&["project", "outputs", "hello.lvk"]), path(&["project"])];
    assert!(file.exists_at(&path(&["project"]), true, &present));
    assert!(file.exists_at(&path(&["project", "outputs"]), true, &present));
    assert!(!file.exists_at(&path(&["elsewhere"]), true, &present));
    assert!(file.exists_at(&path(&["project"]), false, &present));
    assert!(!file.exists_at(&path(&["project", "hello.lvk"]), false, &present));
    assert!(!file.exists_at(&path(&["project"]), true, &Vec::new()));
}
