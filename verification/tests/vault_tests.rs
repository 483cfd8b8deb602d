use slipbox_core::Error;
use slipbox_core::Vault;
use slipbox_core::VaultEntry;

fn entry(path: &str, contents: &str) -> VaultEntry {
    VaultEntry { path: String::from(path), is_file: true, contents: String::from(contents) }
}

#[test]
fn test_valid() {
    let entries = vec![
        entry("./tests/vault/TestNote01.md", "---\ntags: rust test\n---\n# One\n"),
        entry("./tests/vault/TestNote02.md", "---\ntags: systems design\n---\n# Two\n"),
        entry("./tests/vault/TestNote03.md", "---\ntags: [notes, zettel]\n---\n# Three\n"),
    ];
    let vault = Vault::new(String::from("./tests/vault"), entries).unwrap();

    assert!(vault.name == "vault");
    assert!(vault.vault_path == "./tests/vault");
    assert!(vault.created_on == None);

    let names = vault
        .state
        .notes
        .into_iter()
        .map(|note| note.name.clone())
        .collect::<Vec<_>>();
    let file_names = vec![
        String::from("TestNote01"),
        String::from("TestNote02"),
        String::from("TestNote03"),
    ];

    assert!(file_names == names);
}

#[test]
fn test_invalid() {
    let entries = vec![
        entry("./tests/invalid-vault/Broken.md", "# No metadata here\nJust text.\n"),
    ];
    let vault = Vault::new(String::from("./tests/invalid-vault"), entries);

    match vault {
        Err(Error::MetaDataError(_)) => {}
        _ => panic!("Test should fail"),
    }
}

#[test]
fn scan_keeps_only_note_files() {
    let entries = vec![
        VaultEntry {
            path: String::from("v/subdir.md"),
            is_file: false,
            contents: String::new(),
        },
        entry("v/first.md", "---\ntags: a\n---\n"),
        entry("v/readme.txt", "irrelevant"),
        entry("v/second.md", "---\ntags: b\n---\n"),
    ];
    let vault = Vault::new(String::from("v"), entries).unwrap();
    let names = vault
        .state
        .notes
        .iter()
        .map(|note| note.name.clone())
        .collect::<Vec<_>>();
    assert_eq!(names, vec![String::from("first"), String::from("second")]);
}

#[test]
fn empty_vault_has_no_notes_and_no_tags() {
    let vault = Vault::new(String::from("v"), vec![]).unwrap();
    assert!(vault.state.notes.is_empty());
    assert!(vault.state.tags().is_empty());
}

#[test]
fn tag_set_is_deduplicated() {
    let entries = vec![
        entry("v/n1.md", "---\ntags: a b\n---\n"),
        entry("v/n2.md", "---\ntags: b c\n---\n"),
    ];
    let vault = Vault::new(String::from("v"), entries).unwrap();
    let tags = vault.state.tags();
    assert_eq!(tags, vec![String::from("a"), String::from("b"), String::from("c")]);
}

#[test]
fn notes_from_tag_matches_exactly() {
    let entries = vec![
        entry("v/n1.md", "---\ntags: a b\n---\n"),
        entry("v/n2.md", "---\ntags: b c\n---\n"),
    ];
    let vault = Vault::new(String::from("v"), entries).unwrap();

    let with_b = vault.state.notes_from_tag(String::from("b"));
    let names = with_b.iter().map(|note| note.name.clone()).collect::<Vec<_>>();
    assert_eq!(names, vec![String::from("n1"), String::from("n2")]);

    let with_z = vault.state.notes_from_tag(String::from("z"));
    assert!(with_z.is_empty());
}

#[test]
fn substring_of_a_tag_does_not_match() {
    let entries = vec![entry("v/n1.md", "---\ntags: alpha\n---\n")];
    let vault = Vault::new(String::from("v"), entries).unwrap();
    assert!(vault.state.notes_from_tag(String::from("alp")).is_empty());
    assert_eq!(vault.state.notes_from_tag(String::from("alpha")).len(), 1);
}

#[test]
fn note_with_empty_tag_set_aborts_scan() {
    let entries = vec![entry("v/empty.md", "---\ntags:\n---\n")];
    match Vault::new(String::from("v"), entries) {
        Err(Error::MetaDataError(_)) => {}
        _ => panic!("expected the empty tag set to be rejected"),
    }
}

#[test]
fn vault_with_rootless_path_is_rejected() {
    match Vault::new(String::from("/"), vec![]) {
        Err(Error::InvalidPath) => {}
        _ => panic!("expected an invalid path failure"),
    }
}

#[test]
fn first_failing_note_aborts_scan() {
    let entries = vec![
        entry("v/good.md", "---\ntags: a\n---\n"),
        entry("v/bad.md", "no metadata block at all\n"),
        entry("v/unreached.md", "---\ntags: b\n---\n"),
    ];
    match Vault::new(String::from("v"), entries) {
        Err(Error::MetaDataError(_)) => {}
        _ => panic!("expected the scan to abort on the failing note"),
    }
}
