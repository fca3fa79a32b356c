use metis::config::PayloadConfig;
use metis::payload::{safe_path, CapturedPayload, PayloadStore, Publication, Stored};

/// The directory of a store, held in memory.
struct Directory {
    files: Vec<(String, Vec<u8>)>,
}

impl Directory {
    fn state(&self, name: &str) -> Stored {
        match self.files.iter().find(|file| file.0 == name) {
            Some(file) => Stored::File(file.1.len() as u64),
            None => Stored::Absent,
        }
    }

    fn publish(&mut self, name: &str, bytes: &[u8]) -> Publication {
        match self.state(name) {
            Stored::Absent => {
                self.files.push((name.to_string(), bytes.to_vec()));
                Publication::Linked
            }
            taken => Publication::Taken(taken),
        }
    }

    fn capture(&mut self, store: &PayloadStore, bytes: &[u8]) -> Option<CapturedPayload> {
        let plan = store.plan(bytes).unwrap()?;
        let path = plan.file_name.clone();
        let seen = self.state(&path);
        let newly_stored = if plan.already_stored(seen, &path).unwrap() {
            false
        } else {
            let publication = self.publish(&path, bytes);
            plan.newly_stored(publication, &path).unwrap()
        };
        Some(plan.captured(newly_stored))
    }
}

fn store(enabled: bool, max_bytes: usize) -> PayloadStore {
    PayloadStore::new(
        PayloadConfig {
            enabled,
            directory: "captures".into(),
            capture_login_messages: false,
            capture_login7: false,
        },
        max_bytes,
    )
}

#[test]
fn stores_once_under_content_address() {
    let store = store(true, 100);
    let mut directory = Directory { files: Vec::new() };
    let first = directory.capture(&store, b"MZ-not-executed").unwrap();
    let duplicate = directory.capture(&store, b"MZ-not-executed").unwrap();
    assert_eq!(first.size, 15);
    assert_eq!(first.sha256.len(), 64);
    assert_eq!(first.storage_id, format!("sha256-{}", first.sha256));
    assert_eq!(duplicate.storage_id, first.storage_id);
    assert!(first.newly_stored);
    assert!(!duplicate.newly_stored);
    assert_eq!(directory.files.len(), 1);
    assert_eq!(directory.files[0].0, format!("{}.bin", first.storage_id));
    assert_eq!(directory.files[0].1, b"MZ-not-executed");
}

#[test]
fn concurrent_identical_captures_publish_one_file() {
    let store = store(true, 100);
    let mut directory = Directory { files: Vec::new() };
    let first = store.plan(b"same-payload").unwrap().unwrap();
    let second = store.plan(b"same-payload").unwrap().unwrap();
    // Both look before either has published.
    assert!(!first.already_stored(directory.state(&first.file_name), "p").unwrap());
    assert!(!second.already_stored(directory.state(&second.file_name), "p").unwrap());
    let first_published = directory.publish(&first.file_name, b"same-payload");
    let second_published = directory.publish(&second.file_name, b"same-payload");
    let first_new = first.newly_stored(first_published, "p").unwrap();
    let second_new = second.newly_stored(second_published, "p").unwrap();
    let first = first.captured(first_new);
    let second = second.captured(second_new);

    assert_eq!(first.storage_id, second.storage_id);
    assert_ne!(first.newly_stored, second.newly_stored);
    assert_eq!(directory.files.len(), 1);
}

#[test]
fn the_digest_names_the_file() {
    let plan = store(true, 100).plan(b"abc").unwrap().unwrap();
    assert_eq!(
        plan.sha256,
        "ba7816bf8f01cfea414140de5dae2223b00361a396177a9cb410ff61f20015ad"
    );
    assert_eq!(plan.file_name, format!("sha256-{}.bin", plan.sha256));
    assert_eq!(plan.size, 3);
}

#[test]
fn disabled_stores_keep_nothing_and_large_payloads_are_refused() {
    assert!(store(false, 100).plan(b"abc").unwrap().is_none());
    assert_eq!(store(true, 2).plan(b"abc").unwrap_err().kind(), "limit");
}

#[test]
fn a_file_of_another_size_is_an_error() {
    let plan = store(true, 100).plan(b"abc").unwrap().unwrap();
    assert!(plan.already_stored(Stored::File(4), "p").is_err());
    assert!(plan.already_stored(Stored::Other, "p").is_err());
    assert!(plan.newly_stored(Publication::Taken(Stored::File(4)), "p").is_err());
    assert!(plan.already_stored(Stored::File(3), "p").unwrap());
}

#[test]
fn only_generated_names_become_paths() {
    let id = format!("sha256-{}", "0a".repeat(32));
    assert_eq!(safe_path(&id).unwrap(), format!("{id}.bin"));
    for bad in ["../etc/passwd", "sha256-..", "a/b", "a\\b", "caf\u{e9}"] {
        assert!(safe_path(bad).is_err(), "{bad}");
    }
}

#[test]
fn digests_are_told_in_64_digits() {
    let plan = store(true, 100).plan(b"MZ-not-executed").unwrap().unwrap();
    assert_eq!(plan.sha256.len(), 64);
    assert_eq!(plan.storage_id, format!("sha256-{}", plan.sha256));
    assert_eq!(safe_path(&plan.storage_id).unwrap(), plan.file_name);
}
