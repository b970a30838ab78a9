use std::collections::HashMap;

use ouch::decompressor::{destination_path, DecompressionResult, File};
use ouch::overwrite::{Answer, Flags, Step};
use ouch::tar::{ExtractError, Extraction, TarDecompressor};

/// Drives an extraction over a destination held in memory, the way a caller
/// drives it over a real directory. The destination is absolute, so each
/// target is already in resolved form when it is recorded.
fn extract(
    disk: &mut HashMap<String, Vec<u8>>,
    dest: &str,
    entries: &[(&str, &[u8])],
    flags: Flags,
    answers: &[Answer],
) -> Result<Vec<String>, ExtractError> {
    let mut session = Extraction::new(dest.to_string(), flags);
    let mut answers = answers.iter();
    for (path, data) in entries {
        let target = session.target_of(path)?;
        let write = match session.decide(disk.contains_key(&target)) {
            Step::Write => true,
            Step::Skip => false,
            Step::Ask => session.answer(*answers.next().expect("a question was asked")),
        };
        if write {
            disk.insert(target.clone(), data.to_vec());
            session.record(target)?;
        }
    }
    match session.finish() {
        DecompressionResult::FilesUnpacked(v) => Ok(v),
        DecompressionResult::FileInMemory(_) => panic!("a tar archive unpacks files"),
    }
}

fn sample() -> Vec<(&'static str, &'static [u8])> {
    vec![("a.txt", b"hello"), ("sub/b.txt", b"world")]
}

#[test]
fn two_entries_into_empty_destination() {
    let mut disk = HashMap::new();
    let r = extract(&mut disk, "/dest", &sample(), Flags::Interactive, &[]).unwrap();
    assert_eq!(r, vec!["/dest/a.txt".to_string(), "/dest/sub/b.txt".to_string()]);
    assert_eq!(disk["/dest/a.txt"], b"hello".to_vec());
    assert_eq!(disk["/dest/sub/b.txt"], b"world".to_vec());
}

#[test]
fn answering_no_keeps_the_old_file() {
    let mut disk = HashMap::new();
    disk.insert("/dest/a.txt".to_string(), b"old".to_vec());
    let r = extract(&mut disk, "/dest", &sample(), Flags::Interactive, &[Answer::No]).unwrap();
    assert_eq!(r, vec!["/dest/sub/b.txt".to_string()]);
    assert_eq!(disk["/dest/a.txt"], b"old".to_vec());
    assert_eq!(disk["/dest/sub/b.txt"], b"world".to_vec());
}

#[test]
fn always_no_keeps_every_existing_file() {
    let mut disk = HashMap::new();
    disk.insert("/dest/a.txt".to_string(), b"old".to_vec());
    disk.insert("/dest/sub/b.txt".to_string(), b"older".to_vec());
    let r = extract(&mut disk, "/dest", &sample(), Flags::AlwaysNo, &[]).unwrap();
    assert!(r.is_empty());
    assert_eq!(disk["/dest/a.txt"], b"old".to_vec());
    assert_eq!(disk["/dest/sub/b.txt"], b"older".to_vec());
}

#[test]
fn always_yes_replaces_existing_content() {
    let mut disk = HashMap::new();
    disk.insert("/dest/a.txt".to_string(), b"old".to_vec());
    let r = extract(&mut disk, "/dest", &sample(), Flags::AlwaysYes, &[]).unwrap();
    assert_eq!(r, vec!["/dest/a.txt".to_string(), "/dest/sub/b.txt".to_string()]);
    assert_eq!(disk["/dest/a.txt"], b"hello".to_vec());
}

#[test]
fn extracting_twice_with_yes_gives_the_same_files() {
    let mut disk = HashMap::new();
    disk.insert("/dest/keep".to_string(), b"k".to_vec());
    let first = extract(&mut disk, "/dest", &sample(), Flags::AlwaysYes, &[]).unwrap();
    let after_first = disk.clone();
    let second = extract(&mut disk, "/dest", &sample(), Flags::AlwaysYes, &[]).unwrap();
    assert_eq!(first, second);
    assert_eq!(disk, after_first);
}

#[test]
fn no_conflicts_writes_every_entry_in_order() {
    let entries: Vec<(&str, &[u8])> = vec![("z", b"1"), ("a", b"2"), ("m/n", b"3")];
    let mut disk = HashMap::new();
    let r = extract(&mut disk, "/out/", &entries, Flags::Interactive, &[]).unwrap();
    assert_eq!(r, vec!["/out/z".to_string(), "/out/a".to_string(), "/out/m/n".to_string()]);
    assert_eq!(disk.len(), 3);
}

#[test]
fn yes_to_all_answers_the_later_conflicts() {
    let mut disk = HashMap::new();
    disk.insert("/dest/a.txt".to_string(), b"old".to_vec());
    disk.insert("/dest/sub/b.txt".to_string(), b"old".to_vec());
    let r = extract(&mut disk, "/dest", &sample(), Flags::Interactive, &[Answer::YesToAll]).unwrap();
    assert_eq!(r.len(), 2);
    assert_eq!(disk["/dest/sub/b.txt"], b"world".to_vec());
}

#[test]
fn no_to_all_answers_the_later_conflicts() {
    let mut disk = HashMap::new();
    disk.insert("/dest/a.txt".to_string(), b"old".to_vec());
    disk.insert("/dest/sub/b.txt".to_string(), b"old".to_vec());
    let r = extract(&mut disk, "/dest", &sample(), Flags::Interactive, &[Answer::NoToAll]).unwrap();
    assert!(r.is_empty());
    assert_eq!(disk["/dest/sub/b.txt"], b"old".to_vec());
}

#[test]
fn single_answers_are_asked_each_time() {
    let mut session = Extraction::new("/d".to_string(), Flags::Interactive);
    assert_eq!(session.decide(true), Step::Ask);
    assert!(session.answer(Answer::Yes));
    assert_eq!(session.decide(true), Step::Ask);
    assert!(!session.answer(Answer::No));
    assert_eq!(session.decide(true), Step::Ask);
    assert_eq!(session.decide(false), Step::Write);
}

#[test]
fn entry_climbing_out_is_refused() {
    let mut disk = HashMap::new();
    let entries: Vec<(&str, &[u8])> = vec![("ok", b"1"), ("../evil", b"2")];
    let r = extract(&mut disk, "/dest", &entries, Flags::AlwaysYes, &[]);
    assert!(matches!(r, Err(ExtractError::UnsafeEntryPath(p)) if p == "../evil"));
    assert_eq!(disk.len(), 1);
}

#[test]
fn unsafe_entry_paths() {
    let session = Extraction::new("/dest".to_string(), Flags::AlwaysYes);
    for p in ["", "/etc/passwd", "..", "a/../../b", "a/..", "\\x", "a\\..\\b"] {
        assert!(matches!(session.target_of(p), Err(ExtractError::UnsafeEntryPath(_))), "{}", p);
    }
    for p in ["a", "a/..b", "..a/b", "./a", "a/b/"] {
        assert_eq!(session.target_of(p).unwrap(), format!("/dest/{}", p));
    }
}

#[test]
fn joining_onto_the_destination() {
    assert_eq!(Extraction::new("/d/".to_string(), Flags::AlwaysYes).target_of("x").unwrap(), "/d/x");
    assert_eq!(Extraction::new(String::new(), Flags::AlwaysYes).target_of("x").unwrap(), "x");
    assert_eq!(Extraction::new(".".to_string(), Flags::AlwaysYes).target_of("x/y").unwrap(), "./x/y");
}

#[test]
fn unresolved_paths_are_not_recorded() {
    let mut session = Extraction::new("/d".to_string(), Flags::AlwaysYes);
    for p in ["rel/a", "", "/a/../b", "/a/./b", "/a/."] {
        assert!(matches!(session.record(p.to_string()), Err(ExtractError::UnresolvedPath(q)) if q == p));
    }
    assert!(session.record("/a/b".to_string()).is_ok());
    assert!(session.record("/a/.b".to_string()).is_ok());
    match session.finish() {
        DecompressionResult::FilesUnpacked(v) => {
            assert_eq!(v, vec!["/a/b".to_string(), "/a/.b".to_string()])
        }
        DecompressionResult::FileInMemory(_) => panic!("expected files"),
    }
}

#[test]
fn destination_defaults_to_current_directory() {
    assert_eq!(destination_path(&None), ".");
    let into = Some(File::from_path("out/dir".to_string()));
    assert_eq!(destination_path(&into), "out/dir");
    let session = TarDecompressor::new().begin(&None, Flags::AlwaysNo);
    assert_eq!(session.target_of("f").unwrap(), "./f");
}

#[test]
fn in_memory_file_keeps_its_bytes() {
    let f = File::in_memory("a.tar".to_string(), vec![1, 2, 3]);
    assert_eq!(f.path, "a.tar");
    assert_eq!(f.contents_in_memory, Some(vec![1, 2, 3]));
}
