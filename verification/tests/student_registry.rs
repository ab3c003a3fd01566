use registries::gender::Gender;
use registries::students::StudentRegistry;
use registries::types::{Error, Event};

#[test]
fn it_works_for_create_student() {
    let mut registry = StudentRegistry::new();
    assert!(registry.create_student(1, b"abc".to_vec(), 21).is_ok());
    assert_eq!(registry.student_id(), 1);
}

#[test]
fn create_student_fail_if_age_is_lower_than_20() {
    let mut registry = StudentRegistry::new();
    assert_eq!(
        registry.create_student(1, b"student_name".to_vec(), 10),
        Err(Error::TooYoung)
    );
}

#[test]
fn counter_follows_successful_creations() {
    let mut registry = StudentRegistry::new();
    assert_eq!(registry.student_id(), 0);
    let names: [&[u8]; 3] = [b"ann", b"bob", b"carol"];
    for (i, name) in names.iter().enumerate() {
        assert!(registry.create_student(10 + i as u64, name.to_vec(), 30).is_ok());
        assert_eq!(registry.student_id(), i as u32 + 1);
    }
    for (i, name) in names.iter().enumerate() {
        let student = registry.student(i as u32).expect("created student is retrievable");
        assert_eq!(student.id, i as u32);
        assert_eq!(student.name, name.to_vec());
        assert_eq!(student.age, 30);
        assert_eq!(student.owner, 10 + i as u64);
    }
    assert!(registry.student(3).is_none());
}

#[test]
fn underage_creation_changes_nothing() {
    let mut registry = StudentRegistry::new();
    assert!(registry.create_student(1, b"abc".to_vec(), 21).is_ok());
    assert_eq!(registry.create_student(2, b"late"[..].to_vec(), 20), Err(Error::TooYoung));
    assert_eq!(registry.student_id(), 1);
    assert!(registry.student(1).is_none());
    assert_eq!(registry.events().len(), 1);
}

#[test]
fn student_gender_follows_name_length_parity() {
    let mut registry = StudentRegistry::new();
    assert!(registry.create_student(1, b"abc".to_vec(), 21).is_ok());
    let first = registry.student(0).expect("stored");
    assert_eq!(first.gender, Gender::Male);
    assert_eq!(first.id, 0);
    assert!(registry.create_student(1, b"de".to_vec(), 25).is_ok());
    let second = registry.student(1).expect("stored");
    assert_eq!(second.gender, Gender::Female);
    assert_eq!(second.id, 1);
}

#[test]
fn empty_name_gives_female_student() {
    let mut registry = StudentRegistry::new();
    assert!(registry.create_student(1, Vec::new(), 40).is_ok());
    assert_eq!(registry.student(0).expect("stored").gender, Gender::Female);
}

#[test]
fn student_creation_emits_one_event() {
    let mut registry = StudentRegistry::new();
    assert!(registry.create_student(5, b"abc".to_vec(), 33).is_ok());
    assert_eq!(registry.events().len(), 1);
    assert_eq!(registry.events()[0], Event::StudentStored(b"abc".to_vec(), 33));
}
