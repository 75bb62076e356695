//! Tests for the reference-data maintenance around the core: breeds and
//! dogs.

use little_walk::entities::{Category, Gender};
use little_walk::error::ErrorKind;
use little_walk::memory::MemoryRepository;
use little_walk::repository::{BreedCreate, BreedQuery, DogCreate, DogQuery, DogUpdate, Pagination};
use little_walk::service::Service;

fn new_service() -> Service<MemoryRepository> {
    Service::new(MemoryRepository::new())
}

fn breed(category: Category, name: &str) -> BreedCreate {
    BreedCreate { category, name: name.to_string() }
}

fn breed_query_by_name(name: &str) -> BreedQuery {
    BreedQuery { id: None, category: None, name: Some(name.to_string()) }
}

fn dog_create(owner: &str, name: &str, gender: &str, breed_name: &str) -> DogCreate {
    DogCreate {
        owner_id: owner.to_string(),
        name: name.to_string(),
        gender: gender.to_string(),
        breed: breed_query_by_name(breed_name),
        birthday: 1_500_000_000_000,
        tags: vec![],
        portrait_id: None,
    }
}

fn empty_dog_update() -> DogUpdate {
    DogUpdate {
        name: None,
        gender: None,
        breed: None,
        birthday: None,
        is_sterilized: None,
        introduction: None,
        owner_id: None,
        tags: None,
        portrait_id: None,
    }
}

#[test]
fn breeds_are_created_queried_and_deleted() {
    let mut svc = new_service();
    let a = svc.create_breed(breed(Category::Small, "Corgi")).unwrap();
    let b = svc.create_breed(breed(Category::Large, "Labrador")).unwrap();
    assert_ne!(a, b);

    let (all, total) = svc
        .query_breeds(&BreedQuery { id: None, category: None, name: None })
        .unwrap();
    assert_eq!(total, 2);
    assert_eq!(all.len(), 2);
    assert_eq!(all[0].name, "Corgi".to_string());

    let (large, n) = svc
        .query_breeds(&BreedQuery { id: None, category: Some(Category::Large), name: None })
        .unwrap();
    assert_eq!(n, 1);
    assert_eq!(large[0].name, "Labrador".to_string());

    assert!(svc.delete_breed(&a).unwrap());
    assert!(!svc.delete_breed(&a).unwrap());
    let (left, n) = svc
        .query_breeds(&BreedQuery { id: None, category: None, name: None })
        .unwrap();
    assert_eq!(n, 1);
    assert_eq!(left[0].id, b);
}

#[test]
fn create_dog_resolves_its_breed() {
    let mut svc = new_service();
    svc.create_breed(breed(Category::Medium, "Beagle")).unwrap();
    let dog = svc.create_dog(&dog_create("alice", "Snoopy", "Male", "Beagle")).unwrap();
    assert_eq!(dog.name, "Snoopy".to_string());
    assert_eq!(dog.gender, Gender::Male);
    assert_eq!(dog.breed.name, "Beagle".to_string());
    assert_eq!(dog.owner_id, "alice".to_string());

    let missing = svc
        .create_dog(&dog_create("alice", "Rex", "Female", "Dachshund"))
        .unwrap_err();
    assert_eq!(missing.kind(), ErrorKind::NotFound);
}

#[test]
fn unknown_gender_labels_read_as_other() {
    let mut svc = new_service();
    svc.create_breed(breed(Category::Giant, "Mastiff")).unwrap();
    let dog = svc.create_dog(&dog_create("bob", "Tiny", "unknown", "Mastiff")).unwrap();
    assert_eq!(dog.gender, Gender::Other);
}

#[test]
fn update_dog_applies_only_given_fields() {
    let mut svc = new_service();
    svc.create_breed(breed(Category::Small, "Corgi")).unwrap();
    let dog = svc.create_dog(&dog_create("alice", "Bun", "Female", "Corgi")).unwrap();

    let mut update = empty_dog_update();
    update.name = Some("Bunny".to_string());
    assert!(svc.update_dog(&dog.id, &update).unwrap());

    let mine = svc.my_dogs("alice", None).unwrap();
    assert_eq!(mine.len(), 1);
    assert_eq!(mine[0].name, "Bunny".to_string());
    assert_eq!(mine[0].gender, Gender::Female);
    assert_eq!(mine[0].breed.name, "Corgi".to_string());

    // An empty update modifies nothing.
    assert!(!svc.update_dog(&dog.id, &empty_dog_update()).unwrap());
    // A missing dog is never modified.
    let mut update = empty_dog_update();
    update.name = Some("X".to_string());
    assert!(!svc.update_dog("missing", &update).unwrap());
}

#[test]
fn update_dog_portrait_sets_the_reference() {
    let mut svc = new_service();
    svc.create_breed(breed(Category::Small, "Corgi")).unwrap();
    let dog = svc.create_dog(&dog_create("alice", "Bun", "Female", "Corgi")).unwrap();
    assert!(svc.update_dog_portrait(&dog.id, "portrait-7").unwrap());
    let mine = svc.my_dogs("alice", None).unwrap();
    assert_eq!(mine[0].portrait_id, Some("portrait-7".to_string()));
}

#[test]
fn my_dogs_filters_by_owner_and_paginates() {
    let mut svc = new_service();
    svc.create_breed(breed(Category::Small, "Corgi")).unwrap();
    svc.create_dog(&dog_create("alice", "A", "Female", "Corgi")).unwrap();
    svc.create_dog(&dog_create("bob", "B", "Male", "Corgi")).unwrap();
    svc.create_dog(&dog_create("alice", "C", "Male", "Corgi")).unwrap();

    let mine = svc.my_dogs("alice", None).unwrap();
    assert_eq!(mine.len(), 2);
    let first = svc
        .my_dogs("alice", Some(Pagination { limit: 1, skip: 0 }))
        .unwrap();
    assert_eq!(first.len(), 1);
    assert_eq!(first[0].name, "A".to_string());
    let second = svc
        .my_dogs("alice", Some(Pagination { limit: 5, skip: 1 }))
        .unwrap();
    assert_eq!(second.len(), 1);
    assert_eq!(second[0].name, "C".to_string());
}

#[test]
fn ownership_check_needs_both_id_and_owner() {
    let mut svc = new_service();
    svc.create_breed(breed(Category::Small, "Corgi")).unwrap();
    let dog = svc.create_dog(&dog_create("alice", "A", "Female", "Corgi")).unwrap();
    assert!(svc.is_owner_of_the_dog("alice", &dog.id).unwrap());
    assert!(!svc.is_owner_of_the_dog("bob", &dog.id).unwrap());
    assert!(!svc.is_owner_of_the_dog("alice", "missing").unwrap());
}

#[test]
fn query_dogs_by_id_set() {
    let mut svc = new_service();
    svc.create_breed(breed(Category::Small, "Corgi")).unwrap();
    let a = svc.create_dog(&dog_create("alice", "A", "Female", "Corgi")).unwrap();
    let _b = svc.create_dog(&dog_create("alice", "B", "Male", "Corgi")).unwrap();
    let c = svc.create_dog(&dog_create("bob", "C", "Male", "Corgi")).unwrap();

    let found = svc
        .query_dogs(&DogQuery {
            id: None,
            id_in: Some(vec![a.id.clone(), c.id.clone()]),
            owner_id: None,
            pagination: None,
        })
        .unwrap();
    assert_eq!(found.len(), 2);
    assert_eq!(found[0].id, a.id);
    assert_eq!(found[1].id, c.id);
}
