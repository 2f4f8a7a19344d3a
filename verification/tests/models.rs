use zourit::models::{CreatePerson, Entity, Person, UpdatePerson};
use zourit::templates::{IndexTemplate, PersonCreateTemplate, PersonShowTemplate};

#[test]
fn new_person_has_no_id() {
    let p = Person::new("Ann".to_string(), "ann@example.org".to_string(), 31);
    assert_eq!(p.id, None);
    assert_eq!(p.name, "Ann");
    assert_eq!(p.email, "ann@example.org");
    assert_eq!(p.age, 31);
}

#[test]
fn person_from_create_payload() {
    let p = Person::new_from_create(CreatePerson { name: "Bob".to_string(), email: "b@x".to_string(), age: 7 });
    assert_eq!(p.id, None);
    assert_eq!(p.name, "Bob");
    assert_eq!(p.email, "b@x");
    assert_eq!(p.age, 7);
}

#[test]
fn update_replaces_named_fields_only() {
    let mut p = Person::new("Ann".to_string(), "ann@example.org".to_string(), 31);
    p.id = Some(4);
    let q = p.clone().updated(UpdatePerson { name: None, email: Some("a@b".to_string()), age: None });
    assert_eq!(q.id, Some(4));
    assert_eq!(q.name, "Ann");
    assert_eq!(q.email, "a@b");
    assert_eq!(q.age, 31);
    let r = p.updated(UpdatePerson { name: Some("Zoe".to_string()), email: None, age: Some(-1) });
    assert_eq!(r.name, "Zoe");
    assert_eq!(r.email, "ann@example.org");
    assert_eq!(r.age, -1);
}

#[test]
fn index_page_lists_both_resources() {
    let t = IndexTemplate::new();
    assert_eq!(t.title, "Zourit API");
    assert_eq!(t.message, "Welcome to Zourit API");
    assert_eq!(t.version, "1.0.0");
    assert_eq!(t.endpoints.len(), 2);
    assert_eq!(t.endpoints[0].name, "Persons");
    assert_eq!(t.endpoints[0].url, "/persons");
    assert_eq!(t.endpoints[0].description, "Manage persons - GET, POST, PUT, DELETE operations");
    assert_eq!(t.endpoints[1].name, "Products");
    assert_eq!(t.endpoints[1].url, "/products");
    assert_eq!(t.endpoints[1].description, "Manage products - GET, POST, PUT, DELETE operations");
}

#[test]
fn person_pages_hold_what_they_are_given() {
    let p = Person::new("Ann".to_string(), "ann@example.org".to_string(), 31);
    let t = PersonShowTemplate::new(p);
    assert_eq!(t.person.name, "Ann");
    let _form = PersonCreateTemplate::new();
}
