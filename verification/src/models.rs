//! The person resource.

use vstd::prelude::*;

verus! {

/// A person as the store holds it; `id` is `None` until it is stored.
#[derive(Debug, Clone)]
pub struct Person {
    pub id: Option<i32>,
    pub name: String,
    pub email: String,
    pub age: i32,
}

/// What a client sends to create a person.
#[derive(Debug)]
pub struct CreatePerson {
    pub name: String,
    pub email: String,
    pub age: i32,
}

/// The fields to change; `None` keeps what is there.
#[derive(Debug)]
pub struct UpdatePerson {
    pub name: Option<String>,
    pub email: Option<String>,
    pub age: Option<i32>,
}

/// A record that can be made from what a client sends to create it.
pub trait Entity: Sized {
    type CreateType;

    type UpdateType;

    fn new_from_create(data: Self::CreateType) -> Self;
}

impl Person {
    /// A person that the store has not seen yet.
    pub fn new(name: String, email: String, age: i32) -> (r: Person)
        ensures
            r.id is None,
            r.name == name,
            r.email == email,
            r.age == age,
    {
        Person { id: None, name, email, age }
    }

    /// This person with the fields that `data` names replaced.
    pub fn updated(self, data: UpdatePerson) -> (r: Person)
        ensures
            r.id == self.id,
            r.name == (match data.name {
                Some(v) => v,
                None => self.name,
            }),
            r.email == (match data.email {
                Some(v) => v,
                None => self.email,
            }),
            r.age == (match data.age {
                Some(v) => v,
                None => self.age,
            }),
    {
        let mut person = self;
        match data.name {
            Some(name) => { person.name = name; },
            None => {},
        }
        match data.email {
            Some(email) => { person.email = email; },
            None => {},
        }
        match data.age {
            Some(age) => { person.age = age; },
            None => {},
        }
        person
    }
}

impl Entity for Person {
    type CreateType = CreatePerson;

    type UpdateType = UpdatePerson;

    fn new_from_create(data: CreatePerson) -> (r: Person)
        ensures
            r.id is None,
            r.name == data.name,
            r.email == data.email,
            r.age == data.age,
    {
        Person::new(data.name, data.email, data.age)
    }
}

} // verus!
