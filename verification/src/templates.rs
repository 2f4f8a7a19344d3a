//! What the pages show.

use vstd::prelude::*;
use crate::models::Person;

verus! {

/// One line of the index page.
#[derive(Debug, Clone)]
pub struct EndpointInfo {
    pub name: String,
    pub url: String,
    pub description: String,
}

/// The index page.
#[derive(Debug, Clone)]
pub struct IndexTemplate {
    pub title: String,
    pub message: String,
    pub version: String,
    pub endpoints: Vec<EndpointInfo>,
}

/// The page of one person.
#[derive(Debug, Clone)]
pub struct PersonShowTemplate {
    pub person: Person,
}

/// The form that creates a person.
#[derive(Debug, Clone, Copy)]
pub struct PersonCreateTemplate;

impl IndexTemplate {
    /// The index page with its two resources, persons first.
    pub fn new() -> (r: IndexTemplate)
        ensures
            r.title@ == "Zourit API"@,
            r.message@ == "Welcome to Zourit API"@,
            r.version@ == "1.0.0"@,
            r.endpoints@.len() == 2,
            r.endpoints@[0].name@ == "Persons"@,
            r.endpoints@[0].url@ == "/persons"@,
            r.endpoints@[0].description@ == "Manage persons - GET, POST, PUT, DELETE operations"@,
            r.endpoints@[1].name@ == "Products"@,
            r.endpoints@[1].url@ == "/products"@,
            r.endpoints@[1].description@ == "Manage products - GET, POST, PUT, DELETE operations"@,
    {
        let mut endpoints: Vec<EndpointInfo> = Vec::new();
        endpoints.push(
            EndpointInfo {
                name: "Persons".to_owned(),
                url: "/persons".to_owned(),
                description: "Manage persons - GET, POST, PUT, DELETE operations".to_owned(),
            },
        );
        endpoints.push(
            EndpointInfo {
                name: "Products".to_owned(),
                url: "/products".to_owned(),
                description: "Manage products - GET, POST, PUT, DELETE operations".to_owned(),
            },
        );
        IndexTemplate {
            title: "Zourit API".to_owned(),
            message: "Welcome to Zourit API".to_owned(),
            version: "1.0.0".to_owned(),
            endpoints,
        }
    }
}

impl PersonShowTemplate {
    /// The page of `person`.
    pub fn new(person: Person) -> (r: PersonShowTemplate)
        ensures
            r.person == person,
    {
        PersonShowTemplate { person }
    }
}

impl PersonCreateTemplate {
    /// The empty form.
    pub fn new() -> (r: PersonCreateTemplate)
        ensures
            r == PersonCreateTemplate,
    {
        PersonCreateTemplate
    }
}

} // verus!
