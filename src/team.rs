//! Teams.
use vstd::prelude::*;

verus! {

/// A team, with its identity in storage once stored.
#[derive(Debug)]
pub struct Team {
    pub id: Option<i64>,
    pub name: String,
    pub city: String,
}

impl Team {
    pub fn new(id: Option<i64>, name: String, city: String) -> (r: Team)
        ensures
            r.id == id,
            r.name@ == name@,
            r.city@ == city@,
    {
        Team { id, name, city }
    }
}

} // verus!
