use vstd::prelude::*;

verus! {

/// The descriptive attributes of a record, as mathematical values.
pub struct Attrs {
    pub name: Seq<char>,
    pub version: Seq<char>,
    pub description: Option<Seq<char>>,
}

/// A stored record, as a mathematical value.
pub struct CrateView {
    pub id: int,
    pub attrs: Attrs,
}

/// The view of an optional string.
pub open spec fn opt_view(s: Option<String>) -> Option<Seq<char>> {
    match s {
        Some(t) => Some(t@),
        None => None,
    }
}

/// The views of a sequence of records.
pub open spec fn views(s: Seq<Crate>) -> Seq<CrateView> {
    s.map_values(|c: Crate| c@)
}

/// A persisted catalog entry: the identifier that storage assigned, and its attributes.
#[derive(Debug, PartialEq, Eq)]
pub struct Crate {
    pub id: i32,
    pub name: String,
    pub version: String,
    pub description: Option<String>,
}

/// The payload that creates a record: a `Crate` without its identifier.
#[derive(Debug, PartialEq, Eq)]
pub struct NewCrate {
    pub name: String,
    pub version: String,
    pub description: Option<String>,
}

impl View for Crate {
    type V = CrateView;

    open spec fn view(&self) -> CrateView {
        CrateView {
            id: self.id as int,
            attrs: Attrs {
                name: self.name@,
                version: self.version@,
                description: opt_view(self.description),
            },
        }
    }
}

impl View for NewCrate {
    type V = Attrs;

    open spec fn view(&self) -> Attrs {
        Attrs { name: self.name@, version: self.version@, description: opt_view(self.description) }
    }
}

fn clone_opt_string(s: &Option<String>) -> (r: Option<String>)
    ensures
        r == *s,
{
    match s {
        Some(t) => Some(t.clone()),
        None => None,
    }
}

impl Clone for Crate {
    fn clone(&self) -> (r: Self)
        ensures
            r == *self,
    {
        Crate {
            id: self.id,
            name: self.name.clone(),
            version: self.version.clone(),
            description: clone_opt_string(&self.description),
        }
    }
}

impl Clone for NewCrate {
    fn clone(&self) -> (r: Self)
        ensures
            r == *self,
    {
        NewCrate {
            name: self.name.clone(),
            version: self.version.clone(),
            description: clone_opt_string(&self.description),
        }
    }
}

impl Crate {
    /// The record that a payload becomes under the identifier `id`.
    pub fn from_new(id: i32, new_crate: NewCrate) -> (r: Crate)
        ensures
            r@ == (CrateView { id: id as int, attrs: new_crate@ }),
    {
        Crate {
            id,
            name: new_crate.name,
            version: new_crate.version,
            description: new_crate.description,
        }
    }

    /// The same record under the identifier `id`.
    pub fn with_id(self, id: i32) -> (r: Crate)
        ensures
            r@ == (CrateView { id: id as int, attrs: self@.attrs }),
    {
        Crate { id, ..self }
    }
}

} // verus!
