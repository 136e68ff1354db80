use vstd::prelude::*;

verus! {

/// Who owns a project.
#[derive(Clone, Debug, PartialEq, Eq)]
pub enum ProjectOwner {
    Myself,
    User(String),
    Organization(String),
}

/// A project: its UUID, the name the AI gives it, an unused description, and
/// its owner.
#[derive(Clone, Debug)]
pub struct Project {
    pub uuid: String,
    pub name: Option<String>,
    pub description: Option<String>,
    pub owner: ProjectOwner,
}

/// What a client sends to create a project.
#[derive(Debug)]
pub struct ProjectCreate {
    pub name: Option<String>,
    pub description: Option<String>,
}

/// The stored collection of projects.
pub struct ProjectCollection {}

/// An item that a collection stores under an ID.
pub trait CrudItem {
    spec fn spec_id(&self) -> Seq<char>;

    /// The ID the item is stored under.
    fn get_id(&self) -> (r: String)
        ensures
            r@ == self.spec_id(),
    ;
}

impl CrudItem for Project {
    open spec fn spec_id(&self) -> Seq<char> {
        self.uuid@
    }

    fn get_id(&self) -> (r: String) {
        self.uuid.clone()
    }
}

impl Project {
    /// A project with the given UUID. The name and the owner are taken as
    /// they are given.
    pub fn with_uuid(uuid: String, name: Option<String>, description: Option<String>, owner: ProjectOwner) -> (r: Project)
        ensures
            r.uuid == uuid,
            r.name == name,
            r.description == description,
            r.owner == owner,
    {
        Project { uuid, name, description, owner }
    }

    /// The project with the name that the AI gave it.
    pub fn renamed(self, name: String) -> (r: Project)
        ensures
            r.uuid == self.uuid,
            r.name == Some(name),
            r.description == self.description,
            r.owner == self.owner,
    {
        Project { name: Some(name), ..self }
    }
}

impl ProjectCollection {
    /// The name under which projects are stored.
    pub fn get_collection_name() -> (r: &'static str)
        ensures
            r@ == "project"@,
    {
        proof {
            reveal_strlit("project");
        }
        "project"
    }
}

} // verus!
