//! The registry of the resources that the host offers to the program it runs.
//!
//! A resource is known by its uuid; it has a type, a name, tags, the resources
//! it is connected to, and the names of the methods it answers. The host keeps
//! the code of each method beside the registry, under the resource's uuid and
//! the method's name.
use vstd::prelude::*;
use std::collections::HashMap;
use crate::uuid::Uuid;

verus! {

broadcast use vstd::std_specs::hash::group_hash_axioms;

/// A resource as the registry holds it.
pub struct Resource {
    pub uuid: Uuid,
    pub resource_type: Uuid,
    pub name: String,
    pub methods: Vec<String>,
    pub tags: Vec<Uuid>,
    pub connected_resources: Vec<Uuid>,
}

impl Default for Resource {
    /// The resource with nil uuid and type, empty name, and no methods, tags or
    /// connections.
    fn default() -> (r: Self)
        ensures
            r.uuid@ == 0,
            r.resource_type@ == 0,
            r.name@ == Seq::<char>::empty(),
            r.methods@ == Seq::<String>::empty(),
            r.tags@ == Seq::<Uuid>::empty(),
            r.connected_resources@ == Seq::<Uuid>::empty(),
    {
        Resource {
            uuid: Uuid::from_u128(0),
            resource_type: Uuid::from_u128(0),
            name: String::new(),
            methods: Vec::new(),
            tags: Vec::new(),
            connected_resources: Vec::new(),
        }
    }
}

/// The resource answers a method of that name.
pub open spec fn has_method(r: Resource, method: Seq<char>) -> bool {
    exists|i: int| 0 <= i < r.methods@.len() && (#[trigger] r.methods@[i])@ == method
}

/// The resources known to the host, by the value of their uuid.
pub struct ResourceRegistry {
    resources: HashMap<u128, Resource>,
}

impl View for ResourceRegistry {
    type V = Map<u128, Resource>;

    closed spec fn view(&self) -> Map<u128, Resource> {
        self.resources@
    }
}

/// Whether `r` answers a method named `method`.
pub fn answers_method(r: &Resource, method: &String) -> (b: bool)
    ensures
        b == has_method(*r, method@),
{
    let n = r.methods.len();
    let mut i: usize = 0;
    while i < n
        invariant
            n == r.methods@.len(),
            i <= n,
            forall|j: int| 0 <= j < i ==> (#[trigger] r.methods@[j])@ != method@,
        decreases n - i,
    {
        if r.methods[i] == *method {
            return true;
        }
        i = i + 1;
    }
    false
}

impl ResourceRegistry {
    /// The empty registry.
    pub fn new() -> (r: ResourceRegistry)
        ensures
            r@ == Map::<u128, Resource>::empty(),
    {
        ResourceRegistry { resources: HashMap::new() }
    }

    /// Registers `resource` under its uuid, replacing what was registered there.
    pub fn insert(&mut self, resource: Resource)
        ensures
            final(self)@ == old(self)@.insert(resource.uuid@, resource),
    {
        let key = resource.uuid.as_u128();
        self.resources.insert(key, resource);
    }

    /// The resource registered under `uuid`, if any.
    pub fn get(&self, uuid: Uuid) -> (r: Option<&Resource>)
        ensures
            match r {
                Some(res) => self@.contains_key(uuid@) && *res == self@[uuid@],
                None => !self@.contains_key(uuid@),
            },
    {
        let key = uuid.as_u128();
        self.resources.get(&key)
    }

    /// Whether a resource is registered under `uuid`.
    pub fn contains(&self, uuid: Uuid) -> (b: bool)
        ensures
            b == self@.contains_key(uuid@),
    {
        let key = uuid.as_u128();
        self.resources.contains_key(&key)
    }

    /// Records that the resource `owner` is connected to `connected`; `false`,
    /// with nothing changed, where no resource is registered under `owner`.
    pub fn connect(&mut self, owner: Uuid, connected: Uuid) -> (ok: bool)
        ensures
            ok == old(self)@.contains_key(owner@),
            ok ==> {
                let before = old(self)@[owner@];
                let after = final(self)@[owner@];
                &&& final(self)@ == old(self)@.insert(owner@, after)
                &&& after.uuid == before.uuid
                &&& after.resource_type == before.resource_type
                &&& after.name == before.name
                &&& after.methods == before.methods
                &&& after.tags == before.tags
                &&& after.connected_resources@ == before.connected_resources@.push(connected)
            },
            !ok ==> final(self)@ == old(self)@,
    {
        let key = owner.as_u128();
        match self.resources.remove(&key) {
            None => false,
            Some(mut res) => {
                res.connected_resources.push(connected);
                self.resources.insert(key, res);
                true
            },
        }
    }
}

/// Reading a registry back where a resource was just registered gives that
/// resource, and every other entry is what it was.
pub proof fn lemma_registry_read_after_insert(
    m: Map<u128, Resource>,
    r: Resource,
    other: u128,
)
    ensures
        m.insert(r.uuid@, r).contains_key(r.uuid@),
        m.insert(r.uuid@, r)[r.uuid@] == r,
        other != r.uuid@ ==> (m.insert(r.uuid@, r).contains_key(other) == m.contains_key(other)
            && m.insert(r.uuid@, r)[other] == m[other]),
{
}

} // verus!
