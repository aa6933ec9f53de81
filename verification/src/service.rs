//! Service instances.
use crate::keyed::{keyed_texts, Keyed};
use crate::names::texts;
use crate::outcome::optional;
use vstd::prelude::*;

verus! {

/// A registered instance of a service.
#[derive(Debug)]
pub struct ServiceInstance {
    /// Identifies the instance.
    pub id: String,
    /// The service that the instance belongs to.
    pub name: String,
    pub address: String,
    pub port: u16,
    pub tags: Vec<String>,
    pub metadata: Keyed<String>,
    /// Where the instance answers health probes, if it does.
    pub health_check_url: Option<String>,
}

/// The mathematical value of a [`ServiceInstance`].
pub struct InstanceView {
    pub id: Seq<char>,
    pub name: Seq<char>,
    pub address: Seq<char>,
    pub port: u16,
    pub tags: Seq<Seq<char>>,
    pub metadata: Map<Seq<char>, Seq<char>>,
    pub health_check_url: Option<Seq<char>>,
}

impl View for ServiceInstance {
    type V = InstanceView;

    open spec fn view(&self) -> InstanceView {
        InstanceView {
            id: self.id@,
            name: self.name@,
            address: self.address@,
            port: self.port,
            tags: texts(self.tags@),
            metadata: keyed_texts(self.metadata@),
            health_check_url: optional(self.health_check_url),
        }
    }
}

impl InstanceView {
    /// An instance with no tags, no metadata and no health check.
    pub open spec fn plain(id: Seq<char>, name: Seq<char>, address: Seq<char>, port: u16) -> Self {
        InstanceView {
            id,
            name,
            address,
            port,
            tags: Seq::empty(),
            metadata: Map::empty(),
            health_check_url: None,
        }
    }
}

/// The values of a list of instances.
pub open spec fn instances(list: Seq<ServiceInstance>) -> Seq<InstanceView> {
    list.map_values(|instance: ServiceInstance| instance@)
}

impl ServiceInstance {
    /// An instance with no tags, no metadata and no health check.
    pub fn new(id: &str, name: &str, address: &str, port: u16) -> (instance: Self)
        ensures
            instance@ == InstanceView::plain(id@, name@, address@, port),
    {
        let instance = ServiceInstance {
            id: id.to_owned(),
            name: name.to_owned(),
            address: address.to_owned(),
            port,
            tags: Vec::new(),
            metadata: Keyed::new(),
            health_check_url: None,
        };
        assert(instance@.tags =~= Seq::empty());
        assert(instance@.metadata =~= Map::empty());
        instance
    }

    /// This instance with one more tag.
    pub fn with_tag(self, tag: &str) -> (instance: Self)
        ensures
            instance@ == (InstanceView { tags: self@.tags.push(tag@), ..self@ }),
    {
        let ghost before = self@;
        let mut instance = self;
        instance.tags.push(tag.to_owned());
        assert(instance@.tags =~= before.tags.push(tag@));
        instance
    }

    /// This instance with a health check at `url`.
    pub fn with_health_check(self, url: &str) -> (instance: Self)
        ensures
            instance@ == (InstanceView { health_check_url: Some(url@), ..self@ }),
    {
        let mut instance = self;
        instance.health_check_url = Some(url.to_owned());
        instance
    }
}

impl Clone for ServiceInstance {
    fn clone(&self) -> (copy: Self)
        ensures
            copy@ == self@,
    {
        let copy = ServiceInstance {
            id: self.id.clone(),
            name: self.name.clone(),
            address: self.address.clone(),
            port: self.port,
            tags: copy_texts(&self.tags),
            metadata: self.metadata.clone(),
            health_check_url: match &self.health_check_url {
                Some(url) => Some(url.clone()),
                None => None,
            },
        };
        copy
    }
}

/// A copy of a list of strings.
fn copy_texts(list: &Vec<String>) -> (copy: Vec<String>)
    ensures
        texts(copy@) == texts(list@),
{
    let mut copy: Vec<String> = Vec::new();
    let mut next: usize = 0;
    while next < list.len()
        invariant
            next <= list@.len(),
            copy@ =~= list@.take(next as int),
        decreases list@.len() - next,
    {
        copy.push(list[next].clone());
        next = next + 1;
    }
    assert(copy@ =~= list@);
    copy
}

} // verus!
