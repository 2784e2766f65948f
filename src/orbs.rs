use vstd::prelude::*;
use crate::keyed::KeyedMap;
use crate::text::join_with;

verus! {

/// The compact reference form of an orb: `namespace/name@version`.
pub open spec fn orb_text(namespace: Seq<char>, name: Seq<char>, version: Seq<char>) -> Seq<char> {
    namespace + seq!['/'] + name + seq!['@'] + version
}

/// The orbs of a pipeline, by alias, in ascending alias order.
pub struct Orbs {
    pub orbs: KeyedMap<Orb>,
}

/// A reference to a reusable configuration package.
pub struct Orb {
    pub namespace: String,
    pub name: String,
    pub version: String,
}

impl Orb {
    /// An orb from its namespace, name and version, taken as given.
    pub fn new(namespace: &str, name: &str, version: &str) -> (r: Orb)
        ensures
            r.namespace@ == namespace@,
            r.name@ == name@,
            r.version@ == version@,
    {
        Orb { namespace: namespace.to_owned(), name: name.to_owned(), version: version.to_owned() }
    }

    /// The orb as the scalar string it renders to.
    pub fn render(&self) -> (r: String)
        ensures
            r@ == orb_text(self.namespace@, self.name@, self.version@),
    {
        let head = join_with(self.namespace.as_str(), "/", self.name.as_str());
        let r = join_with(head.as_str(), "@", self.version.as_str());
        proof {
            reveal_strlit("/");
            reveal_strlit("@");
        }
        r
    }
}

} // verus!
