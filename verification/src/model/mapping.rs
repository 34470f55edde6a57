use vstd::prelude::*;

use crate::text_util::str_equal;

verus! {

/// One named mapping rule set; its rules are applied by the external
/// mapping engine, this model carries the identity the configuration
/// refers to.
#[derive(Debug, Clone, PartialEq)]
pub struct Mapping {
    pub id: String,
}

impl Mapping {
    /// An owned copy with the same content.
    pub fn duplicate(&self) -> (r: Mapping)
        ensures
            r.id@ == self.id@,
    {
        Mapping { id: self.id.clone() }
    }
}

#[derive(Debug, Clone, PartialEq)]
pub struct Mappings {
    pub mappings: Vec<Mapping>,
}

/// The first mapping with the given id.
pub open spec fn find_mapping(ms: Seq<Mapping>, id: Seq<char>) -> Option<Mapping>
    decreases ms.len(),
{
    if ms.len() == 0 {
        Option::None
    } else if ms[0].id@ == id {
        Option::Some(ms[0])
    } else {
        find_mapping(ms.subrange(1, ms.len() as int), id)
    }
}

impl Mappings {
    pub fn get_mapping(&self, mapping_id: &str) -> (r: Option<Mapping>)
        ensures
            match r {
                Option::Some(m) => exists|m0: Mapping|
                    find_mapping(self.mappings@, mapping_id@) == Option::Some(m0) && m.id@
                        == m0.id@,
                Option::None => find_mapping(self.mappings@, mapping_id@) is None,
            },
    {
        let n = self.mappings.len();
        let mut i: usize = 0;
        proof {
            assert(self.mappings@.subrange(0, n as int) =~= self.mappings@);
        }
        while i < n
            invariant
                i <= n,
                n == self.mappings@.len(),
                find_mapping(self.mappings@, mapping_id@) == find_mapping(
                    self.mappings@.subrange(i as int, n as int),
                    mapping_id@,
                ),
            decreases n - i,
        {
            proof {
                let rest = self.mappings@.subrange(i as int, n as int);
                assert(rest.subrange(1, rest.len() as int) =~= self.mappings@.subrange(
                    i + 1,
                    n as int,
                ));
            }
            if str_equal(self.mappings[i].id.as_str(), mapping_id) {
                return Some(self.mappings[i].duplicate());
            }
            i += 1;
        }
        None
    }
}

} // verus!
