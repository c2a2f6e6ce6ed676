//! The target registry: the ordered, immutable collection of named
//! backends behind the proxy, plus the proxy's own public port.

use vstd::prelude::*;

use crate::bytes::bytes_eq;

verus! {

/// A named backend service: the name doubles as the path segment under
/// the reserved prefix, the port addresses it on the loopback interface.
pub struct Target {
    pub name: Vec<u8>,
    pub port: u16,
    pub description: Vec<u8>,
}

/// The ordered targets and the proxy's public port.  Built once at
/// startup and never mutated afterwards.
pub struct Registry {
    pub router_port: u16,
    pub targets: Vec<Target>,
}

/// No target in `ts` is named `n`.
pub open spec fn no_target(ts: Seq<Target>, n: Seq<u8>) -> bool {
    forall|j: int| 0 <= j < ts.len() ==> #[trigger] ts[j].name@ != n
}

/// `i` is the first index in `ts` whose target is named `n`.
pub open spec fn target_at(ts: Seq<Target>, i: int, n: Seq<u8>) -> bool {
    &&& 0 <= i < ts.len()
    &&& ts[i].name@ == n
    &&& forall|j: int| 0 <= j < i ==> #[trigger] ts[j].name@ != n
}

impl Registry {
    /// Look a name up by exact match, first match wins.
    pub fn find_target(&self, name: &Vec<u8>) -> (r: Option<usize>)
        ensures
            match r {
                Some(i) => target_at(self.targets@, i as int, name@),
                None => no_target(self.targets@, name@),
            },
    {
        let mut i: usize = 0;
        while i < self.targets.len()
            invariant
                0 <= i <= self.targets@.len(),
                forall|j: int| 0 <= j < i ==> #[trigger] self.targets@[j].name@ != name@,
            decreases self.targets@.len() - i,
        {
            if bytes_eq(&self.targets[i].name, name) {
                return Some(i);
            }
            i += 1;
        }
        None
    }
}

} // verus!
