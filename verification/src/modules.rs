//! The plugin descriptor data model: what an external block library
//! exports about itself. The dynamic loader that reads these records from
//! a shared object lives with the host application.

use vstd::prelude::*;

verus! {

/// A three-part version number.
#[derive(Clone, Copy, Debug, PartialEq, Eq, Structural)]
pub struct Version {
    pub major: u32,
    pub minor: u32,
    pub build: u32,
}

impl Version {
    /// Ordered first by major, then minor, then build.
    pub open spec fn at_least_spec(self, other: Version) -> bool {
        ||| self.major > other.major
        ||| (self.major == other.major && self.minor > other.minor)
        ||| (self.major == other.major && self.minor == other.minor && self.build >= other.build)
    }

    pub fn at_least(&self, other: &Version) -> (r: bool)
        ensures
            r == self.at_least_spec(*other),
    {
        if self.major != other.major {
            self.major > other.major
        } else if self.minor != other.minor {
            self.minor > other.minor
        } else {
            self.build >= other.build
        }
    }
}

/// One library the module depends on, at a minimum version.
pub struct Dependency {
    pub dep_name: String,
    pub version: Version,
}

/// A module descriptor: what a block library exports as static data.
pub struct ModuleStruct {
    pub name: String,
    pub description: String,
    pub authors: String,
    pub release_date: String,
    pub version: Version,
    pub dependencies: Vec<Dependency>,
    pub provides: Vec<String>,
}

impl ModuleStruct {
    /// Whether the module's factory can build a block of this name.
    pub fn provides_block(&self, block_name: &str) -> (r: bool)
        ensures
            r == exists|i: int|
                0 <= i < self.provides@.len() && (#[trigger] self.provides@[i])@ == block_name@,
    {
        let key: String = block_name.to_owned();
        let n = self.provides.len();
        let mut i: usize = 0;
        while i < n
            invariant
                i <= n,
                n == self.provides@.len(),
                key@ == block_name@,
                forall|j: int| 0 <= j < i ==> (#[trigger] self.provides@[j])@ != block_name@,
            decreases n - i,
        {
            if self.provides[i] == key {
                return true;
            }
            i = i + 1;
        }
        false
    }
}

} // verus!
