//! Command-line options and the layout of the data directory.
use vstd::prelude::*;

verus! {

/// Options given on the command line.
#[derive(Clone, Copy, Debug, PartialEq, Eq, Structural)]
pub struct ParsedArguments {
    /// Copy the example bodies into the data directory before starting.
    pub create_data: bool,
}

/// The directories of initial-condition files, under the data directory.
#[derive(Clone, Copy, Debug, PartialEq, Eq, Structural)]
pub enum DataDir {
    Base,
    Planets,
    Crafts,
}

impl DataDir {
    /// Name of the directory relative to the data directory; the base is
    /// the data directory itself.
    pub open spec fn spec_name(self) -> Seq<char> {
        match self {
            DataDir::Base => seq![],
            DataDir::Planets => seq!['p', 'l', 'a', 'n', 'e', 't', 's'],
            DataDir::Crafts => seq!['c', 'r', 'a', 'f', 't', 's'],
        }
    }

    pub fn to_string(&self) -> (r: String)
        ensures
            r@ == self.spec_name(),
    {
        match self {
            DataDir::Base => {
                proof {
                    reveal_strlit("");
                }
                let r = "".to_owned();
                assert(r@ =~= self.spec_name());
                r
            },
            DataDir::Planets => {
                proof {
                    reveal_strlit("planets");
                }
                let r = "planets".to_owned();
                assert(r@ =~= self.spec_name());
                r
            },
            DataDir::Crafts => {
                proof {
                    reveal_strlit("crafts");
                }
                let r = "crafts".to_owned();
                assert(r@ =~= self.spec_name());
                r
            },
        }
    }
}

} // verus!
