use vstd::prelude::*;

verus! {

/// The build variant an operation is run for.
#[derive(Clone, Copy, Debug, PartialEq, Eq, Structural)]
pub enum Profile {
    Debug,
    Release,
}

impl Profile {
    /// The label of the variant, as it appears in paths and flags.
    pub open spec fn label(self) -> Seq<char> {
        match self {
            Profile::Debug => "debug"@,
            Profile::Release => "release"@,
        }
    }

    pub fn is_debug(self) -> (r: bool)
        ensures
            r == (self == Profile::Debug),
    {
        self == Profile::Debug
    }

    pub fn is_release(self) -> (r: bool)
        ensures
            r == (self == Profile::Release),
    {
        self == Profile::Release
    }

    pub fn as_str(&self) -> (r: &'static str)
        ensures
            r@ == self.label(),
    {
        match self {
            Profile::Debug => "debug",
            Profile::Release => "release",
        }
    }
}

} // verus!
