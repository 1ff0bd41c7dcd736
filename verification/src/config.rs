use vstd::prelude::*;

verus! {

/// Static configuration of the game service.
#[derive(Clone, Copy, Debug)]
pub struct Config {
    pub version: &'static str,
}

impl Config {
    /// The configuration the service runs with.
    pub fn current() -> (c: Config)
        ensures
            c.version@ == "1.0"@,
    {
        Config { version: "1.0" }
    }

    /// The service advances its event queue on every block.
    pub fn autotick() -> (r: bool)
        ensures
            r,
    {
        true
    }
}

} // verus!
