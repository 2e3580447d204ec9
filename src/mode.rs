use vstd::prelude::*;

verus! {

/// Which dependencies are checked against the registry.
#[derive(Debug, Copy, Clone, PartialEq, Eq, Structural, PartialOrd, Ord, Hash)]
pub enum Mode {
    /// Check nothing.
    Off,
    /// Check only the entries that lost a source-location key.
    Rewritten,
    /// Check every entry.
    All,
}

impl Default for Mode {
    fn default() -> (r: Self)
        ensures
            r == Mode::Off,
    {
        Mode::Off
    }
}

/// Whether an entry is checked under `mode`, given whether it was rewritten.
pub open spec fn wants_check(mode: Mode, removed: bool) -> bool {
    match mode {
        Mode::Off => false,
        Mode::Rewritten => removed,
        Mode::All => true,
    }
}

impl Mode {
    /// The selector's spelling on the command line.
    pub open spec fn spec_name(self) -> Seq<char> {
        match self {
            Mode::Off => seq!['n', 'o', 'n', 'e'],
            Mode::Rewritten => seq!['r', 'e', 'w', 'r', 'i', 't', 't', 'e', 'n', '-', 'o', 'n', 'l', 'y'],
            Mode::All => seq!['a', 'l', 'l'],
        }
    }

    /// The selector's spelling on the command line.
    pub fn name(&self) -> (r: String)
        ensures
            r@ == self.spec_name(),
    {
        match self {
            Mode::Off => {
                proof { reveal_strlit("none"); }
                String::from_str("none")
            },
            Mode::Rewritten => {
                proof { reveal_strlit("rewritten-only"); }
                String::from_str("rewritten-only")
            },
            Mode::All => {
                proof { reveal_strlit("all"); }
                String::from_str("all")
            },
        }
    }

    /// Whether an entry is checked under this mode, given whether it was rewritten.
    pub fn should_check(&self, removed: bool) -> (r: bool)
        ensures
            r == wants_check(*self, removed),
    {
        match self {
            Mode::Off => false,
            Mode::Rewritten => removed,
            Mode::All => true,
        }
    }
}

} // verus!
