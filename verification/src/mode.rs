use vstd::prelude::*;

verus! {

/// How the external loop drives the machine: `Stepwise` pauses for input on
/// every iteration, `Normal` free-runs throttled to a fixed frame rate. The
/// mere presence of a second command-line argument selects stepwise mode.
#[derive(Debug, PartialEq, Eq, Structural)]
pub enum RunMode {
    Stepwise,
    Normal,
}

/// What mode an optional argument selects: present means stepwise.
pub open spec fn spec_run_mode(s: Option<&String>) -> RunMode {
    match s {
        None => RunMode::Normal,
        Some(_) => RunMode::Stepwise,
    }
}

impl<'a> core::convert::From<Option<&'a String>> for RunMode {
    fn from(s: Option<&'a String>) -> (r: Self) {
        match s {
            None => RunMode::Normal,
            Some(_) => RunMode::Stepwise,
        }
    }
}

impl<'a> vstd::std_specs::convert::FromSpecImpl<Option<&'a String>> for RunMode {
    open spec fn obeys_from_spec() -> bool {
        true
    }

    open spec fn from_spec(s: Option<&'a String>) -> Self {
        spec_run_mode(s)
    }
}

} // verus!
