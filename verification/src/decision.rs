use vstd::prelude::*;

verus! {

/// The outcome of a preflight evaluation: STOP outranks REVIEW, which outranks READY.
#[derive(Debug, Clone, Copy, PartialEq, Eq, Structural)]
pub enum Decision {
    Ready,
    Review,
    Stop,
}

impl Decision {
    /// The rank used for precedence: READY 0, REVIEW 1, STOP 2.
    pub open spec fn spec_priority(self) -> u8 {
        match self {
            Decision::Ready => 0,
            Decision::Review => 1,
            Decision::Stop => 2,
        }
    }

    /// The upper-case label of the decision, as shown to users.
    pub open spec fn spec_label(self) -> Seq<char> {
        match self {
            Decision::Ready => "READY"@,
            Decision::Review => "REVIEW"@,
            Decision::Stop => "STOP"@,
        }
    }

    pub fn priority(self) -> (p: u8)
        ensures
            p == self.spec_priority(),
    {
        match self {
            Decision::Ready => 0,
            Decision::Review => 1,
            Decision::Stop => 2,
        }
    }

    /// The label of the decision (`READY`, `REVIEW` or `STOP`).
    pub fn to_string(&self) -> (s: String)
        ensures
            s@ == self.spec_label(),
    {
        match self {
            Decision::Ready => String::from_str("READY"),
            Decision::Review => String::from_str("REVIEW"),
            Decision::Stop => String::from_str("STOP"),
        }
    }
}

} // verus!
