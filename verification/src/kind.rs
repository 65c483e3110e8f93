//! The tagged degree-of-freedom class of a planar mapping.

use vstd::prelude::*;

verus! {

use vstd::string::StringExecFns;

/// The degree-of-freedom class of a `Mapping`.
///
/// `Unknown` is a sentinel produced only by composing with an absent
/// operand; its parameter count is zero, so it loses every
/// most-parameters race against a named class.
#[derive(Clone, Copy, Debug, PartialEq, Eq, Structural)]
pub enum TransformationType {
    Identity,
    Translational,
    Affine,
    Projective,
    Unknown,
}

impl TransformationType {
    /// The number of parameters of the minimal form of this class.
    pub open spec fn spec_num_params(self) -> int {
        match self {
            TransformationType::Identity => 0,
            TransformationType::Translational => 2,
            TransformationType::Affine => 6,
            TransformationType::Projective => 8,
            TransformationType::Unknown => 0,
        }
    }

    /// The spelling of this class on string interfaces.
    pub open spec fn spec_name(self) -> Seq<char> {
        match self {
            TransformationType::Identity => "Identity"@,
            TransformationType::Translational => "Translational"@,
            TransformationType::Affine => "Affine"@,
            TransformationType::Projective => "Projective"@,
            TransformationType::Unknown => "Unknown"@,
        }
    }

    /// Get minimum number of parameters that describe the class.
    pub fn num_params(&self) -> (n: usize)
        ensures
            n as int == self.spec_num_params(),
    {
        match self {
            TransformationType::Identity => 0,
            TransformationType::Translational => 2,
            TransformationType::Affine => 6,
            TransformationType::Projective => 8,
            TransformationType::Unknown => 0,
        }
    }

    /// The capitalized variant name, for external interfaces.
    pub fn kind_to_string(&self) -> (s: String)
        ensures
            s@ == self.spec_name(),
    {
        match self {
            TransformationType::Identity => String::from_str("Identity"),
            TransformationType::Translational => String::from_str("Translational"),
            TransformationType::Affine => String::from_str("Affine"),
            TransformationType::Projective => String::from_str("Projective"),
            TransformationType::Unknown => String::from_str("Unknown"),
        }
    }

    /// The class named by `s`: accepted spellings are the capitalized
    /// variant names, verbatim.
    pub fn kind_from_string(s: &str) -> (r: Option<TransformationType>)
        ensures
            r == spec_kind_from_chars(s@),
    {
        let owned: String = s.to_owned();
        if owned == String::from_str("Identity") {
            Some(TransformationType::Identity)
        } else if owned == String::from_str("Translational") {
            Some(TransformationType::Translational)
        } else if owned == String::from_str("Affine") {
            Some(TransformationType::Affine)
        } else if owned == String::from_str("Projective") {
            Some(TransformationType::Projective)
        } else if owned == String::from_str("Unknown") {
            Some(TransformationType::Unknown)
        } else {
            None
        }
    }
}

/// The class whose spelling is exactly the given character sequence.
pub open spec fn spec_kind_from_chars(s: Seq<char>) -> Option<TransformationType> {
    if s == "Identity"@ {
        Some(TransformationType::Identity)
    } else if s == "Translational"@ {
        Some(TransformationType::Translational)
    } else if s == "Affine"@ {
        Some(TransformationType::Affine)
    } else if s == "Projective"@ {
        Some(TransformationType::Projective)
    } else if s == "Unknown"@ {
        Some(TransformationType::Unknown)
    } else {
        None
    }
}

} // verus!
