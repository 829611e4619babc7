//! What the operator chooses: the tracked function and the report's order.

use crate::histogram::Histogram;
use vstd::prelude::*;
use vstd::string::StringExecFns;

verus! {

/// What the report's entries are ordered by, and what weighs a stack in the
/// flame graph.
#[derive(Debug, Clone, Copy, PartialEq, Eq, Structural)]
pub enum OrderBy {
    /// The number of allocations.
    Count,
    /// The sum of the allocated sizes.
    Traffic,
}

impl OrderBy {
    /// The weight of a histogram under this order.
    pub open spec fn weight_of(self, hist: Histogram) -> u64 {
        match self {
            OrderBy::Count => hist@.total_count(),
            OrderBy::Traffic => hist.total,
        }
    }

    pub fn weight(&self, hist: &Histogram) -> (weight: u64)
        ensures
            weight == self.weight_of(*hist),
    {
        match self {
            OrderBy::Count => hist.total_count(),
            OrderBy::Traffic => hist.total,
        }
    }

    /// The name of the weight, as the flame graph shows it.
    pub open spec fn count_name_text(self) -> Seq<char> {
        match self {
            OrderBy::Count => "count"@,
            OrderBy::Traffic => "total allocated"@,
        }
    }

    pub fn count_name(&self) -> (name: &'static str)
        ensures
            name@ == self.count_name_text(),
    {
        match self {
            OrderBy::Count => "count",
            OrderBy::Traffic => "total allocated",
        }
    }
}

/// The allocation entry points that can be tracked.
#[derive(Debug, Clone, Copy, PartialEq, Eq, Structural)]
pub enum JemallocAllocFunctions {
    Malloc,
    Calloc,
    Realloc,
    Mallocx,
    Rallocx,
    Xallocx,
}

/// The lowercase form of a text, as `str::to_lowercase` gives it.
pub uninterp spec fn lowercased(text: Seq<char>) -> Seq<char>;

/// The lowercase form of a text. This is `str::to_lowercase` of the standard
/// library, which goes by the Unicode tables; the contract only names it.
#[verifier::external_body]
fn lowercase(text: &str) -> (lower: String)
    ensures
        lower@ == lowercased(text@),
{
    text.to_lowercase()
}

fn same_text(text: &str, other: &str) -> (same: bool)
    ensures
        same == (text@ == other@),
{
    let a = String::from_str(text);
    let b = String::from_str(other);
    a == b
}

/// A function name that is none of the tracked ones.
#[derive(Debug, Clone)]
pub struct InvalidFunctionName {
    pub name: String,
}

impl InvalidFunctionName {
    /// The message for the operator.
    pub fn message(&self) -> (text: String)
        ensures
            text@ == "Invalid function name "@ + self.name@,
    {
        let mut text = String::from_str("Invalid function name ");
        text.append(self.name.as_str());
        text
    }
}

impl JemallocAllocFunctions {
    /// The symbol of the function, in lowercase.
    pub open spec fn name_text(self) -> Seq<char> {
        match self {
            JemallocAllocFunctions::Malloc => "malloc"@,
            JemallocAllocFunctions::Calloc => "calloc"@,
            JemallocAllocFunctions::Realloc => "realloc"@,
            JemallocAllocFunctions::Mallocx => "mallocx"@,
            JemallocAllocFunctions::Rallocx => "rallocx"@,
            JemallocAllocFunctions::Xallocx => "xallocx"@,
        }
    }

    /// The function whose symbol `lower` is, if it is one.
    pub open spec fn named(lower: Seq<char>) -> Option<JemallocAllocFunctions> {
        if lower == "malloc"@ {
            Some(JemallocAllocFunctions::Malloc)
        } else if lower == "calloc"@ {
            Some(JemallocAllocFunctions::Calloc)
        } else if lower == "realloc"@ {
            Some(JemallocAllocFunctions::Realloc)
        } else if lower == "mallocx"@ {
            Some(JemallocAllocFunctions::Mallocx)
        } else if lower == "rallocx"@ {
            Some(JemallocAllocFunctions::Rallocx)
        } else if lower == "xallocx"@ {
            Some(JemallocAllocFunctions::Xallocx)
        } else {
            None
        }
    }

    /// The function with the symbol `lower`, which is taken as it is written.
    pub fn from_lowercase(lower: &str) -> (function: Option<Self>)
        ensures
            function == Self::named(lower@),
    {
        if same_text(lower, "malloc") {
            Some(Self::Malloc)
        } else if same_text(lower, "calloc") {
            Some(Self::Calloc)
        } else if same_text(lower, "realloc") {
            Some(Self::Realloc)
        } else if same_text(lower, "mallocx") {
            Some(Self::Mallocx)
        } else if same_text(lower, "rallocx") {
            Some(Self::Rallocx)
        } else if same_text(lower, "xallocx") {
            Some(Self::Xallocx)
        } else {
            None
        }
    }

    /// The function that `s` names, whatever the case of its letters; the
    /// error carries `s` as it was given.
    pub fn from_str(s: &str) -> (function: Result<Self, InvalidFunctionName>)
        ensures
            match function {
                Ok(f) => Self::named(lowercased(s@)) == Some(f),
                Err(e) => Self::named(lowercased(s@)) is None && e.name@ == s@,
            },
    {
        let lower = lowercase(s);
        match Self::from_lowercase(lower.as_str()) {
            Some(f) => Ok(f),
            None => Err(InvalidFunctionName { name: String::from_str(s) }),
        }
    }

    /// The symbol to attach the probe to.
    pub fn name(&self) -> (name: &'static str)
        ensures
            name@ == self.name_text(),
    {
        match self {
            Self::Malloc => "malloc",
            Self::Calloc => "calloc",
            Self::Realloc => "realloc",
            Self::Mallocx => "mallocx",
            Self::Rallocx => "rallocx",
            Self::Xallocx => "xallocx",
        }
    }

    /// The index of the argument that carries the size: 0 for `malloc`, 1 for
    /// all others.
    pub fn allocation_arg_index(&self) -> (index: u64)
        ensures
            index == if *self == JemallocAllocFunctions::Malloc {
                0u64
            } else {
                1u64
            },
    {
        match self {
            Self::Malloc => 0,
            Self::Calloc => 1,
            Self::Realloc => 1,
            Self::Mallocx => 1,
            Self::Rallocx => 1,
            Self::Xallocx => 1,
        }
    }
}

/// Every function is found again from its symbol.
pub proof fn lemma_named_round_trip(function: JemallocAllocFunctions)
    ensures
        JemallocAllocFunctions::named(function.name_text()) == Some(function),
{
    reveal_strlit("malloc");
    reveal_strlit("calloc");
    reveal_strlit("realloc");
    reveal_strlit("mallocx");
    reveal_strlit("rallocx");
    reveal_strlit("xallocx");
    assert("malloc"@.len() == 6 && "calloc"@.len() == 6 && "realloc"@.len() == 7);
    assert("mallocx"@.len() == 7 && "rallocx"@.len() == 7 && "xallocx"@.len() == 7);
    assert("malloc"@[0] == 'm' && "calloc"@[0] == 'c');
    assert("realloc"@[0] == 'r' && "mallocx"@[0] == 'm' && "rallocx"@[0] == 'r' && "xallocx"@[0]
        == 'x');
    assert("realloc"@[1] == 'e' && "rallocx"@[1] == 'a');
}

} // verus!
