//! Identifiers of requests in flight, and how the program exits.
use std::cmp::Ordering;
use vstd::prelude::*;
use vstd::std_specs::cmp::PartialOrdSpecImpl;

verus! {

/// Identifies a request for a workspace or a note, so that a late answer to an older request is recognised.
/// Requests are ordered by their numbers.
#[derive(Clone, Copy, PartialEq, Eq, Structural, Ord, Hash, Debug)]
pub struct RequestId(pub(crate) u64);

/// How two numbers compare.
pub open spec fn numbers_order(a: u64, b: u64) -> Ordering {
    if a < b {
        Ordering::Less
    } else if a == b {
        Ordering::Equal
    } else {
        Ordering::Greater
    }
}

impl PartialOrd for RequestId {
    fn partial_cmp(&self, other: &Self) -> (order: Option<Ordering>) {
        if self.0 < other.0 {
            Some(Ordering::Less)
        } else if self.0 == other.0 {
            Some(Ordering::Equal)
        } else {
            Some(Ordering::Greater)
        }
    }
}

impl PartialOrdSpecImpl for RequestId {
    open spec fn obeys_partial_cmp_spec() -> bool {
        true
    }

    open spec fn partial_cmp_spec(&self, other: &Self) -> Option<Ordering> {
        Some(numbers_order(self.value(), other.value()))
    }
}

impl RequestId {
    pub closed spec fn value(self) -> u64 {
        self.0
    }

    pub fn new(value: u64) -> (id: Self)
        ensures
            id.value() == value,
    {
        RequestId(value)
    }

    pub fn get(self) -> (value: u64)
        ensures
            value == self.value(),
    {
        self.0
    }
}

/// Identifies a file mutation in flight.
#[derive(Clone, Copy, PartialEq, Eq, Structural, PartialOrd, Ord, Hash, Debug)]
pub struct MutationId(pub(crate) u64);

impl MutationId {
    pub closed spec fn value(self) -> u64 {
        self.0
    }

    pub fn new(value: u64) -> (id: Self)
        ensures
            id.value() == value,
    {
        MutationId(value)
    }

    pub fn get(self) -> (value: u64)
        ensures
            value == self.value(),
    {
        self.0
    }
}

/// Identifies a push in flight.
#[derive(Clone, Copy, PartialEq, Eq, Structural, PartialOrd, Ord, Hash, Debug)]
pub struct PushId(pub(crate) u64);

impl PushId {
    pub closed spec fn value(self) -> u64 {
        self.0
    }

    pub fn new(value: u64) -> (id: Self)
        ensures
            id.value() == value,
    {
        PushId(value)
    }

    pub fn get(self) -> (value: u64)
        ensures
            value == self.value(),
    {
        self.0
    }
}

/// Identifies a clipboard read in flight.
#[derive(Clone, Copy, PartialEq, Eq, Structural, PartialOrd, Ord, Hash, Debug)]
pub struct ClipboardRequestId(pub(crate) u64);

impl ClipboardRequestId {
    pub closed spec fn value(self) -> u64 {
        self.0
    }

    pub fn new(value: u64) -> (id: Self)
        ensures
            id.value() == value,
    {
        ClipboardRequestId(value)
    }

    pub fn get(self) -> (value: u64)
        ensures
            value == self.value(),
    {
        self.0
    }
}

/// Identifies one editor session, so that results meant for an editor that was since replaced are recognised.
#[derive(Clone, Copy, PartialEq, Eq, Structural, PartialOrd, Ord, Hash, Debug)]
pub struct EditorInstanceId(pub(crate) u64);

impl EditorInstanceId {
    pub closed spec fn value(self) -> u64 {
        self.0
    }

    pub fn new(value: u64) -> (id: Self)
        ensures
            id.value() == value,
    {
        EditorInstanceId(value)
    }

    pub fn get(self) -> (value: u64)
        ensures
            value == self.value(),
    {
        self.0
    }
}

/// How the program ends.
#[derive(Clone, Copy, PartialEq, Eq, Structural, Debug)]
pub enum AppExitStatus {
    Success,
    Failure,
}

impl AppExitStatus {
    /// The process exit code: 0 for success, 1 for failure.
    pub fn code(self) -> (code: u8)
        ensures
            code == (match self {
                AppExitStatus::Success => 0u8,
                AppExitStatus::Failure => 1u8,
            }),
    {
        match self {
            AppExitStatus::Success => 0,
            AppExitStatus::Failure => 1,
        }
    }
}

} // verus!
