//! Task priorities: a closed enumeration with a fixed total order and a
//! canonical lowercase text form used for persistence and input.

use vstd::prelude::*;
use vstd::std_specs::cmp::PartialOrdSpec;
use vstd::string::*;

use crate::text::str_eq;

verus! {

/// A task's priority, ordered `Low < Normal < High < Urgent`.
#[derive(Debug, Clone, Copy, PartialEq, Eq, Structural)]
pub enum Priority {
    Low,
    Normal,
    High,
    Urgent,
}

impl Priority {
    /// The canonical lowercase text of the priority.
    pub open spec fn text(self) -> Seq<char> {
        match self {
            Priority::Low => "low"@,
            Priority::Normal => "normal"@,
            Priority::High => "high"@,
            Priority::Urgent => "urgent"@,
        }
    }

    /// The numeric rank that induces the order.
    pub open spec fn rank(self) -> nat {
        match self {
            Priority::Low => 1,
            Priority::Normal => 2,
            Priority::High => 3,
            Priority::Urgent => 4,
        }
    }

    /// The canonical text as a borrowed slice.
    pub fn to_str(&self) -> (r: &str)
        ensures
            r@ == self.text(),
    {
        match self {
            Priority::Low => "low",
            Priority::Normal => "normal",
            Priority::High => "high",
            Priority::Urgent => "urgent",
        }
    }

    /// The canonical text as an owned string.
    pub fn to_string(&self) -> (r: String)
        ensures
            r@ == self.text(),
    {
        String::from_str(self.to_str())
    }

    /// Reads a priority back from its canonical text; any other text gives
    /// no match rather than an error.
    pub fn from_string(priority: &String) -> (r: Option<Priority>)
        ensures
            match r {
                Some(p) => priority@ == p.text(),
                None => forall|p: Priority| priority@ != p.text(),
            },
    {
        if str_eq(priority.as_str(), "low") {
            Some(Priority::Low)
        } else if str_eq(priority.as_str(), "normal") {
            Some(Priority::Normal)
        } else if str_eq(priority.as_str(), "high") {
            Some(Priority::High)
        } else if str_eq(priority.as_str(), "urgent") {
            Some(Priority::Urgent)
        } else {
            None
        }
    }

    /// The numeric rank of the priority.
    pub fn to_numeric(&self) -> (r: usize)
        ensures
            r == self.rank(),
    {
        match self {
            Priority::Low => 1,
            Priority::Normal => 2,
            Priority::High => 3,
            Priority::Urgent => 4,
        }
    }
}

/// Whether `a` stands strictly below `b` in the priority order.
pub open spec fn priority_lt(a: Priority, b: Priority) -> bool {
    a.rank() < b.rank()
}

impl PartialOrd for Priority {
    fn partial_cmp(&self, other: &Self) -> (r: Option<core::cmp::Ordering>) {
        let a = self.to_numeric();
        let b = other.to_numeric();
        if a < b {
            Some(core::cmp::Ordering::Less)
        } else if a == b {
            Some(core::cmp::Ordering::Equal)
        } else {
            Some(core::cmp::Ordering::Greater)
        }
    }
}

impl vstd::std_specs::cmp::PartialOrdSpecImpl for Priority {
    open spec fn obeys_partial_cmp_spec() -> bool {
        true
    }

    open spec fn partial_cmp_spec(&self, other: &Self) -> Option<core::cmp::Ordering> {
        if self.rank() < other.rank() {
            Some(core::cmp::Ordering::Less)
        } else if self.rank() == other.rank() {
            Some(core::cmp::Ordering::Equal)
        } else {
            Some(core::cmp::Ordering::Greater)
        }
    }
}

/// Law: the priority order is total and consistent.  Every comparison is
/// defined; equality of comparison means equality of values; `Less` one way
/// is `Greater` the other way; the order is transitive; and the four
/// priorities stand as `Low < Normal < High < Urgent`.
pub proof fn lemma_priority_order_total(a: Priority, b: Priority, c: Priority)
    ensures
        a.partial_cmp_spec(&b) is Some,
        (a.partial_cmp_spec(&b) == Some(core::cmp::Ordering::Equal)) <==> a == b,
        (a.partial_cmp_spec(&b) == Some(core::cmp::Ordering::Less)) <==> priority_lt(a, b),
        (a.partial_cmp_spec(&b) == Some(core::cmp::Ordering::Less)) <==> (b.partial_cmp_spec(&a)
            == Some(core::cmp::Ordering::Greater)),
        priority_lt(a, b) && priority_lt(b, c) ==> priority_lt(a, c),
        priority_lt(Priority::Low, Priority::Normal),
        priority_lt(Priority::Normal, Priority::High),
        priority_lt(Priority::High, Priority::Urgent),
{
}

/// Law: distinct priorities have distinct canonical texts, so parsing a
/// canonical text gives back exactly the value it was formatted from.
pub proof fn lemma_priority_text_injective(p1: Priority, p2: Priority)
    ensures
        p1 != p2 ==> p1.text() != p2.text(),
{
    reveal_strlit("low");
    reveal_strlit("normal");
    reveal_strlit("high");
    reveal_strlit("urgent");
    if p1 != p2 && p1.text() == p2.text() {
        assert(p1.text().len() == p2.text().len());
        assert(p1.text()[0] == p2.text()[0]);
    }
}

/// The sentinel text is not the canonical text of any priority.
pub proof fn lemma_priority_text_not_none(p: Priority)
    ensures
        p.text() != "None"@,
{
    reveal_strlit("low");
    reveal_strlit("normal");
    reveal_strlit("high");
    reveal_strlit("urgent");
    reveal_strlit("None");
    if p.text() == "None"@ {
        assert(p.text().len() == 4);
        assert(p.text()[0] == 'N');
    }
}

} // verus!
