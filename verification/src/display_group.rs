//! Named subsets of displays that share one composition.

use vstd::prelude::*;

use crate::ids::{is_v4, DisplayGroupId, DisplayId};
use crate::text::{is_blank, trim};

verus! {

/// Position `j` repeats a display listed earlier.
pub open spec fn repeats_earlier(s: Seq<DisplayId>, j: int) -> bool {
    exists|i: int| 0 <= i < j && s[i] == s[j]
}

/// `j` is the first position that repeats an earlier display.
pub open spec fn is_first_repeat(s: Seq<DisplayId>, j: int) -> bool {
    &&& 0 <= j < s.len()
    &&& repeats_earlier(s, j)
    &&& forall|k: int| 0 <= k < j ==> !#[trigger] repeats_earlier(s, k)
}

/// The first failing membership rule of a group.
pub open spec fn group_check(g: DisplayGroup) -> Result<(), DisplayGroupError> {
    if trim(g.name@).len() == 0 {
        Err(DisplayGroupError::EmptyName)
    } else if g.displays@.len() == 0 {
        Err(DisplayGroupError::EmptyMembership)
    } else if exists|j: int| is_first_repeat(g.displays@, j) {
        Err(DisplayGroupError::DuplicateDisplay(
            g.displays@[choose|j: int| is_first_repeat(g.displays@, j)],
        ))
    } else {
        Ok(())
    }
}

/// A reusable named set of displays for spanning compositions.
#[derive(Clone, Debug, PartialEq, Eq)]
pub struct DisplayGroup {
    /// Stable identity.
    pub id: DisplayGroupId,
    /// User-visible name.
    pub name: String,
    /// Participating displays in composition order.
    pub displays: Vec<DisplayId>,
}

proof fn lemma_first_repeat_unique(s: Seq<DisplayId>, a: int, b: int)
    requires
        is_first_repeat(s, a),
        is_first_repeat(s, b),
    ensures
        a == b,
{
    if a < b {
        assert(!repeats_earlier(s, a));
    } else if b < a {
        assert(!repeats_earlier(s, b));
    }
}

impl DisplayGroup {
    /// Creates a group with the given name and members.
    pub fn new(name: &str, displays: Vec<DisplayId>) -> (r: Self)
        ensures
            is_v4(r.id.0),
            r.name@ == name@,
            r.displays == displays,
    {
        DisplayGroup { id: DisplayGroupId::new(), name: name.to_owned(), displays }
    }

    /// Validates name and membership invariants; a repeated display is reported by the id
    /// whose second occurrence comes first.
    #[verifier::loop_isolation(false)]
    pub fn validate(&self) -> (r: Result<(), DisplayGroupError>)
        ensures
            r == group_check(*self),
            r is Ok ==> self.displays@.no_duplicates(),
    {
        if is_blank(self.name.as_str()) {
            return Err(DisplayGroupError::EmptyName);
        }
        if self.displays.len() == 0 {
            return Err(DisplayGroupError::EmptyMembership);
        }
        let ghost s = self.displays@;
        let mut j: usize = 0;
        while j < self.displays.len()
            invariant
                j <= s.len(),
                s == self.displays@,
                forall|k: int| 0 <= k < j ==> !#[trigger] repeats_earlier(s, k),
            decreases s.len() - j,
        {
            let mut i: usize = 0;
            while i < j
                invariant
                    i <= j < s.len(),
                    forall|q: int| 0 <= q < i ==> s[q] != s[j as int],
                decreases j - i,
            {
                if self.displays[i] == self.displays[j] {
                    proof {
                        assert(repeats_earlier(s, j as int));
                        assert(is_first_repeat(s, j as int));
                        let c = choose|c: int| is_first_repeat(s, c);
                        lemma_first_repeat_unique(s, j as int, c);
                    }
                    return Err(DisplayGroupError::DuplicateDisplay(self.displays[j]));
                }
                i = i + 1;
            }
            j = j + 1;
        }
        proof {
            assert forall|a: int, b: int| 0 <= a < s.len() && 0 <= b < s.len() && a != b implies s[a] != s[b] by {
                if a < b {
                    assert(!repeats_earlier(s, b));
                } else {
                    assert(!repeats_earlier(s, a));
                }
            }
            assert(!exists|j: int| is_first_repeat(s, j));
        }
        Ok(())
    }
}

/// Invalid display group.
#[derive(Clone, Copy, Debug, PartialEq, Eq, Structural)]
pub enum DisplayGroupError {
    /// Group names must contain visible characters.
    EmptyName,
    /// A group must reference at least one display.
    EmptyMembership,
    /// Membership lists cannot repeat a display.
    DuplicateDisplay(DisplayId),
}

} // verus!
