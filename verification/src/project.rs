//! A buildable target of the catalog.

use vstd::prelude::*;

use crate::list_box::ListItemProvider;

verus! {

/// Whether the pair separator `;;;` stands at position `j` of `s`.
pub open spec fn sep_at(s: Seq<char>, j: int) -> bool {
    j + 3 <= s.len() && s[j] == ';' && s[j + 1] == ';' && s[j + 2] == ';'
}

/// The first position at or after `from` where the pair separator stands,
/// or `s.len()` when it stands nowhere.
pub open spec fn find_sep_from(s: Seq<char>, from: nat) -> nat
    decreases s.len() - from,
{
    if from >= s.len() {
        s.len()
    } else if sep_at(s, from as int) {
        from
    } else {
        find_sep_from(s, from + 1)
    }
}

/// A scan that saw no separator in `[from, i)` and stopped at `i` on one
/// or at the end computes exactly `find_sep_from`.
proof fn lemma_find_sep_from_at(s: Seq<char>, from: nat, i: nat)
    requires
        from <= i <= s.len(),
        forall|j: int| from <= j < i ==> !sep_at(s, j),
        i == s.len() || sep_at(s, i as int),
    ensures
        find_sep_from(s, from) == i,
    decreases i - from,
{
    if from < i {
        lemma_find_sep_from_at(s, from + 1, i);
    }
}

/// The target a `key;;;value` pair describes: the text before the first
/// separator as identifier, the text between the first and the second
/// separator (or the end) as file name. `None` without a separator.
pub open spec fn pair_of(s: Seq<char>) -> Option<TargetEntry> {
    let k1 = find_sep_from(s, 0);
    if k1 == s.len() {
        None
    } else {
        let rest = s.subrange(k1 + 3 as int, s.len() as int);
        Some(
            TargetEntry {
                target: s.subrange(0, k1 as int),
                file_name: rest.subrange(0, find_sep_from(rest, 0) as int),
            },
        )
    }
}

/// The specification-level value of a target: its identifier and output
/// file name as character sequences.
#[verifier::ext_equal]
pub struct TargetEntry {
    pub target: Seq<char>,
    pub file_name: Seq<char>,
}

/// A buildable target declared in the build description: an identifier,
/// unique within one catalog load, and the name of the output file the
/// build produces for it (empty until a properties line assigns one).
pub struct Project {
    pub target: String,
    pub file_name: String,
}

impl View for Project {
    type V = TargetEntry;

    open spec fn view(&self) -> TargetEntry {
        TargetEntry { target: self.target@, file_name: self.file_name@ }
    }
}

impl Clone for Project {
    /// A copy with the same identifier and file name.
    fn clone(&self) -> (r: Self)
        ensures
            r@ == self@,
    {
        Project { target: self.target.clone(), file_name: self.file_name.clone() }
    }
}

impl ListItemProvider for Project {
    open spec fn label_spec(&self) -> Seq<char> {
        self.target@
    }

    fn as_str(&self) -> (r: &str) {
        self.target.as_str()
    }
}

/// The first position of the pair separator in `s` at or after `from`, or
/// the length of `s` when it stands nowhere there.
fn find_sep(s: &str, from: usize) -> (r: usize)
    requires
        from as nat <= s@.len(),
    ensures
        r as nat == find_sep_from(s@, from as nat),
        from <= r,
        r as nat <= s@.len(),
{
    let n = s.unicode_len();
    let mut i = from;
    while i < n
        invariant
            from <= i <= n,
            n as nat == s@.len(),
            forall|j: int| from <= j < i ==> !sep_at(s@, j),
        decreases n - i,
    {
        if n - i >= 3 && s.get_char(i) == ';' && s.get_char(i + 1) == ';' && s.get_char(i + 2)
            == ';' {
            proof {
                lemma_find_sep_from_at(s@, from as nat, i as nat);
            }
            return i;
        }
        proof {
            assert(!sep_at(s@, i as int));
        }
        i = i + 1;
    }
    proof {
        lemma_find_sep_from_at(s@, from as nat, n as nat);
    }
    n
}

impl Project {
    /// Read a target from a `key;;;value` pair, as `pair_of` describes it;
    /// `None` when the separator is missing.
    pub fn from_pair(s: &str) -> (r: Option<Project>)
        ensures
            r is Some <==> pair_of(s@) is Some,
            r is Some ==> r->0@ == pair_of(s@)->0,
    {
        let n = s.unicode_len();
        let k1 = find_sep(s, 0);
        if k1 == n {
            return None;
        }
        proof {
            assert(sep_at(s@, k1 as int)) by {
                lemma_find_sep_props(s@, 0);
            }
        }
        let key = s.substring_char(0, k1);
        let rest = s.substring_char(k1 + 3, n);
        let k2 = find_sep(rest, 0);
        let value = rest.substring_char(0, k2);
        Some(Project { target: key.to_owned(), file_name: value.to_owned() })
    }
}

/// Where `find_sep_from` lands: on a separator unless there is none.
proof fn lemma_find_sep_props(s: Seq<char>, from: nat)
    requires
        from <= s.len(),
    ensures
        from <= find_sep_from(s, from) <= s.len(),
        find_sep_from(s, from) < s.len() ==> sep_at(s, find_sep_from(s, from) as int),
    decreases s.len() - from,
{
    if from < s.len() && !sep_at(s, from as int) {
        lemma_find_sep_props(s, from + 1);
    }
}

} // verus!
