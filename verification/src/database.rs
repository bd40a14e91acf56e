//! Where the track database lives.

use vstd::prelude::*;

verus! {

/// A database in a file, or one that lives in memory only.
#[derive(Debug, PartialEq, Eq)]
pub enum Kind {
    File(String),
    Memory,
}

/// The name that stands for a database in memory.
pub open spec fn memory_name() -> Seq<char> {
    seq![':', 'm', 'e', 'm', 'o', 'r', 'y', ':']
}

impl Kind {
    /// The kind that `path` names: `:memory:` is the database in memory, and
    /// anything else the path of a file.
    pub fn parse(path: &str) -> (kind: Self)
        ensures
            path@ == memory_name() ==> kind == Kind::Memory,
            path@ != memory_name() ==> (kind matches Kind::File(file) && file@ == path@),
    {
        let name = ":memory:";
        proof {
            reveal_strlit(":memory:");
            assert(name@ =~= memory_name());
        }
        if same_text(path, name) {
            Self::Memory
        } else {
            Self::File(path.to_owned())
        }
    }
}

/// Whether two texts are the same.
fn same_text(a: &str, b: &str) -> (same: bool)
    ensures
        same == (a@ == b@),
{
    let n = a.unicode_len();
    if n != b.unicode_len() {
        return false;
    }
    let mut i: usize = 0;
    while i < n
        invariant
            i <= n == a@.len(),
            a@.len() == b@.len(),
            forall|j: int| 0 <= j < i ==> a@[j] == b@[j],
        decreases n - i,
    {
        if a.get_char(i) != b.get_char(i) {
            return false;
        }
        i += 1;
    }
    assert(a@ =~= b@);
    true
}

} // verus!
