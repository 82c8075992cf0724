use crate::text::same_text;
use vstd::prelude::*;

verus! {

/// The two modes of a lock on an install path.
#[derive(Copy, Clone, Debug, PartialEq, Eq, Structural)]
pub enum LockMode {
    /// Held by any number at once; keeps exclusive holders out.
    Shared,
    /// Held by one alone.
    Exclusive,
}

/// One holder of a lock.
#[derive(Clone, Debug, PartialEq, Eq)]
pub struct Holder {
    /// Who holds the lock.
    pub owner: u64,
    /// The lock file, which lies beside the install path.
    pub path: String,
    pub mode: LockMode,
}

/// Whether a lock in `mode` on `path` can be granted beside these holders:
/// an exclusive one, where nobody holds a lock on the path; a shared one,
/// where nobody holds an exclusive lock on it.
pub open spec fn grantable(holders: Seq<Holder>, path: Seq<char>, mode: LockMode) -> bool {
    forall|i: int|
        0 <= i < holders.len() && (#[trigger] holders[i]).path@ == path ==> mode
            == LockMode::Shared && holders[i].mode == LockMode::Shared
}

/// The place of the first lock that `owner` holds on `path`, if there is one.
pub open spec fn held_at(holders: Seq<Holder>, owner: u64, path: Seq<char>) -> Option<int>
    decreases holders.len(),
{
    if holders.len() == 0 {
        None
    } else if holders[0].owner == owner && holders[0].path@ == path {
        Some(0)
    } else {
        match held_at(holders.drop_first(), owner, path) {
            Some(i) => Some(i + 1),
            None => None,
        }
    }
}

/// Whether `owner` holds an exclusive lock on `path`.
pub open spec fn holds_exclusively(holders: Seq<Holder>, owner: u64, path: Seq<char>) -> bool {
    exists|i: int|
        0 <= i < holders.len() && (#[trigger] holders[i]).owner == owner && holders[i].path@ == path
            && holders[i].mode == LockMode::Exclusive
}

/// Who holds which lock. The table follows the rules of the advisory file
/// locks that serialise installs into one path.
#[derive(Debug)]
pub struct LockTable {
    holders: Vec<Holder>,
}

impl View for LockTable {
    type V = Seq<Holder>;

    closed spec fn view(&self) -> Seq<Holder> {
        self.holders@
    }
}

/// Whether every exclusive holder is the only holder of its path.
pub open spec fn exclusive_alone(holders: Seq<Holder>) -> bool {
    forall|i: int, j: int|
        0 <= i < holders.len() && 0 <= j < holders.len() && i != j && (#[trigger] holders[i]).path@
            == (#[trigger] holders[j]).path@ ==> holders[i].mode == LockMode::Shared
            && holders[j].mode == LockMode::Shared
}

impl LockTable {
    /// A table without holders.
    pub fn new() -> (table: Self)
        ensures
            table@.len() == 0,
            exclusive_alone(table@),
    {
        LockTable { holders: Vec::new() }
    }

    /// Whether a lock in `mode` on `path` can be granted now.
    pub fn can_lock(&self, path: &str, mode: LockMode) -> (granted: bool)
        ensures
            granted == grantable(self@, path@, mode),
    {
        let mut i: usize = 0;
        while i < self.holders.len()
            invariant
                i <= self.holders.len(),
                forall|j: int|
                    0 <= j < i && (#[trigger] self.holders@[j]).path@ == path@ ==> mode
                        == LockMode::Shared && self.holders@[j].mode == LockMode::Shared,
            decreases self.holders.len() - i,
        {
            if same_text(self.holders[i].path.as_str(), path) {
                if !(mode == LockMode::Shared && self.holders[i].mode == LockMode::Shared) {
                    return false;
                }
            }
            i += 1;
        }
        true
    }

    /// Grants `owner` a lock in `mode` on `path`, if it can be granted now;
    /// where it cannot, the table stays as it is. (The file lock of the
    /// operating system waits in that case.)
    pub fn try_lock(&mut self, owner: u64, path: &str, mode: LockMode) -> (granted: bool)
        requires
            exclusive_alone(old(self)@),
        ensures
            exclusive_alone(final(self)@),
            granted == grantable(old(self)@, path@, mode),
            !granted ==> final(self)@ == old(self)@,
            granted ==> final(self)@.len() == old(self)@.len() + 1 && final(self)@.drop_last()
                == old(self)@ && final(self)@.last().owner == owner && final(self)@.last().path@
                == path@ && final(self)@.last().mode == mode,
    {
        if !self.can_lock(path, mode) {
            return false;
        }
        self.holders.push(Holder { owner, path: path.to_owned(), mode });
        proof {
            assert(self@.drop_last() =~= old(self)@);
            assert forall|i: int, j: int|
                0 <= i < self@.len() && 0 <= j < self@.len() && i != j && (#[trigger] self@[i]).path@
                    == (#[trigger] self@[j]).path@ implies self@[i].mode == LockMode::Shared
                && self@[j].mode == LockMode::Shared by {
                if i < old(self)@.len() {
                    assert(self@[i] == old(self)@[i]);
                }
                if j < old(self)@.len() {
                    assert(self@[j] == old(self)@[j]);
                }
            }
        }
        true
    }

    /// Gives up the first lock that `owner` holds on `path`. Returns whether
    /// there was one.
    pub fn unlock(&mut self, owner: u64, path: &str) -> (released: bool)
        requires
            exclusive_alone(old(self)@),
        ensures
            exclusive_alone(final(self)@),
            match held_at(old(self)@, owner, path@) {
                Some(at) => released && final(self)@ == old(self)@.remove(at),
                None => !released && final(self)@ == old(self)@,
            },
    {
        let mut i: usize = 0;
        assert(self.holders@.skip(0) =~= self.holders@);
        while i < self.holders.len()
            invariant
                *self == *old(self),
                exclusive_alone(self@),
                i <= self.holders.len(),
                held_at(self.holders@, owner, path@) == match held_at(
                    self.holders@.skip(i as int),
                    owner,
                    path@,
                ) {
                    Some(k) => Some(k + i),
                    None => None,
                },
            decreases self.holders.len() - i,
        {
            assert(self.holders@.skip(i as int).drop_first() =~= self.holders@.skip(i + 1));
            if self.holders[i].owner == owner && same_text(self.holders[i].path.as_str(), path) {
                self.holders.remove(i);
                proof {
                    let before = old(self)@;
                    let now = self@;
                    assert forall|a: int, b: int|
                        0 <= a < now.len() && 0 <= b < now.len() && a != b && (
                        #[trigger] now[a]).path@ == (#[trigger] now[b]).path@ implies now[a].mode
                        == LockMode::Shared && now[b].mode == LockMode::Shared by {
                        let a0 = if a < i { a } else { a + 1 };
                        let b0 = if b < i { b } else { b + 1 };
                        assert(now[a] == before[a0]);
                        assert(now[b] == before[b0]);
                    }
                }
                return true;
            }
            i += 1;
        }
        false
    }

    /// Whether `owner` holds an exclusive lock on `path`. An installer
    /// stages and swaps an install tree only while this holds of the lock
    /// file beside the install path.
    pub fn holds_exclusive(&self, owner: u64, path: &str) -> (held: bool)
        ensures
            held == holds_exclusively(self@, owner, path@),
    {
        let mut i: usize = 0;
        while i < self.holders.len()
            invariant
                i <= self.holders.len(),
                forall|j: int|
                    0 <= j < i ==> !((#[trigger] self.holders@[j]).owner == owner
                        && self.holders@[j].path@ == path@ && self.holders@[j].mode
                        == LockMode::Exclusive),
            decreases self.holders.len() - i,
        {
            if self.holders[i].owner == owner && self.holders[i].mode == LockMode::Exclusive
                && same_text(self.holders[i].path.as_str(), path) {
                return true;
            }
            i += 1;
        }
        false
    }
}

/// The holder of an exclusive lock is alone on its path: nobody else holds a
/// lock on that path, shared or exclusive. So of two installers that each
/// work only under the exclusive lock of their install path, no two work on
/// one path at once.
pub proof fn lemma_exclusive_excludes(holders: Seq<Holder>, i: int, j: int)
    requires
        exclusive_alone(holders),
        0 <= i < holders.len(),
        0 <= j < holders.len(),
        i != j,
        holders[i].mode == LockMode::Exclusive,
    ensures
        holders[i].path@ != holders[j].path@,
{
}

/// Two installers never work on one install path at once: where each holds
/// the exclusive lock of the path while it has a tree staged for it, two
/// that have a tree staged for the same path are one and the same.
pub proof fn lemma_one_installer_per_path(
    holders: Seq<Holder>,
    first: u64,
    second: u64,
    path: Seq<char>,
)
    requires
        exclusive_alone(holders),
        holds_exclusively(holders, first, path),
        holds_exclusively(holders, second, path),
    ensures
        first == second,
{
    let i = choose|i: int|
        0 <= i < holders.len() && (#[trigger] holders[i]).owner == first && holders[i].path@ == path
            && holders[i].mode == LockMode::Exclusive;
    let j = choose|j: int|
        0 <= j < holders.len() && (#[trigger] holders[j]).owner == second && holders[j].path@
            == path && holders[j].mode == LockMode::Exclusive;
    if i != j {
        lemma_exclusive_excludes(holders, i, j);
    }
}

} // verus!
