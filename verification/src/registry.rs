//! The set of display names that are currently claimed.

use vstd::prelude::*;
use vstd::string::*;

verus! {

/// Why a candidate name could not be checked or was refused.
#[derive(Debug, Clone, Copy, PartialEq, Eq, Structural)]
pub enum ExistsError {
    /// The lock around the set of names could not be obtained.
    UsersLock,
    /// The name is claimed by a live session.
    UsernameTaken,
}

impl ExistsError {
    /// What the error says, as mathematics.
    pub open spec fn text(self) -> Seq<char> {
        match self {
            ExistsError::UsersLock => "Unable to obtain users set lock."@,
            ExistsError::UsernameTaken => "Username already taken"@,
        }
    }

    /// A sentence that describes the error.
    pub fn message(&self) -> (text: String)
        ensures
            text@ == self.text(),
    {
        match self {
            ExistsError::UsersLock => String::from_str("Unable to obtain users set lock."),
            ExistsError::UsernameTaken => String::from_str("Username already taken"),
        }
    }
}

/// The claimed display names. No name is held twice.
pub struct NameRegistry {
    names: Vec<String>,
}

impl NameRegistry {
    /// The names in the order in which they are stored.
    pub closed spec fn listed(&self) -> Seq<Seq<char>> {
        Seq::new(self.names.len() as nat, |i: int| self.names[i]@)
    }

    /// The registry as the set of names that it holds.
    pub closed spec fn view(&self) -> Set<Seq<char>> {
        self.listed().to_set()
    }

    /// Validity: no name is stored twice.
    pub closed spec fn wf(&self) -> bool {
        self.listed().no_duplicates()
    }

    /// An empty registry.
    pub fn new() -> (registry: NameRegistry)
        ensures
            registry.wf(),
            registry@ == Set::<Seq<char>>::empty(),
    {
        let registry = NameRegistry { names: Vec::new() };
        assert(registry.listed() =~= Seq::<Seq<char>>::empty());
        assert(registry@ =~= Set::<Seq<char>>::empty());
        registry
    }

    /// Where `name` is stored, if it is.
    fn position(&self, name: &str) -> (found: Option<usize>)
        ensures
            match found {
                Some(i) => i < self.listed().len() && self.listed()[i as int] == name@,
                None => !self.listed().contains(name@),
            },
    {
        let key = String::from_str(name);
        let mut i: usize = 0;
        while i < self.names.len()
            invariant
                i <= self.names.len(),
                key@ == name@,
                forall|j: int| 0 <= j < i ==> self.listed()[j] != name@,
            decreases self.names.len() - i,
        {
            if self.names[i] == key {
                return Some(i);
            }
            i += 1;
        }
        None
    }

    /// Whether `name` is claimed.
    pub fn contains(&self, name: &str) -> (held: bool)
        ensures
            held == self@.contains(name@),
    {
        self.position(name).is_some()
    }

    /// How many names are claimed.
    pub fn len(&self) -> (count: usize)
        requires
            self.wf(),
        ensures
            self@.finite(),
            count == self@.len(),
    {
        proof {
            vstd::seq_lib::seq_to_set_is_finite(self.listed());
            self.listed().unique_seq_to_set();
        }
        self.names.len()
    }

    /// Claims `name` if nobody holds it. Returns `true` and inserts the
    /// name exactly when it was absent; otherwise nothing changes.
    pub fn claim(&mut self, name: &str) -> (claimed: bool)
        requires
            old(self).wf(),
        ensures
            final(self).wf(),
            claimed == !old(self)@.contains(name@),
            final(self)@ == old(self)@.insert(name@),
    {
        match self.position(name) {
            Some(_) => {
                assert(self@.insert(name@) =~= self@);
                false
            },
            None => {
                let ghost before = self.listed();
                self.names.push(String::from_str(name));
                proof {
                    assert(self.listed() =~= before.push(name@));
                    before.lemma_push_to_set_commute(name@);
                }
                true
            },
        }
    }

    /// Releases `name`. Releasing a name that nobody holds changes nothing.
    pub fn release(&mut self, name: &str)
        requires
            old(self).wf(),
        ensures
            final(self).wf(),
            final(self)@ == old(self)@.remove(name@),
    {
        match self.position(name) {
            Some(i) => {
                let ghost before = self.listed();
                self.names.remove(i);
                proof {
                    let after = self.listed();
                    assert(after =~= before.remove(i as int));
                    assert forall|n: Seq<char>| after.to_set().contains(n) <==> (before.to_set().contains(n) && n != name@) by {
                        if after.contains(n) {
                            let j = choose|j: int| 0 <= j < after.len() && after[j] == n;
                            if j < i {
                                assert(before[j] == n);
                            } else {
                                assert(before[j + 1] == n);
                            }
                        }
                        if before.contains(n) && n != name@ {
                            let j = choose|j: int| 0 <= j < before.len() && before[j] == n;
                            if j < i {
                                assert(after[j] == n);
                            } else {
                                assert(after[j - 1] == n);
                            }
                        }
                    }
                    assert(after.to_set() =~= before.to_set().remove(name@));
                }
            },
            None => {
                assert(self@.remove(name@) =~= self@);
            },
        }
    }
}

/// Claims the candidate name `nm` for a session that holds the lock around
/// `users`.
///
/// Check and insert are one step: a free name is inserted and comes back
/// unchanged; a name that is held is refused, and nothing changes.
pub fn exists_name<'a>(users: &mut NameRegistry, nm: &'a str) -> (checked: Result<
    &'a str,
    ExistsError,
>)
    requires
        old(users).wf(),
    ensures
        final(users).wf(),
        final(users)@ == old(users)@.insert(nm@),
        checked == if old(users)@.contains(nm@) {
            Err::<&str, ExistsError>(ExistsError::UsernameTaken)
        } else {
            Ok::<&str, ExistsError>(nm)
        },
{
    if users.claim(nm) {
        Ok(nm)
    } else {
        Err(ExistsError::UsernameTaken)
    }
}

/// The same step for a session that asked for the lock around `users` and
/// may not have got it: `lock_held` says whether it did.
///
/// Without the lock the names are neither read nor changed, and the
/// session is told so. With it, this is [`exists_name`].
pub fn exists_name_under_lock<'a>(users: &mut NameRegistry, lock_held: bool, nm: &'a str) -> (checked:
    Result<&'a str, ExistsError>)
    requires
        old(users).wf(),
    ensures
        final(users).wf(),
        final(users)@ == if lock_held {
            old(users)@.insert(nm@)
        } else {
            old(users)@
        },
        checked == if !lock_held {
            Err::<&str, ExistsError>(ExistsError::UsersLock)
        } else if old(users)@.contains(nm@) {
            Err::<&str, ExistsError>(ExistsError::UsernameTaken)
        } else {
            Ok::<&str, ExistsError>(nm)
        },
{
    if lock_held {
        exists_name(users, nm)
    } else {
        Err(ExistsError::UsersLock)
    }
}

} // verus!
