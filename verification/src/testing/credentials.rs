//! A keychain that no test can lose a real secret in.

use vstd::prelude::*;
use vstd::string::*;

use crate::error::{Error, ErrorCode};
use crate::textmap::TextMap;

verus! {

/// Something that is not shown.
#[derive(Clone, PartialEq, Eq)]
pub struct Secret {
    value: String,
}

impl Secret {
    /// What is kept.
    pub closed spec fn view(&self) -> Seq<char> {
        self.value@
    }

    /// Keeps a value.
    pub fn new(value: String) -> (r: Secret)
        ensures
            r@ == value@,
    {
        Secret { value }
    }

    /// What is kept.
    pub fn expose(&self) -> (r: &str)
        ensures
            r@ == self@,
    {
        self.value.as_str()
    }
}

/// Whether a keychain has an item.
#[derive(Debug, Clone, PartialEq, Eq)]
pub enum StoreStatus {
    Stored,
    Absent,
    Unavailable { reason: String },
}

/// The memory that keychains keep their items in: one secret per repository in
/// each. A keychain is a place in it, so two that name the same place are one.
#[derive(Debug)]
pub struct KeychainMemory {
    keychains: Vec<TextMap<String>>,
}

/// The texts that `items` name.
spec fn texts(items: Map<Seq<char>, String>) -> Map<Seq<char>, Seq<char>> {
    Map::new(
        |repository: Seq<char>| items.contains_key(repository),
        |repository: Seq<char>| items[repository]@,
    )
}

impl KeychainMemory {
    /// What is kept for each repository, in each keychain.
    pub closed spec fn view(&self) -> Seq<Map<Seq<char>, Seq<char>>> {
        Seq::new(self.keychains@.len(), |i: int| texts(self.keychains@[i]@))
    }

    /// A memory without keychains.
    pub fn new() -> (r: KeychainMemory)
        ensures
            r@ == Seq::<Map<Seq<char>, Seq<char>>>::empty(),
    {
        let r = KeychainMemory { keychains: Vec::new() };
        assert(r@ =~= Seq::<Map<Seq<char>, Seq<char>>>::empty());
        r
    }

    fn add(&mut self) -> (r: usize)
        ensures
            final(self)@ == old(self)@.push(Map::empty()),
            r == old(self)@.len(),
    {
        let place: usize = self.keychains.len();
        let items: TextMap<String> = TextMap::new();
        assert(texts(items@) =~= Map::<Seq<char>, Seq<char>>::empty());
        self.keychains.push(items);
        assert(self@ =~= old(self)@.push(Map::empty()));
        place
    }

    fn insert(&mut self, place: usize, repository_id: &str, secret: &str)
        requires
            place < old(self)@.len(),
        ensures
            final(self)@ == old(self)@.update(
                place as int,
                old(self)@[place as int].insert(repository_id@, secret@),
            ),
    {
        let ghost before = texts(self.keychains@[place as int]@);
        self.keychains[place].insert(repository_id.to_owned(), secret.to_owned());
        assert(texts(self.keychains@[place as int]@) =~= before.insert(repository_id@, secret@));
        assert(self@ =~= old(self)@.update(
            place as int,
            old(self)@[place as int].insert(repository_id@, secret@),
        ));
    }

    fn remove(&mut self, place: usize, repository_id: &str)
        requires
            place < old(self)@.len(),
        ensures
            final(self)@ == old(self)@.update(
                place as int,
                old(self)@[place as int].remove(repository_id@),
            ),
    {
        let ghost before = texts(self.keychains@[place as int]@);
        self.keychains[place].remove(repository_id);
        assert(texts(self.keychains@[place as int]@) =~= before.remove(repository_id@));
        assert(self@ =~= old(self)@.update(
            place as int,
            old(self)@[place as int].remove(repository_id@),
        ));
    }
}

/// A keychain in memory, shared by every clone.
#[derive(Debug)]
pub struct MemoryStore {
    place: usize,
    unavailable: Option<String>,
}

/// Why every call on a machine without a keychain fails.
pub open spec fn no_keychain(reason: Seq<char>) -> Seq<char> {
    "no keychain on this machine: "@ + reason
}

impl Clone for MemoryStore {
    /// The same keychain once more.
    fn clone(&self) -> (r: MemoryStore)
        ensures
            r.is_clone_of(*self),
    {
        let unavailable: Option<String> = match &self.unavailable {
            Some(reason) => Some(reason.as_str().to_owned()),
            None => None,
        };
        MemoryStore { place: self.place, unavailable }
    }
}

impl MemoryStore {
    /// Where the items are.
    pub closed spec fn place(self) -> int {
        self.place as int
    }

    /// Why the machine has no keychain, if it has none.
    pub closed spec fn refusal(self) -> Option<Seq<char>> {
        match self.unavailable {
            Some(reason) => Some(reason@),
            None => None,
        }
    }

    /// The two are one keychain.
    pub open spec fn is_clone_of(self, other: MemoryStore) -> bool {
        self.place() == other.place() && self.refusal() == other.refusal()
    }

    /// The keychain is one of those in `memory`.
    pub open spec fn lives_in(self, memory: Seq<Map<Seq<char>, Seq<char>>>) -> bool {
        0 <= self.place() < memory.len()
    }

    /// `memory` once this keychain keeps `secret` for a repository.
    pub open spec fn keeping(
        self,
        memory: Seq<Map<Seq<char>, Seq<char>>>,
        repository: Seq<char>,
        secret: Seq<char>,
    ) -> Seq<Map<Seq<char>, Seq<char>>> {
        memory.update(self.place(), memory[self.place()].insert(repository, secret))
    }

    /// `memory` once this keychain keeps nothing for a repository.
    pub open spec fn without(
        self,
        memory: Seq<Map<Seq<char>, Seq<char>>>,
        repository: Seq<char>,
    ) -> Seq<Map<Seq<char>, Seq<char>>> {
        memory.update(self.place(), memory[self.place()].remove(repository))
    }

    /// `error` is what a machine without a keychain answers.
    pub open spec fn refuses(self, error: Error) -> bool {
        self.refusal() matches Some(reason) && error.says(
            ErrorCode::Internal,
            no_keychain(reason),
        )
    }

    /// `r` is what this keychain reads for a repository.
    pub open spec fn reads(
        self,
        memory: Seq<Map<Seq<char>, Seq<char>>>,
        repository: Seq<char>,
        r: Result<Option<Secret>, Error>,
    ) -> bool {
        match r {
            Err(error) => self.refuses(error),
            Ok(found) => self.refusal() is None && match found {
                Some(secret) => memory[self.place()].contains_key(repository) && secret@
                    == memory[self.place()][repository],
                None => !memory[self.place()].contains_key(repository),
            },
        }
    }

    /// `r` is what this keychain reports for a repository.
    pub open spec fn reports(
        self,
        memory: Seq<Map<Seq<char>, Seq<char>>>,
        repository: Seq<char>,
        r: StoreStatus,
    ) -> bool {
        match self.refusal() {
            Some(reason) => r matches StoreStatus::Unavailable { reason: said } && said@
                == no_keychain(reason),
            None => r == (if memory[self.place()].contains_key(repository) {
                StoreStatus::Stored
            } else {
                StoreStatus::Absent
            }),
        }
    }

    /// An empty keychain.
    pub fn new(memory: &mut KeychainMemory) -> (r: MemoryStore)
        ensures
            final(memory)@ == old(memory)@.push(Map::empty()),
            r.place() == old(memory)@.len(),
            r.refusal() is None,
    {
        MemoryStore { place: memory.add(), unavailable: None }
    }

    /// A machine with no keychain at all.
    pub fn unavailable(memory: &mut KeychainMemory, reason: String) -> (r: MemoryStore)
        ensures
            final(memory)@ == old(memory)@.push(Map::empty()),
            r.place() == old(memory)@.len(),
            r.refusal() == Some(reason@),
    {
        MemoryStore { place: memory.add(), unavailable: Some(reason) }
    }

    fn refuse(&self) -> (r: Option<Error>)
        ensures
            match r {
                Some(error) => self.refuses(error),
                None => self.refusal() is None,
            },
    {
        match &self.unavailable {
            Some(reason) => {
                let mut message = "no keychain on this machine: ".to_owned();
                message.append(reason.as_str());
                Some(Error::internal(message))
            },
            None => None,
        }
    }

    /// Removes an item behind everyone's back, even on a machine that has no
    /// keychain.
    pub fn forget(&self, memory: &mut KeychainMemory, repository_id: &str)
        requires
            self.lives_in(old(memory)@),
        ensures
            final(memory)@ == self.without(old(memory)@, repository_id@),
    {
        memory.remove(self.place, repository_id);
    }

    /// Keeps a secret for a repository.
    pub fn set(&self, memory: &mut KeychainMemory, repository_id: &str, secret: &Secret) -> (r:
        Result<(), Error>)
        requires
            self.lives_in(old(memory)@),
        ensures
            match r {
                Ok(()) => self.refusal() is None && final(memory)@ == self.keeping(
                    old(memory)@,
                    repository_id@,
                    secret@,
                ),
                Err(error) => self.refuses(error) && final(memory)@ == old(memory)@,
            },
    {
        if let Some(error) = self.refuse() {
            return Err(error);
        }
        memory.insert(self.place, repository_id, secret.expose());
        Ok(())
    }

    /// What is kept for a repository.
    pub fn get(&self, memory: &KeychainMemory, repository_id: &str) -> (r: Result<
        Option<Secret>,
        Error,
    >)
        requires
            self.lives_in(memory@),
        ensures
            self.reads(memory@, repository_id@, r),
    {
        if let Some(error) = self.refuse() {
            return Err(error);
        }
        match memory.keychains[self.place].get(repository_id) {
            Some(stored) => Ok(Some(Secret::new(stored.clone()))),
            None => Ok(None),
        }
    }

    /// Forgets what is kept for a repository.
    pub fn delete(&self, memory: &mut KeychainMemory, repository_id: &str) -> (r: Result<(), Error>)
        requires
            self.lives_in(old(memory)@),
        ensures
            match r {
                Ok(()) => self.refusal() is None && final(memory)@ == self.without(
                    old(memory)@,
                    repository_id@,
                ),
                Err(error) => self.refuses(error) && final(memory)@ == old(memory)@,
            },
    {
        if let Some(error) = self.refuse() {
            return Err(error);
        }
        self.forget(memory, repository_id);
        Ok(())
    }

    /// Whether something is kept for a repository, or why that cannot be said.
    pub fn status(&self, memory: &KeychainMemory, repository_id: &str) -> (r: StoreStatus)
        requires
            self.lives_in(memory@),
        ensures
            self.reports(memory@, repository_id@, r),
    {
        match self.get(memory, repository_id) {
            Ok(Some(_)) => StoreStatus::Stored,
            Ok(None) => StoreStatus::Absent,
            Err(error) => StoreStatus::Unavailable { reason: error.message },
        }
    }
}

/// What was kept reads back, through the keychain it was kept in and through
/// every clone of it, and nothing else that either reads or reports changes.
pub proof fn law_a_secret_reads_back_through_every_clone(
    memory: Seq<Map<Seq<char>, Seq<char>>>,
    store: MemoryStore,
    clone: MemoryStore,
    repository: Seq<char>,
    secret: Seq<char>,
)
    requires
        store.lives_in(memory),
        store.refusal() is None,
        clone.is_clone_of(store),
    ensures
        forall|r: Result<Option<Secret>, Error>| #[trigger]
            clone.reads(store.keeping(memory, repository, secret), repository, r) ==> (r matches Ok(
                Some(found),
            ) && found@ == secret),
        forall|r: StoreStatus| #[trigger]
            clone.reports(store.keeping(memory, repository, secret), repository, r) ==> r
                == StoreStatus::Stored,
        forall|other: Seq<char>, r: Result<Option<Secret>, Error>|
            other != repository ==> (#[trigger] clone.reads(
                store.keeping(memory, repository, secret),
                other,
                r,
            ) <==> clone.reads(memory, other, r)),
        forall|other: Seq<char>, r: StoreStatus|
            other != repository ==> (#[trigger] clone.reports(
                store.keeping(memory, repository, secret),
                other,
                r,
            ) <==> clone.reports(memory, other, r)),
{
}

/// What one keychain forgets is gone from it and from every clone of it, whether
/// the clone was made before or after; nothing else that either reads or reports
/// changes, and forgetting what is not there changes nothing at all.
pub proof fn law_what_is_forgotten_is_gone_from_every_clone(
    memory: Seq<Map<Seq<char>, Seq<char>>>,
    store: MemoryStore,
    clone: MemoryStore,
    repository: Seq<char>,
)
    requires
        store.lives_in(memory),
        clone.is_clone_of(store),
    ensures
        clone.lives_in(store.without(memory, repository)),
        store.refusal() is None ==> forall|r: Result<Option<Secret>, Error>| #[trigger]
            clone.reads(store.without(memory, repository), repository, r) ==> r
                == Ok::<Option<Secret>, Error>(None),
        store.refusal() is None ==> forall|r: StoreStatus| #[trigger]
            clone.reports(store.without(memory, repository), repository, r) ==> r
                == StoreStatus::Absent,
        forall|other: Seq<char>, r: Result<Option<Secret>, Error>|
            other != repository ==> (#[trigger] clone.reads(
                store.without(memory, repository),
                other,
                r,
            ) <==> clone.reads(memory, other, r)),
        forall|other: Seq<char>, r: StoreStatus|
            other != repository ==> (#[trigger] clone.reports(
                store.without(memory, repository),
                other,
                r,
            ) <==> clone.reports(memory, other, r)),
        !memory[store.place()].contains_key(repository) ==> store.without(memory, repository)
            == memory,
{
    if !memory[store.place()].contains_key(repository) {
        assert(memory[store.place()].remove(repository) =~= memory[store.place()]);
        assert(store.without(memory, repository) =~= memory);
    }
}

/// A keychain that is not a clone shares nothing: what one keeps or forgets, the
/// other neither reads nor reports otherwise.
pub proof fn law_keychains_made_apart_share_nothing(
    memory: Seq<Map<Seq<char>, Seq<char>>>,
    store: MemoryStore,
    apart: MemoryStore,
    repository: Seq<char>,
    secret: Seq<char>,
)
    requires
        store.lives_in(memory),
        apart.lives_in(memory),
        apart.place() != store.place(),
    ensures
        store.keeping(memory, repository, secret)[apart.place()] == memory[apart.place()],
        store.without(memory, repository)[apart.place()] == memory[apart.place()],
        forall|other: Seq<char>, r: Result<Option<Secret>, Error>| #[trigger]
            apart.reads(store.keeping(memory, repository, secret), other, r) <==> apart.reads(
                memory,
                other,
                r,
            ),
        forall|other: Seq<char>, r: Result<Option<Secret>, Error>| #[trigger]
            apart.reads(store.without(memory, repository), other, r) <==> apart.reads(
                memory,
                other,
                r,
            ),
{
}

/// A machine without a keychain refuses to keep, to read and to forget on
/// request, and says so; one with a keychain never refuses.
pub proof fn law_only_a_missing_keychain_refuses(
    store: MemoryStore,
    memory: KeychainMemory,
    repository: &str,
    got: Result<Option<Secret>, Error>,
    status: StoreStatus,
)
    requires
        call_ensures(MemoryStore::get, (&store, &memory, repository), got),
        call_ensures(MemoryStore::status, (&store, &memory, repository), status),
    ensures
        got is Err <==> store.refusal() is Some,
        got matches Err(e) ==> e.code == ErrorCode::Internal,
        status is Unavailable <==> store.refusal() is Some,
        got == Ok::<Option<Secret>, Error>(None) <==> status == StoreStatus::Absent,
        (got matches Ok(found) && found is Some) <==> status == StoreStatus::Stored,
{
}

} // verus!
