//! Registry of handlers that are registered while the kernel runs.
//!
//! Handlers outside the kernel, such as gateways and plugins, register here for
//! single call names. A request that no built-in subsystem takes goes to the
//! handler registered for its name:
//!
//! ```text
//! Syscall:  caller -> kernel -> built-in handler   -> kernel -> caller
//! Sigcall:  caller -> kernel -> registered handler -> kernel -> caller
//! ```
use crate::error::SigcallError;
use crate::error::SigcallErrorView;
use crate::frame::Frame;
use crate::table::NameTable;
use tokio::sync::mpsc;
use vstd::prelude::*;

verus! {

/// A registered handler.
struct Registration {
    owner: String,
    tx: mpsc::Sender<Frame>,
}

/// What a registration holds: who owns it and where requests for it go.
pub struct Handler {
    pub owner: Seq<char>,
    pub tx: mpsc::Sender<Frame>,
}

/// A name that only the kernel itself serves.
pub open spec fn is_reserved(name: Seq<char>) -> bool {
    "sigcall:"@.is_prefix_of(name)
}

/// Whether only the kernel itself serves `name`.
fn reserved(name: &str) -> (yes: bool)
    ensures
        yes == is_reserved(name@),
{
    proof {
        lemma_reserved(name@);
    }
    match crate::text::split_once(name) {
        Some((prefix, _)) => crate::text::str_eq(prefix, "sigcall"),
        None => false,
    }
}

/// A name is reserved if its prefix, followed by a colon, is `sigcall`.
pub proof fn lemma_reserved(name: Seq<char>)
    ensures
        is_reserved(name) <==> name.contains(crate::text::SEPARATOR)
            && crate::text::before_separator(name) == "sigcall"@,
{
    reveal_strlit("sigcall");
    reveal_strlit("sigcall:");
    let prefix = "sigcall"@;
    assert("sigcall:"@ =~= prefix + seq![crate::text::SEPARATOR]);
    assert(!prefix.contains(crate::text::SEPARATOR));
    crate::text::lemma_separator_index(name);
    if is_reserved(name) {
        let rest = name.skip(8);
        assert(name =~= prefix + seq![crate::text::SEPARATOR] + rest);
        crate::text::lemma_separator_split(prefix, rest);
        assert(name[7] == crate::text::SEPARATOR);
        assert(crate::text::before_separator(name) =~= prefix);
    }
    if name.contains(crate::text::SEPARATOR) && crate::text::before_separator(name) == prefix {
        let i = crate::text::separator_index(name);
        assert(name.take(i) == prefix);
        assert forall|j: int| 0 <= j < 8 implies "sigcall:"@[j] == name[j] by {
            if j < 7 {
                assert(name.take(i)[j] == prefix[j]);
            }
        }
    }
}

/// No reserved name is registered.
pub open spec fn nothing_reserved(registry: Map<Seq<char>, Handler>) -> bool {
    forall|name: Seq<char>| #[trigger] registry.contains_key(name) ==> !is_reserved(name)
}

/// Registry of handlers by call name.
pub struct SigcallRegistry {
    handlers: NameTable<Registration>,
}

/// What each registration in a table holds.
spec fn handlers_view(handlers: Map<Seq<char>, Registration>) -> Map<Seq<char>, Handler> {
    Map::new(
        |name: Seq<char>| handlers.contains_key(name),
        |name: Seq<char>| Handler { owner: handlers[name].owner@, tx: handlers[name].tx },
    )
}

impl View for SigcallRegistry {
    type V = Map<Seq<char>, Handler>;

    closed spec fn view(&self) -> Map<Seq<char>, Handler> {
        handlers_view(self.handlers@)
    }
}

/// What registering makes of a registry, or why it is refused.
pub open spec fn registered(
    registry: Map<Seq<char>, Handler>,
    name: Seq<char>,
    owner: Seq<char>,
    tx: mpsc::Sender<Frame>,
) -> Result<Map<Seq<char>, Handler>, SigcallErrorView> {
    if is_reserved(name) {
        Err(SigcallErrorView::Reserved { name })
    } else if registry.contains_key(name) && registry[name].owner != owner {
        Err(SigcallErrorView::AlreadyRegistered { name, owner: registry[name].owner })
    } else {
        Ok(registry.insert(name, Handler { owner, tx }))
    }
}

/// What unregistering makes of a registry, or why it is refused.
pub open spec fn unregistered(
    registry: Map<Seq<char>, Handler>,
    name: Seq<char>,
    owner: Seq<char>,
) -> Result<Map<Seq<char>, Handler>, SigcallErrorView> {
    if !registry.contains_key(name) {
        Err(SigcallErrorView::NotRegistered { name })
    } else if registry[name].owner != owner {
        Err(SigcallErrorView::NotOwner { name, owner: registry[name].owner, caller: owner })
    } else {
        Ok(registry.remove(name))
    }
}

/// A registry without what `owner` holds in it.
pub open spec fn without_owner(
    registry: Map<Seq<char>, Handler>,
    owner: Seq<char>,
) -> Map<Seq<char>, Handler> {
    Map::new(
        |name: Seq<char>| registry.contains_key(name) && registry[name].owner != owner,
        |name: Seq<char>| registry[name],
    )
}

/// The outcome of an operation is as `expected`: on success the registry is
/// changed so, on failure it stays as it was and the error says why.
pub open spec fn outcome_is(
    before: Map<Seq<char>, Handler>,
    after: Map<Seq<char>, Handler>,
    result: Result<(), SigcallError>,
    expected: Result<Map<Seq<char>, Handler>, SigcallErrorView>,
) -> bool {
    match expected {
        Ok(changed) => result is Ok && after == changed,
        Err(error) => result is Err && result->Err_0@ == error && after == before,
    }
}

/// `list` names every handler of the registry once, with its owner.
pub open spec fn lists(
    list: Seq<(String, String)>,
    registry: Map<Seq<char>, Handler>,
) -> bool {
    &&& list.len() == registry.len()
    &&& crate::table::distinct_names(list)
    &&& forall|i: int|
        0 <= i < list.len() ==> registry.contains_key((#[trigger] list[i]).0@)
            && registry[list[i].0@].owner == list[i].1@
    &&& forall|name: Seq<char>| #[trigger]
        registry.contains_key(name) ==> exists|i: int|
            0 <= i < list.len() && (#[trigger] list[i]).0@ == name
}

impl SigcallRegistry {
    #[verifier::type_invariant]
    spec fn inv(self) -> bool {
        forall|name: Seq<char>| #[trigger] self.handlers@.contains_key(name) ==> !is_reserved(name)
    }

    /// An empty registry.
    #[must_use]
    pub fn new() -> (registry: Self)
        ensures
            registry@ == Map::<Seq<char>, Handler>::empty(),
    {
        let registry = SigcallRegistry { handlers: NameTable::new() };
        assert(registry@ =~= Map::<Seq<char>, Handler>::empty());
        registry
    }

    /// Registers `tx` as the handler of `name`.
    ///
    /// Refused if the name is reserved for the kernel or another owner holds
    /// it. The owner of a name may register it again, with another handler.
    pub fn register(&mut self, name: &str, owner: &str, tx: mpsc::Sender<Frame>) -> (result: Result<
        (),
        SigcallError,
    >)
        ensures
            outcome_is(
                old(self)@,
                final(self)@,
                result,
                registered(old(self)@, name@, owner@, tx),
            ),
            nothing_reserved(final(self)@),
    {
        proof {
            use_type_invariant(&*self);
        }
        if reserved(name) {
            return Err(SigcallError::Reserved { name: name.to_owned() });
        }
        if let Some(existing) = self.handlers.get(name) {
            if !crate::text::str_eq(existing.owner.as_str(), owner) {
                return Err(
                    SigcallError::AlreadyRegistered {
                        name: name.to_owned(),
                        owner: existing.owner.clone(),
                    },
                );
            }
        }
        let mut handlers: NameTable<Registration> = NameTable::new();
        std::mem::swap(&mut handlers, &mut self.handlers);
        handlers.insert(name.to_owned(), Registration { owner: owner.to_owned(), tx });
        self.handlers = handlers;
        assert(self@ =~= old(self)@.insert(name@, Handler { owner: owner@, tx }));
        Ok(())
    }

    /// Takes the handler of `name` out. Only its owner may.
    pub fn unregister(&mut self, name: &str, owner: &str) -> (result: Result<(), SigcallError>)
        ensures
            outcome_is(
                old(self)@,
                final(self)@,
                result,
                unregistered(old(self)@, name@, owner@),
            ),
            nothing_reserved(final(self)@),
    {
        proof {
            use_type_invariant(&*self);
        }
        match self.handlers.get(name) {
            None => {
                return Err(SigcallError::NotRegistered { name: name.to_owned() });
            },
            Some(existing) => {
                if !crate::text::str_eq(existing.owner.as_str(), owner) {
                    return Err(
                        SigcallError::NotOwner {
                            name: name.to_owned(),
                            owner: existing.owner.clone(),
                            caller: owner.to_owned(),
                        },
                    );
                }
            },
        }
        let mut handlers: NameTable<Registration> = NameTable::new();
        std::mem::swap(&mut handlers, &mut self.handlers);
        let _ = handlers.remove(name);
        self.handlers = handlers;
        assert(self@ =~= old(self)@.remove(name@));
        Ok(())
    }

    /// Takes out every handler of `owner`, so that none is orphaned when its
    /// process exits or its connection closes.
    pub fn unregister_all(&mut self, owner: &str)
        ensures
            final(self)@ == without_owner(old(self)@, owner@),
            nothing_reserved(final(self)@),
    {
        proof {
            use_type_invariant(&*self);
        }
        let mut handlers: NameTable<Registration> = NameTable::new();
        std::mem::swap(&mut handlers, &mut self.handlers);
        let ghost table = handlers@;
        let entries = handlers.into_entries();
        let ghost all = entries@;
        let mut kept: NameTable<Registration> = NameTable::new();
        proof {
            assert(all.take(0) =~= Seq::<(String, Registration)>::empty());
            assert(handlers_view(kept@) =~= without_owner(
                handlers_view(crate::table::entries_map(all.take(0))),
                owner@,
            ));
        }
        for entry in iter: entries
            invariant
                iter.seq() == all,
                crate::table::distinct_names(all),
                handlers_view(kept@) == without_owner(
                    handlers_view(crate::table::entries_map(all.take(iter.index()))),
                    owner@,
                ),
        {
            let ghost i = iter.index();
            let ghost before = kept@;
            let ghost seen = crate::table::entries_map(all.take(i));
            proof {
                assert(all.take(i + 1).drop_last() =~= all.take(i));
                assert(crate::table::entries_map(all.take(i + 1)) == seen.insert(
                    entry.0@,
                    entry.1,
                ));
                if seen.contains_key(entry.0@) {
                    crate::table::lemma_map_in_entries(all.take(i), entry.0@);
                    let j = choose|j: int|
                        0 <= j < all.take(i).len() && (#[trigger] all.take(i)[j]).0@ == entry.0@;
                    assert(all[j].0@ == all[i].0@);
                }
                assert(handlers_view(kept@).dom() =~= kept@.dom());
            }
            let (name, registration) = entry;
            let ghost handler = Handler { owner: registration.owner@, tx: registration.tx };
            let ghost target = without_owner(handlers_view(seen.insert(name@, registration)), owner@);
            assert(!seen.contains_key(name@));
            if !crate::text::str_eq(registration.owner.as_str(), owner) {
                kept.insert(name, registration);
                assert(handlers_view(kept@) =~= handlers_view(before).insert(name@, handler));
                assert(target =~= handlers_view(before).insert(name@, handler));
            } else {
                assert(target =~= handlers_view(before));
            }
        }
        proof {
            assert(all.take(all.len() as int) =~= all);
            assert(handlers_view(kept@).dom() =~= kept@.dom());
            assert(without_owner(handlers_view(table), owner@).dom().subset_of(table.dom()));
            assert forall|n: Seq<char>| #[trigger] kept@.contains_key(n) implies !is_reserved(n) by {
                assert(handlers_view(kept@).contains_key(n));
                assert(table.contains_key(n));
            }
        }
        self.handlers = kept;
    }

    /// The handler of `name`.
    #[must_use]
    pub fn lookup(&self, name: &str) -> (tx: Option<mpsc::Sender<Frame>>)
        ensures
            tx == (if self@.contains_key(name@) {
                Some(self@[name@].tx)
            } else {
                None
            }),
            nothing_reserved(self@),
    {
        proof {
            use_type_invariant(self);
        }
        match self.handlers.get(name) {
            Some(registration) => Some(registration.tx.clone()),
            None => None,
        }
    }

    /// The names of all handlers with their owners, in no promised order.
    #[must_use]
    pub fn list(&self) -> (list: Vec<(String, String)>)
        ensures
            lists(list@, self@),
            nothing_reserved(self@),
    {
        proof {
            use_type_invariant(self);
        }
        let entries = self.handlers.entries();
        let count = self.handlers.len();
        let mut list: Vec<(String, String)> = Vec::new();
        let mut i: usize = 0;
        while i < entries.len()
            invariant
                i <= entries@.len(),
                list@.len() == i,
                forall|j: int|
                    0 <= j < i ==> (#[trigger] list@[j]).0@ == entries@[j].0@ && list@[j].1@
                        == entries@[j].1.owner@,
            decreases entries@.len() - i,
        {
            list.push((entries[i].0.clone(), entries[i].1.owner.clone()));
            i += 1;
        }
        proof {
            assert(self@.dom() =~= self.handlers@.dom());
            crate::table::lemma_map_len(entries@);
            assert forall|j: int| 0 <= j < list@.len() implies self@.contains_key(
                (#[trigger] list@[j]).0@,
            ) && self@[list@[j].0@].owner == list@[j].1@ by {
                crate::table::lemma_entry_in_map(entries@, j);
            }
            assert forall|name: Seq<char>| #[trigger] self@.contains_key(name) implies exists|j: int|
                0 <= j < list@.len() && (#[trigger] list@[j]).0@ == name by {
                crate::table::lemma_map_in_entries(entries@, name);
                let j = choose|j: int|
                    0 <= j < entries@.len() && (#[trigger] entries@[j]).0@ == name;
                assert(list@[j].0@ == name);
            }
            assert forall|j: int, k: int| 0 <= j < k < list@.len() implies (#[trigger] list@[j]).0@
                != (#[trigger] list@[k]).0@ by {
                assert(entries@[j].0@ != entries@[k].0@);
            }
        }
        list
    }

    /// The number of handlers.
    #[must_use]
    pub fn len(&self) -> (count: usize)
        ensures
            count == self@.len(),
            self@.dom().finite(),
    {
        assert(self@.dom() =~= self.handlers@.dom());
        self.handlers.len()
    }

    /// Whether there is no handler.
    #[must_use]
    pub fn is_empty(&self) -> (empty: bool)
        ensures
            empty == (self@ == Map::<Seq<char>, Handler>::empty()),
    {
        assert(self@.dom() =~= self.handlers@.dom());
        if self.handlers.is_empty() {
            assert(self@ =~= Map::<Seq<char>, Handler>::empty());
            true
        } else {
            assert(self@ == Map::<Seq<char>, Handler>::empty() ==> self.handlers@
                =~= Map::<Seq<char>, Registration>::empty());
            false
        }
    }
}

impl Default for SigcallRegistry {
    /// An empty registry.
    fn default() -> (registry: Self)
        ensures
            registry@ == Map::<Seq<char>, Handler>::empty(),
    {
        SigcallRegistry::new()
    }
}

// ---- Laws ----

/// What is registered is found under its name, with its owner, and nothing else
/// changes.
pub proof fn law_registered_is_found(
    registry: Map<Seq<char>, Handler>,
    name: Seq<char>,
    owner: Seq<char>,
    tx: mpsc::Sender<Frame>,
    other: Seq<char>,
)
    requires
        registered(registry, name, owner, tx) is Ok,
        other != name,
    ensures
        ({
            let changed = registered(registry, name, owner, tx)->Ok_0;
            &&& changed.contains_key(name)
            &&& changed[name] == (Handler { owner, tx })
            &&& changed.contains_key(other) == registry.contains_key(other)
            &&& registry.contains_key(other) ==> changed[other] == registry[other]
        }),
{
}

/// A name is registered unless it is reserved or someone else has it. So its
/// owner can replace the handler.
pub proof fn law_registering_succeeds(
    registry: Map<Seq<char>, Handler>,
    name: Seq<char>,
    owner: Seq<char>,
    tx: mpsc::Sender<Frame>,
    again: mpsc::Sender<Frame>,
)
    requires
        !is_reserved(name),
        registry.contains_key(name) ==> registry[name].owner == owner,
    ensures
        registered(registry, name, owner, tx) is Ok,
        ({
            let changed = registered(registry, name, owner, tx)->Ok_0;
            registered(changed, name, owner, again) == registered(registry, name, owner, again)
        }),
{
    let handler = Handler { owner, tx };
    let replaced = Handler { owner, tx: again };
    assert(registry.insert(name, handler).insert(name, replaced) =~= registry.insert(
        name,
        replaced,
    ));
}

/// Nobody but the owner of a name can replace its handler or take it out.
pub proof fn law_only_the_owner_changes(
    registry: Map<Seq<char>, Handler>,
    name: Seq<char>,
    stranger: Seq<char>,
    tx: mpsc::Sender<Frame>,
)
    requires
        registry.contains_key(name),
        registry[name].owner != stranger,
    ensures
        registered(registry, name, stranger, tx) is Err,
        unregistered(registry, name, stranger) is Err,
        without_owner(registry, stranger).contains_key(name),
        without_owner(registry, stranger)[name] == registry[name],
{
}

/// Unregistering undoes registering.
pub proof fn law_unregister_undoes_register(
    registry: Map<Seq<char>, Handler>,
    name: Seq<char>,
    owner: Seq<char>,
    tx: mpsc::Sender<Frame>,
)
    requires
        !is_reserved(name),
        !registry.contains_key(name),
    ensures
        registered(registry, name, owner, tx) is Ok,
        unregistered(registered(registry, name, owner, tx)->Ok_0, name, owner) == Ok::<
            Map<Seq<char>, Handler>,
            SigcallErrorView,
        >(registry),
{
    assert(registry.insert(name, Handler { owner, tx }).remove(name) =~= registry);
}

/// Unregistering all that an owner has leaves nothing of theirs and all of the
/// others. To do it twice is as to do it once.
pub proof fn law_unregister_all(
    registry: Map<Seq<char>, Handler>,
    owner: Seq<char>,
    name: Seq<char>,
)
    ensures
        without_owner(registry, owner).contains_key(name) <==> registry.contains_key(name)
            && registry[name].owner != owner,
        without_owner(registry, owner).contains_key(name) ==> without_owner(registry, owner)[name]
            == registry[name],
        without_owner(without_owner(registry, owner), owner) == without_owner(registry, owner),
{
    assert(without_owner(without_owner(registry, owner), owner) =~= without_owner(registry, owner));
}

/// No operation brings a reserved name in.
pub proof fn law_reserved_stays_out(
    registry: Map<Seq<char>, Handler>,
    name: Seq<char>,
    owner: Seq<char>,
    tx: mpsc::Sender<Frame>,
)
    requires
        nothing_reserved(registry),
    ensures
        registered(registry, name, owner, tx) matches Ok(changed) ==> nothing_reserved(changed),
        unregistered(registry, name, owner) matches Ok(changed) ==> nothing_reserved(changed),
        nothing_reserved(without_owner(registry, owner)),
        is_reserved(name) ==> registered(registry, name, owner, tx) is Err,
{
}

} // verus!
