//! Laws of name tables, of the registry of handlers and of token tables.
use crate::channel::Handing;
use crate::error::SigcallError;
use crate::frame::Frame;
use crate::frame::FrameId;
use crate::frame::Status;
use crate::sigcall::SigcallRegistry;
use crate::table::Fields;
use crate::table::NameTable;
use crate::tokens::Step;
use crate::tokens::TokenTable;
use tokio::sync::mpsc;
use tokio_util::sync::CancellationToken;
use vstd::prelude::*;

verus! {

// ---- Name tables ----

/// What is put into a table is found in it, and nothing else changes.
pub proof fn law_tables<V>(
    table: &mut NameTable<V>,
    name: String,
    value: V,
    asked: &str,
    before: Option<&V>,
    after: Option<&V>,
)
    requires
        call_ensures(NameTable::<V>::insert, (table, name, value), ()),
        call_ensures(NameTable::<V>::get, (&*old(table), asked), before),
        call_ensures(NameTable::<V>::get, (&*final(table), asked), after),
    ensures
        asked@ == name@ ==> after == Some(&value),
        asked@ != name@ ==> after == before,
{
}

/// What is taken out of a table was found in it and is not any more, and nothing
/// else changes.
pub proof fn law_taking_from_tables<V>(
    table: &mut NameTable<V>,
    name: &str,
    taken: Option<V>,
    asked: &str,
    before: Option<&V>,
    after: Option<&V>,
)
    requires
        call_ensures(NameTable::<V>::remove, (table, name), taken),
        call_ensures(NameTable::<V>::get, (&*old(table), asked), before),
        call_ensures(NameTable::<V>::get, (&*final(table), asked), after),
    ensures
        asked@ == name@ ==> after is None && (taken is Some <==> before is Some) && (
        taken is Some ==> taken->0 == *before->0),
        asked@ != name@ ==> after == before,
{
}

/// The entries of a table are what is found in it, each name once.
pub proof fn law_entries_of_tables<V>(
    table: NameTable<V>,
    entries: &Vec<(String, V)>,
    asked: &str,
    found: Option<&V>,
    i: int,
    j: int,
)
    requires
        call_ensures(NameTable::<V>::entries, (&table,), entries),
        call_ensures(NameTable::<V>::get, (&table, asked), found),
    ensures
        0 <= i < entries@.len() && entries@[i].0@ == asked@ ==> found == Some(&entries@[i].1),
        found is Some ==> exists|k: int|
            0 <= k < entries@.len() && (#[trigger] entries@[k]).0@ == asked@,
        0 <= i < j < entries@.len() ==> entries@[i].0@ != entries@[j].0@,
{
    if 0 <= i < entries@.len() {
        crate::table::lemma_entry_in_map(entries@, i);
    }
    if found is Some {
        crate::table::lemma_map_in_entries(entries@, asked@);
    }
}

/// A payload finds what was put into it, and nothing else changes.
pub proof fn law_payloads<V>(
    fields: &mut Fields<V>,
    name: String,
    value: V,
    asked: &str,
    before: Option<&V>,
    after: Option<&V>,
)
    requires
        call_ensures(Fields::<V>::insert, (fields, name, value), ()),
        call_ensures(Fields::<V>::get, (&*old(fields), asked), before),
        call_ensures(Fields::<V>::get, (&*final(fields), asked), after),
    ensures
        asked@ == name@ ==> after == Some(&value),
        asked@ != name@ ==> after == before,
{
}

// ---- Handlers ----

/// A name that begins with `sigcall:` is refused, whoever asks and whatever is
/// registered, and nothing changes.
pub proof fn law_reserved_names_are_refused(
    registry: &mut SigcallRegistry,
    name: &str,
    owner: &str,
    tx: mpsc::Sender<Frame>,
    result: Result<(), SigcallError>,
)
    requires
        call_ensures(SigcallRegistry::register, (registry, name, owner, tx), result),
        "sigcall:"@.is_prefix_of(name@),
    ensures
        result matches Err(SigcallError::Reserved { name: refused }) && refused@ == name@,
        final(registry)@ == old(registry)@,
{
}

/// A name that someone else has is refused, and nothing changes.
pub proof fn law_taken_names_are_refused(
    registry: &mut SigcallRegistry,
    name: &str,
    owner: &str,
    tx: mpsc::Sender<Frame>,
    result: Result<(), SigcallError>,
)
    requires
        call_ensures(SigcallRegistry::register, (registry, name, owner, tx), result),
        !"sigcall:"@.is_prefix_of(name@),
        old(registry)@.contains_key(name@),
        old(registry)@[name@].owner != owner@,
    ensures
        result matches Err(SigcallError::AlreadyRegistered { name: refused, owner: holder })
            && refused@ == name@ && holder@ == old(registry)@[name@].owner,
        final(registry)@ == old(registry)@,
{
}

/// Any other name is registered, new or again, with its owner and its handler, and
/// no other name changes.
pub proof fn law_free_names_are_registered(
    registry: &mut SigcallRegistry,
    name: &str,
    owner: &str,
    tx: mpsc::Sender<Frame>,
    result: Result<(), SigcallError>,
    other: Seq<char>,
)
    requires
        call_ensures(SigcallRegistry::register, (registry, name, owner, tx), result),
        !"sigcall:"@.is_prefix_of(name@),
        old(registry)@.contains_key(name@) ==> old(registry)@[name@].owner == owner@,
    ensures
        result is Ok,
        final(registry)@.contains_key(name@),
        final(registry)@[name@].owner == owner@,
        final(registry)@[name@].tx == tx,
        other != name@ ==> final(registry)@.contains_key(other) == old(registry)@.contains_key(
            other,
        ) && (old(registry)@.contains_key(other) ==> final(registry)@[other] == old(registry)@[other]),
{
}

/// Only the owner of a name takes it out, and then no other name changes. Anyone
/// else is told why not, and nothing changes.
pub proof fn law_unregistering(
    registry: &mut SigcallRegistry,
    name: &str,
    owner: &str,
    result: Result<(), SigcallError>,
    other: Seq<char>,
)
    requires
        call_ensures(SigcallRegistry::unregister, (registry, name, owner), result),
    ensures
        !old(registry)@.contains_key(name@) ==> (result matches Err(
            SigcallError::NotRegistered { name: missing },
        ) && missing@ == name@) && final(registry)@ == old(registry)@,
        old(registry)@.contains_key(name@) && old(registry)@[name@].owner != owner@ ==> (
        result matches Err(
            SigcallError::NotOwner { name: kept, owner: holder, caller },
        ) && kept@ == name@ && holder@ == old(registry)@[name@].owner && caller@ == owner@)
            && final(registry)@ == old(registry)@,
        old(registry)@.contains_key(name@) && old(registry)@[name@].owner == owner@ ==> {
            &&& result is Ok
            &&& !final(registry)@.contains_key(name@)
            &&& other != name@ ==> final(registry)@.contains_key(other) == old(registry)@.contains_key(other) && (old(registry)@.contains_key(other) ==> final(registry)@[other] == old(registry)@[other])
        },
{
}

/// Unregistering all that an owner has takes out their names and no others.
pub proof fn law_unregistering_all(registry: &mut SigcallRegistry, owner: &str, name: Seq<char>)
    requires
        call_ensures(SigcallRegistry::unregister_all, (registry, owner), ()),
    ensures
        final(registry)@.contains_key(name) <==> old(registry)@.contains_key(name) && old(registry)@[name].owner != owner@,
        final(registry)@.contains_key(name) ==> final(registry)@[name] == old(registry)@[name],
{
}

/// A handler is looked up by the exact name.
pub proof fn law_looking_up(
    registry: SigcallRegistry,
    name: &str,
    found: Option<mpsc::Sender<Frame>>,
    blank: SigcallRegistry,
    any: Seq<char>,
)
    requires
        call_ensures(SigcallRegistry::lookup, (&registry, name), found),
        call_ensures(SigcallRegistry::new, (), blank),
    ensures
        found is Some <==> registry@.contains_key(name@),
        found is Some ==> found->0 == registry@[name@].tx,
        !blank@.contains_key(any),
{
}

/// The list names every handler once, with its owner, and nothing else; and the
/// count is that of the list.
pub proof fn law_listing_handlers(
    registry: SigcallRegistry,
    list: Vec<(String, String)>,
    count: usize,
    empty: bool,
    name: Seq<char>,
    i: int,
    j: int,
)
    requires
        call_ensures(SigcallRegistry::list, (&registry,), list),
        call_ensures(SigcallRegistry::len, (&registry,), count),
        call_ensures(SigcallRegistry::is_empty, (&registry,), empty),
    ensures
        0 <= i < list@.len() ==> registry@.contains_key(list@[i].0@) && registry@[list@[i].0@].owner
            == list@[i].1@,
        registry@.contains_key(name) ==> exists|k: int|
            0 <= k < list@.len() && (#[trigger] list@[k]).0@ == name,
        0 <= i < j < list@.len() ==> list@[i].0@ != list@[j].0@,
        count == list@.len(),
        empty <==> list@.len() == 0,
{
    if list@.len() > 0 {
        assert(registry@.contains_key(list@[0].0@));
    } else {
        assert forall|n: Seq<char>| !registry@.contains_key(n) by {
            if registry@.contains_key(n) {
                let k = choose|k: int| 0 <= k < list@.len() && (#[trigger] list@[k]).0@ == n;
            }
        }
        assert(registry@ =~= Map::<Seq<char>, crate::sigcall::Handler>::empty());
    }
}

// ---- Token tables ----

/// Beginning a request enters a new token for it and triggers nothing; finishing
/// it takes the token out and triggers nothing. No other request changes.
pub proof fn law_beginning_and_finishing(
    table: &mut TokenTable,
    done: &mut TokenTable,
    request: FrameId,
    token: CancellationToken,
    other: FrameId,
)
    requires
        call_ensures(TokenTable::begin, (table, request), token),
        call_ensures(TokenTable::finish, (done, request), ()),
    ensures
        call_ensures(CancellationToken::new, (), token),
        final(table)@.live.contains_key(request),
        final(table)@.live[request] == token,
        final(table)@.record == old(table)@.record,
        !final(done)@.live.contains_key(request),
        final(done)@.record == old(done)@.record,
        other != request ==> {
            &&& final(table)@.live.contains_key(other) == old(table)@.live.contains_key(other)
            &&& old(table)@.live.contains_key(other) ==> final(table)@.live[other] == old(table)@.live[other]
            &&& final(done)@.live.contains_key(other) == old(done)@.live.contains_key(other)
            &&& old(done)@.live.contains_key(other) ==> final(done)@.live[other] == old(done)@.live[other]
        },
{
}

/// Cancelling a request triggers its token, and no other, and takes it out. No
/// other request changes, and nothing is triggered for an unknown request.
pub proof fn law_cancelling_tokens(table: &mut TokenTable, request: FrameId, other: FrameId)
    requires
        call_ensures(TokenTable::cancel, (table, request), ()),
    ensures
        !final(table)@.live.contains_key(request),
        old(table)@.live.contains_key(request) ==> final(table)@.record == old(table)@.record.push(Handing::Triggered { token: old(table)@.live[request] })
            && crate::channel::triggered(old(table)@.live[request]),
        !old(table)@.live.contains_key(request) ==> final(table)@.record == old(table)@.record,
        other != request ==> final(table)@.live.contains_key(other) == old(table)@.live.contains_key(other) && (old(table)@.live.contains_key(other) ==> final(table)@.live[other] == old(table)@.live[other]),
{
}

/// What a subsystem does about a frame: a request is begun and dispatched with its
/// token. A cancel frame cancels the request that it names. Any other frame is
/// passed over, and nothing changes.
pub proof fn law_receiving(
    table: &mut TokenTable,
    frame: &Frame,
    step: Step,
    twin: &mut TokenTable,
    target: FrameId,
)
    requires
        call_ensures(TokenTable::receive, (table, frame), step),
        call_ensures(TokenTable::cancel, (twin, target), ()),
        old(twin)@ == old(table)@,
    ensures
        frame.status == Status::Request ==> {
            &&& step is Dispatch
            &&& call_ensures(CancellationToken::new, (), step->Dispatch_0)
            &&& final(table)@.live == old(table)@.live.insert(frame.id, step->Dispatch_0)
            &&& final(table)@.record == old(table)@.record
        },
        frame.status != Status::Request ==> step is Skip,
        frame.status == Status::Cancel && frame.parent_id == Some(target) ==> final(table)@
            == final(twin)@,
        frame.status == Status::Cancel && frame.parent_id is None ==> final(table)@ == old(table)@,
        frame.status != Status::Request && frame.status != Status::Cancel ==> final(table)@ == old(table)@,
{
}

// ---- What is blank, and how much there is ----

/// New tables and registries hold nothing, and new token tables have triggered
/// nothing.
pub proof fn law_blank_tables<V>(
    table: NameTable<V>,
    fields: Fields<V>,
    registry: SigcallRegistry,
    tokens: TokenTable,
    name: Seq<char>,
    id: FrameId,
)
    ensures
        call_ensures(NameTable::<V>::new, (), table) || call_ensures(
            <NameTable<V> as Default>::default,
            (),
            table,
        ) ==> !table@.contains_key(name),
        call_ensures(Fields::<V>::new, (), fields) || call_ensures(
            <Fields<V> as Default>::default,
            (),
            fields,
        ) ==> !fields@.contains_key(name),
        call_ensures(SigcallRegistry::new, (), registry) || call_ensures(
            <SigcallRegistry as Default>::default,
            (),
            registry,
        ) ==> !registry@.contains_key(name),
        call_ensures(TokenTable::new, (), tokens) ==> !tokens@.live.contains_key(id)
            && tokens@.record == Seq::<Handing>::empty(),
{
}

/// The entries of a payload are what is found in it, each name once; it has as many
/// names as entries.
pub proof fn law_entries_of_payloads<V>(
    fields: Fields<V>,
    entries: Vec<(String, V)>,
    count: usize,
    empty: bool,
    asked: &str,
    found: Option<&V>,
    i: int,
    j: int,
)
    requires
        call_ensures(Fields::<V>::into_entries, (fields,), entries) || call_ensures(
            Fields::<V>::entries,
            (&fields,),
            &entries,
        ),
        call_ensures(Fields::<V>::len, (&fields,), count),
        call_ensures(Fields::<V>::is_empty, (&fields,), empty),
        call_ensures(Fields::<V>::get, (&fields, asked), found),
    ensures
        0 <= i < entries@.len() && entries@[i].0@ == asked@ ==> found == Some(&entries@[i].1),
        found is Some ==> exists|k: int|
            0 <= k < entries@.len() && (#[trigger] entries@[k]).0@ == asked@,
        0 <= i < j < entries@.len() ==> entries@[i].0@ != entries@[j].0@,
        count == entries@.len(),
        empty <==> entries@.len() == 0,
{
    crate::table::lemma_map_len(entries@);
    if 0 <= i < entries@.len() {
        crate::table::lemma_entry_in_map(entries@, i);
    }
    if found is Some {
        crate::table::lemma_map_in_entries(entries@, asked@);
    }
    if entries@.len() > 0 {
        crate::table::lemma_entry_in_map(entries@, 0);
    } else {
        assert(fields@ =~= Map::<Seq<char>, V>::empty());
    }
}

/// A table taken apart gives its entries, and has as many names as entries.
pub proof fn law_size_of_tables<V>(
    table: NameTable<V>,
    entries: &Vec<(String, V)>,
    taken: Vec<(String, V)>,
    count: usize,
    empty: bool,
    asked: &str,
    found: Option<&V>,
    i: int,
)
    requires
        call_ensures(NameTable::<V>::entries, (&table,), entries),
        call_ensures(NameTable::<V>::into_entries, (table,), taken),
        call_ensures(NameTable::<V>::len, (&table,), count),
        call_ensures(NameTable::<V>::is_empty, (&table,), empty),
        call_ensures(NameTable::<V>::get, (&table, asked), found),
    ensures
        count == entries@.len(),
        count == taken@.len(),
        empty <==> count == 0,
        0 <= i < taken@.len() && taken@[i].0@ == asked@ ==> found == Some(&taken@[i].1),
        found is Some ==> exists|k: int|
            0 <= k < taken@.len() && (#[trigger] taken@[k]).0@ == asked@,
{
    crate::table::lemma_map_len(entries@);
    crate::table::lemma_map_len(taken@);
    if 0 <= i < taken@.len() {
        crate::table::lemma_entry_in_map(taken@, i);
    }
    if found is Some {
        crate::table::lemma_map_in_entries(taken@, asked@);
    }
    if taken@.len() > 0 {
        crate::table::lemma_entry_in_map(taken@, 0);
    } else {
        assert(table@ =~= Map::<Seq<char>, V>::empty());
    }
}

} // verus!
