//! The requests that the state database makes of a key-value store, and what
//! they do to its contents.

use vstd::prelude::*;

verus! {

/// The column families of the store.
#[derive(Clone, Copy, Debug, PartialEq, Eq)]
pub enum Column {
    /// `addr(20B)` to `nonce(8B LE) || balance(32B LE) || code_hash(32B)`.
    Accounts,
    /// `addr(20B) || slot(32B)` to `value(32B BE)`.
    Storages,
    /// `code_hash(32B)` to the bytecode.
    Bytecodes,
    /// `"world_hash"` to the 2048 bytes of the world hash.
    Meta,
}

/// The name of a column family.
pub open spec fn column_name(column: Column) -> Seq<char> {
    match column {
        Column::Accounts => "accounts"@,
        Column::Storages => "storages"@,
        Column::Bytecodes => "bytecodes"@,
        Column::Meta => "meta"@,
    }
}

impl Column {
    /// The name of the column family.
    pub fn name(&self) -> (name: &'static str)
        ensures
            name@ == column_name(*self),
    {
        match self {
            Column::Accounts => "accounts",
            Column::Storages => "storages",
            Column::Bytecodes => "bytecodes",
            Column::Meta => "meta",
        }
    }
}

/// A request for the value at a key.
#[derive(Debug, PartialEq, Eq)]
pub struct ReadRequest {
    pub column: Column,
    pub key: Vec<u8>,
}

/// A single write.
#[derive(Debug, PartialEq, Eq)]
pub enum WriteOp {
    /// Set the value at a key.
    Put { column: Column, key: Vec<u8>, value: Vec<u8> },
    /// Remove a key.
    Delete { column: Column, key: Vec<u8> },
}

/// A place in the store: a column family and a key.
pub type Place = (Column, Seq<u8>);

impl View for ReadRequest {
    type V = Place;

    open spec fn view(&self) -> Place {
        (self.column, self.key@)
    }
}

/// A write at a place: the value that is set, or `None` for a removal.
#[verifier::ext_equal]
pub struct Write {
    pub place: Place,
    pub value: Option<Seq<u8>>,
}

impl View for WriteOp {
    type V = Write;

    open spec fn view(&self) -> Write {
        match self {
            WriteOp::Put { column, key, value } => Write {
                place: (*column, key@),
                value: Some(value@),
            },
            WriteOp::Delete { column, key } => Write { place: (*column, key@), value: None },
        }
    }
}

/// The writes of a batch, in order.
pub open spec fn batch_view(batch: Seq<WriteOp>) -> Seq<Write> {
    Seq::new(batch.len(), |i: int| batch[i]@)
}

/// The value at a place of a store, if there is one.
pub open spec fn lookup(store: Map<Place, Seq<u8>>, place: Place) -> Option<Seq<u8>> {
    if store.contains_key(place) {
        Some(store[place])
    } else {
        None
    }
}

/// The contents of a store after a write.
pub open spec fn written(store: Map<Place, Seq<u8>>, write: Write) -> Map<Place, Seq<u8>> {
    match write.value {
        Some(value) => store.insert(write.place, value),
        None => store.remove(write.place),
    }
}

/// The contents of a store after the writes of a batch, in order.
pub open spec fn written_all(store: Map<Place, Seq<u8>>, writes: Seq<Write>) -> Map<
    Place,
    Seq<u8>,
>
    decreases writes.len(),
{
    if writes.len() == 0 {
        store
    } else {
        written(written_all(store, writes.drop_last()), writes.last())
    }
}

/// The contents of a store after it has replied to an atomic batch: all of the
/// writes if it has carried out the batch, and none of them if not.
pub open spec fn after_batch<E>(
    store: Map<Place, Seq<u8>>,
    writes: Seq<Write>,
    reply: Result<(), E>,
) -> Map<Place, Seq<u8>> {
    match reply {
        Ok(_) => written_all(store, writes),
        Err(_) => store,
    }
}

/// A write decides what stands at its place and leaves every other place alone.
pub proof fn law_write_changes_one_place(
    store: Map<Place, Seq<u8>>,
    column: Column,
    key: Vec<u8>,
    value: Vec<u8>,
    place: Place,
)
    ensures
        ({
            let put = written(store, WriteOp::Put { column, key, value }@);
            let deleted = written(store, WriteOp::Delete { column, key }@);
            &&& place == (column, key@) ==> {
                &&& put.contains_key(place)
                &&& put[place] == value@
                &&& !deleted.contains_key(place)
            }
            &&& place != (column, key@) ==> {
                &&& put.contains_key(place) == store.contains_key(place)
                &&& deleted.contains_key(place) == store.contains_key(place)
                &&& store.contains_key(place) ==> put[place] == store[place] && deleted[place]
                    == store[place]
            }
        }),
{
}

/// A lookup finds exactly what a store holds.
pub proof fn law_lookup_finds_what_is_held(store: Map<Place, Seq<u8>>, place: Place, bytes: Seq<u8>)
    ensures
        lookup(store, place) == Some(bytes) <==> store.contains_key(place) && store[place] == bytes,
        lookup(store, place) is None <==> !store.contains_key(place),
{
}

/// A place that no write of a batch names keeps its value.
pub proof fn law_untouched_places_keep_their_value(
    store: Map<Place, Seq<u8>>,
    writes: Seq<Write>,
    place: Place,
)
    requires
        forall|i: int| 0 <= i < writes.len() ==> (#[trigger] writes[i]).place != place,
    ensures
        lookup(written_all(store, writes), place) == lookup(store, place),
    decreases writes.len(),
{
    if writes.len() > 0 {
        assert(writes.last().place != place);
        assert forall|i: int| 0 <= i < writes.drop_last().len() implies (
        #[trigger] writes.drop_last()[i]).place != place by {
            assert(writes.drop_last()[i] == writes[i]);
        }
        law_untouched_places_keep_their_value(store, writes.drop_last(), place);
    }
}

/// The last write to a place decides what is read there.
pub proof fn law_last_write_wins(store: Map<Place, Seq<u8>>, writes: Seq<Write>, at: int)
    requires
        0 <= at < writes.len(),
        forall|i: int|
            at < i < writes.len() ==> (#[trigger] writes[i]).place != writes[at].place,
    ensures
        lookup(written_all(store, writes), writes[at].place) == writes[at].value,
    decreases writes.len(),
{
    let before = writes.drop_last();
    if at < writes.len() - 1 {
        assert(writes.last().place != writes[at].place);
        assert forall|i: int| at < i < before.len() implies (#[trigger] before[i]).place
            != before[at].place by {
            assert(before[i] == writes[i]);
        }
        law_last_write_wins(store, before, at);
    }
}

} // verus!
