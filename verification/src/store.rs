//! The document store: key-based storage and retrieval of whole order
//! documents. `DocumentStore` validates on write, serializes, and hands the
//! blob to an in-memory backend; on read it decodes and checks the stored
//! blob. `store_prepare` and `fetch_decision` are the same write and read
//! logic as pure functions over plain values, for callers whose backend
//! performs input and output this crate cannot see.

use vstd::prelude::*;

use crate::codec::{decode_order, lemma_enc_order_injective};
use crate::encode::{enc_order, encode_order};
use crate::schema::{valid_order, validate_order, Order, OrderView, ValidationError};

verus! {

/// Why a fetch fails: the key was never stored, or the stored blob is not
/// the encoding of any valid document.
#[derive(Clone, Copy, Debug, PartialEq, Eq)]
pub enum FetchError {
    /// No document is stored under the key.
    NotFound,
    /// A blob is stored under the key, but it does not decode to a valid
    /// document. This is reported, never a crash: it means the backend was
    /// written outside the validation path or under another schema.
    CorruptDocument,
}

/// What a fetch against a given store state must observe: nothing stored,
/// a corrupt blob, or the one valid document the blob encodes.
pub enum FetchOutcome {
    Absent,
    Corrupt,
    Document(OrderView),
}

/// The outcome determined by a stored blob alone: the unique valid document
/// it encodes, if any, else corruption.
pub open spec fn blob_outcome(b: Seq<char>) -> FetchOutcome {
    if exists|v: OrderView| valid_order(v) && enc_order(v) == b {
        FetchOutcome::Document(choose|v: OrderView| valid_order(v) && enc_order(v) == b)
    } else {
        FetchOutcome::Corrupt
    }
}

/// The outcome of fetching `k` against store contents `m`.
pub open spec fn fetch_model(m: Map<Seq<char>, Seq<char>>, k: Seq<char>) -> FetchOutcome {
    if m.contains_key(k) {
        blob_outcome(m[k])
    } else {
        FetchOutcome::Absent
    }
}

/// The store contents after a successful store of document `d`: the blob
/// under the document's identifier is replaced wholesale.
pub open spec fn store_model(m: Map<Seq<char>, Seq<char>>, d: OrderView) -> Map<
    Seq<char>,
    Seq<char>,
> {
    m.insert(d.order_uid, enc_order(d))
}

/// The contents of a backend entry list: later entries shadow earlier ones
/// with the same key.
pub open spec fn entries_map(es: Seq<(String, String)>) -> Map<Seq<char>, Seq<char>>
    decreases es.len(),
{
    if es.len() == 0 {
        Map::empty()
    } else {
        entries_map(es.drop_last()).insert(es.last().0@, es.last().1@)
    }
}

/// An in-memory key-value backend holding whole blobs. The view is the map
/// from keys to the most recently stored blob under each.
pub struct MemBackend {
    entries: Vec<(String, String)>,
}

impl View for MemBackend {
    type V = Map<Seq<char>, Seq<char>>;

    closed spec fn view(&self) -> Map<Seq<char>, Seq<char>> {
        entries_map(self.entries@)
    }
}

impl MemBackend {
    /// An empty backend.
    pub fn new() -> (r: MemBackend)
        ensures
            r@ == Map::<Seq<char>, Seq<char>>::empty(),
    {
        MemBackend { entries: Vec::new() }
    }

    /// Stores a blob under a key, replacing whatever was there.
    pub fn put(&mut self, key: String, blob: String)
        ensures
            final(self)@ == old(self)@.insert(key@, blob@),
    {
        let ghost old_es = self.entries@;
        let ghost kv = key@;
        let ghost bv = blob@;
        self.entries.push((key, blob));
        proof {
            assert(self.entries@.drop_last() =~= old_es);
            assert(self.entries@.last().0@ == kv && self.entries@.last().1@ == bv);
        }
    }

    /// Looks up the most recently stored blob under a key.
    pub fn get(&self, key: &str) -> (r: Option<String>)
        ensures
            r matches Some(b) ==> self@.contains_key(key@) && b@ == self@[key@],
            r is None ==> !self@.contains_key(key@),
    {
        let k = key.to_owned();
        let mut j: usize = self.entries.len();
        proof {
            assert(self.entries@.take(j as int) =~= self.entries@);
        }
        while j > 0
            invariant
                j <= self.entries@.len(),
                k@ == key@,
                entries_map(self.entries@.take(j as int)).contains_key(key@) == entries_map(
                    self.entries@,
                ).contains_key(key@),
                entries_map(self.entries@.take(j as int)).contains_key(key@)
                    ==> entries_map(self.entries@.take(j as int))[key@] == entries_map(
                    self.entries@,
                )[key@],
            decreases j,
        {
            let pair = &self.entries[j - 1];
            proof {
                let es = self.entries@;
                let t = es.take(j as int);
                assert(t.drop_last() =~= es.take(j - 1));
                assert(t.last() == es[j - 1]);
                assert(entries_map(t) == entries_map(es.take(j - 1)).insert(
                    es[j - 1].0@,
                    es[j - 1].1@,
                ));
            }
            if pair.0 == k {
                return Some(pair.1.clone());
            }
            j = j - 1;
        }
        proof {
            assert(self.entries@.take(0) =~= Seq::<(String, String)>::empty());
            assert(entries_map(self.entries@.take(0)) == Map::<Seq<char>, Seq<char>>::empty());
        }
        None
    }
}

/// Validates a document and, when it is valid, serializes it: the returned
/// pair is the storage key (the document's identifier) and the blob to put
/// under it. Exactly the write-path work that precedes the backend call.
pub fn store_prepare(d: &Order) -> (r: Result<(String, String), ValidationError>)
    ensures
        r matches Ok(p) ==> valid_order(d@) && p.0@ == d@.order_uid && p.1@ == enc_order(d@),
        r is Ok <==> valid_order(d@),
        d@.order_uid.len() == 0 ==> r == Err::<(String, String), ValidationError>(
            ValidationError::EmptyOrderUid,
        ),
        d@.order_uid.len() > 0 && d@.payment.payment_dt < 0 ==> r == Err::<
            (String, String),
            ValidationError,
        >(ValidationError::NegativePaymentDate),
{
    match validate_order(d) {
        Ok(()) => {
            let key = d.order_uid.clone();
            let blob = encode_order(d);
            Ok((key, blob))
        },
        Err(e) => Err(e),
    }
}

/// Interprets what a backend lookup returned: no row is `NotFound`; a blob
/// that is the canonical encoding of a valid document is that document; any
/// other blob is `CorruptDocument`. Exactly the read-path work that follows
/// the backend call.
pub fn fetch_decision(row: Option<String>) -> (r: Result<Order, FetchError>)
    ensures
        row is None ==> r == Err::<Order, FetchError>(FetchError::NotFound),
        row matches Some(b) ==> match blob_outcome(b@) {
            FetchOutcome::Document(v) => r matches Ok(d) && d@ == v,
            FetchOutcome::Corrupt => r == Err::<Order, FetchError>(FetchError::CorruptDocument),
            FetchOutcome::Absent => false,
        },
{
    match row {
        None => Err(FetchError::NotFound),
        Some(b) => match decode_order(b.as_str()) {
            Some(d) => {
                proof {
                    let v = choose|v: OrderView| valid_order(v) && enc_order(v) == b@;
                    assert(valid_order(d@) && enc_order(d@) == b@);
                    assert(valid_order(v) && enc_order(v) == b@);
                    lemma_enc_order_injective(v, d@);
                }
                Ok(d)
            },
            None => {
                proof {
                    assert(forall|v: OrderView| valid_order(v) ==> enc_order(v) != b@);
                }
                Err(FetchError::CorruptDocument)
            },
        },
    }
}

/// The document store service: validated writes and integrity-checked reads
/// against an injected backend.
pub struct DocumentStore {
    backend: MemBackend,
}

impl View for DocumentStore {
    type V = Map<Seq<char>, Seq<char>>;

    closed spec fn view(&self) -> Map<Seq<char>, Seq<char>> {
        self.backend@
    }
}

impl DocumentStore {
    /// An empty store.
    pub fn new() -> (r: DocumentStore)
        ensures
            r@ == Map::<Seq<char>, Seq<char>>::empty(),
    {
        DocumentStore { backend: MemBackend::new() }
    }

    /// A store over an existing backend, with whatever that backend holds.
    pub fn from_backend(backend: MemBackend) -> (r: DocumentStore)
        ensures
            r@ == backend@,
    {
        DocumentStore { backend }
    }

    /// Stores a document under its identifier: validates it, and on success
    /// replaces the blob under that key with the document's encoding and
    /// returns the key. An invalid document is rejected with the violated
    /// field named, and the store is left unchanged.
    pub fn store(&mut self, d: &Order) -> (r: Result<String, ValidationError>)
        ensures
            valid_order(d@) ==> (r matches Ok(k) && k@ == d@.order_uid && final(self)@
                == store_model(old(self)@, d@)),
            !valid_order(d@) ==> r is Err && final(self)@ == old(self)@,
            d@.order_uid.len() == 0 ==> r == Err::<String, ValidationError>(
                ValidationError::EmptyOrderUid,
            ),
            d@.order_uid.len() > 0 && d@.payment.payment_dt < 0 ==> r == Err::<
                String,
                ValidationError,
            >(ValidationError::NegativePaymentDate),
    {
        match store_prepare(d) {
            Ok((key, blob)) => {
                let returned = key.clone();
                self.backend.put(key, blob);
                Ok(returned)
            },
            Err(e) => Err(e),
        }
    }

    /// Fetches the document stored under a key: `NotFound` when the key was
    /// never stored, `CorruptDocument` when the stored blob does not decode
    /// to a valid document, and otherwise exactly the document whose
    /// encoding is stored.
    pub fn fetch(&self, key: &str) -> (r: Result<Order, FetchError>)
        ensures
            fetch_model(self@, key@) == FetchOutcome::Absent ==> r == Err::<Order, FetchError>(
                FetchError::NotFound,
            ),
            fetch_model(self@, key@) == FetchOutcome::Corrupt ==> r == Err::<Order, FetchError>(
                FetchError::CorruptDocument,
            ),
            fetch_model(self@, key@) matches FetchOutcome::Document(v) ==> r matches Ok(d) && d@
                == v,
    {
        fetch_decision(self.backend.get(key))
    }
}

/// After a document is stored, fetching its identifier returns that
/// document, field for field, items in order.
pub proof fn lemma_store_then_fetch(m: Map<Seq<char>, Seq<char>>, d: OrderView)
    requires
        valid_order(d),
    ensures
        fetch_model(store_model(m, d), d.order_uid) == FetchOutcome::Document(d),
{
    let m1 = store_model(m, d);
    assert(m1.contains_key(d.order_uid));
    assert(m1[d.order_uid] == enc_order(d));
    assert(valid_order(d) && enc_order(d) == m1[d.order_uid]);
    let v = choose|v: OrderView| valid_order(v) && enc_order(v) == m1[d.order_uid];
    lemma_enc_order_injective(v, d);
}

/// Storing `d1` and then `d2` under the same identifier leaves exactly
/// `d2`: the second store replaces the first in full, and a fetch of the
/// key returns `d2`.
pub proof fn lemma_store_overwrite(m: Map<Seq<char>, Seq<char>>, d1: OrderView, d2: OrderView)
    requires
        valid_order(d1),
        valid_order(d2),
        d1.order_uid == d2.order_uid,
    ensures
        store_model(store_model(m, d1), d2) == store_model(m, d2),
        fetch_model(store_model(store_model(m, d1), d2), d2.order_uid) == FetchOutcome::Document(
            d2,
        ),
{
    assert(store_model(store_model(m, d1), d2) =~= store_model(m, d2));
    lemma_store_then_fetch(store_model(m, d1), d2);
}

/// Fetching a key that was never stored observes nothing.
pub proof fn lemma_fetch_absent(m: Map<Seq<char>, Seq<char>>, k: Seq<char>)
    requires
        !m.contains_key(k),
    ensures
        fetch_model(m, k) == FetchOutcome::Absent,
{
}

/// Stores to distinct keys are independent: storing a document leaves the
/// fetch outcome of every other key exactly as it was.
pub proof fn lemma_store_independent(m: Map<Seq<char>, Seq<char>>, d: OrderView, k: Seq<char>)
    requires
        valid_order(d),
        k != d.order_uid,
    ensures
        fetch_model(store_model(m, d), k) == fetch_model(m, k),
{
    let m1 = store_model(m, d);
    assert(m1.contains_key(k) == m.contains_key(k));
    if m.contains_key(k) {
        assert(m1[k] == m[k]);
    }
}

} // verus!
