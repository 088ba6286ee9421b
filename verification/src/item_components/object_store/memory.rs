//! An object store in memory.

use super::identity::{ObjectIdentity, ObjectMetadata, ObjectStoreError, ObjectVersionToken};
use crate::runtime::FailureCategory;
use crate::text::{
    comes_before, concat2, copy_text, decimal, decimal_is_injective, decimal_text, same_text,
    starts_with, text_less, text_less_strict_total, text_less_transitive,
};
use vstd::prelude::*;
use vstd::slice::slice_to_vec;

verus! {

/// An opaque continuation token for deterministic listing.
#[derive(Clone, Debug, PartialEq, Eq)]
pub struct ObjectListContinuation {
    last_key: String,
}

impl View for ObjectListContinuation {
    type V = Seq<char>;

    closed spec fn view(&self) -> Seq<char> {
        self.last_key@
    }
}

/// One page of listed objects, in key order.
#[derive(Clone, Debug)]
pub struct ObjectListPage {
    entries: Vec<(ObjectIdentity, ObjectMetadata)>,
    continuation: Option<ObjectListContinuation>,
}

/// One listed object, by its content.
#[verifier::ext_equal]
pub struct EntryView {
    pub key: Seq<char>,
    pub size: nat,
    pub token: Option<Seq<char>>,
}

/// Listed objects by their content.
pub open spec fn entry_views(entries: Seq<(ObjectIdentity, ObjectMetadata)>) -> Seq<EntryView> {
    entries.map_values(
        |entry: (ObjectIdentity, ObjectMetadata)|
            EntryView {
                key: entry.0@,
                size: entry.1.size_view() as nat,
                token: entry.1.token_view(),
            },
    )
}

impl ObjectListPage {
    /// The entries, in key order.
    pub closed spec fn entry_seq(&self) -> Seq<EntryView> {
        entry_views(self.entries@)
    }

    /// The key after which the next page starts.
    pub closed spec fn next_after(&self) -> Option<Seq<char>> {
        match self.continuation {
            Some(continuation) => Some(continuation@),
            None => None,
        }
    }

    /// Builds a page.
    pub fn new(
        entries: Vec<(ObjectIdentity, ObjectMetadata)>,
        continuation: Option<ObjectListContinuation>,
    ) -> (r: Self)
        ensures
            r.entry_seq() == entry_views(entries@),
            r.next_after() == (match continuation {
                Some(continuation) => Some(continuation@),
                None => None,
            }),
    {
        ObjectListPage { entries, continuation }
    }

    /// Borrows this page's entries, in deterministic order.
    pub fn entries(&self) -> (r: &[(ObjectIdentity, ObjectMetadata)])
        ensures
            entry_views(r@) == self.entry_seq(),
    {
        self.entries.as_slice()
    }

    /// Returns the continuation token for the next page, if more entries remain.
    pub fn continuation(&self) -> (r: Option<&ObjectListContinuation>)
        ensures
            match r {
                Some(continuation) => self.next_after() == Some(continuation@),
                None => self.next_after() is None,
            },
    {
        match &self.continuation {
            Some(continuation) => Some(continuation),
            None => None,
        }
    }
}

/// One stored object.
pub struct StoredObject {
    id: ObjectIdentity,
    bytes: Vec<u8>,
    version: u64,
}

/// One stored object, by its content.
#[verifier::ext_equal]
pub struct StoredView {
    pub key: Seq<char>,
    pub bytes: Seq<u8>,
    pub version: u64,
}

impl View for StoredObject {
    type V = StoredView;

    closed spec fn view(&self) -> StoredView {
        StoredView { key: self.id@, bytes: self.bytes@, version: self.version }
    }
}

/// Stored objects by their content.
pub closed spec fn stored_views(objects: Seq<StoredObject>) -> Seq<StoredView> {
    objects.map_values(|object: StoredObject| object@)
}

/// The keys are in strictly increasing byte order, so none occurs twice.
pub open spec fn in_key_order(objects: Seq<StoredView>) -> bool {
    forall|i: int, j: int|
        0 <= i < j < objects.len() ==> text_less(
            (#[trigger] objects[i]).key,
            (#[trigger] objects[j]).key,
        )
}

/// The number of objects whose key comes before `key`.
pub open spec fn rank(objects: Seq<StoredView>, key: Seq<char>) -> nat
    decreases objects.len(),
{
    if objects.len() == 0 || !text_less(objects[0].key, key) {
        0
    } else {
        1 + rank(objects.drop_first(), key)
    }
}

/// The object with the given key.
pub open spec fn lookup(objects: Seq<StoredView>, key: Seq<char>) -> Option<StoredView> {
    let i = rank(objects, key) as int;
    if i < objects.len() && objects[i].key == key {
        Some(objects[i])
    } else {
        None
    }
}

/// In key order, the keys before the rank come before `key` and the others do
/// not.
proof fn rank_splits(objects: Seq<StoredView>, key: Seq<char>)
    requires
        in_key_order(objects),
    ensures
        rank(objects, key) <= objects.len(),
        forall|i: int|
            0 <= i < rank(objects, key) ==> text_less((#[trigger] objects[i]).key, key),
        forall|i: int|
            rank(objects, key) <= i < objects.len() ==> !text_less(
                (#[trigger] objects[i]).key,
                key,
            ),
    decreases objects.len(),
{
    if objects.len() > 0 {
        let rest = objects.drop_first();
        assert(in_key_order(rest)) by {
            assert forall|i: int, j: int| 0 <= i < j < rest.len() implies text_less(
                (#[trigger] rest[i]).key,
                (#[trigger] rest[j]).key,
            ) by {
                assert(rest[i] == objects[i + 1]);
                assert(rest[j] == objects[j + 1]);
            }
        }
        rank_splits(rest, key);
        if text_less(objects[0].key, key) {
            assert forall|i: int| 0 <= i < rank(objects, key) implies text_less(
                (#[trigger] objects[i]).key,
                key,
            ) by {
                if i > 0 {
                    assert(objects[i] == rest[i - 1]);
                }
            }
            assert forall|i: int| rank(objects, key) <= i < objects.len() implies !text_less(
                (#[trigger] objects[i]).key,
                key,
            ) by {
                assert(objects[i] == rest[i - 1]);
            }
        } else {
            assert forall|i: int| 0 <= i < objects.len() implies !text_less(
                (#[trigger] objects[i]).key,
                key,
            ) by {
                if i > 0 && text_less(objects[i].key, key) {
                    text_less_transitive(objects[0].key, objects[i].key, key);
                }
            }
        }
    }
}

/// An index that splits the keys as the rank does is the rank.
proof fn rank_is_unique(objects: Seq<StoredView>, key: Seq<char>, n: nat)
    requires
        in_key_order(objects),
        n <= objects.len(),
        forall|i: int| 0 <= i < n ==> text_less((#[trigger] objects[i]).key, key),
        n < objects.len() ==> !text_less(objects[n as int].key, key),
    ensures
        rank(objects, key) == n,
{
    rank_splits(objects, key);
    let m = rank(objects, key);
    if m < n {
        assert(text_less(objects[m as int].key, key));
    }
    if n < m {
        assert(text_less(objects[n as int].key, key));
    }
}

/// An object is found exactly if there is one with its key.
pub proof fn lookup_finds(objects: Seq<StoredView>, i: int)
    requires
        in_key_order(objects),
        0 <= i < objects.len(),
    ensures
        lookup(objects, objects[i].key) == Some(objects[i]),
{
    let key = objects[i].key;
    assert forall|j: int| 0 <= j < i implies text_less((#[trigger] objects[j]).key, key) by {}
    text_less_strict_total(key, key);
    rank_is_unique(objects, key, i as nat);
}

/// The objects after storing one: it takes the place of the object with its key,
/// or the place that key order gives it.
pub open spec fn stored(objects: Seq<StoredView>, object: StoredView) -> Seq<StoredView> {
    let i = rank(objects, object.key) as int;
    if lookup(objects, object.key) is Some {
        objects.update(i, object)
    } else {
        objects.insert(i, object)
    }
}

/// Storing keeps the key order.
pub proof fn storing_keeps_order(objects: Seq<StoredView>, object: StoredView)
    requires
        in_key_order(objects),
    ensures
        in_key_order(stored(objects, object)),
{
    let n = rank(objects, object.key) as int;
    let after = stored(objects, object);
    rank_splits(objects, object.key);
    assert forall|i: int, j: int| 0 <= i < j < after.len() implies text_less(
        (#[trigger] after[i]).key,
        (#[trigger] after[j]).key,
    ) by {
        if lookup(objects, object.key) is Some {
            assert(after[i].key == objects[i].key);
            assert(after[j].key == objects[j].key);
        } else {
            let a = if i < n {
                objects[i]
            } else if i == n {
                object
            } else {
                objects[i - 1]
            };
            let b = if j < n {
                objects[j]
            } else if j == n {
                object
            } else {
                objects[j - 1]
            };
            assert(after[i] == a && after[j] == b);
            if i < n && j == n {
                assert(text_less(objects[i].key, object.key));
            } else if i == n {
                // What stands after the new object is not before it and has
                // another key.
                text_less_strict_total(object.key, objects[j - 1].key);
                if objects[j - 1].key == object.key {
                    lookup_finds(objects, j - 1);
                }
                assert(!text_less(objects[j - 1].key, object.key));
            }
        }
    }
}

/// Reading an object gives back what was last stored under its key, and storing
/// it leaves every other object alone.
pub proof fn get_gives_back_what_was_put(
    objects: Seq<StoredView>,
    object: StoredView,
    key: Seq<char>,
)
    requires
        in_key_order(objects),
    ensures
        lookup(stored(objects, object), key) == (if key == object.key {
            Some(object)
        } else {
            lookup(objects, key)
        }),
{
    let n = rank(objects, object.key) as int;
    let after = stored(objects, object);
    rank_splits(objects, object.key);
    storing_keeps_order(objects, object);
    assert(after[n] == object);
    lookup_finds(after, n);
    rank_splits(after, key);
    rank_splits(objects, key);
    let m = rank(objects, key) as int;
    if key != object.key {
        match lookup(objects, key) {
            Some(found) => {
                if lookup(objects, object.key) is Some {
                    assert(m != n);
                    assert(after[m] == found);
                    lookup_finds(after, m);
                } else if m < n {
                    assert(after[m] == found);
                    lookup_finds(after, m);
                } else {
                    assert(after[m + 1] == found);
                    lookup_finds(after, m + 1);
                }
            },
            None => {
                let k = rank(after, key) as int;
                if k < after.len() && after[k].key == key {
                    if lookup(objects, object.key) is Some {
                        assert(objects[k].key == key);
                        lookup_finds(objects, k);
                    } else if k < n {
                        assert(after[k] == objects[k]);
                        lookup_finds(objects, k);
                    } else {
                        assert(k != n);
                        assert(after[k] == objects[k - 1]);
                        lookup_finds(objects, k - 1);
                    }
                }
            },
        }
    }
}

/// The text of a version's token.
pub open spec fn version_text(version: u64) -> Seq<char> {
    "v"@ + decimal(version as nat)
}

/// Different versions have different tokens.
pub proof fn versions_have_distinct_tokens(a: u64, b: u64)
    requires
        a != b,
    ensures
        version_text(a) != version_text(b),
{
    if version_text(a) == version_text(b) {
        let prefix = "v"@.len() as int;
        assert(decimal(a as nat) =~= version_text(a).skip(prefix));
        assert(decimal(b as nat) =~= version_text(b).skip(prefix));
        decimal_is_injective(a as nat, b as nat);
    }
}

/// The version of the object with the given key; zero if there is none.
pub open spec fn current_version(objects: Seq<StoredView>, key: Seq<char>) -> u64 {
    match lookup(objects, key) {
        Some(object) => object.version,
        None => 0,
    }
}

/// One object that is stored: its key and its bytes.
pub struct PutView {
    pub key: Seq<char>,
    pub bytes: Seq<u8>,
}

/// The objects after storing one under the next version of its key.
pub open spec fn after_put(objects: Seq<StoredView>, put: PutView) -> Seq<StoredView> {
    stored(
        objects,
        StoredView {
            key: put.key,
            bytes: put.bytes,
            version: (current_version(objects, put.key) + 1) as u64,
        },
    )
}

/// The objects after storing some, one after the other.
pub open spec fn after_puts(objects: Seq<StoredView>, puts: Seq<PutView>) -> Seq<StoredView>
    decreases puts.len(),
{
    if puts.len() == 0 {
        objects
    } else {
        after_put(after_puts(objects, puts.drop_last()), puts.last())
    }
}

/// The token under which the put numbered `i` publishes its object.
pub open spec fn published(objects: Seq<StoredView>, puts: Seq<PutView>, i: int) -> Seq<char> {
    version_text((current_version(after_puts(objects, puts.take(i)), puts[i].key) + 1) as u64)
}

/// A key's version never falls, and grows by at most one with each put.
proof fn versions_count_up(objects: Seq<StoredView>, puts: Seq<PutView>, key: Seq<char>, n: nat)
    requires
        in_key_order(objects),
        n <= puts.len(),
        current_version(objects, key) + puts.len() <= u64::MAX,
    ensures
        in_key_order(after_puts(objects, puts)),
        in_key_order(after_puts(objects, puts.take(n as int))),
        current_version(after_puts(objects, puts.take(n as int)), key) <= current_version(
            after_puts(objects, puts),
            key,
        ) <= current_version(objects, key) + puts.len(),
        n < puts.len() && puts[n as int].key == key ==> current_version(
            after_puts(objects, puts.take(n as int)),
            key,
        ) < current_version(after_puts(objects, puts), key),
    decreases puts.len(),
{
    if n == puts.len() {
        assert(puts.take(n as int) =~= puts);
    }
    if puts.len() > 0 {
        let shorter = puts.drop_last();
        let last = puts.last();
        let before = after_puts(objects, shorter);
        let object = StoredView {
            key: last.key,
            bytes: last.bytes,
            version: (current_version(before, last.key) + 1) as u64,
        };
        let m = if n < puts.len() {
            n
        } else {
            shorter.len()
        };
        versions_count_up(objects, shorter, key, m);
        storing_keeps_order(before, object);
        get_gives_back_what_was_put(before, object, key);
        if n < puts.len() {
            assert(shorter.take(n as int) =~= puts.take(n as int));
            assert(n < shorter.len() ==> shorter[n as int] == puts[n as int]);
            assert(n == shorter.len() ==> shorter.take(n as int) =~= shorter);
        }
    }
}

/// Every put publishes a token that its key has not had before: neither from an
/// earlier put nor from the object that was there at the start.
pub proof fn each_put_publishes_a_new_token(
    objects: Seq<StoredView>,
    puts: Seq<PutView>,
    i: int,
    j: int,
)
    requires
        in_key_order(objects),
        0 <= i < j < puts.len(),
        puts[i].key == puts[j].key,
        current_version(objects, puts[j].key) + puts.len() <= u64::MAX,
    ensures
        published(objects, puts, i) != published(objects, puts, j),
        lookup(objects, puts[j].key) matches Some(first) ==> version_text(first.version)
            != published(objects, puts, i) && version_text(first.version) != published(
            objects,
            puts,
            j,
        ),
{
    let key = puts[j].key;
    let first = current_version(objects, key);
    let earlier = puts.take(i);
    let later = puts.take(j);
    let x = current_version(after_puts(objects, earlier), key);
    let y = current_version(after_puts(objects, later), key);
    versions_count_up(objects, later, key, i as nat);
    assert(later.take(i) =~= earlier && later[i] == puts[i]);
    versions_count_up(objects, earlier, key, 0);
    assert(earlier.take(0) =~= Seq::<PutView>::empty());
    assert(first <= x < y < u64::MAX);
    versions_have_distinct_tokens((x + 1) as u64, (y + 1) as u64);
    versions_have_distinct_tokens(first, (x + 1) as u64);
    versions_have_distinct_tokens(first, (y + 1) as u64);
}

/// A stored object as it is listed.
pub open spec fn entry_of(object: StoredView) -> EntryView {
    EntryView {
        key: object.key,
        size: object.bytes.len(),
        token: Some(version_text(object.version)),
    }
}

/// An object that a listing with a prefix, after a key, covers.
pub open spec fn is_listed(
    object: StoredView,
    prefix: Seq<char>,
    after: Option<Seq<char>>,
) -> bool {
    &&& prefix.is_prefix_of(object.key)
    &&& match after {
        Some(key) => text_less(key, object.key),
        None => true,
    }
}

/// The objects that a listing with a prefix, after a key, covers, in order.
pub open spec fn listed(
    objects: Seq<StoredView>,
    prefix: Seq<char>,
    after: Option<Seq<char>>,
) -> Seq<EntryView>
    decreases objects.len(),
{
    if objects.len() == 0 {
        Seq::empty()
    } else {
        let before = listed(objects.drop_last(), prefix, after);
        if is_listed(objects.last(), prefix, after) {
            before.push(entry_of(objects.last()))
        } else {
            before
        }
    }
}

/// An entry of a listing stands for one of the covered objects.
pub open spec fn stands_for_one(
    objects: Seq<StoredView>,
    prefix: Seq<char>,
    after: Option<Seq<char>>,
    entry: EntryView,
) -> bool {
    exists|j: int|
        0 <= j < objects.len() && is_listed(#[trigger] objects[j], prefix, after) && entry
            == entry_of(objects[j])
}

/// A listing is in strict key order, and each of its entries stands for one of
/// the objects that it covers.
pub proof fn listed_keys(objects: Seq<StoredView>, prefix: Seq<char>, after: Option<Seq<char>>)
    requires
        in_key_order(objects),
    ensures
        forall|i: int|
            0 <= i < listed(objects, prefix, after).len() ==> stands_for_one(
                objects,
                prefix,
                after,
                #[trigger] listed(objects, prefix, after)[i],
            ),
        forall|i: int, j: int|
            0 <= i < j < listed(objects, prefix, after).len() ==> text_less(
                (#[trigger] listed(objects, prefix, after)[i]).key,
                (#[trigger] listed(objects, prefix, after)[j]).key,
            ),
    decreases objects.len(),
{
    if objects.len() > 0 {
        let shorter = objects.drop_last();
        let before = listed(shorter, prefix, after);
        let all = listed(objects, prefix, after);
        assert(in_key_order(shorter)) by {
            assert forall|i: int, j: int| 0 <= i < j < shorter.len() implies text_less(
                (#[trigger] shorter[i]).key,
                (#[trigger] shorter[j]).key,
            ) by {
                assert(shorter[i] == objects[i] && shorter[j] == objects[j]);
            }
        }
        listed_keys(shorter, prefix, after);
        assert forall|i: int| 0 <= i < all.len() implies stands_for_one(
            objects,
            prefix,
            after,
            #[trigger] all[i],
        ) by {
            if i < before.len() {
                assert(all[i] == before[i]);
                assert(stands_for_one(shorter, prefix, after, before[i]));
                let j = choose|j: int|
                    0 <= j < shorter.len() && is_listed(#[trigger] shorter[j], prefix, after)
                        && before[i] == entry_of(shorter[j]);
                assert(shorter[j] == objects[j]);
                assert(is_listed(objects[j], prefix, after));
            } else {
                assert(is_listed(objects[objects.len() - 1], prefix, after));
            }
        }
        assert forall|i: int, j: int| 0 <= i < j < all.len() implies text_less(
            (#[trigger] all[i]).key,
            (#[trigger] all[j]).key,
        ) by {
            assert(all[i] == before[i]);
            if j < before.len() {
                assert(all[j] == before[j]);
            } else {
                assert(stands_for_one(shorter, prefix, after, before[i]));
                let k = choose|k: int|
                    0 <= k < shorter.len() && is_listed(#[trigger] shorter[k], prefix, after)
                        && before[i] == entry_of(shorter[k]);
                assert(shorter[k] == objects[k]);
                assert(text_less(objects[k].key, objects[objects.len() - 1].key));
            }
        }
    }
}

/// Listing goes on where it stopped: a listing after the `n`-th listed key
/// covers exactly what came after it, so that following the continuations shows
/// every object with the prefix once, in key order.
pub proof fn next_page_continues(
    objects: Seq<StoredView>,
    prefix: Seq<char>,
    after: Option<Seq<char>>,
    n: nat,
)
    requires
        in_key_order(objects),
        0 < n <= listed(objects, prefix, after).len(),
    ensures
        listed(objects, prefix, Some(listed(objects, prefix, after)[n - 1].key)) == listed(
            objects,
            prefix,
            after,
        ).skip(n as int),
{
    listed_keys(objects, prefix, after);
    let all = listed(objects, prefix, after);
    let key = all[n - 1].key;
    assert(stands_for_one(objects, prefix, after, all[n - 1]));
    let k = choose|k: int|
        0 <= k < objects.len() && is_listed(#[trigger] objects[k], prefix, after) && all[n - 1]
            == entry_of(objects[k]);
    if after is Some {
        assert(text_less(after->0, key));
    }
    continues_within(objects, prefix, after, key);
    let count = listed_up_to(objects, prefix, after, key);
    assert(count == n) by {
        listed_up_to_is_rank(objects, prefix, after, key, n);
    }
}

/// The number of listed entries whose key is not after `key`.
spec fn listed_up_to(
    objects: Seq<StoredView>,
    prefix: Seq<char>,
    after: Option<Seq<char>>,
    key: Seq<char>,
) -> nat
    decreases objects.len(),
{
    if objects.len() == 0 {
        0
    } else {
        listed_up_to(objects.drop_last(), prefix, after, key) + if is_listed(
            objects.last(),
            prefix,
            after,
        ) && !text_less(key, objects.last().key) {
            1nat
        } else {
            0nat
        }
    }
}

proof fn continues_within(
    objects: Seq<StoredView>,
    prefix: Seq<char>,
    after: Option<Seq<char>>,
    key: Seq<char>,
)
    requires
        in_key_order(objects),
        after is Some ==> text_less(after->0, key),
    ensures
        listed_up_to(objects, prefix, after, key) <= listed(objects, prefix, after).len(),
        listed(objects, prefix, Some(key)) == listed(objects, prefix, after).skip(
            listed_up_to(objects, prefix, after, key) as int,
        ),
        (exists|j: int| 0 <= j < objects.len() && text_less(key, (#[trigger] objects[j]).key)) || (
        listed_up_to(objects, prefix, after, key) == listed(objects, prefix, after).len()),
    decreases objects.len(),
{
    if objects.len() > 0 {
        let shorter = objects.drop_last();
        let last = objects.last();
        assert forall|i: int, j: int| 0 <= i < j < shorter.len() implies text_less(
            (#[trigger] shorter[i]).key,
            (#[trigger] shorter[j]).key,
        ) by {
            assert(shorter[i] == objects[i] && shorter[j] == objects[j]);
        }
        continues_within(shorter, prefix, after, key);
        let before = listed(shorter, prefix, after);
        let count = listed_up_to(shorter, prefix, after, key);
        let all = listed(objects, prefix, after);
        assert(last == objects[objects.len() - 1]);
        if text_less(key, last.key) {
            if after is Some {
                text_less_transitive(after->0, key, last.key);
            }
            if is_listed(last, prefix, after) {
                assert(all.skip(count as int) =~= before.skip(count as int).push(entry_of(last)));
            }
        } else {
            // No earlier key is after `key` either.
            if exists|j: int| 0 <= j < shorter.len()
                && text_less(key, (#[trigger] shorter[j]).key) {
                let j = choose|j: int|
                    0 <= j < shorter.len() && text_less(key, (#[trigger] shorter[j]).key);
                assert(shorter[j] == objects[j]);
                text_less_transitive(key, objects[j].key, last.key);
            }
            assert(count == before.len());
            if is_listed(last, prefix, after) {
                assert(all.skip(count as int + 1) =~= Seq::<EntryView>::empty());
                assert(before.skip(count as int) =~= Seq::<EntryView>::empty());
            }
        }
    } else {
        assert(listed(objects, prefix, after).skip(0) =~= Seq::<EntryView>::empty());
    }
}

/// The entries up to a listed key are those before it and itself.
proof fn listed_up_to_is_rank(
    objects: Seq<StoredView>,
    prefix: Seq<char>,
    after: Option<Seq<char>>,
    key: Seq<char>,
    n: nat,
)
    requires
        in_key_order(objects),
        after is Some ==> text_less(after->0, key),
        0 < n <= listed(objects, prefix, after).len(),
        listed(objects, prefix, after)[n - 1].key == key,
    ensures
        listed_up_to(objects, prefix, after, key) == n,
{
    listed_keys(objects, prefix, after);
    listed_keys(objects, prefix, Some(key));
    continues_within(objects, prefix, after, key);
    let all = listed(objects, prefix, after);
    let rest = listed(objects, prefix, Some(key));
    let count = listed_up_to(objects, prefix, after, key);
    text_less_strict_total(key, key);
    if count < n {
        // The key itself would be listed after itself.
        assert(rest[n - 1 - count] == all[n - 1]);
        assert(stands_for_one(objects, prefix, Some(key), rest[n - 1 - count]));
        let j = choose|j: int|
            0 <= j < objects.len() && is_listed(#[trigger] objects[j], prefix, Some(key))
                && rest[n - 1 - count] == entry_of(objects[j]);
        assert(text_less(key, objects[j].key));
    }
    if count > n {
        // The entry after the key is after it, yet it is not listed after it.
        assert(text_less(all[n - 1].key, all[n as int].key));
        let next = all[n as int];
        assert(stands_for_one(objects, prefix, after, next));
        let k = choose|k: int|
            0 <= k < objects.len() && is_listed(#[trigger] objects[k], prefix, after) && all[
                n as int
            ] == entry_of(objects[k]);
        assert(is_listed(objects[k], prefix, Some(key)));
        listed_holds(objects, prefix, Some(key), k);
        let i = choose|i: int| 0 <= i < rest.len() && #[trigger] rest[i] == entry_of(objects[k]);
        assert(rest[i] == all[count + i]);
        assert(text_less(all[n as int].key, all[count + i].key) || count + i == n);
        text_less_strict_total(next.key, next.key);
    }
}

/// Every object that a listing covers is listed.
pub proof fn listed_holds(
    objects: Seq<StoredView>,
    prefix: Seq<char>,
    after: Option<Seq<char>>,
    k: int,
)
    requires
        0 <= k < objects.len(),
        is_listed(objects[k], prefix, after),
    ensures
        exists|i: int|
            0 <= i < listed(objects, prefix, after).len() && #[trigger] listed(
                objects,
                prefix,
                after,
            )[i] == entry_of(objects[k]),
    decreases objects.len(),
{
    let shorter = objects.drop_last();
    let before = listed(shorter, prefix, after);
    let all = listed(objects, prefix, after);
    if k < shorter.len() {
        assert(shorter[k] == objects[k]);
        listed_holds(shorter, prefix, after, k);
        let i = choose|i: int| 0 <= i < before.len() && #[trigger] before[i]
            == entry_of(shorter[k]);
        assert(all[i] == before[i]);
    } else {
        assert(all[all.len() - 1] == entry_of(objects[k]));
    }
}

/// An object store in memory. It is bounded: an object larger than the
/// configured limit is rejected.
pub struct InMemoryObjectStore {
    objects: Vec<StoredObject>,
    max_object_bytes: usize,
}

impl InMemoryObjectStore {
    /// The stored objects, in key order.
    pub closed spec fn contents(&self) -> Seq<StoredView> {
        stored_views(self.objects@)
    }

    /// The size limit of an object.
    pub closed spec fn limit(&self) -> usize {
        self.max_object_bytes
    }

    #[verifier::type_invariant]
    spec fn well_formed(self) -> bool {
        in_key_order(stored_views(self.objects@))
    }

    /// Builds an empty store whose objects hold at most `max_object_bytes`.
    pub fn new(max_object_bytes: usize) -> (r: Self)
        ensures
            r.contents().len() == 0,
            in_key_order(r.contents()),
            r.limit() == max_object_bytes,
    {
        InMemoryObjectStore { objects: Vec::new(), max_object_bytes }
    }

    fn version_token(version: u64) -> (r: ObjectVersionToken)
        ensures
            r@ == version_text(version),
    {
        ObjectVersionToken::new(concat2("v", decimal_text(version).as_str()).as_str())
    }

    fn metadata_of(stored: &StoredObject) -> (r: ObjectMetadata)
        ensures
            r.size_view() == stored@.bytes.len(),
            r.token_view() == Some(version_text(stored@.version)),
    {
        ObjectMetadata::new(
            stored.bytes.len() as u64,
            Some(Self::version_token(stored.version)),
        )
    }

    /// The place of a key.
    fn find(&self, id: &ObjectIdentity) -> (r: usize)
        ensures
            r == rank(self.contents(), id@),
            r <= self.objects@.len(),
    {
        proof {
            use_type_invariant(self);
        }
        let mut i: usize = 0;
        let ghost objects = self.contents();
        while i < self.objects.len() && comes_before(self.objects[i].id.as_str(), id.as_str())
            invariant
                i <= self.objects@.len(),
                objects == stored_views(self.objects@),
                forall|j: int| 0 <= j < i ==> text_less((#[trigger] objects[j]).key, id@),
            decreases self.objects.len() - i,
        {
            assert(objects[i as int] == self.objects@[i as int]@);
            i = i + 1;
        }
        proof {
            if i < objects.len() {
                assert(objects[i as int] == self.objects@[i as int]@);
            }
            rank_is_unique(objects, id@, i as nat);
        }
        i
    }

    /// Fetches an object of at most `max_bytes`. A missing object is an
    /// unsupported capability, and a larger one is rejected before it is copied.
    pub fn get(&self, id: &ObjectIdentity, max_bytes: usize) -> (r: Result<
        (Vec<u8>, ObjectMetadata),
        ObjectStoreError,
    >)
        ensures
            match lookup(self.contents(), id@) {
                None => r == Err::<(Vec<u8>, ObjectMetadata), ObjectStoreError>(
                    ObjectStoreError { category: FailureCategory::UnsupportedCapability },
                ),
                Some(object) => if object.bytes.len() > max_bytes {
                    r == Err::<(Vec<u8>, ObjectMetadata), ObjectStoreError>(
                        ObjectStoreError { category: FailureCategory::Invariant },
                    )
                } else {
                    &&& r is Ok
                    &&& r->Ok_0.0@ == object.bytes
                    &&& r->Ok_0.1.size_view() == object.bytes.len()
                    &&& r->Ok_0.1.token_view() == Some(version_text(object.version))
                },
            },
    {
        let i: usize = self.find(id);
        if i >= self.objects.len() || !same_text(self.objects[i].id.as_str(), id.as_str()) {
            return Err(ObjectStoreError::with_category(FailureCategory::UnsupportedCapability));
        }
        let stored: &StoredObject = &self.objects[i];
        assert(self.contents()[i as int] == stored@);
        if stored.bytes.len() > max_bytes {
            return Err(ObjectStoreError::with_category(FailureCategory::Invariant));
        }
        Ok((slice_to_vec(stored.bytes.as_slice()), Self::metadata_of(stored)))
    }

    /// Stores a whole object, replacing the one with its key. Versions of a key
    /// count up from one.
    pub fn put(&mut self, id: &ObjectIdentity, bytes: &[u8]) -> (r: Result<
        ObjectMetadata,
        ObjectStoreError,
    >)
        requires
            bytes@.len() <= old(self).limit() ==> current_version(old(self).contents(), id@)
                < u64::MAX,
        ensures
            in_key_order(old(self).contents()),
            in_key_order(final(self).contents()),
            final(self).limit() == old(self).limit(),
            if bytes@.len() > old(self).limit() {
                &&& final(self).contents() == old(self).contents()
                &&& r == Err::<ObjectMetadata, ObjectStoreError>(
                    ObjectStoreError { category: FailureCategory::Invariant },
                )
            } else {
                let version = (current_version(old(self).contents(), id@) + 1) as u64;
                let object = StoredView { key: id@, bytes: bytes@, version };
                &&& final(self).contents() == after_put(
                    old(self).contents(),
                    PutView { key: id@, bytes: bytes@ },
                )
                &&& forall|key: Seq<char>| #[trigger]
                    lookup(final(self).contents(), key) == (if key == id@ {
                        Some(object)
                    } else {
                        lookup(old(self).contents(), key)
                    })
                &&& r is Ok
                &&& r->Ok_0.size_view() == bytes@.len()
                &&& r->Ok_0.token_view() == Some(version_text(version))
                &&& forall|earlier: u64|
                    earlier < version ==> r->Ok_0.token_view() != Some(
                        #[trigger] version_text(earlier),
                    )
            },
    {
        proof {
            use_type_invariant(&*self);
        }
        if bytes.len() > self.max_object_bytes {
            return Err(ObjectStoreError::with_category(FailureCategory::Invariant));
        }
        let i: usize = self.find(id);
        let mut version: u64 = 1;
        let mut replaces: bool = false;
        if i < self.objects.len() && same_text(self.objects[i].id.as_str(), id.as_str()) {
            assert(self.contents()[i as int] == self.objects@[i as int]@);
            version = self.objects[i].version + 1;
            replaces = true;
        }
        proof {
            if i < self.objects@.len() {
                assert(self.contents()[i as int] == self.objects@[i as int]@);
            }
        }
        let object = StoredObject { id: id.clone(), bytes: slice_to_vec(bytes), version };
        let metadata = Self::metadata_of(&object);
        let ghost before = self.objects@;
        let ghost view = object@;
        let mut objects: Vec<StoredObject> = Vec::new();
        std::mem::swap(&mut objects, &mut self.objects);
        if replaces {
            objects.set(i, object);
        } else {
            objects.insert(i, object);
        }
        proof {
            storing_keeps_order(stored_views(before), view);
            assert(stored_views(objects@) =~= stored(stored_views(before), view));
            assert forall|key: Seq<char>| #[trigger]
                lookup(stored_views(objects@), key) == (if key == id@ {
                    Some(view)
                } else {
                    lookup(stored_views(before), key)
                }) by {
                get_gives_back_what_was_put(stored_views(before), view, key);
            }
        }
        proof {
            assert forall|earlier: u64| earlier < version implies #[trigger] version_text(earlier)
                != version_text(version) by {
                versions_have_distinct_tokens(earlier, version);
            }
        }
        self.objects = objects;
        Ok(metadata)
    }

    /// Reports an object's metadata.
    pub fn stat(&self, id: &ObjectIdentity) -> (r: Result<ObjectMetadata, ObjectStoreError>)
        ensures
            match lookup(self.contents(), id@) {
                None => r == Err::<ObjectMetadata, ObjectStoreError>(
                    ObjectStoreError { category: FailureCategory::UnsupportedCapability },
                ),
                Some(object) => {
                    &&& r is Ok
                    &&& r->Ok_0.size_view() == object.bytes.len()
                    &&& r->Ok_0.token_view() == Some(version_text(object.version))
                },
            },
    {
        let i: usize = self.find(id);
        if i >= self.objects.len() || !same_text(self.objects[i].id.as_str(), id.as_str()) {
            return Err(ObjectStoreError::with_category(FailureCategory::UnsupportedCapability));
        }
        assert(self.contents()[i as int] == self.objects@[i as int]@);
        Ok(Self::metadata_of(&self.objects[i]))
    }

    /// Lists up to `page_size` objects with a prefix, in key order, after the
    /// page that gave the continuation. The page's own continuation is the last
    /// key it returned, if there is one and more objects remain.
    pub fn list(
        &self,
        prefix: &str,
        page_size: usize,
        continuation: Option<&ObjectListContinuation>,
    ) -> (r: Result<ObjectListPage, ObjectStoreError>)
        ensures
            r is Ok,
            in_key_order(self.contents()),
            ({
                let after = match continuation {
                    Some(continuation) => Some(continuation@),
                    None => None,
                };
                let all = listed(self.contents(), prefix@, after);
                if all.len() > page_size {
                    &&& r->Ok_0.entry_seq() == all.take(page_size as int)
                    &&& r->Ok_0.next_after() == (if page_size > 0 {
                        Some(all[page_size - 1].key)
                    } else {
                        None
                    })
                } else {
                    &&& r->Ok_0.entry_seq() == all
                    &&& r->Ok_0.next_after() is None
                }
            }),
    {
        proof {
            use_type_invariant(self);
        }
        let ghost objects = self.contents();
        let ghost after = match continuation {
            Some(continuation) => Some(continuation@),
            None => None,
        };
        let mut entries: Vec<(ObjectIdentity, ObjectMetadata)> = Vec::new();
        let mut overflow: bool = false;
        let mut i: usize = 0;
        assert(entry_views(entries@) =~= listed(objects.take(0), prefix@, after));
        while i < self.objects.len()
            invariant
                i <= self.objects@.len(),
                objects == stored_views(self.objects@),
                after == (match continuation {
                    Some(continuation) => Some(continuation@),
                    None => None,
                }),
                entries@.len() <= page_size,
                overflow == (listed(objects.take(i as int), prefix@, after).len() > page_size),
                overflow ==> entries@.len() == page_size && entry_views(entries@) == listed(
                    objects.take(i as int),
                    prefix@,
                    after,
                ).take(page_size as int),
                !overflow ==> entry_views(entries@) == listed(
                    objects.take(i as int),
                    prefix@,
                    after,
                ),
            decreases self.objects.len() - i,
        {
            let stored: &StoredObject = &self.objects[i];
            let ghost shorter = listed(objects.take(i as int), prefix@, after);
            let ghost longer = listed(objects.take(i + 1), prefix@, after);
            let ghost kept = entries@;
            proof {
                assert(objects.take(i + 1).drop_last() =~= objects.take(i as int));
                assert(objects.take(i + 1).last() == stored@);
            }
            let covered: bool = starts_with(stored.id.as_str(), prefix) && match continuation {
                Some(token) => comes_before(token.last_key.as_str(), stored.id.as_str()),
                None => true,
            };
            assert(covered == is_listed(stored@, prefix@, after));
            if covered {
                if entries.len() == page_size {
                    overflow = true;
                    assert(longer.take(page_size as int) =~= entry_views(entries@));
                } else {
                    entries.push((stored.id.clone(), Self::metadata_of(stored)));
                    assert(entry_views(entries@) =~= entry_views(kept).push(entry_of(stored@)));
                }
            }
            i = i + 1;
        }
        assert(objects.take(i as int) =~= objects);
        let mut next: Option<ObjectListContinuation> = None;
        if overflow && entries.len() > 0 {
            let last: &str = entries[entries.len() - 1].0.as_str();
            next = Some(ObjectListContinuation { last_key: copy_text(last) });
            assert(entry_views(entries@)[page_size - 1].key == last@);
        }
        Ok(ObjectListPage { entries, continuation: next })
    }
}

/// A fetched object is what was last put under its key, however many others were
/// put in between; an object larger than asked for is refused, and a missing one
/// is not supported.
pub proof fn a_put_object_is_fetched(
    store: &mut InMemoryObjectStore,
    id: &ObjectIdentity,
    bytes: &[u8],
    put: Result<ObjectMetadata, ObjectStoreError>,
    after: &InMemoryObjectStore,
    max_bytes: usize,
    got: Result<(Vec<u8>, ObjectMetadata), ObjectStoreError>,
    stated: Result<ObjectMetadata, ObjectStoreError>,
)
    requires
        call_ensures(InMemoryObjectStore::put, (store, id, bytes), put),
        *after == *final(store),
        call_ensures(InMemoryObjectStore::get, (after, id, max_bytes), got),
        call_ensures(InMemoryObjectStore::stat, (after, id), stated),
    ensures
        put is Ok <==> bytes@.len() <= old(store).limit(),
        put is Err ==> final(store).contents() == old(store).contents() && put->Err_0.category
            == FailureCategory::Invariant,
        put is Ok ==> (got is Ok <==> bytes@.len() <= max_bytes),
        put is Ok && got is Err ==> got->Err_0.category == FailureCategory::Invariant,
        put is Ok && got is Ok ==> got->Ok_0.0@ == bytes@ && got->Ok_0.1.token_view()
            == put->Ok_0.token_view() && got->Ok_0.1.size_view() == bytes@.len(),
        put is Ok ==> stated is Ok && stated->Ok_0.token_view() == put->Ok_0.token_view()
            && stated->Ok_0.size_view() == bytes@.len() && put->Ok_0.size_view() == bytes@.len(),
{
    if put is Ok {
        assert(lookup(final(store).contents(), id@) is Some);
    }
}

/// Putting one object leaves every other one as it was.
pub proof fn a_put_leaves_the_others_alone(
    store: &mut InMemoryObjectStore,
    id: &ObjectIdentity,
    bytes: &[u8],
    put: Result<ObjectMetadata, ObjectStoreError>,
    key: Seq<char>,
)
    requires
        call_ensures(InMemoryObjectStore::put, (store, id, bytes), put),
        key != id@,
    ensures
        lookup(final(store).contents(), key) == lookup(old(store).contents(), key),
        final(store).limit() == old(store).limit(),
{
}

/// A missing object can neither be fetched nor described, which is told from an
/// object that is too large.
pub proof fn a_missing_object_is_not_supported(
    store: &InMemoryObjectStore,
    id: &ObjectIdentity,
    max_bytes: usize,
    got: Result<(Vec<u8>, ObjectMetadata), ObjectStoreError>,
    stated: Result<ObjectMetadata, ObjectStoreError>,
)
    requires
        call_ensures(InMemoryObjectStore::get, (store, id, max_bytes), got),
        call_ensures(InMemoryObjectStore::stat, (store, id), stated),
        forall|i: int| 0 <= i < store.contents().len() ==> (#[trigger] store.contents()[i]).key
            != id@,
    ensures
        got is Err && got->Err_0.category == FailureCategory::UnsupportedCapability,
        stated is Err && stated->Err_0.category == FailureCategory::UnsupportedCapability,
{
}

/// A key's first version is the first one, its next put counts one up, and its
/// token is a `v` before the number.
pub proof fn versions_of_a_key_count_up(
    store: &mut InMemoryObjectStore,
    id: &ObjectIdentity,
    bytes: &[u8],
    put: Result<ObjectMetadata, ObjectStoreError>,
)
    requires
        call_ensures(InMemoryObjectStore::put, (store, id, bytes), put),
        bytes@.len() <= old(store).limit(),
        current_version(old(store).contents(), id@) < u64::MAX,
    ensures
        lookup(old(store).contents(), id@) is None ==> current_version(final(store).contents(), id@)
            == 1,
        lookup(old(store).contents(), id@) is Some ==> current_version(final(store).contents(), id@)
            == lookup(old(store).contents(), id@)->0.version + 1,
        put is Ok && put->Ok_0.token_view() == Some(
            seq!['v'] + decimal(current_version(final(store).contents(), id@) as nat),
        ),
{
    reveal_strlit("v");
    assert("v"@ =~= seq!['v']);
}

/// A listing shows the objects whose keys start with the prefix and come after the
/// continuation, each once, in key order, with its size and version; and no more
/// than a page of them.
pub proof fn a_page_lists_what_it_covers(
    store: &InMemoryObjectStore,
    prefix: &str,
    page_size: usize,
    r: Result<ObjectListPage, ObjectStoreError>,
    continuation: Option<&ObjectListContinuation>,
    i: int,
)
    requires
        call_ensures(InMemoryObjectStore::list, (store, prefix, page_size, continuation), r),
    ensures
        r is Ok,
        r->Ok_0.entry_seq().len() <= page_size,
        0 <= i < r->Ok_0.entry_seq().len() ==> {
            let entry = r->Ok_0.entry_seq()[i];
            &&& prefix@.is_prefix_of(entry.key)
            &&& continuation matches Some(token) ==> text_less(token@, entry.key)
            &&& lookup(store.contents(), entry.key) matches Some(object) && object.bytes.len()
                == entry.size && entry.token == Some(version_text(object.version))
        },
        0 < i < r->Ok_0.entry_seq().len() ==> text_less(
            r->Ok_0.entry_seq()[i - 1].key,
            r->Ok_0.entry_seq()[i].key,
        ),
        r->Ok_0.next_after() is Some ==> r->Ok_0.entry_seq().len() == page_size && page_size > 0
            && r->Ok_0.next_after() == Some(r->Ok_0.entry_seq().last().key),
{
    let objects = store.contents();
    let after = match continuation {
        Some(token) => Some(token@),
        None => None,
    };
    let all = listed(objects, prefix@, after);
    listed_keys(objects, prefix@, after);
    if 0 <= i < r->Ok_0.entry_seq().len() {
        assert(r->Ok_0.entry_seq()[i] == all[i]);
        assert(stands_for_one(objects, prefix@, after, all[i]));
        let j = choose|j: int|
            0 <= j < objects.len() && is_listed(#[trigger] objects[j], prefix@, after) && all[i]
                == entry_of(objects[j]);
        lookup_finds(objects, j);
        if i > 0 {
            assert(r->Ok_0.entry_seq()[i - 1] == all[i - 1]);
        }
    }
}

/// A page without a continuation is the last one: every covered object is on it.
pub proof fn the_last_page_is_complete(
    store: &InMemoryObjectStore,
    prefix: &str,
    page_size: usize,
    r: Result<ObjectListPage, ObjectStoreError>,
    continuation: Option<&ObjectListContinuation>,
    i: int,
)
    requires
        call_ensures(InMemoryObjectStore::list, (store, prefix, page_size, continuation), r),
        r is Ok && r->Ok_0.next_after() is None,
        page_size > 0,
        0 <= i < store.contents().len(),
        prefix@.is_prefix_of(store.contents()[i].key),
        continuation matches Some(token) ==> text_less(token@, store.contents()[i].key),
    ensures
        exists|j: int|
            0 <= j < r->Ok_0.entry_seq().len() && (#[trigger] r->Ok_0.entry_seq()[j]).key
                == store.contents()[i].key,
{
    let objects = store.contents();
    let after = match continuation {
        Some(token) => Some(token@),
        None => None,
    };
    let all = listed(objects, prefix@, after);
    assert(r->Ok_0.entry_seq() == all);
    listed_holds(objects, prefix@, after, i);
    assert(all.contains(entry_of(objects[i])));
}

/// A new store has no objects and keeps its limit.
pub proof fn a_new_store_is_empty(
    limit: usize,
    store: InMemoryObjectStore,
    id: &ObjectIdentity,
    stated: Result<ObjectMetadata, ObjectStoreError>,
)
    requires
        call_ensures(InMemoryObjectStore::new, (limit,), store),
        call_ensures(InMemoryObjectStore::stat, (&store, id), stated),
    ensures
        store.limit() == limit,
        stated is Err,
{
}

} // verus!
