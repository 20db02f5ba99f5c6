//! The tagged container: one resizable buffer of machine-word slots, a
//! capacity account, and a variant tag that says how each slot is read —
//! as a raw word, or as an owned geolocation record.

use vstd::prelude::*;
use vstd::string::StringExecFns;
use crate::decimal::append_dec;
use crate::decimal::join_dec;
use crate::decimal::lemma_join_dec_step;
use crate::location::Location;
use crate::sorting::is_sorted;
use crate::sorting::sort_words;

verus! {

/// How the container's slots are interpreted.
#[derive(Clone, Copy, PartialEq, Eq, Structural)]
pub enum Variant {
    /// Slots are raw machine words (IDs, opaque values).
    Generic,
    /// Slots are owned geolocation records; a slot may also be the absent
    /// placeholder (reserved but unfilled).
    OwnedRecords,
}

enum Storage {
    Words(Vec<u64>),
    Records(Vec<Option<Location>>),
}

/// The tagged dynamic array. It is an owned value: releasing it is consuming
/// it, so a released container cannot be touched again — the static form of
/// the validity check that a handle-based design does at run time.
#[allow(non_camel_case_types)]
pub struct dc_array_t {
    storage: Storage,
    allocated: usize,
}

/// The word a record slot reads as: the absent placeholder reads as 0, a
/// present record as 1 (any nonzero word marks presence; a safe container
/// has no slot addresses to expose).
pub open spec fn slot_word(s: Option<Location>) -> u64 {
    match s {
        Option::None => 0u64,
        Option::Some(_) => 1u64,
    }
}

/// The capacity after one geometric growth step: at least doubled plus a
/// fixed increment, saturating at the machine limit.
pub open spec fn grown_capacity(c: nat) -> nat {
    if 2 * c + 10 <= usize::MAX as nat {
        2 * c + 10
    } else {
        usize::MAX as nat
    }
}

/// The capacity after one append: grown exactly when the buffer was full.
pub open spec fn appended_capacity(a: dc_array_t) -> nat {
    if a.len() == a.capacity() {
        grown_capacity(a.capacity())
    } else {
        a.capacity()
    }
}

impl dc_array_t {
    /// The container's variant tag, fixed at construction.
    pub closed spec fn variant(&self) -> Variant {
        match self.storage {
            Storage::Words(_) => Variant::Generic,
            Storage::Records(_) => Variant::OwnedRecords,
        }
    }

    /// The record slots; the generic variant has none.
    pub closed spec fn slots(&self) -> Seq<Option<Location>> {
        match self.storage {
            Storage::Words(_) => Seq::empty(),
            Storage::Records(v) => v@,
        }
    }

    /// The uniform word view of the slots: a generic slot is its own word,
    /// a record slot reads as its `slot_word`.
    pub closed spec fn words(&self) -> Seq<u64> {
        match self.storage {
            Storage::Words(v) => v@,
            Storage::Records(v) => v@.map_values(|s: Option<Location>| slot_word(s)),
        }
    }

    /// The logical length: how many slots hold data.
    pub open spec fn len(&self) -> nat {
        self.words().len()
    }

    /// The slots the buffer accounts for. It never falls below the length.
    pub closed spec fn capacity(&self) -> nat {
        self.allocated as nat
    }

    /// Well-formedness: the capacity account covers every held slot.
    /// Constructors establish it and every operation preserves it.
    pub open spec fn wf(&self) -> bool {
        self.len() <= self.capacity()
    }

    /// Creates an unallocated generic container: no slots, no capacity yet.
    pub fn new() -> (r: Self)
        ensures
            r.variant() == Variant::Generic,
            r.len() == 0,
            r.capacity() == 0,
            r.wf(),
    {
        dc_array_t { storage: Storage::Words(Vec::new()), allocated: 0 }
    }
}

/// Creates an empty generic container with the requested initial capacity,
/// clamped to at least one slot.
pub fn dc_array_new(initsize: usize) -> (r: dc_array_t)
    ensures
        r.variant() == Variant::Generic,
        r.len() == 0,
        r.capacity() == if initsize < 1 { 1nat } else { initsize as nat },
        r.wf(),
{
    dc_array_new_typed(Variant::Generic, initsize)
}

/// Creates an empty container of the given variant with the requested
/// initial capacity, clamped to at least one slot.
pub fn dc_array_new_typed(variant: Variant, initsize: usize) -> (r: dc_array_t)
    ensures
        r.variant() == variant,
        r.len() == 0,
        r.capacity() == if initsize < 1 { 1nat } else { initsize as nat },
        r.wf(),
{
    let cap: usize = if initsize < 1 { 1 } else { initsize };
    let storage = match variant {
        Variant::Generic => Storage::Words(Vec::with_capacity(cap)),
        Variant::OwnedRecords => Storage::Records(Vec::with_capacity(cap)),
    };
    dc_array_t { storage, allocated: cap }
}

/// The logical length of the container.
pub fn dc_array_get_cnt(array: &dc_array_t) -> (r: usize)
    ensures
        r == array.len(),
{
    match &array.storage {
        Storage::Words(v) => v.len(),
        Storage::Records(v) => v.len(),
    }
}

/// The raw word at `index`, or the neutral 0 when the index is out of
/// range — out-of-range reads are never an error here.
pub fn dc_array_get_uint(array: &dc_array_t, index: usize) -> (r: u64)
    ensures
        r == if index < array.len() {
            array.words()[index as int]
        } else {
            0u64
        },
{
    match &array.storage {
        Storage::Words(v) => {
            if index < v.len() {
                v[index]
            } else {
                0
            }
        }
        Storage::Records(v) => {
            if index < v.len() {
                if v[index].is_some() {
                    1
                } else {
                    0
                }
            } else {
                0
            }
        }
    }
}

/// Appends a raw word, growing the buffer account first when it is full.
/// In the owned-records variant only the zero word — the absent
/// placeholder — can arrive this way: a raw nonzero word cannot denote an
/// owned record, so such a call leaves the container unchanged.
pub fn dc_array_add_uint(array: &mut dc_array_t, item: u64)
    requires
        old(array).wf(),
    ensures
        final(array).wf(),
        final(array).variant() == old(array).variant(),
        old(array).variant() == Variant::OwnedRecords && item != 0 ==> *final(array) == *old(
            array,
        ),
        old(array).variant() == Variant::Generic ==> {
            &&& final(array).words() == old(array).words().push(item)
            &&& final(array).slots() == old(array).slots()
            &&& final(array).capacity() == appended_capacity(*old(array))
        },
        old(array).variant() == Variant::OwnedRecords && item == 0 ==> {
            &&& final(array).slots() == old(array).slots().push(None)
            &&& final(array).words() == old(array).words().push(0u64)
            &&& final(array).capacity() == appended_capacity(*old(array))
        },
{
    let is_records: bool = match &array.storage {
        Storage::Words(_) => false,
        Storage::Records(_) => true,
    };
    if is_records && item != 0 {
        return ;
    }
    let count: usize = match &array.storage {
        Storage::Words(v) => v.len(),
        Storage::Records(v) => v.len(),
    };
    if count == array.allocated {
        let newsize: usize = if array.allocated <= (usize::MAX - 10) / 2 {
            array.allocated * 2 + 10
        } else {
            usize::MAX
        };
        array.allocated = newsize;
    }
    match &mut array.storage {
        Storage::Words(v) => {
            v.push(item);
            proof {
                // the buffer's length fits a machine word, which settles the
                // saturated-growth edge of the capacity account
                assert(v.len() == v@.len());
            }
        }
        Storage::Records(v) => {
            v.push(None);
            proof {
                assert(v.len() == v@.len());
            }
        }
    }
    proof {
        if old(array).variant() == Variant::OwnedRecords {
            assert(array.words() =~= old(array).words().push(0u64));
        }
    }
}

/// Appends an identifier, widening it to a word.
pub fn dc_array_add_id(array: &mut dc_array_t, item: u32)
    requires
        old(array).wf(),
    ensures
        final(array).wf(),
        final(array).variant() == old(array).variant(),
        old(array).variant() == Variant::OwnedRecords && item != 0 ==> *final(array) == *old(
            array,
        ),
        old(array).variant() == Variant::Generic ==> {
            &&& final(array).words() == old(array).words().push(item as u64)
            &&& final(array).slots() == old(array).slots()
            &&& final(array).capacity() == appended_capacity(*old(array))
        },
        old(array).variant() == Variant::OwnedRecords && item == 0 ==> {
            &&& final(array).slots() == old(array).slots().push(None)
            &&& final(array).words() == old(array).words().push(0u64)
            &&& final(array).capacity() == appended_capacity(*old(array))
        },
{
    dc_array_add_uint(array, item as u64);
}

/// Appends a record slot — an owned record, or the absent placeholder.
/// An owned record cannot live among the raw words of the generic variant,
/// so there the call leaves the container unchanged.
pub fn dc_array_add_ptr(array: &mut dc_array_t, item: Option<Location>)
    requires
        old(array).wf(),
    ensures
        final(array).wf(),
        final(array).variant() == old(array).variant(),
        old(array).variant() == Variant::Generic ==> *final(array) == *old(array),
        old(array).variant() == Variant::OwnedRecords ==> {
            &&& final(array).slots() == old(array).slots().push(item)
            &&& final(array).words() == old(array).words().push(slot_word(item))
            &&& final(array).capacity() == appended_capacity(*old(array))
        },
{
    let count: usize = match &array.storage {
        Storage::Words(_) => {
            return ;
        }
        Storage::Records(v) => v.len(),
    };
    if count == array.allocated {
        let newsize: usize = if array.allocated <= (usize::MAX - 10) / 2 {
            array.allocated * 2 + 10
        } else {
            usize::MAX
        };
        array.allocated = newsize;
    }
    match &mut array.storage {
        Storage::Words(_) => {}
        Storage::Records(v) => {
            v.push(item);
            proof {
                // the buffer's length fits a machine word, which settles the
                // saturated-growth edge of the capacity account
                assert(v.len() == v@.len());
            }
        }
    }
    proof {
        assert(array.words() =~= old(array).words().push(slot_word(item)));
    }
}

/// The record at `index`, where one is present: only the owned-records
/// variant has records, an out-of-range index has none, and the absent
/// placeholder holds none.
pub open spec fn spec_record_at(a: dc_array_t, i: int) -> Option<Location> {
    if a.variant() == Variant::OwnedRecords && 0 <= i < a.len() {
        a.slots()[i]
    } else {
        None
    }
}

/// The low identifier half of a word.
pub open spec fn low32(w: u64) -> u32 {
    (w % 0x1_0000_0000) as u32
}

/// A borrow of the record at `index`, or nothing for the generic variant,
/// an out-of-range index, or an absent slot.
pub fn dc_array_get_ptr<'a>(array: &'a dc_array_t, index: usize) -> (r: Option<&'a Location>)
    ensures
        match r {
            Some(loc) => spec_record_at(*array, index as int) == Some(*loc),
            None => spec_record_at(*array, index as int) is None,
        },
{
    match &array.storage {
        Storage::Words(_) => None,
        Storage::Records(v) => {
            if index < v.len() {
                match &v[index] {
                    Some(loc) => Some(loc),
                    None => None,
                }
            } else {
                None
            }
        }
    }
}

/// The identifier at `index`: for the generic variant the stored word
/// truncated to identifier width, for the owned-records variant the
/// record's location id — and the neutral 0 out of range or on an absent
/// slot.
pub fn dc_array_get_id(array: &dc_array_t, index: usize) -> (r: u32)
    ensures
        r == if index < array.len() {
            if array.variant() == Variant::OwnedRecords {
                match array.slots()[index as int] {
                    Some(loc) => loc.location_id,
                    None => 0u32,
                }
            } else {
                low32(array.words()[index as int])
            }
        } else {
            0u32
        },
{
    match &array.storage {
        Storage::Words(v) => {
            if index < v.len() {
                (v[index] % 0x1_0000_0000) as u32
            } else {
                0
            }
        }
        Storage::Records(v) => {
            if index < v.len() {
                match &v[index] {
                    Some(loc) => loc.location_id,
                    None => 0,
                }
            } else {
                0
            }
        }
    }
}

/// The latitude bit pattern of the record at `index`, or the neutral 0
/// (the encoding of 0.0) when no record is there.
pub fn dc_array_get_latitude(array: &dc_array_t, index: usize) -> (r: u64)
    ensures
        r == (match spec_record_at(*array, index as int) {
            Some(loc) => loc.latitude_bits,
            None => 0u64,
        }),
{
    match dc_array_get_ptr(array, index) {
        Some(loc) => loc.latitude_bits,
        None => 0,
    }
}

/// The longitude bit pattern of the record at `index`, or the neutral 0.
pub fn dc_array_get_longitude(array: &dc_array_t, index: usize) -> (r: u64)
    ensures
        r == (match spec_record_at(*array, index as int) {
            Some(loc) => loc.longitude_bits,
            None => 0u64,
        }),
{
    match dc_array_get_ptr(array, index) {
        Some(loc) => loc.longitude_bits,
        None => 0,
    }
}

/// The accuracy bit pattern of the record at `index`, or the neutral 0.
pub fn dc_array_get_accuracy(array: &dc_array_t, index: usize) -> (r: u64)
    ensures
        r == (match spec_record_at(*array, index as int) {
            Some(loc) => loc.accuracy_bits,
            None => 0u64,
        }),
{
    match dc_array_get_ptr(array, index) {
        Some(loc) => loc.accuracy_bits,
        None => 0,
    }
}

/// The timestamp of the record at `index`, or the neutral 0.
pub fn dc_array_get_timestamp(array: &dc_array_t, index: usize) -> (r: i64)
    ensures
        r == (match spec_record_at(*array, index as int) {
            Some(loc) => loc.timestamp,
            None => 0i64,
        }),
{
    match dc_array_get_ptr(array, index) {
        Some(loc) => loc.timestamp,
        None => 0,
    }
}

/// The owning chat id of the record at `index`, or the neutral 0.
pub fn dc_array_get_chat_id(array: &dc_array_t, index: usize) -> (r: u32)
    ensures
        r == (match spec_record_at(*array, index as int) {
            Some(loc) => loc.chat_id,
            None => 0u32,
        }),
{
    match dc_array_get_ptr(array, index) {
        Some(loc) => loc.chat_id,
        None => 0,
    }
}

/// The reporting contact id of the record at `index`, or the neutral 0.
pub fn dc_array_get_contact_id(array: &dc_array_t, index: usize) -> (r: u32)
    ensures
        r == (match spec_record_at(*array, index as int) {
            Some(loc) => loc.contact_id,
            None => 0u32,
        }),
{
    match dc_array_get_ptr(array, index) {
        Some(loc) => loc.contact_id,
        None => 0,
    }
}

/// The associated message id of the record at `index`, or the neutral 0.
pub fn dc_array_get_msg_id(array: &dc_array_t, index: usize) -> (r: u32)
    ensures
        r == (match spec_record_at(*array, index as int) {
            Some(loc) => loc.msg_id,
            None => 0u32,
        }),
{
    match dc_array_get_ptr(array, index) {
        Some(loc) => loc.msg_id,
        None => 0,
    }
}

/// A fresh copy of the textual marker of the record at `index`, or nothing
/// when no record or no marker is there.
pub fn dc_array_get_marker(array: &dc_array_t, index: usize) -> (r: Option<String>)
    ensures
        r == (match spec_record_at(*array, index as int) {
            Some(loc) => loc.marker,
            None => None::<String>,
        }),
{
    match dc_array_get_ptr(array, index) {
        Some(loc) => match &loc.marker {
            Some(m) => Some(m.clone()),
            None => None,
        },
        None => None,
    }
}

/// The independence flag of the record at `index` as an integer — 1 when
/// the location was reported independently of the user's track — or the
/// neutral 0 when no record is there.
pub fn dc_array_is_independent(array: &dc_array_t, index: usize) -> (r: i32)
    ensures
        r == (match spec_record_at(*array, index as int) {
            Some(loc) => if loc.independent {
                1i32
            } else {
                0i32
            },
            None => 0i32,
        }),
{
    match dc_array_get_ptr(array, index) {
        Some(loc) => {
            if loc.independent {
                1
            } else {
                0
            }
        }
        None => 0,
    }
}

/// A linear scan for the first slot whose word equals `needle`: returns
/// whether one was found and, if so, the smallest such index (0 otherwise).
pub fn dc_array_search_id(array: &dc_array_t, needle: u32) -> (r: (bool, usize))
    ensures
        r.0 == array.words().contains(needle as u64),
        r.0 ==> r.1 < array.len() && array.words()[r.1 as int] == needle as u64 && (forall|k: int|
            0 <= k < r.1 ==> array.words()[k] != needle as u64),
        !r.0 ==> r.1 == 0,
{
    let cnt = dc_array_get_cnt(array);
    let mut i: usize = 0;
    while i < cnt
        invariant
            i <= cnt,
            cnt == array.len(),
            forall|k: int| 0 <= k < i ==> array.words()[k] != needle as u64,
        decreases cnt - i,
    {
        let w = dc_array_get_uint(array, i);
        if w == needle as u64 {
            return (true, i);
        }
        i += 1;
    }
    proof {
        assert(!array.words().contains(needle as u64));
    }
    (false, 0)
}

/// A read-only view of the backing word buffer. Only the generic variant
/// has one; the owned-records variant holds records, not plain words.
pub fn dc_array_get_raw<'a>(array: &'a dc_array_t) -> (r: Option<&'a Vec<u64>>)
    ensures
        match r {
            Some(v) => array.variant() == Variant::Generic && v@ == array.words(),
            None => array.variant() == Variant::OwnedRecords,
        },
{
    match &array.storage {
        Storage::Words(v) => Some(v),
        Storage::Records(_) => None,
    }
}

/// Resets the logical length to zero without shrinking the capacity
/// account — the cheap logical reset. In this owning container the record
/// slots that are cut off are dropped with the reset.
pub fn dc_array_empty(array: &mut dc_array_t)
    ensures
        final(array).len() == 0,
        final(array).capacity() == old(array).capacity(),
        final(array).variant() == old(array).variant(),
        final(array).wf(),
{
    match &mut array.storage {
        Storage::Words(v) => v.clear(),
        Storage::Records(v) => v.clear(),
    }
}

fn zero_words(v: &mut Vec<u64>)
    ensures
        final(v)@.len() == old(v)@.len(),
        forall|k: int| 0 <= k < final(v)@.len() ==> final(v)@[k] == 0u64,
{
    let n = v.len();
    let mut i: usize = 0;
    while i < n
        invariant
            i <= n,
            n == v@.len(),
            v@.len() == old(v)@.len(),
            forall|k: int| 0 <= k < i ==> v@[k] == 0u64,
        decreases n - i,
    {
        v[i] = 0;
        i += 1;
    }
}

fn clear_slots(v: &mut Vec<Option<Location>>)
    ensures
        final(v)@.len() == old(v)@.len(),
        forall|k: int| 0 <= k < final(v)@.len() ==> final(v)@[k] is None,
{
    let n = v.len();
    let mut i: usize = 0;
    while i < n
        invariant
            i <= n,
            n == v@.len(),
            v@.len() == old(v)@.len(),
            forall|k: int| 0 <= k < i ==> v@[k] is None,
        decreases n - i,
    {
        v[i] = None;
        i += 1;
    }
}

/// Clears every slot in place, keeping the length and the capacity
/// account: each owned record is released and its slot becomes the absent
/// placeholder; each raw word becomes 0. Idempotent per slot — a second
/// pass finds only cleared slots.
pub fn dc_array_free_ptr(array: &mut dc_array_t)
    ensures
        final(array).len() == old(array).len(),
        final(array).capacity() == old(array).capacity(),
        final(array).variant() == old(array).variant(),
        forall|k: int| 0 <= k < final(array).len() ==> final(array).words()[k] == 0u64,
        forall|k: int| 0 <= k < final(array).slots().len() ==> final(array).slots()[k] is None,
        final(array).slots().len() == old(array).slots().len(),
        old(array).wf() ==> final(array).wf(),
{
    match &mut array.storage {
        Storage::Words(v) => zero_words(v),
        Storage::Records(v) => clear_slots(v),
    }
}

/// An independent copy: a fresh generic container with the source's
/// capacity account (clamped to at least one slot) and a slot-for-slot
/// copy of the source's word view. Owned records are not cloned — what a
/// record slot contributes is its word, so a duplicate never owns records
/// (the shallow-copy caveat) — and the copy shares no storage with the
/// source: later changes to either container cannot touch the other.
pub fn dc_array_duplicate(array: &dc_array_t) -> (r: dc_array_t)
    ensures
        r.variant() == Variant::Generic,
        r.words() == array.words(),
        r.len() == array.len(),
        r.capacity() == if array.capacity() < 1 {
            1nat
        } else {
            array.capacity()
        },
        array.wf() ==> r.wf(),
{
    let cnt = dc_array_get_cnt(array);
    let mut words_copy: Vec<u64> = Vec::with_capacity(cnt);
    let mut i: usize = 0;
    while i < cnt
        invariant
            i <= cnt,
            cnt == array.len(),
            words_copy@ == array.words().take(i as int),
        decreases cnt - i,
    {
        let w = dc_array_get_uint(array, i);
        words_copy.push(w);
        proof {
            assert(words_copy@ =~= array.words().take(i + 1));
        }
        i += 1;
    }
    proof {
        assert(array.words().take(cnt as int) =~= array.words());
    }
    let cap: usize = if array.allocated < 1 {
        1
    } else {
        array.allocated
    };
    dc_array_t { storage: Storage::Words(words_copy), allocated: cap }
}

/// Sorts the raw words ascending, in place. Only the generic variant holds
/// words that compare as numbers; the owned-records variant is left
/// unchanged (a safe container has no slot addresses to order).
pub fn dc_array_sort_ids(array: &mut dc_array_t)
    ensures
        final(array).variant() == old(array).variant(),
        final(array).capacity() == old(array).capacity(),
        old(array).variant() == Variant::OwnedRecords ==> *final(array) == *old(array),
        old(array).variant() == Variant::Generic ==> {
            &&& is_sorted(final(array).words())
            &&& final(array).words().to_multiset() == old(array).words().to_multiset()
            &&& final(array).len() == old(array).len()
            &&& final(array).slots() == old(array).slots()
        },
        old(array).wf() ==> final(array).wf(),
{
    match &mut array.storage {
        Storage::Words(v) => sort_words(v),
        Storage::Records(_) => {}
    }
}

/// Renders each slot's word in decimal and joins the renderings with
/// `sep`. An empty container yields the empty string.
pub fn dc_array_get_string(array: &dc_array_t, sep: &str) -> (r: String)
    ensures
        r@ == join_dec(array.words(), sep@),
{
    let cnt = dc_array_get_cnt(array);
    let mut res = String::new();
    let mut i: usize = 0;
    while i < cnt
        invariant
            i <= cnt,
            cnt == array.len(),
            res@ == join_dec(array.words().take(i as int), sep@),
        decreases cnt - i,
    {
        if i > 0 {
            res.append(sep);
        }
        let w = dc_array_get_uint(array, i);
        append_dec(&mut res, w);
        proof {
            lemma_join_dec_step(array.words(), sep@, i as int);
            assert(res@ =~= join_dec(array.words().take(i + 1), sep@));
        }
        i += 1;
    }
    proof {
        assert(array.words().take(cnt as int) =~= array.words());
    }
    res
}

/// Releases the container, owned records and buffer included. It consumes
/// the value, so a released container cannot be used — or released —
/// again: the use-after-release hazard is not representable.
pub fn dc_array_unref(array: dc_array_t) {
    let _ = array;
}

} // verus!
