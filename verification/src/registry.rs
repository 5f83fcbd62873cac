//! The master's registry of workers: each registered worker has a numeric
//! id, a random 128-bit uid that it is known by from outside, and an address
//! (whatever the caller uses to reach it).
use vstd::prelude::*;
use std::collections::HashMap;

verus! {

broadcast use vstd::std_specs::hash::group_hash_axioms;

/// Identifies a worker inside the master.
#[derive(Debug, Clone, Copy, PartialEq, Eq, Hash, Structural)]
pub struct WorkerId(pub u32);

/// The key a worker is given when it registers: the text of its uid.
#[derive(Debug)]
pub struct WorkerKey(pub String);

/// Hands out the id after `id`, and remembers it as the last one.
pub fn next_id(id: &mut WorkerId) -> (r: WorkerId)
    requires
        old(id).0 < u32::MAX,
    ensures
        final(id).0 == old(id).0 + 1,
        r == *final(id),
{
    id.0 = id.0 + 1;
    WorkerId(id.0)
}

// ---------------------------------------------------------------------------
// Uids and their text.
/// Sixteen to the power `n`.
pub open spec fn pow16(n: nat) -> nat
    decreases n,
{
    if n == 0 {
        1
    } else {
        16 * pow16((n - 1) as nat)
    }
}

/// Hexadecimal digit `k` of a uid, counted from the most significant one.
pub open spec fn uid_nibble(uid: u128, k: int) -> int {
    (uid as int / pow16((31 - k) as nat) as int) % 16
}

/// The lower-case hexadecimal digit for a value below sixteen.
pub open spec fn hex_digit(d: int) -> char {
    seq!['0', '1', '2', '3', '4', '5', '6', '7', '8', '9', 'a', 'b', 'c', 'd', 'e', 'f'][d]
}

/// The hex digits `from..to` of a uid.
pub open spec fn uid_hex(uid: u128, from: int, to: int) -> Seq<char> {
    Seq::new((to - from) as nat, |i: int| hex_digit(uid_nibble(uid, from + i)))
}

/// The hyphenated lower-case text of a uid: `8-4-4-4-12` hex digits, most
/// significant first.
pub open spec fn uid_text(uid: u128) -> Seq<char> {
    uid_hex(uid, 0, 8) + seq!['-'] + uid_hex(uid, 8, 12) + seq!['-'] + uid_hex(uid, 12, 16)
        + seq!['-'] + uid_hex(uid, 16, 20) + seq!['-'] + uid_hex(uid, 20, 32)
}

/// The value of a hexadecimal digit in either case, or -1 for any other
/// character.
pub open spec fn hex_value(c: char) -> int {
    if '0' <= c && c <= '9' {
        c as int - '0' as int
    } else if 'a' <= c && c <= 'f' {
        c as int - 'a' as int + 10
    } else if 'A' <= c && c <= 'F' {
        c as int - 'A' as int + 10
    } else {
        -1
    }
}

/// Every character is a hexadecimal digit.
pub open spec fn all_hex(digits: Seq<char>) -> bool {
    forall|i: int| 0 <= i < digits.len() ==> hex_value(#[trigger] digits[i]) >= 0
}

/// The number the hexadecimal digits write, most significant first.
pub open spec fn hex_number(digits: Seq<char>) -> int
    decreases digits.len(),
{
    if digits.len() == 0 {
        0
    } else {
        hex_number(digits.drop_last()) * 16 + hex_value(digits.last())
    }
}

/// 36 characters with hyphens at 8, 13, 18 and 23.
pub open spec fn hyphen_layout(text: Seq<char>) -> bool {
    text.len() == 36 && text[8] == '-' && text[13] == '-' && text[18] == '-' && text[23] == '-'
}

/// The 36 characters of the hyphenated form without its hyphens.
pub open spec fn without_hyphens(text: Seq<char>) -> Seq<char> {
    text.subrange(0, 8) + text.subrange(9, 13) + text.subrange(14, 18) + text.subrange(19, 23)
        + text.subrange(24, 36)
}

/// The 32 digits of a uid text in one of the accepted forms: 32 digits; the
/// hyphenated `8-4-4-4-12` form; or `urn:uuid:` followed by the hyphenated
/// form.
pub open spec fn uuid_digits(text: Seq<char>) -> Option<Seq<char>> {
    if text.len() == 32 {
        Some(text)
    } else if hyphen_layout(text) {
        Some(without_hyphens(text))
    } else if text.len() == 45 && text.take(9) == seq!['u', 'r', 'n', ':', 'u', 'u', 'i', 'd', ':']
        && hyphen_layout(text.skip(9)) {
        Some(without_hyphens(text.skip(9)))
    } else {
        None
    }
}

/// The uid that `uuid::Uuid::parse_str` reads from a text: the number its
/// 32 hexadecimal digits (in either case) write, where the text has one of
/// the accepted forms.
pub open spec fn uuid_parse(text: Seq<char>) -> Option<u128> {
    match uuid_digits(text) {
        Some(digits) => if all_hex(digits) {
            Some(hex_number(digits) as u128)
        } else {
            None
        },
        None => None,
    }
}

/// Each lower-case digit has the value it is written for.
proof fn lemma_hex_digit_value(d: int)
    requires
        0 <= d < 16,
    ensures
        hex_value(hex_digit(d)) == d,
{
    let digits = seq!['0', '1', '2', '3', '4', '5', '6', '7', '8', '9', 'a', 'b', 'c', 'd', 'e', 'f'];
    assert(hex_digit(d) == digits[d]);
}

/// The first `j` digits of a uid write the uid divided by 16 to the power
/// `32 - j`.
proof fn lemma_uid_hex_prefix(uid: u128, j: int)
    requires
        0 <= j <= 32,
    ensures
        all_hex(uid_hex(uid, 0, j)),
        hex_number(uid_hex(uid, 0, j)) == uid as int / pow16((32 - j) as nat) as int,
    decreases j,
{
    let digits = uid_hex(uid, 0, j);
    if j == 0 {
        assert(pow16(32) == 0x1_0000_0000_0000_0000_0000_0000_0000_0000) by {
            reveal_with_fuel(pow16, 33);
        }
        assert(uid as int / 0x1_0000_0000_0000_0000_0000_0000_0000_0000int == 0) by (nonlinear_arith)
            requires
                0 <= uid < 0x1_0000_0000_0000_0000_0000_0000_0000_0000int,
        ;
    } else {
        lemma_uid_hex_prefix(uid, j - 1);
        assert(digits.drop_last() =~= uid_hex(uid, 0, j - 1));
        let x = uid as int / pow16((32 - j) as nat) as int;
        lemma_pow16_positive((32 - j) as nat);
        assert(pow16((33 - j) as nat) == 16 * pow16((32 - j) as nat));
        let q = pow16((32 - j) as nat) as int;
        vstd::arithmetic::div_mod::lemma_div_denominator(uid as int, q, 16);
        vstd::arithmetic::div_mod::lemma_fundamental_div_mod(x, 16);
        assert(uid as int / (q * 16) == x / 16);
        assert(q * 16 == 16 * q) by (nonlinear_arith);
        let n = x % 16;
        assert(0 <= n < 16) by {
            vstd::arithmetic::div_mod::lemma_mod_bound(x, 16);
        }
        assert(digits.last() == hex_digit(uid_nibble(uid, j - 1)));
        assert(uid_nibble(uid, j - 1) == n);
        lemma_hex_digit_value(n);
        assert forall|i: int| 0 <= i < digits.len() implies hex_value(#[trigger] digits[i]) >= 0 by {
            if i < j - 1 {
                assert(digits[i] == uid_hex(uid, 0, j - 1)[i]);
            }
        }
    }
}

proof fn lemma_pow16_positive(n: nat)
    ensures
        pow16(n) > 0,
    decreases n,
{
    if n > 0 {
        lemma_pow16_positive((n - 1) as nat);
    }
}

/// The hyphenated text of a uid reads back as that uid.
pub proof fn lemma_uid_text_reads_back(uid: u128)
    ensures
        uuid_parse(uid_text(uid)) == Some(uid),
{
    let t = uid_text(uid);
    assert(hyphen_layout(t));
    assert(without_hyphens(t) =~= uid_hex(uid, 0, 32));
    lemma_uid_hex_prefix(uid, 32);
    assert(pow16(0) == 1);
    assert(uid as int / 1 == uid as int);
    assert(t.len() == 36);
    assert(uuid_digits(t) == Some(uid_hex(uid, 0, 32)));
    assert(hex_number(uid_hex(uid, 0, 32)) == uid as int);
}

#[verifier::external_type_specification]
#[verifier::external_body]
pub struct ExUuidError(uuid::Error);

/// `uuid::Uuid::new_v4`: a random uid. Of every outcome the version digit
/// (digit 12) is 4 and the variant digit (digit 16) is one of 8, 9, a, b.
#[verifier::external_body]
fn random_uid() -> (uid: u128)
    ensures
        uid_nibble(uid, 12) == 4,
        8 <= uid_nibble(uid, 16) <= 11,
{
    uuid::Uuid::new_v4().as_u128()
}

/// `Display` of `uuid::Uuid` (through `Uuid::from_u128`): the hyphenated
/// lower-case text.
#[verifier::external_body]
fn format_uid(uid: u128) -> (text: String)
    ensures
        text@ == uid_text(uid),
{
    uuid::Uuid::from_u128(uid).to_string()
}

/// `uuid::Uuid::parse_str`: reads a uid from a text, as `uuid_parse` says.
#[verifier::external_body]
fn parse_uid(text: &str) -> (parsed: Result<u128, uuid::Error>)
    ensures
        parsed is Ok <==> uuid_parse(text@) is Some,
        parsed matches Ok(uid) ==> uuid_parse(text@) == Some(uid),
{
    uuid::Uuid::parse_str(text).map(|u| u.as_u128())
}

/// Why a key identifies no worker.
#[derive(Debug, Clone, Copy, PartialEq, Eq, Structural)]
pub enum KeyError {
    /// The key is not the text of a uid.
    Malformed,
    /// No registered worker has this uid.
    UnknownWorker,
    /// The uid's reference points past the slots (a slot before it was
    /// removed).
    StaleReference,
}

/// The uid a key names, where it names one.
pub fn key_uid(key: &WorkerKey) -> (r: Result<u128, KeyError>)
    ensures
        match r {
            Ok(uid) => uuid_parse(key.0@) == Some(uid),
            Err(e) => e == KeyError::Malformed && uuid_parse(key.0@) is None,
        },
{
    match parse_uid(key.0.as_str()) {
        Ok(uid) => Ok(uid),
        Err(_) => Err(KeyError::Malformed),
    }
}

// ---------------------------------------------------------------------------
// The registry.
/// Where a worker's entry lies: its slot, and the version the entry had when
/// it was put there.
#[derive(Debug, Clone, Copy, PartialEq, Eq, Structural)]
pub struct SlotRef {
    pub version: i32,
    pub index: usize,
}

/// What the registry knows of a worker.
pub struct WorkerInfo<A> {
    pub id: WorkerId,
    pub uid: u128,
    pub addr: A,
}

/// An occupied slot: the entry and the version it was stored with.
pub struct WorkerInfoHolder<A> {
    pub version: i32,
    pub info: Box<WorkerInfo<A>>,
}

/// The registry of workers, reached by uid or by id.
pub struct MasterActor<A> {
    last_worker_id: WorkerId,
    last_worker_info_version: i32,
    workers: Vec<Option<WorkerInfoHolder<A>>>,
    worker_ids_by_uid: HashMap<u128, SlotRef>,
    workers_by_id: HashMap<u32, SlotRef>,
}

/// The entry a reference designates in `slots`: the slot's entry if the
/// slot is occupied by an entry of the same version.
pub open spec fn entry_at<A>(slots: Seq<Option<WorkerInfoHolder<A>>>, r: SlotRef) -> Option<
    WorkerInfo<A>,
> {
    match slots[r.index as int] {
        Some(holder) => if holder.version == r.version {
            Some(*holder.info)
        } else {
            None
        },
        None => None,
    }
}

/// The first free slot, or the length when all are occupied.
pub open spec fn first_free<A>(slots: Seq<Option<WorkerInfoHolder<A>>>, from: int) -> int
    decreases slots.len() - from,
{
    if from >= slots.len() {
        slots.len() as int
    } else if slots[from] is None {
        from
    } else {
        first_free(slots, from + 1)
    }
}

/// The first free slot from `from` on lies between `from` and the end.
pub proof fn lemma_first_free_bounds<A>(slots: Seq<Option<WorkerInfoHolder<A>>>, from: int)
    requires
        0 <= from,
    ensures
        from <= slots.len() ==> from <= first_free(slots, from) <= slots.len(),
        first_free(slots, from) < slots.len() ==> slots[first_free(slots, from)] is None,
        forall|k: int| from <= k < first_free(slots, from) ==> slots[k] is Some,
    decreases slots.len() - from,
{
    if from < slots.len() && slots[from] is Some {
        lemma_first_free_bounds(slots, from + 1);
    }
}

impl<A> MasterActor<A> {
    /// The last id handed out.
    pub closed spec fn last_id(self) -> u32 {
        self.last_worker_id.0
    }

    /// The version of the last entry stored.
    pub closed spec fn last_version(self) -> i32 {
        self.last_worker_info_version
    }

    /// The slots, free or occupied.
    pub closed spec fn slots(self) -> Seq<Option<WorkerInfoHolder<A>>> {
        self.workers@
    }

    /// The references by uid.
    pub closed spec fn by_uid(self) -> Map<u128, SlotRef> {
        self.worker_ids_by_uid@
    }

    /// The references by id.
    pub closed spec fn by_id(self) -> Map<u32, SlotRef> {
        self.workers_by_id@
    }

    /// The worker with this uid, if the registry reaches one.
    pub open spec fn lookup_uid(self, uid: u128) -> Option<WorkerInfo<A>> {
        if self.by_uid().dom().contains(uid) {
            entry_at(self.slots(), self.by_uid()[uid])
        } else {
            None
        }
    }

    /// The worker with this id, if the registry reaches one.
    pub open spec fn lookup_id(self, id: WorkerId) -> Option<WorkerInfo<A>> {
        if self.by_id().dom().contains(id.0) {
            entry_at(self.slots(), self.by_id()[id.0])
        } else {
            None
        }
    }

    /// Looking up `uid` stays within the slots.
    pub open spec fn uid_in_bounds(self, uid: u128) -> bool {
        self.by_uid().dom().contains(uid) ==> self.by_uid()[uid].index < self.slots().len()
    }

    /// Looking up `id` stays within the slots.
    pub open spec fn id_in_bounds(self, id: WorkerId) -> bool {
        self.by_id().dom().contains(id.0) ==> self.by_id()[id.0].index < self.slots().len()
    }

    /// An empty registry.
    pub fn new() -> (r: Self)
        ensures
            r.last_id() == 0,
            r.last_version() == 0,
            r.slots().len() == 0,
            r.by_uid().is_empty(),
            r.by_id().is_empty(),
    {
        MasterActor {
            last_worker_id: WorkerId(0),
            last_worker_info_version: 0,
            workers: Vec::new(),
            worker_ids_by_uid: HashMap::new(),
            workers_by_id: HashMap::new(),
        }
    }

    /// Hands out the next worker id.
    pub fn allocate_id(&mut self) -> (id: WorkerId)
        requires
            old(self).last_id() < u32::MAX,
        ensures
            id.0 == old(self).last_id() + 1,
            final(self).last_id() == id.0,
            final(self).last_version() == old(self).last_version(),
            final(self).slots() == old(self).slots(),
            final(self).by_uid() == old(self).by_uid(),
            final(self).by_id() == old(self).by_id(),
    {
        next_id(&mut self.last_worker_id)
    }

    /// The entry a reference designates.
    fn get_worker(&self, index: &SlotRef) -> (r: Option<&WorkerInfo<A>>)
        requires
            index.index < self.slots().len(),
        ensures
            match r {
                Some(w) => entry_at(self.slots(), *index) == Some(*w),
                None => entry_at(self.slots(), *index) is None,
            },
    {
        if let Some(holder) = &self.workers[index.index] {
            if holder.version == index.version {
                return Some(&*holder.info);
            }
        }
        None
    }

    /// The address of the worker with this uid.
    pub fn get_worker_addr_by_uid(&self, uid: u128) -> (r: Option<&A>)
        requires
            self.uid_in_bounds(uid),
        ensures
            match r {
                Some(a) => self.lookup_uid(uid) matches Some(w) && w.addr == *a,
                None => self.lookup_uid(uid) is None,
            },
    {
        match self.worker_ids_by_uid.get(&uid) {
            Some(index) => match self.get_worker(index) {
                Some(info) => Some(&info.addr),
                None => None,
            },
            None => None,
        }
    }

    /// The address of the worker with this id.
    pub fn get_worker_addr_by_id(&self, id: &WorkerId) -> (r: Option<&A>)
        requires
            self.id_in_bounds(*id),
        ensures
            match r {
                Some(a) => self.lookup_id(*id) matches Some(w) && w.addr == *a,
                None => self.lookup_id(*id) is None,
            },
    {
        match self.workers_by_id.get(&id.0) {
            Some(index) => match self.get_worker(index) {
                Some(info) => Some(&info.addr),
                None => None,
            },
            None => None,
        }
    }

    /// This registry is `before` with a worker stored by `add_worker`: a new
    /// entry version, the entry in the first free slot (or in a new slot at
    /// the end), and its uid and id pointing at it.
    pub open spec fn worker_added(self, before: Self, uid: u128, id: WorkerId, addr: A) -> bool {
        let slot = first_free(before.slots(), 0);
        let r = SlotRef { version: self.last_version(), index: slot as usize };
        &&& self.last_version() == before.last_version() + 1
        &&& self.last_id() == before.last_id()
        &&& slot <= before.slots().len()
        &&& (slot < before.slots().len() ==> before.slots()[slot] is None)
        &&& (forall|k: int| 0 <= k < slot ==> before.slots()[k] is Some)
        &&& self.slots().len() == if slot < before.slots().len() {
            before.slots().len() as int
        } else {
            before.slots().len() + 1int
        }
        &&& forall|k: int|
            0 <= k < self.slots().len() && k != slot ==> self.slots()[k] == before.slots()[k]
        &&& self.slots()[slot] matches Some(h) && h.version == self.last_version() && *h.info == (
        WorkerInfo { id, uid, addr })
        &&& self.by_uid() == before.by_uid().insert(uid, r)
        &&& self.by_id() == before.by_id().insert(id.0, r)
    }

    /// Stores a worker in the first free slot, or in a new one at the end,
    /// under a new entry version, and points its uid and its id at it.
    pub fn add_worker(&mut self, uid: u128, id: WorkerId, addr: A)
        requires
            old(self).last_version() < i32::MAX,
        ensures
            final(self).worker_added(*old(self), uid, id, addr),
    {
        self.last_worker_info_version = self.last_worker_info_version + 1;
        let version = self.last_worker_info_version;
        let holder = WorkerInfoHolder { version, info: Box::new(WorkerInfo { id, uid, addr }) };
        let ghost old_slots = self.workers@;
        let ghost old_uid = self.worker_ids_by_uid@;
        let ghost old_id = self.workers_by_id@;
        let ghost old_last_id = self.last_worker_id;
        proof {
            lemma_first_free_bounds(old_slots, 0);
        }
        let mut i: usize = 0;
        while i < self.workers.len()
            invariant
                i <= self.workers@.len(),
                self.workers@ == old_slots,
                self.worker_ids_by_uid@ == old_uid,
                self.workers_by_id@ == old_id,
                self.last_worker_id == old_last_id,
                self.last_worker_info_version == version,
                version == old(self).last_worker_info_version + 1,
                holder.version == version,
                *holder.info == (WorkerInfo { id, uid, addr }),
                old_last_id == old(self).last_worker_id,
                old_slots == old(self).workers@,
                old_uid == old(self).worker_ids_by_uid@,
                old_id == old(self).workers_by_id@,
                first_free(old_slots, 0) == first_free(old_slots, i as int),
                forall|k: int| 0 <= k < i ==> old_slots[k] is Some,
            decreases self.workers@.len() - i,
        {
            if self.workers[i].is_none() {
                proof {
                    assert(first_free(old_slots, i as int) == i as int);
                }
                self.workers.set(i, Some(holder));
                let index = SlotRef { version, index: i };
                self.worker_ids_by_uid.insert(uid, index);
                self.workers_by_id.insert(id.0, index);
                return;
            }
            i = i + 1;
        }
        self.workers.push(Some(holder));
        let index = SlotRef { version, index: self.workers.len() - 1 };
        self.worker_ids_by_uid.insert(uid, index);
        self.workers_by_id.insert(id.0, index);
    }

    /// Whether `remove_worker(id)` can run: the id is registered, its slot
    /// exists, and an entry found there has the version the id refers to.
    pub open spec fn removable(self, id: WorkerId) -> bool {
        &&& self.by_id().dom().contains(id.0)
        &&& self.by_id()[id.0].index < self.slots().len()
        &&& self.slots()[self.by_id()[id.0].index as int] matches Some(h) ==> h.version
            == self.by_id()[id.0].version
    }

    /// This registry is `before` without the worker with id `id`, as
    /// `remove_worker` leaves it.
    pub open spec fn worker_removed(self, before: Self, id: WorkerId) -> bool {
        let r = before.by_id()[id.0];
        &&& self.by_id() == before.by_id().remove(id.0)
        &&& self.slots() == before.slots().remove(r.index as int)
        &&& self.by_uid() == match before.slots()[r.index as int] {
            Some(h) => before.by_uid().remove(h.info.uid),
            None => before.by_uid(),
        }
        &&& self.last_id() == before.last_id()
        &&& self.last_version() == before.last_version()
    }

    /// Forgets the worker with this id: its id, its slot (the slots after it
    /// move down by one) and, where the slot held an entry, that entry's uid.
    pub fn remove_worker(&mut self, id: WorkerId)
        requires
            old(self).removable(id),
        ensures
            final(self).worker_removed(*old(self), id),
    {
        match self.workers_by_id.remove(&id.0) {
            Some(wi) => {
                if let Some(holder) = self.workers.remove(wi.index) {
                    self.worker_ids_by_uid.remove(&holder.info.uid);
                }
            },
            None => {
                proof {
                    assert(false);
                }
            },
        }
    }

    /// First half of registering a worker: a fresh random uid, its key, and
    /// the next id. The caller then creates the worker's address for this id
    /// and stores it with `add_worker`.
    pub fn begin_registration(&mut self) -> (reg: Registration)
        requires
            old(self).last_id() < u32::MAX,
        ensures
            reg.id.0 == old(self).last_id() + 1,
            reg.key.0@ == uid_text(reg.uid),
            uuid_parse(reg.key.0@) == Some(reg.uid),
            uid_nibble(reg.uid, 12) == 4,
            8 <= uid_nibble(reg.uid, 16) <= 11,
            final(self).last_id() == reg.id.0,
            final(self).last_version() == old(self).last_version(),
            final(self).slots() == old(self).slots(),
            final(self).by_uid() == old(self).by_uid(),
            final(self).by_id() == old(self).by_id(),
    {
        let uid = random_uid();
        let key = WorkerKey(format_uid(uid));
        proof {
            lemma_uid_text_reads_back(uid);
        }
        let id = self.allocate_id();
        Registration { uid, id, key }
    }

    /// Whether another id can be handed out.
    pub fn can_allocate_id(&self) -> (b: bool)
        ensures
            b == (self.last_id() < u32::MAX),
    {
        self.last_worker_id.0 < u32::MAX
    }

    /// Whether another entry version is left for `add_worker`.
    pub fn can_add_worker(&self) -> (b: bool)
        ensures
            b == (self.last_version() < i32::MAX),
    {
        self.last_worker_info_version < i32::MAX
    }

    /// Tests `removable`.
    pub fn is_removable(&self, id: WorkerId) -> (b: bool)
        ensures
            b == self.removable(id),
    {
        match self.workers_by_id.get(&id.0) {
            Some(r) => {
                if r.index < self.workers.len() {
                    match &self.workers[r.index] {
                        Some(holder) => holder.version == r.version,
                        None => true,
                    }
                } else {
                    false
                }
            },
            None => false,
        }
    }

    /// Whether the uid's reference stays within the slots.
    pub fn uid_reference_in_bounds(&self, uid: u128) -> (b: bool)
        ensures
            b == self.uid_in_bounds(uid),
    {
        match self.worker_ids_by_uid.get(&uid) {
            Some(index) => index.index < self.workers.len(),
            None => true,
        }
    }

    /// The address of the worker a key names; the key must be well formed
    /// and name a registered worker.
    pub fn worker_addr_by_key(&self, key: &WorkerKey) -> (addr: &A)
        requires
            uuid_parse(key.0@) matches Some(uid) && self.uid_in_bounds(uid) && self.lookup_uid(
                uid,
            ) is Some,
        ensures
            uuid_parse(key.0@) matches Some(uid) && self.lookup_uid(uid) matches Some(w) && w.addr
                == *addr,
    {
        let uid = match parse_uid(key.0.as_str()) {
            Ok(uid) => uid,
            Err(_) => {
                proof {
                    assert(false);
                }
                0
            },
        };
        self.get_worker_addr_by_uid(uid).unwrap()
    }

    /// The address of the worker a key names, or why there is none.
    pub fn find_worker_by_key(&self, key: &WorkerKey) -> (r: Result<&A, KeyError>)
        ensures
            match r {
                Ok(addr) => uuid_parse(key.0@) matches Some(uid) && self.lookup_uid(uid) matches Some(
                    w,
                ) && w.addr == *addr,
                Err(KeyError::Malformed) => uuid_parse(key.0@) is None,
                Err(KeyError::StaleReference) => uuid_parse(key.0@) matches Some(uid)
                    && !self.uid_in_bounds(uid),
                Err(KeyError::UnknownWorker) => uuid_parse(key.0@) matches Some(uid)
                    && self.uid_in_bounds(uid) && self.lookup_uid(uid) is None,
            },
    {
        match key_uid(key) {
            Ok(uid) => {
                if !self.uid_reference_in_bounds(uid) {
                    return Err(KeyError::StaleReference);
                }
                match self.get_worker_addr_by_uid(uid) {
                    Some(_) => Ok(self.worker_addr_by_key(key)),
                    None => Err(KeyError::UnknownWorker),
                }
            },
            Err(e) => Err(e),
        }
    }
}

/// What the first half of a registration hands out.
pub struct Registration {
    pub uid: u128,
    pub id: WorkerId,
    pub key: WorkerKey,
}

/// A stored worker is reached both by its uid and by its id.
pub proof fn law_added_worker_is_reachable<A>(
    before: MasterActor<A>,
    after: MasterActor<A>,
    uid: u128,
    id: WorkerId,
    addr: A,
)
    requires
        after.worker_added(before, uid, id, addr),
    ensures
        after.uid_in_bounds(uid),
        after.id_in_bounds(id),
        after.lookup_uid(uid) == Some(WorkerInfo { id, uid, addr }),
        after.lookup_id(id) == Some(WorkerInfo { id, uid, addr }),
{
    lemma_first_free_bounds(before.slots(), 0);
    let slot = first_free(before.slots(), 0);
    assert(before.workers@.len() == before.workers.len());
    assert(slot as usize as int == slot);
    assert(after.by_uid()[uid].index == slot);
}

/// Storing a worker leaves every other worker that was reachable by uid
/// reachable, with the same entry, unless it shares the new worker's uid.
pub proof fn law_add_keeps_other_workers<A>(
    before: MasterActor<A>,
    after: MasterActor<A>,
    uid: u128,
    id: WorkerId,
    addr: A,
    other: u128,
)
    requires
        after.worker_added(before, uid, id, addr),
        other != uid,
        before.uid_in_bounds(other),
        before.lookup_uid(other) is Some,
    ensures
        after.uid_in_bounds(other),
        after.lookup_uid(other) == before.lookup_uid(other),
{
    lemma_first_free_bounds(before.slots(), 0);
    let r = before.by_uid()[other];
    assert(before.slots()[r.index as int] is Some);
}

/// A removed worker is no longer reached by its id, nor by its uid.
pub proof fn law_removed_worker_is_unreachable<A>(
    before: MasterActor<A>,
    after: MasterActor<A>,
    id: WorkerId,
)
    requires
        before.removable(id),
        after.worker_removed(before, id),
    ensures
        after.lookup_id(id) is None,
        before.slots()[before.by_id()[id.0].index as int] matches Some(h) ==> after.lookup_uid(
            h.info.uid,
        ) is None,
{
}

/// Removing a worker leaves reachable, with the same entry, every other
/// worker whose slot comes before the removed one. (Workers in later slots
/// are not covered: the removal moves their slots down, so their references
/// no longer match.)
pub proof fn law_remove_keeps_earlier_workers<A>(
    before: MasterActor<A>,
    after: MasterActor<A>,
    id: WorkerId,
    other: u128,
)
    requires
        before.removable(id),
        after.worker_removed(before, id),
        before.by_uid().dom().contains(other),
        before.by_uid()[other].index < before.by_id()[id.0].index,
        before.slots()[before.by_id()[id.0].index as int] matches Some(h) ==> h.info.uid != other,
    ensures
        after.uid_in_bounds(other),
        after.lookup_uid(other) == before.lookup_uid(other),
{
}

/// Removing a worker forgets only its own id: every other registered id
/// keeps the reference it had, and one whose slot comes before the removed
/// one still reaches the same worker.
pub proof fn law_remove_keeps_other_ids<A>(
    before: MasterActor<A>,
    after: MasterActor<A>,
    id: WorkerId,
    other: WorkerId,
)
    requires
        before.removable(id),
        after.worker_removed(before, id),
        other.0 != id.0,
        before.by_id().dom().contains(other.0),
    ensures
        after.by_id().dom().contains(other.0),
        after.by_id()[other.0] == before.by_id()[other.0],
        !after.by_id().dom().contains(id.0),
        after.by_id().dom().len() == before.by_id().dom().len() - 1,
        before.by_id()[other.0].index < before.by_id()[id.0].index ==> after.id_in_bounds(other)
            && after.lookup_id(other) == before.lookup_id(other),
{
    assert(after.by_id().dom() =~= before.by_id().dom().remove(id.0));
}

} // verus!
