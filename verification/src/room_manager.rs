//! The directory of rooms: the codes that name them, how many rooms an
//! address may create, and which rooms wait and which play.
//!
//! A room's id is its creation counter put through a small Feistel cipher,
//! so that codes do not reveal how many rooms exist. A code is the id
//! written in eight symbols of five bits each, lowest bits first.

use std::collections::HashMap;
use vstd::prelude::*;
use vstd::std_specs::iter::IteratorSpec;
use vstd::string::StrSliceExecFns;

verus! {

broadcast use vstd::std_specs::hash::group_hash_axioms;

/// The number a room goes by.
pub type RoomId = u64;

/// The bits of one half of an id.
pub const HALF_BITS: u64 = 20;

/// The mask of one half of an id.
pub const BITMASK: u64 = 0xF_FFFF;

/// The mask of a whole id.
pub const ID_MASK: u64 = 0xFF_FFFF_FFFF;

/// The rounds of the cipher.
pub const ROUNDS: u64 = 10;

/// The symbols of a room code.
pub const CODE_LEN: usize = 8;

/// The symbols of a code, by their value.
pub const ALPHABET: [u8; 32] = [
    84, 52, 56, 87, 49, 71, 86, 74, 70, 51, 55, 65, 89, 69, 66, 50,
    53, 54, 73, 80, 77, 83, 57, 48, 90, 68, 72, 82, 75, 76, 88, 81,
];

/// How many rooms one address may create, host migrations not counted.
pub const MAX_ROOM_CREATIONS_PER_IP: u32 = 12;

/// Why a room was not created.
pub enum RoomSpawnFailReason {
    /// We limit the amount of rooms that can be created from an IP address to partially prevent DoS.
    TooManyFromSameIp,
}

/// Round function in cipher for room id.
pub open spec fn round_of(nr: u64, round: u64) -> u64 {
    ((nr ^ ((65521 + round * 3) as u64)).wrapping_add(11) << 1) & BITMASK
}

/// The two halves after the first `n` rounds of the cipher.
pub open spec fn rounds_forward(left: u64, right: u64, n: nat) -> (u64, u64)
    decreases n,
{
    if n == 0 {
        (left, right)
    } else {
        let (l, r) = rounds_forward(left, right, (n - 1) as nat);
        (r, l ^ round_of(r, (n - 1) as u64))
    }
}

/// The two halves before the first `n` rounds of the cipher were applied.
pub open spec fn rounds_backward(left: u64, right: u64, n: nat) -> (u64, u64)
    decreases n,
{
    if n == 0 {
        (left, right)
    } else {
        rounds_backward(right ^ round_of(left, (n - 1) as u64), left, (n - 1) as nat)
    }
}

/// Transform counter to room id using Feistel cipher.
pub open spec fn crypt_of(seed: u64, nr: u64) -> u64 {
    let mixed = nr ^ seed;
    let (left, right) = rounds_forward(mixed >> HALF_BITS, mixed & BITMASK, ROUNDS as nat);
    left | (right << HALF_BITS)
}

/// Transform room id back to the counter it was made from.
pub open spec fn decrypt_of(seed: u64, id: u64) -> u64 {
    let (left, right) = rounds_backward(id & BITMASK, id >> HALF_BITS, ROUNDS as nat);
    ((left << HALF_BITS) | right) ^ seed
}

/// The symbol that stands for the five bits `value`.
pub open spec fn symbol_of(value: u64) -> char
    recommends
        value < 32,
{
    ALPHABET@[value as int] as char
}

/// The five bits that the byte `symbol` stands for, if it is a symbol.
pub open spec fn value_of(symbol: u8) -> Option<u64> {
    if exists|k: int| 0 <= k < 32 && ALPHABET@[k] == symbol {
        Some((choose|k: int| 0 <= k < 32 && ALPHABET@[k] == symbol) as u64)
    } else {
        None
    }
}

/// The five bits that the character `c` stands for, if it is a symbol. Every
/// symbol is an ASCII character.
pub open spec fn value_of_char(c: char) -> Option<u64> {
    if (c as u32) < 128 {
        value_of(c as u8)
    } else {
        None
    }
}

/// Transform a number to a string code: its lowest forty bits, five at a
/// time, lowest first.
pub open spec fn code_of(nr: u64) -> Seq<char> {
    Seq::new(CODE_LEN as nat, |i: int| symbol_of((nr >> ((5 * i) as u64)) & 31))
}

/// The number that the symbols of `code` spell, each symbol's five bits at
/// its place, if every character is a symbol.
pub open spec fn spelled(code: Seq<char>) -> Option<u64>
    recommends
        code.len() <= CODE_LEN,
    decreases code.len(),
{
    if code.len() == 0 {
        Some(0)
    } else {
        match (spelled(code.drop_last()), value_of_char(code.last())) {
            (Some(nr), Some(value)) => Some(nr | (value << ((5 * (code.len() - 1)) as u64))),
            _ => None,
        }
    }
}

/// Transform a string code to a number. A code has exactly `CODE_LEN`
/// symbols: any other text is no code.
pub open spec fn number_of(code: Seq<char>) -> Option<u64> {
    if code.len() == CODE_LEN {
        spelled(code)
    } else {
        None
    }
}

/// No symbol stands twice in the alphabet, and every symbol is plain ASCII.
pub proof fn lemma_alphabet_distinct()
    ensures
        forall|j: int, k: int|
            0 <= j < 32 && 0 <= k < 32 && ALPHABET@[j] == ALPHABET@[k] ==> j == k,
        forall|k: int| 0 <= k < 32 ==> 48 <= #[trigger] ALPHABET@[k] <= 90,
{
}

/// A symbol is read back as the five bits it stands for.
pub proof fn lemma_symbol_round_trip(value: u64)
    requires
        value < 32,
    ensures
        value_of_char(symbol_of(value)) == Some(value),
{
    lemma_alphabet_distinct();
}

/// Every code that is written is read back as the lowest forty bits of the
/// number it was written from; for an id, that is the id itself.
pub proof fn lemma_code_round_trip(nr: u64)
    ensures
        number_of(code_of(nr)) == Some(nr & ID_MASK),
        nr <= ID_MASK ==> number_of(code_of(nr)) == Some(nr),
{
    let code = code_of(nr);
    let v0 = nr & 31;
    let v1 = (nr >> 5) & 31;
    let v2 = (nr >> 10) & 31;
    let v3 = (nr >> 15) & 31;
    let v4 = (nr >> 20) & 31;
    let v5 = (nr >> 25) & 31;
    let v6 = (nr >> 30) & 31;
    let v7 = (nr >> 35) & 31;
    assert(v0 < 32 && v1 < 32 && v2 < 32 && v3 < 32 && v4 < 32 && v5 < 32 && v6 < 32 && v7 < 32)
        by (bit_vector)
        requires
            v0 == nr & 31,
            v1 == (nr >> 5) & 31,
            v2 == (nr >> 10) & 31,
            v3 == (nr >> 15) & 31,
            v4 == (nr >> 20) & 31,
            v5 == (nr >> 25) & 31,
            v6 == (nr >> 30) & 31,
            v7 == (nr >> 35) & 31,
    ;
    assert(nr >> 0 == nr) by (bit_vector);
    lemma_symbol_round_trip(v0);
    lemma_symbol_round_trip(v1);
    lemma_symbol_round_trip(v2);
    lemma_symbol_round_trip(v3);
    lemma_symbol_round_trip(v4);
    lemma_symbol_round_trip(v5);
    lemma_symbol_round_trip(v6);
    lemma_symbol_round_trip(v7);
    let c1 = code.subrange(0, 1);
    let c2 = code.subrange(0, 2);
    let c3 = code.subrange(0, 3);
    let c4 = code.subrange(0, 4);
    let c5 = code.subrange(0, 5);
    let c6 = code.subrange(0, 6);
    let c7 = code.subrange(0, 7);
    assert(c1.drop_last() =~= Seq::<char>::empty());
    assert(c2.drop_last() =~= c1);
    assert(c3.drop_last() =~= c2);
    assert(c4.drop_last() =~= c3);
    assert(c5.drop_last() =~= c4);
    assert(c6.drop_last() =~= c5);
    assert(c7.drop_last() =~= c6);
    assert(code.drop_last() =~= c7);
    assert(spelled(Seq::<char>::empty()) == Some(0u64));
    let n1 = 0u64 | (v0 << 0);
    assert(spelled(c1) == Some(n1));
    let n2 = n1 | (v1 << 5);
    assert(spelled(c2) == Some(n2));
    let n3 = n2 | (v2 << 10);
    assert(spelled(c3) == Some(n3));
    let n4 = n3 | (v3 << 15);
    assert(spelled(c4) == Some(n4));
    let n5 = n4 | (v4 << 20);
    assert(spelled(c5) == Some(n5));
    let n6 = n5 | (v5 << 25);
    assert(spelled(c6) == Some(n6));
    let n7 = n6 | (v6 << 30);
    assert(spelled(c7) == Some(n7));
    let n8 = n7 | (v7 << 35);
    assert(spelled(code) == Some(n8));
    assert(n8 == nr & 0xFF_FFFF_FFFF) by (bit_vector)
        requires
            n8 == (((((((0u64 | ((nr & 31) << 0)) | (((nr >> 5) & 31) << 5)) | (((nr >> 10) & 31)
                << 10)) | (((nr >> 15) & 31) << 15)) | (((nr >> 20) & 31) << 20)) | (((nr >> 25)
                & 31) << 25)) | (((nr >> 30) & 31) << 30)) | (((nr >> 35) & 31) << 35),
    ;
    assert(nr <= 0xFF_FFFF_FFFF ==> nr & 0xFF_FFFF_FFFF == nr) by (bit_vector);
}

/// A round never leaves its half of the id.
pub proof fn lemma_round_in_half(nr: u64, round: u64)
    ensures
        round_of(nr, round) <= BITMASK,
{
    let x = (nr ^ ((65521 + round * 3) as u64)).wrapping_add(11);
    assert((x << 1) & 0xF_FFFF <= 0xF_FFFF) by (bit_vector);
}

/// Halves that fit their twenty bits still do after any number of rounds.
pub proof fn lemma_rounds_in_half(left: u64, right: u64, n: nat)
    requires
        left <= BITMASK,
        right <= BITMASK,
    ensures
        rounds_forward(left, right, n).0 <= BITMASK,
        rounds_forward(left, right, n).1 <= BITMASK,
    decreases n,
{
    if n > 0 {
        lemma_rounds_in_half(left, right, (n - 1) as nat);
        let (l, r) = rounds_forward(left, right, (n - 1) as nat);
        let f = round_of(r, (n - 1) as u64);
        lemma_round_in_half(r, (n - 1) as u64);
        assert(l ^ f <= 0xF_FFFF) by (bit_vector)
            requires
                l <= 0xF_FFFF,
                f <= 0xF_FFFF,
        ;
    }
}

/// The rounds of the cipher can be undone, last round first.
pub proof fn lemma_rounds_undone(left: u64, right: u64, n: nat)
    ensures
        rounds_backward(
            rounds_forward(left, right, n).0,
            rounds_forward(left, right, n).1,
            n,
        ) == (left, right),
    decreases n,
{
    if n > 0 {
        lemma_rounds_undone(left, right, (n - 1) as nat);
        let (l, r) = rounds_forward(left, right, (n - 1) as nat);
        let f = round_of(r, (n - 1) as u64);
        assert((l ^ f) ^ f == l) by (bit_vector);
    }
}

/// The cipher is a permutation of the ids: what it made of a counter gives
/// the counter back, as long as counter and seed fit an id.
pub proof fn lemma_crypt_undone(seed: u64, nr: u64)
    requires
        seed <= ID_MASK,
        nr <= ID_MASK,
    ensures
        crypt_of(seed, nr) <= ID_MASK,
        decrypt_of(seed, crypt_of(seed, nr)) == nr,
{
    let mixed = nr ^ seed;
    let l0 = mixed >> 20;
    let r0 = mixed & 0xF_FFFF;
    assert(l0 <= 0xF_FFFF && r0 <= 0xF_FFFF && ((l0 << 20) | r0) ^ seed == nr) by (bit_vector)
        requires
            seed <= 0xFF_FFFF_FFFF,
            nr <= 0xFF_FFFF_FFFF,
            mixed == nr ^ seed,
            l0 == mixed >> 20,
            r0 == mixed & 0xF_FFFF,
    ;
    lemma_rounds_in_half(l0, r0, ROUNDS as nat);
    lemma_rounds_undone(l0, r0, ROUNDS as nat);
    let (l, r) = rounds_forward(l0, r0, ROUNDS as nat);
    let id = l | (r << 20);
    assert(id <= 0xFF_FFFF_FFFF && id & 0xF_FFFF == l && id >> 20 == r) by (bit_vector)
        requires
            l <= 0xF_FFFF,
            r <= 0xF_FFFF,
            id == l | (r << 20),
    ;
}

/// Two counters never get the same id, as long as they and the seed fit one.
pub proof fn lemma_crypt_injective(seed: u64, a: u64, b: u64)
    requires
        seed <= ID_MASK,
        a <= ID_MASK,
        b <= ID_MASK,
        crypt_of(seed, a) == crypt_of(seed, b),
    ensures
        a == b,
{
    lemma_crypt_undone(seed, a);
    lemma_crypt_undone(seed, b);
}

/// `String::push` of std: the text grows by the one character given. This
/// is assumed of std, not proved here.
#[verifier::external_body]
fn push_char(text: &mut String, c: char)
    ensures
        final(text)@ == old(text)@.push(c),
{
    text.push(c)
}

/// Round function in cipher for room id.
fn round(nr: u64, index: u64) -> (out: u64)
    requires
        index < ROUNDS,
    ensures
        out == round_of(nr, index),
{
    ((nr ^ (65521 + index * 3)).wrapping_add(11) << 1) & BITMASK
}

/// The five bits that the byte `symbol` stands for, if it is a symbol.
fn symbol_value(symbol: u8) -> (value: Option<u64>)
    ensures
        value == value_of(symbol),
{
    let mut k: usize = 0;
    while k < 32
        invariant
            k <= 32,
            forall|j: int| 0 <= j < k ==> ALPHABET@[j] != symbol,
        decreases 32 - k,
    {
        if ALPHABET[k] == symbol {
            proof {
                lemma_alphabet_distinct();
            }
            return Some(k as u64);
        }
        k += 1;
    }
    None
}

/// Transform a number to a string code.
pub fn code_to_str(nr: u64) -> (code: String)
    ensures
        code@ == code_of(nr),
{
    let mut s = String::new();
    let mut rest = nr;
    let mut i: usize = 0;
    assert(nr >> 0 == nr) by (bit_vector);
    while i < CODE_LEN
        invariant
            i <= CODE_LEN,
            rest == nr >> ((5 * i) as u64),
            s@ == code_of(nr).subrange(0, i as int),
        decreases CODE_LEN - i,
    {
        let value = rest & 31;
        assert(value < 32) by (bit_vector)
            requires
                value == rest & 31,
        ;
        let next = rest >> 5;
        assert(next == nr >> ((5 * (i + 1)) as u64)) by (bit_vector)
            requires
                i < 8,
                rest == nr >> ((5 * i) as u64),
                next == rest >> 5,
        ;
        push_char(&mut s, ALPHABET[value as usize] as char);
        rest = next;
        i += 1;
    }
    s
}

/// Transform a string code to a number.
pub fn str_to_code(s: &str) -> (nr: Option<u64>)
    ensures
        nr == number_of(s@),
{
    let len = s.unicode_len();
    if len != CODE_LEN {
        return None;
    }
    let mut nr: u64 = 0;
    let mut i: usize = 0;
    while i < len
        invariant
            len == s@.len(),
            len == CODE_LEN,
            i <= len,
            spelled(s@.subrange(0, i as int)) == Some(nr),
        decreases len - i,
    {
        let c = s.get_char(i);
        proof {
            let upto = s@.subrange(0, i + 1);
            assert(upto.drop_last() =~= s@.subrange(0, i as int));
            assert(upto.last() == c);
        }
        let value = if (c as u32) < 128 {
            symbol_value(c as u8)
        } else {
            None
        };
        match value {
            Some(value) => {
                nr = nr | (value << ((5 * i) as u64));
            },
            None => {
                proof {
                    lemma_bad_prefix(s@, i as int + 1);
                }
                return None;
            },
        }
        i += 1;
    }
    assert(s@.subrange(0, len as int) =~= s@);
    Some(nr)
}

/// A text with a prefix that spells no number spells none.
proof fn lemma_bad_prefix(code: Seq<char>, upto: int)
    requires
        0 <= upto <= code.len(),
        spelled(code.subrange(0, upto)) is None,
    ensures
        spelled(code) is None,
    decreases code.len() - upto,
{
    if upto < code.len() {
        let longer = code.subrange(0, upto + 1);
        assert(longer.drop_last() =~= code.subrange(0, upto));
        lemma_bad_prefix(code, upto + 1);
    } else {
        assert(code.subrange(0, upto) =~= code);
    }
}

/// The directory as a plain value.
pub struct Directory<R> {
    /// The rooms that wait for their match, by id.
    pub waiting: Map<RoomId, R>,
    /// The rooms whose match runs, by id.
    pub playing: Map<RoomId, R>,
    /// How many rooms each address answers for. No address stands at zero.
    pub creations: Map<u128, u32>,
    /// The counter that the next room's id is made from.
    pub next_room_counter: u64,
    /// The seed of the cipher.
    pub seed: u64,
}

impl<R> Directory<R> {
    /// Whether `ip` may create one more room: `force` overrides the limit.
    pub open spec fn may_create(self, ip: u128, force: bool) -> bool {
        force || !self.creations.contains_key(ip) || self.creations[ip]
            < MAX_ROOM_CREATIONS_PER_IP
    }

    /// The creations after one more room was counted for `ip`. The count
    /// stops at the greatest number it can hold.
    pub open spec fn counted(self, ip: u128) -> Map<u128, u32> {
        if !self.creations.contains_key(ip) || self.creations[ip] == 0 {
            self.creations.insert(ip, 1)
        } else if self.creations[ip] < u32::MAX {
            self.creations.insert(ip, (self.creations[ip] + 1) as u32)
        } else {
            self.creations
        }
    }

    /// The creations after the owner of a room at `ip` left: one room less,
    /// and no entry at all once none is left.
    pub open spec fn uncounted(self, ip: u128) -> Map<u128, u32> {
        if !self.creations.contains_key(ip) {
            self.creations
        } else if self.creations[ip] <= 1 {
            self.creations.remove(ip)
        } else {
            self.creations.insert(ip, (self.creations[ip] - 1) as u32)
        }
    }

    /// The id that the next room gets.
    pub open spec fn next_id(self) -> RoomId {
        crypt_of(self.seed, self.next_room_counter)
    }

    /// Whether a room goes by the id given.
    pub open spec fn has_room(self, id: RoomId) -> bool {
        self.waiting.contains_key(id) || self.playing.contains_key(id)
    }

    /// Whether the ids are in order: seed and counter fit an id, and every
    /// room goes by the id made from a counter that is already used up.
    pub open spec fn ids_in_order(self) -> bool {
        &&& self.seed <= ID_MASK
        &&& self.next_room_counter <= ID_MASK
        &&& forall|id: RoomId|
            self.has_room(id) ==> exists|k: u64|
                k < self.next_room_counter && id == #[trigger] crypt_of(self.seed, k)
    }

    /// No address stands at zero.
    pub open spec fn counts_positive(self) -> bool {
        forall|ip: u128| self.creations.contains_key(ip) ==> #[trigger] self.creations[ip] >= 1
    }
}

/// While the ids are in order, the next room's id names no room yet.
pub proof fn lemma_next_id_is_free<R>(directory: Directory<R>)
    requires
        directory.ids_in_order(),
    ensures
        !directory.has_room(directory.next_id()),
{
    let id = directory.next_id();
    if directory.has_room(id) {
        let k = choose|k: u64|
            k < directory.next_room_counter && id == #[trigger] crypt_of(directory.seed, k);
        lemma_crypt_injective(directory.seed, k, directory.next_room_counter);
    }
}

/// Ids stay in order as long as no room appears and seed and counter stay.
proof fn lemma_ids_kept<R>(before: Directory<R>, after: Directory<R>)
    requires
        before.ids_in_order(),
        after.seed == before.seed,
        after.next_room_counter == before.next_room_counter,
        forall|id: RoomId| after.has_room(id) ==> before.has_room(id),
    ensures
        after.ids_in_order(),
{
    assert forall|id: RoomId| after.has_room(id) implies exists|k: u64|
        k < after.next_room_counter && id == #[trigger] crypt_of(after.seed, k) by {
        assert(before.has_room(id));
    }
}

/// The rooms of the server. `R` is what the directory keeps of each room.
pub struct RoomManager<R> {
    rooms: HashMap<RoomId, R>,
    playing_rooms: HashMap<RoomId, R>,
    ip_count: HashMap<u128, u32>,
    next_room_counter: RoomId,
    xor_thing: u64,
}

impl<R> View for RoomManager<R> {
    type V = Directory<R>;

    closed spec fn view(&self) -> Directory<R> {
        Directory {
            waiting: self.rooms@,
            playing: self.playing_rooms@,
            creations: self.ip_count@,
            next_room_counter: self.next_room_counter,
            seed: self.xor_thing,
        }
    }
}

impl<R> RoomManager<R> {
    /// Creates a new RoomManager: no rooms, the counter at zero.
    pub fn new(seed: u64) -> (manager: Self)
        ensures
            manager@ == (Directory::<R> {
                waiting: Map::empty(),
                playing: Map::empty(),
                creations: Map::empty(),
                next_room_counter: 0,
                seed,
            }),
            seed <= ID_MASK ==> manager@.ids_in_order(),
    {
        Self {
            rooms: HashMap::new(),
            playing_rooms: HashMap::new(),
            ip_count: HashMap::new(),
            next_room_counter: 0,
            xor_thing: seed,
        }
    }

    /// Transform counter to room id using Feistel cipher.
    pub fn crypt(&self, nr: u64) -> (id: u64)
        ensures
            id == crypt_of(self@.seed, nr),
    {
        let mixed = nr ^ self.xor_thing;
        let mut left = mixed >> HALF_BITS;
        let mut right = mixed & BITMASK;
        let mut i: u64 = 0;
        while i < ROUNDS
            invariant
                i <= ROUNDS,
                (left, right) == rounds_forward(mixed >> HALF_BITS, mixed & BITMASK, i as nat),
            decreases ROUNDS - i,
        {
            let swapped = left ^ round(right, i);
            left = right;
            right = swapped;
            i += 1;
        }
        left | (right << HALF_BITS)
    }

    /// Increase count for an IP. Refused, with nothing changed, where the
    /// address already answers for as many rooms as one may create and
    /// `force` is not set.
    pub fn increase_count(&mut self, ip: u128, force: bool) -> (counted: Result<
        (),
        RoomSpawnFailReason,
    >)
        ensures
            counted is Ok <==> old(self)@.may_create(ip, force),
            counted is Ok ==> final(self)@ == (Directory {
                creations: old(self)@.counted(ip),
                ..old(self)@
            }),
            counted is Err ==> final(self)@ == old(self)@,
            old(self)@.counts_positive() ==> final(self)@.counts_positive(),
            old(self)@.ids_in_order() ==> final(self)@.ids_in_order(),
    {
        let count = match self.ip_count.get(&ip) {
            Some(count) => *count,
            None => 0,
        };
        if count > 0 {
            if !force && count >= MAX_ROOM_CREATIONS_PER_IP {
                return Err(RoomSpawnFailReason::TooManyFromSameIp);
            }
            if count < u32::MAX {
                self.ip_count.insert(ip, count + 1);
            }
        } else {
            self.ip_count.insert(ip, 1);
        }
        proof {
            if old(self)@.ids_in_order() {
                lemma_ids_kept(old(self)@, self@);
            }
        }
        Ok(())
    }

    /// Spawns a new room: counts it for `creator`, gives it the next id and
    /// enters it among the waiting rooms. Returns the room's code and id.
    /// Refused, with nothing changed, where `creator` may create no more.
    pub fn spawn(&mut self, creator: u128, room: R) -> (spawned: Result<
        (String, RoomId),
        RoomSpawnFailReason,
    >)
        ensures
            spawned is Ok <==> old(self)@.may_create(creator, false),
            spawned is Err ==> final(self)@ == old(self)@,
            match spawned {
                Ok((code, id)) => {
                    &&& id == old(self)@.next_id()
                    &&& code@ == code_of(id)
                    &&& final(self)@ == (Directory {
                        waiting: old(self)@.waiting.insert(id, room),
                        creations: old(self)@.counted(creator),
                        next_room_counter: old(self)@.next_room_counter.wrapping_add(1),
                        ..old(self)@
                    })
                },
                Err(_) => true,
            },
            old(self)@.counts_positive() ==> final(self)@.counts_positive(),
            spawned is Ok && old(self)@.ids_in_order() ==> !old(self)@.has_room(spawned->Ok_0.1),
            old(self)@.ids_in_order() && old(self)@.next_room_counter < ID_MASK
                ==> final(self)@.ids_in_order(),
    {
        match self.increase_count(creator, false) {
            Ok(()) => {},
            Err(reason) => {
                return Err(reason);
            },
        }
        let counter = self.next_room_counter;
        let id = self.crypt(counter);
        proof {
            if old(self)@.ids_in_order() {
                lemma_next_id_is_free(old(self)@);
            }
        }
        self.next_room_counter = self.next_room_counter.wrapping_add(1);
        self.rooms.insert(id, room);
        proof {
            if old(self)@.ids_in_order() && counter < ID_MASK {
                assert forall|other: RoomId| self@.has_room(other) implies exists|k: u64|
                    k < self@.next_room_counter && other == #[trigger] crypt_of(
                        self@.seed,
                        k,
                    ) by {
                    if other == id {
                        assert(counter < self@.next_room_counter && other == crypt_of(
                            self@.seed,
                            counter,
                        ));
                    } else {
                        assert(old(self)@.has_room(other));
                    }
                }
            }
        }
        Ok((code_to_str(id), id))
    }

    /// List rooms: the code and the id of every waiting room, each once,
    /// in no particular order.
    pub fn list(&self) -> (listed: Vec<(String, RoomId)>)
        ensures
            listed@.len() == self@.waiting.dom().len(),
            forall|i: int|
                0 <= i < listed@.len() ==> self@.waiting.contains_key((#[trigger] listed@[i]).1)
                    && listed@[i].0@ == code_of(listed@[i].1),
            forall|id: RoomId|
                self@.waiting.contains_key(id) ==> exists|i: int|
                    0 <= i < listed@.len() && (#[trigger] listed@[i]).1 == id,
            forall|i: int, j: int|
                0 <= i < j < listed@.len() ==> listed@[i].1 != listed@[j].1,
    {
        let mut listed: Vec<(String, RoomId)> = Vec::new();
        let ghost keys = vstd::std_specs::hash::spec_keys_iter(&self.rooms).remaining();
        for id in iter: self.rooms.keys()
            invariant
                iter.seq() == keys,
                listed@.len() == iter.index(),
                forall|j: int|
                    0 <= j < listed@.len() ==> (#[trigger] listed@[j]).1 == *iter.seq()[j]
                        && listed@[j].0@ == code_of(listed@[j].1),
        {
            listed.push((code_to_str(*id), *id));
        }
        proof {
            let ids = keys.unref();
            assert forall|i: int| 0 <= i < listed@.len() implies self@.waiting.contains_key(
                (#[trigger] listed@[i]).1,
            ) by {
                assert(ids.to_set().contains(ids[i]));
            }
            assert forall|id: RoomId| self@.waiting.contains_key(id) implies exists|i: int|
                0 <= i < listed@.len() && (#[trigger] listed@[i]).1 == id by {
                let i = choose|i: int| 0 <= i < ids.len() && ids[i] == id;
                assert(listed@[i].1 == id);
            }
        }
        listed
    }

    /// What is kept of the waiting room with the given id.
    pub fn room(&self, id: RoomId) -> (room: Option<&R>)
        ensures
            room == if self@.waiting.contains_key(id) {
                Some(&self@.waiting[id])
            } else {
                None
            },
    {
        self.rooms.get(&id)
    }

    /// Gets what is kept of the waiting room that `room_id` names.
    pub fn get_tx(&self, room_id: &str) -> (room: Option<&R>)
        ensures
            room == match number_of(room_id@) {
                Some(id) => if self@.waiting.contains_key(id) {
                    Some(&self@.waiting[id])
                } else {
                    None
                },
                None => None,
            },
    {
        match str_to_code(room_id) {
            Some(id) => self.rooms.get(&id),
            None => None,
        }
    }

    /// Mark a room as playing: a waiting room moves to the playing ones.
    pub fn mark_as_playing(&mut self, id: RoomId) -> (moved: bool)
        ensures
            moved == old(self)@.waiting.contains_key(id),
            moved ==> final(self)@ == (Directory {
                waiting: old(self)@.waiting.remove(id),
                playing: old(self)@.playing.insert(id, old(self)@.waiting[id]),
                ..old(self)@
            }),
            !moved ==> final(self)@ == old(self)@,
            old(self)@.ids_in_order() ==> final(self)@.ids_in_order(),
    {
        let moved = match self.rooms.remove(&id) {
            Some(room_data) => {
                self.playing_rooms.insert(id, room_data);
                true
            },
            None => {
                assert(self@.waiting =~= old(self)@.waiting);
                false
            },
        };
        proof {
            if old(self)@.ids_in_order() {
                lemma_ids_kept(old(self)@, self@);
            }
        }
        moved
    }

    /// Unmark a room as playing: a playing room moves back to the waiting
    /// ones.
    pub fn unmark_as_playing(&mut self, id: RoomId)
        ensures
            old(self)@.playing.contains_key(id) ==> final(self)@ == (Directory {
                waiting: old(self)@.waiting.insert(id, old(self)@.playing[id]),
                playing: old(self)@.playing.remove(id),
                ..old(self)@
            }),
            !old(self)@.playing.contains_key(id) ==> final(self)@ == old(self)@,
            old(self)@.ids_in_order() ==> final(self)@.ids_in_order(),
    {
        match self.playing_rooms.remove(&id) {
            Some(room_data) => {
                self.rooms.insert(id, room_data);
            },
            None => {
                assert(self@.playing =~= old(self)@.playing);
            },
        }
        proof {
            if old(self)@.ids_in_order() {
                lemma_ids_kept(old(self)@, self@);
            }
        }
    }

    /// Removes a room: from the waiting rooms if it is there, else from the
    /// playing ones.
    pub fn remove(&mut self, id: RoomId)
        ensures
            old(self)@.waiting.contains_key(id) ==> final(self)@ == (Directory {
                waiting: old(self)@.waiting.remove(id),
                ..old(self)@
            }),
            !old(self)@.waiting.contains_key(id) ==> final(self)@ == (Directory {
                playing: old(self)@.playing.remove(id),
                ..old(self)@
            }),
            old(self)@.ids_in_order() ==> final(self)@.ids_in_order(),
    {
        if self.rooms.remove(&id).is_none() {
            assert(self@.waiting =~= old(self)@.waiting);
            self.playing_rooms.remove(&id);
        }
        proof {
            if old(self)@.ids_in_order() {
                lemma_ids_kept(old(self)@, self@);
            }
        }
    }

    /// Owner leaves a room, update IP counts.
    pub fn owner_leave(&mut self, ip: u128)
        ensures
            final(self)@ == (Directory { creations: old(self)@.uncounted(ip), ..old(self)@ }),
            old(self)@.counts_positive() ==> final(self)@.counts_positive(),
            old(self)@.ids_in_order() ==> final(self)@.ids_in_order(),
    {
        let count = match self.ip_count.get(&ip) {
            Some(count) => *count,
            None => 0,
        };
        if count > 1 {
            self.ip_count.insert(ip, count - 1);
        } else {
            self.ip_count.remove(&ip);
        }
        assert(self@.creations =~= old(self)@.uncounted(ip));
        proof {
            if old(self)@.ids_in_order() {
                lemma_ids_kept(old(self)@, self@);
            }
        }
    }

    /// Gets the number of playing rooms.
    pub fn playing_rooms(&self) -> (count: usize)
        ensures
            count == self@.playing.len(),
    {
        self.playing_rooms.len()
    }

    /// How many rooms `ip` answers for.
    pub fn count_of(&self, ip: u128) -> (count: u32)
        ensures
            count == if self@.creations.contains_key(ip) {
                self@.creations[ip]
            } else {
                0
            },
    {
        match self.ip_count.get(&ip) {
            Some(count) => *count,
            None => 0,
        }
    }
}

} // verus!
