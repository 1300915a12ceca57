use rand_chacha::ChaCha8Rng;
use vstd::prelude::*;
use vstd::std_specs::bits::{
    axiom_u32_leading_zeros, axiom_u64_leading_zeros, u32_leading_zeros, u64_leading_zeros,
};

verus! {

/// How many 32-bit words a stream has before it starts over: two to the power of 68.
pub open spec fn stream_words() -> nat {
    0x10_0000_0000_0000_0000
}

/// How often `get_u32` and `get_u64` draw before they stop looking for a word within the
/// range.
pub const MAX_ATTEMPTS: u64 = 0xFFFF_FFFF_FFFF_FFFF;

/// The ChaCha generator with 8 rounds of the `rand_chacha` crate. Nothing is known of what is
/// inside it but what the names below say.
#[verifier::external_type_specification]
#[verifier::external_body]
pub struct ExChaCha8Rng(ChaCha8Rng);

/// The key of a generator: the 32 bytes that `ChaCha8Rng::get_seed` gives.
pub uninterp spec fn rng_key(rng: ChaCha8Rng) -> Seq<u8>;

/// The stream of a generator: what `ChaCha8Rng::get_stream` gives.
pub uninterp spec fn rng_stream(rng: ChaCha8Rng) -> u64;

/// The place of a generator in its stream, counted in 32-bit words: what
/// `ChaCha8Rng::get_word_pos` gives.
pub uninterp spec fn rng_word_pos(rng: ChaCha8Rng) -> nat;

/// The key that `SeedableRng::seed_from_u64` spreads a 64-bit seed into.
pub uninterp spec fn seeded_key(seed: u64) -> Seq<u8>;

/// The 32-bit word that ChaCha with 8 rounds puts at place `position` of stream `stream`
/// under `key`.
pub uninterp spec fn chacha8_word(key: Seq<u8>, stream: u64, position: nat) -> u32;

/// Calls `ChaCha8Rng::seed_from_u64`.
///
/// Trusted: the new generator has the key that the seed is spread into, and stands at the
/// start of stream zero.
#[verifier::external_body]
fn chacha8_seeded(seed: u64) -> (rng: ChaCha8Rng)
    ensures
        rng_key(rng) == seeded_key(seed),
        rng_stream(rng) == 0,
        rng_word_pos(rng) == 0,
{
    <ChaCha8Rng as rand::SeedableRng>::seed_from_u64(seed)
}

/// Calls `ChaCha8Rng::set_word_pos`.
///
/// Trusted: the generator moves to the given place, of which only the low 68 bits count;
/// key and stream stay.
#[verifier::external_body]
fn chacha8_set_word_pos(rng: &mut ChaCha8Rng, word_offset: u128)
    ensures
        rng_key(*final(rng)) == rng_key(*old(rng)),
        rng_stream(*final(rng)) == rng_stream(*old(rng)),
        rng_word_pos(*final(rng)) == word_offset as nat % stream_words(),
{
    rng.set_word_pos(word_offset)
}

/// Calls `ChaCha8Rng::set_stream`.
///
/// Trusted: the generator moves to the given stream; key and place stay.
#[verifier::external_body]
fn chacha8_set_stream(rng: &mut ChaCha8Rng, stream: u64)
    ensures
        rng_key(*final(rng)) == rng_key(*old(rng)),
        rng_stream(*final(rng)) == stream,
        rng_word_pos(*final(rng)) == rng_word_pos(*old(rng)),
{
    rng.set_stream(stream)
}

/// Calls `RngCore::next_u32` on a `ChaCha8Rng`.
///
/// Trusted: the result is the word at the generator's place, and the generator moves one
/// word on.
#[verifier::external_body]
fn chacha8_next_u32(rng: &mut ChaCha8Rng) -> (word: u32)
    ensures
        word == chacha8_word(rng_key(*old(rng)), rng_stream(*old(rng)), rng_word_pos(*old(rng))),
        rng_key(*final(rng)) == rng_key(*old(rng)),
        rng_stream(*final(rng)) == rng_stream(*old(rng)),
        rng_word_pos(*final(rng)) == (rng_word_pos(*old(rng)) + 1) % stream_words(),
{
    rand::RngCore::next_u32(rng)
}

/// Calls `RngCore::next_u64` on a `ChaCha8Rng`.
///
/// Trusted: the result is made of the word at the generator's place, as its low half, and
/// the word after it, as its high half; the generator moves two words on.
#[verifier::external_body]
fn chacha8_next_u64(rng: &mut ChaCha8Rng) -> (word: u64)
    ensures
        word == join_words(
            chacha8_word(rng_key(*old(rng)), rng_stream(*old(rng)), rng_word_pos(*old(rng))),
            chacha8_word(
                rng_key(*old(rng)),
                rng_stream(*old(rng)),
                (rng_word_pos(*old(rng)) + 1) % stream_words(),
            ),
        ),
        rng_key(*final(rng)) == rng_key(*old(rng)),
        rng_stream(*final(rng)) == rng_stream(*old(rng)),
        rng_word_pos(*final(rng)) == (rng_word_pos(*old(rng)) + 2) % stream_words(),
{
    rand::RngCore::next_u64(rng)
}

/// `Clone::clone` of a `ChaCha8Rng`.
///
/// Trusted: the copy has the key, the stream and the place of the generator it was made
/// from.
pub assume_specification[ <ChaCha8Rng as Clone>::clone ](rng: &ChaCha8Rng) -> (copy: ChaCha8Rng)
    ensures
        rng_key(copy) == rng_key(*rng),
        rng_stream(copy) == rng_stream(*rng),
        rng_word_pos(copy) == rng_word_pos(*rng),
;

/// The 64-bit word with `low` as its low half and `high` as its high half.
pub open spec fn join_words(low: u32, high: u32) -> u64 {
    ((high as u64) << 32) | (low as u64)
}

/// What decides every later draw of a generator: its key, its stream and its place in the
/// stream.
pub struct RandState {
    pub key: Seq<u8>,
    pub stream: u64,
    pub word_pos: nat,
}

impl RandState {
    /// This state moved `words` words on.
    pub open spec fn skip(self, words: nat) -> RandState {
        RandState { word_pos: (self.word_pos + words) % stream_words(), ..self }
    }

    /// This state moved to place `word_offset` of its stream, of which only the low 68 bits
    /// count.
    pub open spec fn at_word(self, word_offset: u128) -> RandState {
        RandState { word_pos: word_offset as nat % stream_words(), ..self }
    }

    /// This state moved to stream `stream`, at the same place.
    pub open spec fn on_stream(self, stream: u64) -> RandState {
        RandState { stream, ..self }
    }

    /// The 32-bit word that is drawn next.
    pub open spec fn word(self) -> u32 {
        chacha8_word(self.key, self.stream, self.word_pos)
    }

    /// The 64-bit word that is drawn next.
    pub open spec fn double_word(self) -> u64 {
        join_words(self.word(), self.skip(1).word())
    }
}

/// The mask that a draw below `max_value + 1` is cut down with: ones from the highest bit
/// of `max_value` down, and at least one.
pub open spec fn mask_u32(max_value: u32) -> u32 {
    0xFFFF_FFFFu32 >> u32_leading_zeros(max_value | 1)
}

/// The mask that a draw below `max_value + 1` is cut down with: ones from the highest bit
/// of `max_value` down, and at least one.
pub open spec fn mask_u64(max_value: u64) -> u64 {
    0xFFFF_FFFF_FFFF_FFFFu64 >> (u64_leading_zeros(max_value | 1) as u64)
}

/// What one raw word gives for a draw below `range`: the word cut down with the mask, where
/// that lies below `range`.
pub open spec fn spec_bounded_u32(word: u32, range: u32) -> Option<u32> {
    let max_value = (range - 1) as u32;
    let attempt = word & mask_u32(max_value);
    if attempt <= max_value {
        Some(attempt)
    } else {
        None
    }
}

/// What one raw word gives for a draw below `range`: the word cut down with the mask, where
/// that lies below `range`.
pub open spec fn spec_bounded_u64(word: u64, range: u64) -> Option<u64> {
    let max_value = (range - 1) as u64;
    let attempt = word & mask_u64(max_value);
    if attempt <= max_value {
        Some(attempt)
    } else {
        None
    }
}

/// The draw below `range` from `state`, and the state after it: the first of the next
/// `attempts` words that gives a value below `range`; where none of them does, the last of
/// them cut down to the bits of `range - 1`.
pub open spec fn draw_u32(state: RandState, range: u32, attempts: nat) -> (u32, RandState)
    decreases attempts,
{
    match spec_bounded_u32(state.word(), range) {
        Some(value) => (value, state.skip(1)),
        None => if attempts <= 1 {
            (state.word() & (range - 1) as u32, state.skip(1))
        } else {
            draw_u32(state.skip(1), range, (attempts - 1) as nat)
        },
    }
}

/// The draw below `range` from `state`, and the state after it: the first of the next
/// `attempts` double words that gives a value below `range`; where none of them does, the
/// last of them cut down to the bits of `range - 1`.
pub open spec fn draw_u64(state: RandState, range: u64, attempts: nat) -> (u64, RandState)
    decreases attempts,
{
    match spec_bounded_u64(state.double_word(), range) {
        Some(value) => (value, state.skip(2)),
        None => if attempts <= 1 {
            (state.double_word() & (range - 1) as u64, state.skip(2))
        } else {
            draw_u64(state.skip(2), range, (attempts - 1) as nat)
        },
    }
}

/// The sum of `num` throws of a die with `sides` sides from `state`, and the state after
/// them.
pub open spec fn roll_total(state: RandState, num: nat, sides: u32) -> (int, RandState)
    decreases num,
{
    if num == 0 {
        (0, state)
    } else {
        let (value, next) = draw_u32(state, sides, MAX_ATTEMPTS as nat);
        let (rest, last) = roll_total(next, (num - 1) as nat, sides);
        (value + 1 + rest, last)
    }
}

/// A generator of random bits that can be moved to any place of any of its streams.
#[derive(Debug)]
pub struct StatefulRand {
    inner_rng: ChaCha8Rng,
}

impl Clone for StatefulRand {
    fn clone(&self) -> (copy: Self)
        ensures
            copy@ == self@,
    {
        Self { inner_rng: self.inner_rng.clone() }
    }
}

impl View for StatefulRand {
    type V = RandState;

    closed spec fn view(&self) -> RandState {
        RandState {
            key: rng_key(self.inner_rng),
            stream: rng_stream(self.inner_rng),
            word_pos: rng_word_pos(self.inner_rng),
        }
    }
}

impl StatefulRand {
    pub fn from_seed(seed: u64) -> (rand: Self)
        ensures
            rand@ == (RandState { key: seeded_key(seed), stream: 0, word_pos: 0 }),
    {
        Self { inner_rng: chacha8_seeded(seed) }
    }

    pub fn set_word_pos(&mut self, word_offset: u128)
        ensures
            final(self)@ == old(self)@.at_word(word_offset),
    {
        chacha8_set_word_pos(&mut self.inner_rng, word_offset)
    }

    pub fn set_stream(&mut self, stream: u64)
        ensures
            final(self)@ == old(self)@.on_stream(stream),
    {
        chacha8_set_stream(&mut self.inner_rng, stream)
    }

    pub fn next_u32(&mut self) -> (word: u32)
        ensures
            word == old(self)@.word(),
            final(self)@ == old(self)@.skip(1),
    {
        chacha8_next_u32(&mut self.inner_rng)
    }

    pub fn next_u64(&mut self) -> (word: u64)
        ensures
            word == old(self)@.double_word(),
            final(self)@ == old(self)@.skip(2),
    {
        chacha8_next_u64(&mut self.inner_rng)
    }

    /// One attempt at a draw below `range` from the raw word `word`.
    pub fn bounded_u32(word: u32, range: u32) -> (value: Option<u32>)
        requires
            range > 0,
        ensures
            value == spec_bounded_u32(word, range),
            value matches Some(v) ==> v < range,
    {
        let max_value = range - 1;
        proof {
            axiom_u32_leading_zeros(max_value | 1);
            assert(max_value | 1 != 0) by (bit_vector);
        }
        let mask = 0xFFFF_FFFF_u32 >> (max_value | 1).leading_zeros();
        let attempt = word & mask;

        if attempt <= max_value {
            Some(attempt)
        } else {
            None
        }
    }

    /// One attempt at a draw below `range` from the raw word `word`.
    pub fn bounded_u64(word: u64, range: u64) -> (value: Option<u64>)
        requires
            range > 0,
        ensures
            value == spec_bounded_u64(word, range),
            value matches Some(v) ==> v < range,
    {
        let max_value = range - 1;
        proof {
            axiom_u64_leading_zeros(max_value | 1);
            assert(max_value | 1 != 0) by (bit_vector);
        }
        let mask = 0xFFFF_FFFF_FFFF_FFFF_u64 >> (max_value | 1).leading_zeros();
        let attempt = word & mask;

        if attempt <= max_value {
            Some(attempt)
        } else {
            None
        }
    }

    /// A number below `range`: raw words are drawn until one gives such a number.
    ///
    /// The search ends after `MAX_ATTEMPTS` words. Each word is accepted with a chance above
    /// one half, so this is not met in practice; the last word is then cut down to the bits
    /// of `range - 1`.
    pub fn get_u32(&mut self, range: u32) -> (value: u32)
        requires
            range > 0,
        ensures
            value < range,
            (value, final(self)@) == draw_u32(old(self)@, range, MAX_ATTEMPTS as nat),
    {
        let mut tries: u64 = 1;
        loop
            invariant
                range > 0,
                1 <= tries <= MAX_ATTEMPTS,
                draw_u32(old(self)@, range, MAX_ATTEMPTS as nat) == draw_u32(
                    self@,
                    range,
                    (MAX_ATTEMPTS - tries + 1) as nat,
                ),
            decreases MAX_ATTEMPTS - tries,
        {
            let word = self.next_u32();

            match Self::bounded_u32(word, range) {
                Some(attempt) => {
                    return attempt;
                },
                None => {
                    if tries == MAX_ATTEMPTS {
                        let max_value = range - 1;
                        assert(word & max_value <= max_value) by (bit_vector);
                        return word & max_value;
                    }
                },
            }
            tries += 1;
        }
    }

    /// A number below `range`: raw double words are drawn until one gives such a number.
    ///
    /// The search ends after `MAX_ATTEMPTS` double words. Each is accepted with a chance above
    /// one half, so this is not met in practice; the last one is then cut down to the bits of
    /// `range - 1`.
    pub fn get_u64(&mut self, range: u64) -> (value: u64)
        requires
            range > 0,
        ensures
            value < range,
            (value, final(self)@) == draw_u64(old(self)@, range, MAX_ATTEMPTS as nat),
    {
        let mut tries: u64 = 1;
        loop
            invariant
                range > 0,
                1 <= tries <= MAX_ATTEMPTS,
                draw_u64(old(self)@, range, MAX_ATTEMPTS as nat) == draw_u64(
                    self@,
                    range,
                    (MAX_ATTEMPTS - tries + 1) as nat,
                ),
            decreases MAX_ATTEMPTS - tries,
        {
            let word = self.next_u64();

            match Self::bounded_u64(word, range) {
                Some(attempt) => {
                    return attempt;
                },
                None => {
                    if tries == MAX_ATTEMPTS {
                        let max_value = range - 1;
                        assert(word & max_value <= max_value) by (bit_vector);
                        return word & max_value;
                    }
                },
            }
            tries += 1;
        }
    }

    /// Heads or tails: the lowest bit of the next word.
    pub fn coin_flip(&mut self) -> (heads: bool)
        ensures
            heads == (old(self)@.word() & 1 == 1),
            final(self)@ == old(self)@.skip(1),
    {
        let word = self.next_u32();
        assert(word & 1 == 0 || word & 1 == 1) by (bit_vector);
        word & 1 > 0
    }

    /// Whether a draw below `y` falls below `x`.
    pub fn x_chance_in_y(&mut self, x: u32, y: u32) -> (hit: bool)
        requires
            y > 0,
        ensures
            hit == (draw_u32(old(self)@, y, MAX_ATTEMPTS as nat).0 < x),
            final(self)@ == draw_u32(old(self)@, y, MAX_ATTEMPTS as nat).1,
    {
        self.get_u32(y) < x
    }

    /// The sum of `num` throws of a die with `sides` sides, each from 1 to `sides`. A sum
    /// above the signed range comes out wrapped round.
    pub fn roll(&mut self, num: u32, sides: u32) -> (total: i32)
        requires
            sides > 0,
            num * sides <= u32::MAX,
        ensures
            num <= roll_total(old(self)@, num as nat, sides).0 <= num * sides,
            total == wrapped_i32(roll_total(old(self)@, num as nat, sides).0),
            final(self)@ == roll_total(old(self)@, num as nat, sides).1,
    {
        let mut acc: u32 = 0;
        let mut thrown: u32 = 0;
        while thrown < num
            invariant
                sides > 0,
                thrown <= num,
                num * sides <= u32::MAX,
                thrown <= acc <= thrown * sides,
                roll_total(old(self)@, num as nat, sides).0 == acc + roll_total(
                    self@,
                    (num - thrown) as nat,
                    sides,
                ).0,
                roll_total(old(self)@, num as nat, sides).1 == roll_total(
                    self@,
                    (num - thrown) as nat,
                    sides,
                ).1,
            decreases num - thrown,
        {
            assert((thrown + 1) * sides <= num * sides && (thrown + 1) * sides == thrown * sides
                + sides) by (nonlinear_arith)
                requires
                    thrown < num,
                    sides > 0,
            ;
            let value = self.get_u32(sides);
            acc = acc + value + 1;
            thrown += 1;
        }
        assert(acc as i32 == wrapped_i32(acc as int)) by (bit_vector);
        #[verifier::truncate]
        (acc as i32)
    }
}

/// `value` as a 32-bit signed number holds it: unchanged up to `i32::MAX`, and less two to
/// the power of 32 above.
pub open spec fn wrapped_i32(value: int) -> int {
    if value <= i32::MAX {
        value
    } else {
        value - 0x1_0000_0000
    }
}

/// Where a generator is moved to depends on where it is told to go, and not on where it
/// was: two generators with one key that are sent to the same stream and place, in
/// whichever order, are in the same state.
pub proof fn lemma_reposition_is_reset(a: RandState, b: RandState, stream: u64, word_offset: u128)
    requires
        a.key == b.key,
    ensures
        a.on_stream(stream).at_word(word_offset) == b.at_word(word_offset).on_stream(stream),
        a.on_stream(stream).at_word(word_offset) == (RandState {
            key: a.key,
            stream,
            word_pos: word_offset as nat % stream_words(),
        }),
{
}

/// The mask is sized to the range: it lets every value up to `max_value` through, and it is
/// less than twice as large as `max_value` with its low bit set, so that more than half of
/// all words are accepted. It is made of ones from some bit down.
pub proof fn lemma_mask_sized_to_range(max_value: u32, wide_max: u64)
    ensures
        (max_value | 1) <= mask_u32(max_value) < 2 * (max_value | 1),
        (mask_u32(max_value) as u64) & (mask_u32(max_value) as u64 + 1) as u64 == 0,
        (wide_max | 1) <= mask_u64(wide_max) < 2 * (wide_max | 1),
        (mask_u64(wide_max) as u128) & (mask_u64(wide_max) as u128 + 1) as u128 == 0,
{
    let x = max_value | 1;
    let zeros = u32_leading_zeros(x);
    axiom_u32_leading_zeros(x);
    assert(x != 0) by (bit_vector)
        requires
            x == max_value | 1,
    ;
    let top = (31 - zeros) as u32;
    let above = (32 - zeros) as u32;
    assert(x >> top == 1) by (bit_vector)
        requires
            top < 32,
            above == top + 1,
            (x >> top) & 1 != 0,
            x >> above == 0,
    ;
    let mask = 0xFFFF_FFFFu32 >> zeros;
    assert(x <= mask < 2 * x && (mask as u64) & (mask as u64 + 1) as u64 == 0) by (bit_vector)
        requires
            zeros < 32,
            top == 31 - zeros,
            x >> top == 1,
            mask == 0xFFFF_FFFFu32 >> zeros,
    ;
    let y = wide_max | 1;
    let wide_zeros = u64_leading_zeros(y) as u64;
    axiom_u64_leading_zeros(y);
    assert(y != 0) by (bit_vector)
        requires
            y == wide_max | 1,
    ;
    let wide_top = (63 - wide_zeros) as u64;
    let wide_above = (64 - wide_zeros) as u64;
    assert(y >> wide_top == 1) by (bit_vector)
        requires
            wide_top < 64,
            wide_above == wide_top + 1,
            (y >> wide_top) & 1 != 0,
            y >> wide_above == 0,
    ;
    let wide_mask = 0xFFFF_FFFF_FFFF_FFFFu64 >> wide_zeros;
    assert(y <= wide_mask < 2 * y && (wide_mask as u128) & (wide_mask as u128 + 1) as u128 == 0)
        by (bit_vector)
        requires
            wide_zeros < 64,
            wide_top == 63 - wide_zeros,
            y >> wide_top == 1,
            wide_mask == 0xFFFF_FFFF_FFFF_FFFFu64 >> wide_zeros,
    ;
}

/// Every draw below `range` lies below `range`.
pub proof fn lemma_draw_in_range(state: RandState, range: u32, wide_range: u64, attempts: nat)
    requires
        range > 0,
        wide_range > 0,
    ensures
        draw_u32(state, range, attempts).0 < range,
        draw_u64(state, wide_range, attempts).0 < wide_range,
    decreases attempts,
{
    let word = state.word();
    let max_value = (range - 1) as u32;
    assert(word & max_value <= max_value) by (bit_vector);
    let double_word = state.double_word();
    let wide_max = (wide_range - 1) as u64;
    assert(double_word & wide_max <= wide_max) by (bit_vector);
    if attempts > 1 {
        lemma_draw_in_range(state.skip(1), range, wide_range, (attempts - 1) as nat);
        lemma_draw_in_range(state.skip(2), range, wide_range, (attempts - 1) as nat);
    }
}

} // verus!
