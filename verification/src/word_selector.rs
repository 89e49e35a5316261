//! Seeded selection of the words of one exercise: distinct places of the
//! lexicon are drawn, the words there are collected, and the words are
//! shuffled.

use crate::lexicon::Lexicon;
use crate::lexicon::lowercase;
use crate::lexicon::to_ascii_lowercase;
use crate::lexicon::word_chars;
use rand::Rng;
use rand::SeedableRng;
use rand::seq::SliceRandom;
use rand_xoshiro::Xoroshiro128StarStar;
use vstd::prelude::*;

verus! {

/// The generator of `rand_xoshiro`, opaque to the verifier.
#[verifier::external_type_specification]
#[verifier::external_body]
pub struct ExXoroshiro128StarStar(Xoroshiro128StarStar);

/// The two 64-bit words that a generator holds. What it returns next follows
/// from them alone.
pub uninterp spec fn generator_state(rng: Xoroshiro128StarStar) -> (u64, u64);

/// The state of the generator that `seed_from_u64` builds from a seed.
pub uninterp spec fn seeded_state(seed: u64) -> (u64, u64);

/// What `rand::seq::index::sample` returns, and the state in which it leaves
/// the generator, for a generator in the given state, the length of the range
/// and the amount to draw.
pub uninterp spec fn sample_outcome(state: (u64, u64), length: nat, amount: nat) -> (
    Seq<usize>,
    (u64, u64),
);

/// The order in which `SliceRandom::shuffle` leaves a slice of the given
/// length, and the state in which it leaves the generator, for a generator in
/// the given state: place `i` of the shuffled slice holds what stood at place
/// `order[i]` before.
pub uninterp spec fn shuffle_outcome(state: (u64, u64), length: nat) -> (Seq<int>, (u64, u64));

/// Whether `order` names each of the places `0..length` once.
pub open spec fn is_permutation(order: Seq<int>, length: nat) -> bool {
    &&& order.len() == length
    &&& forall|i: int| 0 <= i < order.len() ==> 0 <= #[trigger] order[i] < length
    &&& forall|i: int, j: int| 0 <= i < j < order.len() ==> order[i] != order[j]
}

/// Whether `places` are `amount` distinct places below `length`.
pub open spec fn distinct_places(places: Seq<int>, length: nat, amount: nat) -> bool {
    &&& places.len() == amount
    &&& forall|i: int| 0 <= i < places.len() ==> 0 <= #[trigger] places[i] < length
    &&& forall|i: int, j: int| 0 <= i < j < places.len() ==> places[i] != places[j]
}

/// Whether `indices` are `amount` distinct places below `length`.
pub open spec fn is_sample(indices: Seq<usize>, length: nat, amount: nat) -> bool {
    &&& indices.len() == amount
    &&& forall|i: int| 0 <= i < indices.len() ==> #[trigger] indices[i] < length
    &&& forall|i: int, j: int| 0 <= i < j < indices.len() ==> indices[i] != indices[j]
}

/// Whether `amount` places can be drawn from a range of `length` places: the
/// range holds as many, and more than as many where it is longer than 32-bit
/// indices reach. (For such a range the sampler draws again whenever a place
/// repeats, which it is made for only as long as places are left over.)
pub open spec fn can_select(length: nat, amount: nat) -> bool {
    &&& amount <= length
    &&& length > u32::MAX ==> amount < length
}

/// Calls `Xoroshiro128StarStar::seed_from_u64`. The state of the new generator
/// is a function of the seed alone.
#[verifier::external_body]
fn seed_generator(seed: u64) -> (rng: Xoroshiro128StarStar)
    ensures
        generator_state(rng) == seeded_state(seed),
{
    Xoroshiro128StarStar::seed_from_u64(seed)
}

/// Draws a number from `rand::thread_rng`, the generator that the system
/// seeds anew for every thread. Nothing is known of the number.
#[verifier::external_body]
fn entropy_seed() -> (seed: u64) {
    rand::thread_rng().gen()
}

/// Calls `rand::seq::index::sample` and turns what it returns into a vector.
/// The call panics where more is asked for than the range holds, and it is
/// not made to draw the whole of a range longer than 32-bit indices reach. It
/// returns `amount` distinct indices below `length`; which ones, and the
/// state of the generator afterwards, follow from the generator's state,
/// `length` and `amount`.
#[verifier::external_body]
fn sample(rng: &mut Xoroshiro128StarStar, length: usize, amount: usize) -> (indices: Vec<usize>)
    requires
        can_select(length as nat, amount as nat),
    ensures
        indices@ == sample_outcome(generator_state(*old(rng)), length as nat, amount as nat).0,
        generator_state(*final(rng)) == sample_outcome(
            generator_state(*old(rng)),
            length as nat,
            amount as nat,
        ).1,
        is_sample(indices@, length as nat, amount as nat),
{
    rand::seq::index::sample(rng, length, amount).into_vec()
}

/// Calls `SliceRandom::shuffle` on the words. The words are rearranged in
/// place; the order, and the state of the generator afterwards, follow from
/// the generator's state and the number of words.
#[verifier::external_body]
fn shuffle(words: &mut Vec<String>, rng: &mut Xoroshiro128StarStar)
    ensures
        final(words)@.len() == old(words)@.len(),
        is_permutation(
            shuffle_outcome(generator_state(*old(rng)), old(words)@.len()).0,
            old(words)@.len(),
        ),
        forall|i: int|
            0 <= i < old(words)@.len() ==> (#[trigger] final(words)@[i])@ == old(
                words,
            )@[shuffle_outcome(generator_state(*old(rng)), old(words)@.len()).0[i]]@,
        generator_state(*final(rng)) == shuffle_outcome(
            generator_state(*old(rng)),
            old(words)@.len(),
        ).1,
{
    words.shuffle(rng)
}

/// The places of the lexicon whose words make up a selection, in the order of
/// presentation: the shuffled sample.
pub open spec fn selected_places(length: nat, amount: nat, state: (u64, u64)) -> Seq<int> {
    let sampled = sample_outcome(state, length, amount);
    let order = shuffle_outcome(sampled.1, amount).0;
    Seq::new(amount, |i: int| sampled.0[order[i]] as int)
}

/// The words selected from `lexicon` by a generator in the given state, as
/// they stand in the lexicon.
pub open spec fn selection(lexicon: Seq<Seq<char>>, amount: nat, state: (u64, u64)) -> Seq<
    Seq<char>,
> {
    let places = selected_places(lexicon.len(), amount, state);
    Seq::new(amount, |i: int| lexicon[places[i]])
}

/// The words selected from `lexicon` by a generator in the given state, in
/// lower case.
pub open spec fn lowercase_selection(
    lexicon: Seq<Seq<char>>,
    amount: nat,
    state: (u64, u64),
) -> Seq<Seq<char>> {
    let places = selected_places(lexicon.len(), amount, state);
    Seq::new(amount, |i: int| lowercase(lexicon[places[i]]))
}

/// The state in which a selection leaves the generator.
pub open spec fn state_after_selection(length: nat, amount: nat, state: (u64, u64)) -> (u64, u64) {
    shuffle_outcome(sample_outcome(state, length, amount).1, amount).1
}

/// The state of the generator after `rounds` selections in a row.
pub open spec fn state_after_rounds(length: nat, amount: nat, state: (u64, u64), rounds: nat) -> (
    u64,
    u64,
)
    decreases rounds,
{
    if rounds == 0 {
        state
    } else {
        state_after_selection(
            length,
            amount,
            state_after_rounds(length, amount, state, (rounds - 1) as nat),
        )
    }
}

/// Whether the words of `picked` are the words of `lexicon` at `indices`.
pub open spec fn picked_at(picked: Seq<Seq<char>>, lexicon: Seq<Seq<char>>, indices: Seq<usize>) -> bool {
    &&& picked.len() == indices.len()
    &&& forall|i: int| 0 <= i < indices.len() ==> #[trigger] picked[i] == lexicon[indices[i] as int]
}

/// The words of the lexicon at the given places, in the order of the places.
pub fn collect_words(lexicon_words: &Vec<String>, indices: &Vec<usize>) -> (words: Vec<String>)
    requires
        forall|i: int| 0 <= i < indices@.len() ==> #[trigger] indices@[i] < lexicon_words@.len(),
    ensures
        picked_at(word_chars(words@), word_chars(lexicon_words@), indices@),
{
    let mut words: Vec<String> = Vec::new();
    let mut i: usize = 0;
    while i < indices.len()
        invariant
            i <= indices.len(),
            words@.len() == i,
            forall|k: int| 0 <= k < indices@.len() ==> #[trigger] indices@[k] < lexicon_words@.len(),
            forall|k: int| 0 <= k < i ==> (#[trigger] words@[k])@ == lexicon_words@[indices@[k] as int]@,
        decreases indices.len() - i,
    {
        words.push(lexicon_words[indices[i]].clone());
        i += 1;
    }
    words
}

/// The words in lower case, in the same order.
pub fn lowercase_words(words: &Vec<String>) -> (lowered: Vec<String>)
    ensures
        lowered@.len() == words@.len(),
        forall|i: int| 0 <= i < words@.len() ==> (#[trigger] lowered@[i])@ == lowercase(words@[i]@),
{
    let mut lowered: Vec<String> = Vec::new();
    let mut i: usize = 0;
    while i < words.len()
        invariant
            i <= words.len(),
            lowered@.len() == i,
            forall|k: int| 0 <= k < i ==> (#[trigger] lowered@[k])@ == lowercase(words@[k]@),
        decreases words.len() - i,
    {
        lowered.push(to_ascii_lowercase(words[i].as_str()));
        i += 1;
    }
    lowered
}

/// Selects `n_words` words of the lexicon with the generator: distinct places
/// are drawn, the words there are collected, and the words are shuffled. The
/// places drawn are pairwise distinct, and so are the places of the words
/// selected.
pub fn select_words(
    lexicon_words: &Vec<String>,
    n_words: usize,
    rng: &mut Xoroshiro128StarStar,
) -> (words: Vec<String>)
    requires
        can_select(lexicon_words@.len(), n_words as nat),
    ensures
        word_chars(words@) == selection(
            word_chars(lexicon_words@),
            n_words as nat,
            generator_state(*old(rng)),
        ),
        generator_state(*final(rng)) == state_after_selection(
            lexicon_words@.len(),
            n_words as nat,
            generator_state(*old(rng)),
        ),
        words@.len() == n_words,
        is_sample(
            sample_outcome(generator_state(*old(rng)), lexicon_words@.len(), n_words as nat).0,
            lexicon_words@.len(),
            n_words as nat,
        ),
        distinct_places(
            selected_places(lexicon_words@.len(), n_words as nat, generator_state(*old(rng))),
            lexicon_words@.len(),
            n_words as nat,
        ),
{
    let selected_indices = sample(rng, lexicon_words.len(), n_words);
    let mut selected_words = collect_words(lexicon_words, &selected_indices);
    let ghost collected = word_chars(selected_words@);
    let ghost order = shuffle_outcome(generator_state(*rng), n_words as nat).0;
    shuffle(&mut selected_words, rng);
    proof {
        let wanted = selection(
            word_chars(lexicon_words@),
            n_words as nat,
            generator_state(*old(rng)),
        );
        assert forall|i: int| 0 <= i < n_words implies word_chars(selected_words@)[i]
            == wanted[i] by {
            assert(0 <= order[i] < n_words);
            assert(selected_words@[i]@ == collected[order[i]]);
        }
        assert(word_chars(selected_words@) =~= wanted);
        lemma_selected_places_distinct(
            lexicon_words@.len(),
            n_words as nat,
            generator_state(*old(rng)),
        );
    }
    selected_words
}

/// Why a selector could not be made.
#[derive(Clone, Copy, Debug, PartialEq, Eq, Structural)]
pub enum ConfigError {
    /// More words were asked for than can be drawn from the lexicon.
    TooManyWords { requested: usize, available: usize },
}

/// A lexicon with the generator that draws from it and the number of words to
/// draw each time.
pub struct WordSelector {
    pub lexicon: Vec<String>,
    pub rng: Xoroshiro128StarStar,
    pub n_words: usize,
    pub seed: u64,
}

impl WordSelector {
    /// Whether as many words as are drawn each time can be drawn from the
    /// lexicon.
    pub open spec fn wf(&self) -> bool {
        can_select(self.lexicon@.len(), self.n_words as nat)
    }

    /// The state of the generator.
    pub open spec fn state(&self) -> (u64, u64) {
        generator_state(self.rng)
    }

    /// The words that the next selection returns.
    pub open spec fn next_words(&self) -> Seq<Seq<char>> {
        lowercase_selection(word_chars(self.lexicon@), self.n_words as nat, self.state())
    }

    /// The state of the generator after the next selection.
    pub open spec fn next_state(&self) -> (u64, u64) {
        state_after_selection(self.lexicon@.len(), self.n_words as nat, self.state())
    }

    /// The words that the selection after `rounds` earlier ones returns.
    pub open spec fn words_of_round(&self, rounds: nat) -> Seq<Seq<char>> {
        lowercase_selection(
            word_chars(self.lexicon@),
            self.n_words as nat,
            state_after_rounds(self.lexicon@.len(), self.n_words as nat, self.state(), rounds),
        )
    }

    /// Whether `self` is `before` but for the generator.
    pub open spec fn same_setup(&self, before: &WordSelector) -> bool {
        &&& self.lexicon == before.lexicon
        &&& self.n_words == before.n_words
        &&& self.seed == before.seed
    }

    /// A selector that draws `n_words` words of `lexicon` each time, with a
    /// generator seeded by `seed`, or by a seed drawn from the system where
    /// none is given. It is refused where `n_words` words cannot be drawn
    /// from the lexicon.
    pub fn new(lexicon: Lexicon, n_words: usize, seed: Option<u64>) -> (res: Result<
        WordSelector,
        ConfigError,
    >)
        ensures
            res is Err <==> !can_select(lexicon@.len(), n_words as nat),
            n_words <= lexicon@.len() <= u32::MAX ==> res is Ok,
            n_words > lexicon@.len() ==> res is Err,
            res matches Err(e) ==> e == (ConfigError::TooManyWords {
                requested: n_words,
                available: lexicon.words@.len() as usize,
            }),
            res matches Ok(selector) ==> {
                &&& selector.wf()
                &&& selector.lexicon == lexicon.words
                &&& selector.n_words == n_words
                &&& seed matches Some(given) ==> selector.seed == given
                &&& selector.state() == seeded_state(selector.seed)
            },
    {
        let n_lexicon_words = lexicon.len();
        if n_words > n_lexicon_words || (n_words == n_lexicon_words && n_lexicon_words
            > 0xffff_ffff) {
            return Err(ConfigError::TooManyWords { requested: n_words, available: n_lexicon_words });
        }
        let seed = match seed {
            Some(given) => given,
            None => entropy_seed(),
        };
        Ok(WordSelector { lexicon: lexicon.words, rng: seed_generator(seed), n_words, seed })
    }

    /// The seed of the generator: given to `new` again, it brings the same
    /// selections in the same order.
    pub fn seed(&self) -> (seed: u64)
        ensures
            seed == self.seed,
    {
        self.seed
    }

    /// Selects the words of the next exercise, in lower case. The places
    /// drawn are pairwise distinct, and so are the places of the words
    /// selected.
    pub fn select_words_from_lexicon(&mut self) -> (words: Vec<String>)
        requires
            old(self).wf(),
        ensures
            final(self).wf(),
            final(self).same_setup(old(self)),
            word_chars(words@) == old(self).next_words(),
            final(self).state() == old(self).next_state(),
            words@.len() == old(self).n_words,
            is_sample(
                sample_outcome(
                    old(self).state(),
                    old(self).lexicon@.len(),
                    old(self).n_words as nat,
                ).0,
                old(self).lexicon@.len(),
                old(self).n_words as nat,
            ),
            distinct_places(
                selected_places(
                    old(self).lexicon@.len(),
                    old(self).n_words as nat,
                    old(self).state(),
                ),
                old(self).lexicon@.len(),
                old(self).n_words as nat,
            ),
    {
        let selected_indices = sample(&mut self.rng, self.lexicon.len(), self.n_words);
        let picked = collect_words(&self.lexicon, &selected_indices);
        let mut selected_words = lowercase_words(&picked);
        let ghost lowered = word_chars(selected_words@);
        let ghost order = shuffle_outcome(generator_state(self.rng), self.n_words as nat).0;
        shuffle(&mut selected_words, &mut self.rng);
        proof {
            let wanted = old(self).next_words();
            assert forall|i: int| 0 <= i < self.n_words implies word_chars(selected_words@)[i]
                == wanted[i] by {
                assert(0 <= order[i] < self.n_words);
                assert(selected_words@[i]@ == lowered[order[i]]);
                assert(word_chars(picked@)[order[i]] == picked@[order[i]]@);
            }
            assert(word_chars(selected_words@) =~= wanted);
            lemma_selected_places_distinct(
                self.lexicon@.len(),
                self.n_words as nat,
                old(self).state(),
            );
        }
        selected_words
    }
}

/// A sample that is shuffled is still a list of distinct places of the
/// lexicon.
proof fn lemma_selected_places_distinct(length: nat, amount: nat, state: (u64, u64))
    requires
        is_sample(sample_outcome(state, length, amount).0, length, amount),
        is_permutation(shuffle_outcome(sample_outcome(state, length, amount).1, amount).0, amount),
    ensures
        distinct_places(selected_places(length, amount, state), length, amount),
{
    let sampled = sample_outcome(state, length, amount).0;
    let order = shuffle_outcome(sample_outcome(state, length, amount).1, amount).0;
    let places = selected_places(length, amount, state);
    assert forall|i: int| 0 <= i < places.len() implies 0 <= #[trigger] places[i] < length by {
        assert(0 <= order[i] < amount);
        assert(sampled[order[i]] < length);
    }
    assert forall|i: int, j: int| 0 <= i < j < places.len() implies places[i] != places[j] by {
        let a = order[i];
        let b = order[j];
        assert(a != b);
        if a < b {
            assert(sampled[a] != sampled[b]);
        } else {
            assert(sampled[b] != sampled[a]);
        }
    }
}

/// Two selectors with the same lexicon, the same number of words and
/// generators in the same state select the same words, and their generators
/// are in the same state afterwards.
pub proof fn lemma_selection_deterministic(a: WordSelector, b: WordSelector)
    requires
        word_chars(a.lexicon@) == word_chars(b.lexicon@),
        a.n_words == b.n_words,
        a.state() == b.state(),
    ensures
        a.next_words() == b.next_words(),
        a.next_state() == b.next_state(),
{
    assert(a.lexicon@.len() == word_chars(a.lexicon@).len());
    assert(b.lexicon@.len() == word_chars(b.lexicon@).len());
}

/// Making one selection and then `rounds` more leaves the generator where
/// `rounds` selections and then one more leave it.
pub proof fn lemma_rounds_shift(length: nat, amount: nat, state: (u64, u64), rounds: nat)
    ensures
        state_after_rounds(length, amount, state_after_selection(length, amount, state), rounds)
            == state_after_rounds(length, amount, state, rounds + 1),
    decreases rounds,
{
    if rounds == 0 {
        assert(state_after_rounds(length, amount, state, 0) == state);
    } else {
        lemma_rounds_shift(length, amount, state, (rounds - 1) as nat);
    }
}

/// Two selectors with the same lexicon, the same number of words and
/// generators in the same state select the same words in every later round
/// too: a seed fixes the whole series of exercises.
pub proof fn lemma_rounds_deterministic(a: WordSelector, b: WordSelector, rounds: nat)
    requires
        word_chars(a.lexicon@) == word_chars(b.lexicon@),
        a.n_words == b.n_words,
        a.state() == b.state(),
    ensures
        a.words_of_round(rounds) == b.words_of_round(rounds),
{
    assert(a.lexicon@.len() == word_chars(a.lexicon@).len());
    assert(b.lexicon@.len() == word_chars(b.lexicon@).len());
}

/// After a selection, the words of each round are the words that stood one
/// round later before it.
pub proof fn lemma_selection_advances_rounds(before: WordSelector, after: WordSelector, rounds: nat)
    requires
        after.same_setup(&before),
        after.state() == before.next_state(),
    ensures
        before.words_of_round(0) == before.next_words(),
        after.words_of_round(rounds) == before.words_of_round(rounds + 1),
{
    lemma_rounds_shift(before.lexicon@.len(), before.n_words as nat, before.state(), rounds);
}

} // verus!
