//! Random scalars.
use vstd::prelude::*;

use bls12_381::Scalar;
use rand::rngs::ThreadRng;
use rand::RngCore;

use crate::curve;
use crate::field;
use crate::types;

verus! {

#[verifier::external_type_specification]
#[verifier::external_body]
pub struct ExThreadRng(rand::rngs::ThreadRng);

/// `RngCore::fill_bytes` of `ThreadRng` fills the array. Nothing is known of the bytes.
#[verifier::external_body]
fn thread_bytes(rng: &mut ThreadRng) -> (r: [u8; 32]) {
    let mut random_bytes = [0u8; 32];
    rng.fill_bytes(&mut random_bytes);
    random_bytes
}

/// A source of bytes. Nothing is asked of the bytes that it hands out.
pub trait RandomSource: Sized {
    /// The source can hand out these bytes and pass from the one state to the other. Unless it
    /// says more of itself, any bytes can come in any state.
    open spec fn hands_out(before: Self, bytes: Seq<u8>, after: Self) -> bool {
        true
    }

    /// The next bytes.
    fn random_bytes(&mut self) -> (r: [u8; 32])
        ensures
            Self::hands_out(*old(self), r@, *final(self)),
    ;
}

impl RandomSource for ThreadRng {
    fn random_bytes(&mut self) -> (r: [u8; 32]) {
        thread_bytes(self)
    }
}

/// All the numbers are values of scalars.
pub open spec fn are_scalars(numbers: Seq<nat>) -> bool {
    forall|i: int| 0 <= i < numbers.len() ==> #[trigger] numbers[i] < field::order()
}

/// The source hands out the blocks of 32 bytes one after the other, and passes through the
/// states.
pub open spec fn hands_out_all<T: RandomSource>(states: Seq<T>, blocks: Seq<Seq<u8>>) -> bool {
    &&& states.len() == blocks.len() + 1
    &&& forall|i: int|
        0 <= i < blocks.len() ==> T::hands_out(states[i], #[trigger] blocks[i], states[i + 1])
            && blocks[i].len() == 32
}

/// The block of bytes does not stand for a scalar.
pub open spec fn is_refused(block: Seq<u8>) -> bool {
    field::little_endian(block) >= field::order()
}

/// What is drawn out of the blocks: the first that is not refused, which is the last of them, or
/// nothing if `u64::MAX` of them are refused.
pub open spec fn settles(blocks: Seq<Seq<u8>>, outcome: Option<nat>) -> bool {
    match outcome {
        Some(x) => {
            &&& 0 < blocks.len() <= u64::MAX
            &&& forall|i: int| 0 <= i < blocks.len() - 1 ==> is_refused(#[trigger] blocks[i])
            &&& !is_refused(blocks.last())
            &&& x == field::little_endian(blocks.last())
        },
        None => {
            &&& blocks.len() == u64::MAX
            &&& forall|i: int| 0 <= i < blocks.len() ==> is_refused(#[trigger] blocks[i])
        },
    }
}

/// One scalar is drawn from the source, which passes from the one state to the other, with this
/// outcome.
pub open spec fn draws_scalar<T: RandomSource>(before: T, outcome: Option<nat>, after: T) -> bool {
    exists|states: Seq<T>, blocks: Seq<Seq<u8>>| #[trigger]
        hands_out_all(states, blocks) && states.first() == before && states.last() == after
            && settles(blocks, outcome)
}

/// The scalars are drawn from the source one after the other, and it passes through the states.
pub open spec fn draws_all<T: RandomSource>(states: Seq<T>, scalars: Seq<nat>) -> bool {
    &&& states.len() == scalars.len() + 1
    &&& forall|i: int|
        0 <= i < scalars.len() ==> draws_scalar(
            states[i],
            Some(#[trigger] scalars[i]),
            states[i + 1],
        )
}

/// The scalars are drawn from the source, which passes from the one state to the other.
pub open spec fn draws_list<T: RandomSource>(before: T, scalars: Seq<nat>, after: T) -> bool {
    exists|states: Seq<T>| #[trigger]
        draws_all(states, scalars) && states.first() == before && states.last() == after
}

/// Fewer than `n` scalars are drawn from the source, then one cannot be, and the source passes
/// from the one state to the other.
pub open spec fn draws_too_few<T: RandomSource>(before: T, n: nat, after: T) -> bool {
    exists|states: Seq<T>, scalars: Seq<nat>| #[trigger]
        draws_all(states, scalars) && scalars.len() < n && states.first() == before
            && draws_scalar(states.last(), None, after)
}

/// A list of `n` scalars is drawn from the source, which passes from the one state to the other,
/// with this outcome: the list, or nothing if one of them cannot be drawn, after which no more
/// are.
pub open spec fn draws_scalars<T: RandomSource>(
    before: T,
    n: nat,
    outcome: Option<Seq<nat>>,
    after: T,
) -> bool {
    match outcome {
        Some(scalars) => scalars.len() == n && draws_list(before, scalars, after),
        None => draws_too_few(before, n, after),
    }
}

/// The list of one, where there is one.
pub open spec fn single(outcome: Option<nat>) -> Option<Seq<nat>> {
    match outcome {
        Some(x) => Some(seq![x]),
        None => None,
    }
}

/// The list and what follows it, where there is something.
pub open spec fn continued(firsts: Seq<nat>, outcome: Option<Seq<nat>>) -> Option<Seq<nat>> {
    match outcome {
        Some(more) => Some(firsts + more),
        None => None,
    }
}

/// What is drawn are values of scalars.
pub proof fn lemma_drawn_scalars<T: RandomSource>(before: T, n: nat, scalars: Seq<nat>, after: T)
    requires
        draws_scalars(before, n, Some(scalars), after),
    ensures
        scalars.len() == n,
        are_scalars(scalars),
{
    let states = choose|states: Seq<T>| #[trigger]
        draws_all(states, scalars) && states.first() == before && states.last() == after;
    assert forall|i: int| 0 <= i < scalars.len() implies #[trigger] scalars[i]
        < field::order() by {
        assert(draws_scalar(states[i], Some(scalars[i]), states[i + 1]));
    }
}

/// A list of one is one scalar.
pub proof fn lemma_draw_one<T: RandomSource>(before: T, outcome: Option<nat>, after: T)
    requires
        draws_scalar(before, outcome, after),
    ensures
        draws_scalars(before, 1, single(outcome), after),
{
    match outcome {
        Some(x) => {
            let states = Seq::<T>::empty().push(before).push(after);
            let scalars = Seq::<nat>::empty().push(x);
            assert(scalars =~= seq![x]);
            assert forall|i: int| 0 <= i < scalars.len() implies draws_scalar(
                states[i],
                Some(#[trigger] scalars[i]),
                states[i + 1],
            ) by {
                assert(i == 0);
                assert(states[0] == before && states[1] == after && scalars[0] == x);
            }
            assert(draws_all(states, scalars));
            assert(states.first() == before && states.last() == after);
            assert(draws_list(before, scalars, after));
        },
        None => {
            let states = Seq::<T>::empty().push(before);
            assert(draws_all(states, Seq::<nat>::empty()));
            assert(states.first() == before && states.last() == before);
            assert(draws_too_few(before, 1, after));
        },
    }
}

/// A list that cannot be drawn is the beginning of a longer one that cannot be drawn.
pub proof fn lemma_draw_none<T: RandomSource>(before: T, n: nat, after: T, m: nat)
    requires
        draws_scalars(before, n, None, after),
        n <= m,
    ensures
        draws_scalars(before, m, None, after),
{
}

/// Two lists that are drawn one after the other are one list.
pub proof fn lemma_draw_more<T: RandomSource>(
    before: T,
    firsts: Seq<nat>,
    between: T,
    n: nat,
    outcome: Option<Seq<nat>>,
    after: T,
)
    requires
        draws_scalars(before, firsts.len(), Some(firsts), between),
        draws_scalars(between, n, outcome, after),
    ensures
        draws_scalars(
            before,
            firsts.len() + n,
            continued(firsts, outcome),
            after,
        ),
{
    let head = choose|states: Seq<T>| #[trigger]
        draws_all(states, firsts) && states.first() == before && states.last() == between;
    match outcome {
        Some(more) => {
            let tail = choose|states: Seq<T>| #[trigger]
                draws_all(states, more) && states.first() == between && states.last() == after;
            lemma_draws_joined(head, firsts, tail, more);
            assert((head + tail.drop_first()).first() == before);
            assert((head + tail.drop_first()).last() == after);
        },
        None => {
            let (tail, more) = choose|states: Seq<T>, more: Seq<nat>| #[trigger]
                draws_all(states, more) && more.len() < n && states.first() == between
                    && draws_scalar(states.last(), None, after);
            lemma_draws_joined(head, firsts, tail, more);
            assert((head + tail.drop_first()).first() == before);
            assert((head + tail.drop_first()).last() == tail.last());
        },
    }
}

proof fn lemma_draws_joined<T: RandomSource>(
    head: Seq<T>,
    firsts: Seq<nat>,
    tail: Seq<T>,
    more: Seq<nat>,
)
    requires
        draws_all(head, firsts),
        draws_all(tail, more),
        head.last() == tail.first(),
    ensures
        draws_all(head + tail.drop_first(), firsts + more),
{
    let states = head + tail.drop_first();
    let scalars = firsts + more;
    assert forall|i: int| 0 <= i < scalars.len() implies draws_scalar(
        states[i],
        Some(#[trigger] scalars[i]),
        states[i + 1],
    ) by {
        if i < firsts.len() {
            assert(scalars[i] == firsts[i]);
        } else {
            let j = i - firsts.len();
            assert(scalars[i] == more[j]);
            assert(states[i] == tail[j]);
            assert(states[i + 1] == tail[j + 1]);
        }
    }
}

/// The scalar whose little-endian digits are the bytes. There is none from the order on.
pub fn scalar_from_random(random_bytes: &[u8; 32]) -> (r: Option<Scalar>)
    ensures
        r is Some <==> field::little_endian(random_bytes@) < field::order(),
        r matches Some(s) ==> curve::scalar_value(s) == field::little_endian(random_bytes@),
{
    curve::scalar_from_bytes(random_bytes)
}

/// Values that can be drawn at random.
pub trait MyRandom: Sized {
    /// The value is one of those among which is drawn.
    spec fn is_drawn(&self) -> bool;

    /// A value made of the first bytes of the source that stand for one. There is none if the
    /// source hands out `u64::MAX` blocks in a row that do not: every search here ends.
    fn new_random<T: RandomSource>(rng: &mut T) -> (r: Option<Self>)
        ensures
            r matches Some(s) ==> s.is_drawn(),
    ;
}

impl MyRandom for Scalar {
    open spec fn is_drawn(&self) -> bool {
        curve::scalar_value(*self) < field::order()
    }

    fn new_random<T: RandomSource>(rng: &mut T) -> (r: Option<Self>)
        ensures
            draws_scalar(*old(rng), types::maybe_scalar(r), *final(rng)),
    {
        let ghost mut states: Seq<T> = seq![*rng];
        let ghost mut blocks: Seq<Seq<u8>> = Seq::empty();
        let mut attempts: u64 = 0;
        while attempts < u64::MAX
            invariant
                attempts <= u64::MAX,
                blocks.len() == attempts,
                hands_out_all(states, blocks),
                states.first() == *old(rng),
                states.last() == *rng,
                forall|i: int| 0 <= i < blocks.len() ==> is_refused(#[trigger] blocks[i]),
            decreases u64::MAX - attempts,
        {
            let random_bytes = rng.random_bytes();
            proof {
                let earlier = blocks;
                let passed = states;
                states = passed.push(*rng);
                blocks = earlier.push(random_bytes@);
                assert forall|i: int| 0 <= i < blocks.len() implies T::hands_out(
                    states[i],
                    #[trigger] blocks[i],
                    states[i + 1],
                ) && blocks[i].len() == 32 by {
                    if i < earlier.len() {
                        assert(blocks[i] == earlier[i]);
                    }
                }
                assert(forall|i: int|
                    0 <= i < earlier.len() ==> #[trigger] blocks[i] == earlier[i]);
            }
            if let Some(scalar) = scalar_from_random(&random_bytes) {
                assert(settles(blocks, Some(curve::scalar_value(scalar))));
                assert(hands_out_all(states, blocks));
                return Some(scalar);
            }
            attempts = attempts + 1;
        }
        assert(settles(blocks, None));
        None
    }
}

/// A drawn scalar is the number whose little-endian digits are the whole block of bytes that the
/// source handed out last, and the source handed out no block before it that stands for a scalar.
pub proof fn law_draw<T: RandomSource>(before: T, x: nat, after: T) -> (r: (Seq<T>, Seq<Seq<u8>>))
    requires
        draws_scalar(before, Some(x), after),
    ensures
        r.0.len() == r.1.len() + 1,
        r.0[0] == before,
        r.0[r.1.len() as int] == after,
        forall|i: int|
            0 <= i < r.1.len() ==> T::hands_out(r.0[i], #[trigger] r.1[i], r.0[i + 1])
                && r.1[i].len() == 32,
        0 < r.1.len() <= 0xffff_ffff_ffff_ffff,
        forall|i: int|
            0 <= i < r.1.len() - 1 ==> field::little_endian(#[trigger] r.1[i]) >= field::order(),
        field::little_endian(r.1[r.1.len() - 1]) == x,
        x < field::order(),
{
    let (states, blocks) = choose|states: Seq<T>, blocks: Seq<Seq<u8>>| #[trigger]
        hands_out_all(states, blocks) && states.first() == before && states.last() == after
            && settles(blocks, Some(x));
    assert forall|i: int| 0 <= i < blocks.len() - 1 implies field::little_endian(
        #[trigger] blocks[i],
    ) >= field::order() by {
        assert(is_refused(blocks[i]));
    }
    (states, blocks)
}

/// Whatever block of bytes below the order the source hands out, the scalar with these bytes is
/// drawn.
pub proof fn law_draw_any<T: RandomSource>(before: T, block: Seq<u8>, after: T)
    requires
        T::hands_out(before, block, after),
        block.len() == 32,
        field::little_endian(block) < field::order(),
    ensures
        draws_scalar(before, Some(field::little_endian(block)), after),
{
    let states = Seq::<T>::empty().push(before).push(after);
    let blocks = Seq::<Seq<u8>>::empty().push(block);
    assert forall|i: int| 0 <= i < blocks.len() implies T::hands_out(
        states[i],
        #[trigger] blocks[i],
        states[i + 1],
    ) && blocks[i].len() == 32 by {
        assert(i == 0);
        assert(states[0] == before && states[1] == after && blocks[0] == block);
    }
    assert(hands_out_all(states, blocks));
    assert(states.first() == before && states.last() == after);
    assert(blocks.last() == block);
    assert(settles(blocks, Some(field::little_endian(block))));
}

/// A draw fails only where the source handed out so many blocks that stand for no scalar.
pub proof fn law_draw_fails<T: RandomSource>(before: T, after: T) -> (r: (Seq<T>, Seq<Seq<u8>>))
    requires
        draws_scalar(before, None, after),
    ensures
        r.0.len() == r.1.len() + 1,
        r.0[0] == before,
        r.0[r.1.len() as int] == after,
        forall|i: int|
            0 <= i < r.1.len() ==> T::hands_out(r.0[i], #[trigger] r.1[i], r.0[i + 1])
                && r.1[i].len() == 32,
        r.1.len() == 0xffff_ffff_ffff_ffff,
        forall|i: int|
            0 <= i < r.1.len() ==> field::little_endian(#[trigger] r.1[i]) >= field::order(),
{
    let outcome: Option<nat> = None;
    let (states, blocks) = choose|states: Seq<T>, blocks: Seq<Seq<u8>>| #[trigger]
        hands_out_all(states, blocks) && states.first() == before && states.last() == after
            && settles(blocks, outcome);
    assert forall|i: int| 0 <= i < blocks.len() implies field::little_endian(
        #[trigger] blocks[i],
    ) >= field::order() by {
        assert(is_refused(blocks[i]));
    }
    (states, blocks)
}

/// The scalars of a list are drawn one by one, each where the one before left the source.
pub proof fn law_draw_list<T: RandomSource>(
    before: T,
    n: nat,
    scalars: Seq<nat>,
    after: T,
) -> (states: Seq<T>)
    requires
        draws_scalars(before, n, Some(scalars), after),
    ensures
        scalars.len() == n,
        states.len() == n + 1,
        states[0] == before,
        states[n as int] == after,
        forall|i: int|
            0 <= i < n ==> draws_scalar(states[i], Some(#[trigger] scalars[i]), states[i + 1]),
{
    let states = choose|states: Seq<T>| #[trigger]
        draws_all(states, scalars) && states.first() == before && states.last() == after;
    states
}

/// A list grows by whatever scalar is drawn next.
pub proof fn law_draw_next<T: RandomSource>(
    before: T,
    scalars: Seq<nat>,
    between: T,
    x: nat,
    after: T,
)
    requires
        draws_scalars(before, scalars.len(), Some(scalars), between),
        draws_scalar(between, Some(x), after),
    ensures
        draws_scalars(before, scalars.len() + 1, Some(scalars.push(x)), after),
{
    lemma_draw_one(between, Some(x), after);
    lemma_draw_more(before, scalars, between, 1, Some(seq![x]), after);
    assert(scalars + seq![x] =~= scalars.push(x));
}

/// A list fails only where a scalar before its end cannot be drawn.
pub proof fn law_draw_list_fails<T: RandomSource>(before: T, n: nat, after: T) -> (r: (
    Seq<nat>,
    T,
))
    requires
        draws_scalars(before, n, None, after),
    ensures
        r.0.len() < n,
        draws_scalars(before, r.0.len(), Some(r.0), r.1),
        draws_scalar(r.1, None, after),
{
    let (states, scalars) = choose|states: Seq<T>, scalars: Seq<nat>| #[trigger]
        draws_all(states, scalars) && scalars.len() < n && states.first() == before
            && draws_scalar(states.last(), None, after);
    assert(draws_list(before, scalars, states.last()));
    (scalars, states.last())
}

/// A scalar that is drawn is below the order, and so are all scalars of a list.
pub proof fn law_is_drawn(s: Scalar, numbers: Seq<nat>, i: int)
    ensures
        s.is_drawn() <==> curve::scalar_value(s) < field::order(),
        are_scalars(numbers) && 0 <= i < numbers.len() ==> numbers[i] < field::order(),
{
}

} // verus!
