//! The seven-piece randomiser: a bag holding each kind at most once, refilled
//! with a freshly shuffled set of all seven kinds whenever it runs empty.
use rand::seq::SliceRandom;
use vstd::prelude::*;
use crate::shape::{all_kinds, Tetromino};

verus! {

/// Whether `p` holds each of the seven kinds exactly once, in some order.
pub open spec fn is_full_set(p: Seq<Tetromino>) -> bool {
    p.to_multiset() == all_kinds().to_multiset()
}

/// What one draw from a bag holding `before` may give: the last kind of
/// the bag, leaving the rest; or, from an empty bag, the last kind of some
/// shuffled full set, leaving the rest of that set.
pub open spec fn draw(before: Seq<Tetromino>, r: Tetromino, after: Seq<Tetromino>) -> bool {
    if before.len() == 0 {
        exists|p: Seq<Tetromino>|
            #![trigger is_full_set(p)]
            is_full_set(p) && r == p.last() && after == p.drop_last()
    } else {
        r == before.last() && after == before.drop_last()
    }
}

/// A sequence of pieces dealt seven at a time from shuffled full sets.
pub struct Bag {
    items: Vec<Tetromino>,
}

impl View for Bag {
    type V = Seq<Tetromino>;

    /// The kinds left in the bag; the last one is dealt next.
    closed spec fn view(&self) -> Seq<Tetromino> {
        self.items@
    }
}

impl Bag {
    /// The bag holds what is left of one shuffled full set: a prefix of it.
    pub open spec fn wf(&self) -> bool {
        exists|p: Seq<Tetromino>|
            #![trigger is_full_set(p)]
            is_full_set(p) && self@.len() <= p.len() && p.take(self@.len() as int) == self@
    }

    /// A bag filled with a shuffled full set.
    pub fn new() -> (r: Bag)
        ensures
            is_full_set(r@),
            r.wf(),
    {
        let mut bag = Bag { items: Vec::new() };
        bag.fill();
        assert(bag@.take(bag@.len() as int) =~= bag@);
        bag
    }

    /// Puts a shuffled full set into the bag if it is empty; otherwise
    /// leaves it as it is.
    fn fill(&mut self)
        ensures
            old(self)@.len() == 0 ==> is_full_set(final(self)@),
            old(self)@.len() != 0 ==> final(self)@ == old(self)@,
    {
        if self.items.len() != 0 {
            return;
        }
        self.items.push(Tetromino::I);
        self.items.push(Tetromino::O);
        self.items.push(Tetromino::T);
        self.items.push(Tetromino::J);
        self.items.push(Tetromino::L);
        self.items.push(Tetromino::S);
        self.items.push(Tetromino::Z);
        assert(self.items@ =~= all_kinds());
        shuffle_kinds(&mut self.items);
    }

    /// Deals the next kind, refilling the bag first if it is empty.
    pub fn next(&mut self) -> (r: Tetromino)
        requires
            old(self).wf(),
        ensures
            draw(old(self)@, r, final(self)@),
            final(self).wf(),
    {
        let ghost before = self@;
        self.fill();
        proof {
            if before.len() == 0 {
                broadcast use vstd::seq_lib::group_to_multiset_ensures;

                assert(self@.len() == 7) by {
                    assert(all_kinds().to_multiset().len() == 7);
                }
            }
        }
        let ghost filled = self@;
        let r = self.items.pop().unwrap();
        proof {
            if before.len() == 0 {
                let p = self.items@.push(r);
                assert(p =~= filled);
                assert(is_full_set(p));
                assert(p.take(self@.len() as int) =~= self@);
            } else {
                let p = choose|p: Seq<Tetromino>| is_full_set(p) && before.len() <= p.len() && p.take(before.len() as int) == before;
                assert(is_full_set(p));
                assert(p.take(self@.len() as int) =~= self@);
            }
        }
        r
    }
}

/// Seven draws in a row that start where a set begins (from a freshly
/// filled bag, or from an empty one) deal each of the seven kinds exactly
/// once, and leave the bag empty, so that the next seven draws again start
/// where a set begins.
pub proof fn lemma_seven_draws_deal_every_kind(states: Seq<Seq<Tetromino>>, dealt: Seq<Tetromino>)
    requires
        states.len() == 8,
        dealt.len() == 7,
        states[0].len() == 0 || is_full_set(states[0]),
        forall|i: int| 0 <= i < 7 ==> #[trigger] draw(states[i], dealt[i], states[i + 1]),
    ensures
        is_full_set(dealt),
        states[7].len() == 0,
{
    broadcast use vstd::seq_lib::group_to_multiset_ensures;

    let first: int = 0;
    assert(draw(states[first], dealt[first], states[first + 1]));
    let p = if states[0].len() == 0 {
        choose|p: Seq<Tetromino>| is_full_set(p) && dealt[0] == p.last() && states[1] == p.drop_last()
    } else {
        states[0]
    };
    assert(all_kinds().to_multiset().len() == 7);
    assert(p.len() == 7);
    lemma_draws_unstack(states, dealt, p, 7);
    assert(dealt =~= p.reverse());
    p.lemma_reverse_to_multiset();
}

/// Any number of draws in a row that start where a set begins deal, in
/// each run of seven counted from the start, each of the seven kinds
/// exactly once.
pub proof fn lemma_aligned_runs_deal_every_kind(
    states: Seq<Seq<Tetromino>>,
    dealt: Seq<Tetromino>,
    m: nat,
)
    requires
        states.len() == 7 * m + 1,
        dealt.len() == 7 * m,
        states[0].len() == 0 || is_full_set(states[0]),
        forall|i: int| 0 <= i < 7 * m ==> #[trigger] draw(states[i], dealt[i], states[i + 1]),
    ensures
        forall|j: int| 0 <= j < m ==> is_full_set(#[trigger] dealt.subrange(7 * j, 7 * j + 7)),
    decreases m,
{
    if m > 0 {
        let first_states = states.take(8);
        let first_dealt = dealt.take(7);
        assert forall|i: int| 0 <= i < 7 implies #[trigger] draw(
            first_states[i],
            first_dealt[i],
            first_states[i + 1],
        ) by {
            assert(draw(states[i], dealt[i], states[i + 1]));
        }
        lemma_seven_draws_deal_every_kind(first_states, first_dealt);
        let rest_states = states.skip(7);
        let rest_dealt = dealt.skip(7);
        assert forall|i: int| 0 <= i < 7 * (m - 1) implies #[trigger] draw(
            rest_states[i],
            rest_dealt[i],
            rest_states[i + 1],
        ) by {
            assert(draw(states[i + 7], dealt[i + 7], states[i + 7 + 1]));
        }
        lemma_aligned_runs_deal_every_kind(rest_states, rest_dealt, (m - 1) as nat);
        assert forall|j: int| 0 <= j < m implies is_full_set(
            #[trigger] dealt.subrange(7 * j, 7 * j + 7),
        ) by {
            if j == 0 {
                assert(dealt.subrange(0, 7) =~= first_dealt);
            } else {
                assert(dealt.subrange(7 * j, 7 * j + 7) =~= rest_dealt.subrange(
                    7 * (j - 1),
                    7 * (j - 1) + 7,
                ));
            }
        }
    }
}

/// Draws from what is left of `p` deal it from the back.
proof fn lemma_draws_unstack(
    states: Seq<Seq<Tetromino>>,
    dealt: Seq<Tetromino>,
    p: Seq<Tetromino>,
    n: int,
)
    requires
        p.len() == 7,
        1 <= n <= 7,
        states.len() == 8,
        dealt.len() == 7,
        forall|i: int| 0 <= i < 7 ==> #[trigger] draw(states[i], dealt[i], states[i + 1]),
        states[1] == p.drop_last(),
        dealt[0] == p.last(),
    ensures
        forall|i: int| 0 <= i < n ==> dealt[i] == p[6 - i],
        states[n] == p.take(7 - n),
    decreases n,
{
    if n > 1 {
        lemma_draws_unstack(states, dealt, p, n - 1);
        let j = n - 1;
        assert(draw(states[j], dealt[j], states[j + 1]));
        assert(states[n] =~= p.take(7 - n));
    } else {
        assert(p.drop_last() =~= p.take(6));
    }
}

/// Relies on rand's `SliceRandom::shuffle`, driven by the thread-local
/// generator: it only swaps items, so each one is kept.
#[verifier::external_body]
fn shuffle_kinds(v: &mut Vec<Tetromino>)
    ensures
        final(v)@.to_multiset() == old(v)@.to_multiset(),
{
    v.shuffle(&mut rand::thread_rng());
}

} // verus!
