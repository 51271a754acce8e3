//! Drawing cards without replacement. The weighted draw itself (over
//! floating-point weights) is made by the caller; this keeps the deck: which
//! cards were drawn, in which order, and when to stop.
use vstd::prelude::*;

verus! {

/// Number of cards that a weighted draw without replacement takes from a pool:
/// the number asked for, but no more than the pool holds.
pub fn sample_count(target: usize, available: usize) -> (n: usize)
    ensures
        n == if target < available {
            target
        } else {
            available
        },
{
    if target < available {
        target
    } else {
        available
    }
}

/// The state of a draw: for each card of the pool whether it was drawn, the
/// drawn cards in order, how many are to be drawn, and whether the draw was
/// cut short.
pub struct DrawView {
    pub picked: Seq<bool>,
    pub order: Seq<usize>,
    pub planned: nat,
    pub stopped: bool,
}

/// A draw is consistent: no card is drawn twice, every drawn card is in the
/// pool and marked as drawn (so its weight is zero for the next draws), no
/// other card is marked, and no more cards are drawn than planned, nor planned
/// than the pool holds.
pub open spec fn draw_wf(d: DrawView) -> bool {
    &&& d.order.len() <= d.planned <= d.picked.len()
    &&& forall|k: int| 0 <= k < d.order.len() ==> #[trigger] d.order[k] < d.picked.len()
    &&& forall|j: int, k: int|
        0 <= j < d.order.len() && 0 <= k < d.order.len() && j != k ==> #[trigger] d.order[j]
            != #[trigger] d.order[k]
    &&& forall|i: int| 0 <= i < d.picked.len() ==> (#[trigger] d.picked[i] <==> d.order.contains(
        i as usize))
}

/// Whether a draw wants another card.
pub open spec fn draw_wants_more(d: DrawView) -> bool {
    !d.stopped && d.order.len() < d.planned
}

/// A draw without replacement from a pool of cards, as `sample_cards` runs it.
pub struct WeightedDraw {
    picked: Vec<bool>,
    order: Vec<usize>,
    planned: usize,
    stopped: bool,
}

impl View for WeightedDraw {
    type V = DrawView;

    closed spec fn view(&self) -> DrawView {
        DrawView {
            picked: self.picked@,
            order: self.order@,
            planned: self.planned as nat,
            stopped: self.stopped,
        }
    }
}

impl WeightedDraw {
    /// A draw of `target` cards from a pool of `pool_len`: nothing drawn yet,
    /// and `min(target, pool_len)` cards to draw (none from an empty pool or
    /// for a target of zero).
    pub fn new(pool_len: usize, target: usize) -> (d: Self)
        ensures
            draw_wf(d@),
            d@.picked == Seq::new(pool_len as nat, |i: int| false),
            d@.order == Seq::<usize>::empty(),
            d@.planned == if target < pool_len {
                target
            } else {
                pool_len
            },
            !d@.stopped,
    {
        let planned = sample_count(target, pool_len);
        let picked = vec![false; pool_len];
        let d = WeightedDraw { picked, order: Vec::new(), planned, stopped: false };
        assert(d@.picked =~= Seq::new(pool_len as nat, |i: int| false));
        d
    }

    /// Whether another card is to be drawn.
    pub fn wants_more(&self) -> (b: bool)
        ensures
            b == draw_wants_more(self@),
    {
        !self.stopped && self.order.len() < self.planned
    }

    /// The number of cards in the pool.
    pub fn pool_len(&self) -> (n: usize)
        ensures
            n == self@.picked.len(),
    {
        self.picked.len()
    }

    /// Whether card `idx` of the pool was drawn already.
    pub fn is_picked(&self, idx: usize) -> (b: bool)
        requires
            idx < self@.picked.len(),
        ensures
            b == self@.picked[idx as int],
    {
        self.picked[idx]
    }

    /// The drawn cards, as indexes into the pool, in the order drawn.
    pub fn drawn(&self) -> (v: &Vec<usize>)
        ensures
            v@ == self@.order,
    {
        &self.order
    }

    /// Takes the outcome `idx` of one weighted draw. It is kept, and its card
    /// marked so that it is not drawn again, when the draw wants another card
    /// and `idx` names a card of the pool not drawn yet; anything else changes
    /// nothing. Returns whether it was kept.
    pub fn record(&mut self, idx: usize) -> (kept: bool)
        requires
            draw_wf(old(self)@),
        ensures
            draw_wf(final(self)@),
            kept == (draw_wants_more(old(self)@) && idx < old(self)@.picked.len()
                && !old(self)@.picked[idx as int]),
            kept ==> final(self)@ == (DrawView {
                picked: old(self)@.picked.update(idx as int, true),
                order: old(self)@.order.push(idx),
                ..old(self)@
            }),
            !kept ==> final(self)@ == old(self)@,
    {
        if self.stopped || self.order.len() >= self.planned || idx >= self.picked.len()
            || self.picked[idx] {
            return false;
        }
        let ghost old_order = self.order@;
        let ghost old_picked = self.picked@;
        self.picked.set(idx, true);
        self.order.push(idx);
        proof {
            assert forall|k: int| 0 <= k < old_order.len() implies #[trigger] old_order[k]
                != idx by {
                assert(old_order.contains(old_order[k]));
            }
            assert forall|i: int| 0 <= i < self.picked@.len() implies (#[trigger] self.picked@[i]
                <==> self.order@.contains(i as usize)) by {
                if i == idx {
                    assert(self.order@[old_order.len() as int] == idx);
                } else {
                    if old_order.contains(i as usize) {
                        let k = choose|k: int| 0 <= k < old_order.len() && old_order[k] == i as usize;
                        assert(self.order@[k] == i as usize);
                    }
                    if self.order@.contains(i as usize) {
                        let k = choose|k: int| 0 <= k < self.order@.len() && self.order@[k] == i as usize;
                        assert(k < old_order.len());
                        assert(old_order[k] == i as usize);
                    }
                }
            }
        }
        true
    }

    /// Ends the draw early, as when no card with a weight is left.
    pub fn stop(&mut self)
        requires
            draw_wf(old(self)@),
        ensures
            draw_wf(final(self)@),
            final(self)@ == (DrawView { stopped: true, ..old(self)@ }),
    {
        self.stopped = true;
    }
}

/// A deck drawn this way never holds one card twice, holds only cards of the
/// pool, and holds no more cards than were asked for or than the pool holds.
pub proof fn lemma_drawn_cards_are_distinct(d: DrawView)
    requires
        draw_wf(d),
    ensures
        forall|j: int, k: int|
            0 <= j < k < d.order.len() ==> d.order[j] != d.order[k],
        forall|k: int| 0 <= k < d.order.len() ==> d.order[k] < d.picked.len(),
        d.order.len() <= d.planned,
        d.order.len() <= d.picked.len(),
{
    assert forall|j: int, k: int| 0 <= j < k < d.order.len() implies d.order[j] != d.order[k] by {
        assert(d.order[j] != d.order[k]);
    }
}

/// A draw that is not cut short ends with exactly the planned number of cards:
/// it wants another card until it holds that many.
pub proof fn lemma_draw_fills_to_plan(d: DrawView)
    requires
        draw_wf(d),
        !d.stopped,
    ensures
        !draw_wants_more(d) <==> d.order.len() == d.planned,
{
}

} // verus!
