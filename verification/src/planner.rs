//! The guardian liquidation planner.
//!
//! The planner walks the guardians in pledge order. Of each guardian with
//! something pledged it asks the venue how much of the asset buys what is
//! still to be raised, offers that much or all that was pledged, whichever
//! is less, and goes on while anything is left to raise. A guardian with
//! nothing pledged is passed over, and its venue is not asked.
//!
//! A pledged amount is taken at its word: it bounds the swap, and is not
//! held against the allowance that the asset grants when the swap runs.

use vstd::prelude::*;
use crate::instruction::Instruction;
use crate::state::Guardian;
use crate::wide::checked_multiply_ratio;

verus! {

/// How much of an asset a swap offers: the quoted requirement, capped at
/// what was pledged.
pub open spec fn swap_size(pledged: nat, quoted: nat) -> nat {
    if quoted <= pledged {
        quoted
    } else {
        pledged
    }
}

/// How much of the remaining amount a swap covers: all of it where the
/// pledge meets the quote, else the pledge's share of it by the quote,
/// rounded down.
pub open spec fn coverage(pledged: nat, quoted: nat, remaining: nat) -> nat {
    if quoted <= pledged {
        remaining
    } else {
        (pledged * remaining) / quoted
    }
}

/// The swap of a guardian under a quote: on the guardian's venue, at the
/// venue's price and with its own spread limit, the proceeds to the module.
pub open spec fn swap_of(guardian: Guardian, quoted: nat) -> Instruction {
    Instruction::Swap {
        venue: guardian.pair_address,
        asset: guardian.address,
        amount: swap_size(guardian.amount as nat, quoted) as u128,
        belief_price: None,
        max_spread: None,
        to: None,
    }
}

/// What is left to raise before the guardian at `place` is looked at, where
/// `quotes` holds for each guardian the answer of its venue.
pub open spec fn remaining_at(
    guardians: Seq<Guardian>,
    quotes: Seq<u128>,
    ask: nat,
    place: nat,
) -> nat
    decreases place,
{
    if place == 0 {
        ask
    } else {
        let before = remaining_at(guardians, quotes, ask, (place - 1) as nat);
        let guardian = guardians[place - 1];
        if before == 0 || guardian.amount == 0 {
            before
        } else {
            (before - coverage(guardian.amount as nat, quotes[place - 1] as nat, before)) as nat
        }
    }
}

/// The swaps planned from the guardian at `from` on, with `remaining` still
/// to raise.
pub open spec fn swaps_from(
    guardians: Seq<Guardian>,
    quotes: Seq<u128>,
    from: int,
    remaining: nat,
) -> Seq<Instruction>
    decreases guardians.len() - from,
{
    if from < 0 || from >= guardians.len() || remaining == 0 {
        Seq::empty()
    } else if guardians[from].amount == 0 {
        swaps_from(guardians, quotes, from + 1, remaining)
    } else {
        seq![swap_of(guardians[from], quotes[from] as nat)] + swaps_from(
            guardians,
            quotes,
            from + 1,
            (remaining - coverage(guardians[from].amount as nat, quotes[from] as nat, remaining)) as nat,
        )
    }
}

/// The places of the guardians that `swaps_from` sells, one per swap.
pub open spec fn sources_from(
    guardians: Seq<Guardian>,
    quotes: Seq<u128>,
    from: int,
    remaining: nat,
) -> Seq<int>
    decreases guardians.len() - from,
{
    if from < 0 || from >= guardians.len() || remaining == 0 {
        Seq::empty()
    } else if guardians[from].amount == 0 {
        sources_from(guardians, quotes, from + 1, remaining)
    } else {
        seq![from] + sources_from(
            guardians,
            quotes,
            from + 1,
            (remaining - coverage(guardians[from].amount as nat, quotes[from] as nat, remaining)) as nat,
        )
    }
}

/// What is left to raise after the swaps planned from `from` on.
pub open spec fn left_from(
    guardians: Seq<Guardian>,
    quotes: Seq<u128>,
    from: int,
    remaining: nat,
) -> nat
    decreases guardians.len() - from,
{
    if from < 0 || from >= guardians.len() || remaining == 0 {
        remaining
    } else if guardians[from].amount == 0 {
        left_from(guardians, quotes, from + 1, remaining)
    } else {
        left_from(
            guardians,
            quotes,
            from + 1,
            (remaining - coverage(guardians[from].amount as nat, quotes[from] as nat, remaining)) as nat,
        )
    }
}

/// The swaps of a whole plan for `ask`.
pub open spec fn planned_swaps(guardians: Seq<Guardian>, quotes: Seq<u128>, ask: nat) -> Seq<
    Instruction,
> {
    swaps_from(guardians, quotes, 0, ask)
}

/// The places of the guardians that a whole plan sells.
pub open spec fn planned_sources(guardians: Seq<Guardian>, quotes: Seq<u128>, ask: nat) -> Seq<
    int,
> {
    sources_from(guardians, quotes, 0, ask)
}

/// What a whole plan leaves to raise: zero where the guardians suffice.
pub open spec fn planned_left(guardians: Seq<Guardian>, quotes: Seq<u128>, ask: nat) -> nat {
    left_from(guardians, quotes, 0, ask)
}

/// A swap never covers more than what is left, and a capped swap leaves
/// something.
pub proof fn lemma_coverage(pledged: nat, quoted: nat, remaining: nat)
    ensures
        coverage(pledged, quoted, remaining) <= remaining,
        quoted > pledged && remaining > 0 ==> coverage(pledged, quoted, remaining) < remaining,
        swap_size(pledged, quoted) <= pledged,
{
    if quoted > pledged {
        assert((pledged * remaining) / quoted <= remaining) by (nonlinear_arith)
            requires
                pledged < quoted,
        ;
        if remaining > 0 {
            assert((pledged * remaining) / quoted < remaining) by (nonlinear_arith)
                requires
                    pledged < quoted,
                    remaining > 0,
            ;
        }
    }
}

/// The first place from `from` on whose guardian has something pledged,
/// while anything is left to raise.
pub open spec fn skip(guardians: Seq<Guardian>, from: int, remaining: nat) -> int
    decreases guardians.len() - from,
{
    if from < 0 || from >= guardians.len() || remaining == 0 || guardians[from].amount > 0 {
        from
    } else {
        skip(guardians, from + 1, remaining)
    }
}

/// Skipping guardians with nothing pledged changes nothing of the plan.
pub proof fn lemma_skip(guardians: Seq<Guardian>, quotes: Seq<u128>, from: int, remaining: nat)
    ensures
        skip(guardians, from, remaining) >= from,
        from <= guardians.len() ==> skip(guardians, from, remaining) <= guardians.len(),
        swaps_from(guardians, quotes, skip(guardians, from, remaining), remaining) == swaps_from(
            guardians,
            quotes,
            from,
            remaining,
        ),
        sources_from(guardians, quotes, skip(guardians, from, remaining), remaining)
            == sources_from(guardians, quotes, from, remaining),
        left_from(guardians, quotes, skip(guardians, from, remaining), remaining) == left_from(
            guardians,
            quotes,
            from,
            remaining,
        ),
    decreases guardians.len() - from,
{
    if !(from < 0 || from >= guardians.len() || remaining == 0 || guardians[from].amount > 0) {
        lemma_skip(guardians, quotes, from + 1, remaining);
    }
}

/// The swaps planned from `from` on, one by one: each sells a guardian at or
/// after `from` with something pledged, under that guardian's quote, and the
/// guardians sold come in rising order.
pub proof fn lemma_plan_shape(
    guardians: Seq<Guardian>,
    quotes: Seq<u128>,
    from: int,
    remaining: nat,
)
    requires
        0 <= from <= guardians.len(),
    ensures
        swaps_from(guardians, quotes, from, remaining).len() == sources_from(
            guardians,
            quotes,
            from,
            remaining,
        ).len(),
        sources_from(guardians, quotes, from, remaining).len() <= guardians.len() - from,
        forall|k: int|
            0 <= k < sources_from(guardians, quotes, from, remaining).len() ==> {
                let place = #[trigger] sources_from(guardians, quotes, from, remaining)[k];
                &&& from <= place < guardians.len()
                &&& guardians[place].amount > 0
                &&& swaps_from(guardians, quotes, from, remaining)[k] == swap_of(
                    guardians[place],
                    quotes[place] as nat,
                )
            },
        forall|k: int, l: int|
            0 <= k < l < sources_from(guardians, quotes, from, remaining).len()
                ==> #[trigger] sources_from(guardians, quotes, from, remaining)[k]
                < #[trigger] sources_from(guardians, quotes, from, remaining)[l],
    decreases guardians.len() - from,
{
    if from >= guardians.len() || remaining == 0 {
    } else if guardians[from].amount == 0 {
        lemma_plan_shape(guardians, quotes, from + 1, remaining);
    } else {
        let rest: nat = (remaining - coverage(
            guardians[from].amount as nat,
            quotes[from] as nat,
            remaining,
        )) as nat;
        lemma_plan_shape(guardians, quotes, from + 1, rest);
        let tail_sources = sources_from(guardians, quotes, from + 1, rest);
        let tail_swaps = swaps_from(guardians, quotes, from + 1, rest);
        let sources = sources_from(guardians, quotes, from, remaining);
        let swaps = swaps_from(guardians, quotes, from, remaining);
        assert(sources == seq![from] + tail_sources);
        assert(swaps == seq![swap_of(guardians[from], quotes[from] as nat)] + tail_swaps);
        assert forall|k: int| 0 <= k < sources.len() implies {
            let place = #[trigger] sources[k];
            &&& from <= place < guardians.len()
            &&& guardians[place].amount > 0
            &&& swaps[k] == swap_of(guardians[place], quotes[place] as nat)
        } by {
            if k > 0 {
                assert(sources[k] == tail_sources[k - 1]);
                assert(swaps[k] == tail_swaps[k - 1]);
            }
        }
        assert forall|k: int, l: int| 0 <= k < l < sources.len() implies #[trigger] sources[k]
            < #[trigger] sources[l] by {
            assert(sources[l] == tail_sources[l - 1]);
            if k > 0 {
                assert(sources[k] == tail_sources[k - 1]);
            }
        }
    }
}

/// What is left before the guardian at `from`, carried through the plan from
/// there, is what is left after the last guardian; and where nothing is
/// left before the guardian at `place`, no guardian at or after `place` is
/// sold.
pub proof fn lemma_plan_stops(
    guardians: Seq<Guardian>,
    quotes: Seq<u128>,
    ask: nat,
    from: int,
    place: int,
)
    requires
        0 <= from <= place <= guardians.len(),
    ensures
        left_from(guardians, quotes, from, remaining_at(guardians, quotes, ask, from as nat))
            == remaining_at(guardians, quotes, ask, guardians.len()),
        remaining_at(guardians, quotes, ask, place as nat) == 0 ==> forall|k: int|
            0 <= k < sources_from(
                guardians,
                quotes,
                from,
                remaining_at(guardians, quotes, ask, from as nat),
            ).len() ==> #[trigger] sources_from(
                guardians,
                quotes,
                from,
                remaining_at(guardians, quotes, ask, from as nat),
            )[k] < place,
    decreases guardians.len() - from,
{
    let remaining = remaining_at(guardians, quotes, ask, from as nat);
    if from >= guardians.len() {
    } else {
        let next = remaining_at(guardians, quotes, ask, (from + 1) as nat);
        lemma_coverage(guardians[from].amount as nat, quotes[from] as nat, remaining);
        if from < place {
            lemma_plan_stops(guardians, quotes, ask, from + 1, place);
        } else {
            lemma_plan_stops(guardians, quotes, ask, from + 1, from + 1);
        }
        if remaining == 0 {
            assert(next == 0);
            lemma_left_of_nothing(guardians, quotes, from + 1);
            assert(sources_from(guardians, quotes, from, remaining).len() == 0);
        } else if guardians[from].amount == 0 {
            assert(next == remaining);
            assert(sources_from(guardians, quotes, from, remaining) == sources_from(
                guardians,
                quotes,
                from + 1,
                next,
            ));
        } else {
            let sources = sources_from(guardians, quotes, from, remaining);
            let tail = sources_from(guardians, quotes, from + 1, next);
            assert(sources == seq![from] + tail);
            if remaining_at(guardians, quotes, ask, place as nat) == 0 {
                assert forall|k: int| 0 <= k < sources.len() implies #[trigger] sources[k]
                    < place by {
                    if k > 0 {
                        assert(sources[k] == tail[k - 1]);
                    }
                }
            }
        }
    }
}

/// With nothing left to raise, nothing is left after the plan.
pub proof fn lemma_left_of_nothing(guardians: Seq<Guardian>, quotes: Seq<u128>, from: int)
    ensures
        left_from(guardians, quotes, from, 0) == 0,
        swaps_from(guardians, quotes, from, 0).len() == 0,
        sources_from(guardians, quotes, from, 0).len() == 0,
{
}

/// Once nothing is left to raise, nothing is left at any later place.
pub proof fn lemma_remaining_stays_zero(
    guardians: Seq<Guardian>,
    quotes: Seq<u128>,
    ask: nat,
    place: nat,
    later: nat,
)
    requires
        place <= later,
        remaining_at(guardians, quotes, ask, place) == 0,
    ensures
        remaining_at(guardians, quotes, ask, later) == 0,
    decreases later,
{
    if place < later {
        lemma_remaining_stays_zero(guardians, quotes, ask, place, (later - 1) as nat);
    }
}

/// Every planned swap sells one guardian, on that guardian's venue, and
/// never more than the guardian pledged; the swaps come in pledge order; and
/// there are no more swaps than guardians.
pub proof fn law_swaps_follow_pledges(guardians: Seq<Guardian>, quotes: Seq<u128>, ask: nat)
    ensures
        planned_swaps(guardians, quotes, ask).len() == planned_sources(
            guardians,
            quotes,
            ask,
        ).len(),
        planned_swaps(guardians, quotes, ask).len() <= guardians.len(),
        forall|k: int|
            0 <= k < planned_swaps(guardians, quotes, ask).len() ==> {
                let place = planned_sources(guardians, quotes, ask)[k];
                &&& 0 <= place < guardians.len()
                &&& #[trigger] planned_swaps(guardians, quotes, ask)[k] matches Instruction::Swap {
                    venue,
                    asset,
                    amount,
                    belief_price,
                    max_spread,
                    to,
                }
                &&& venue == guardians[place].pair_address
                &&& asset == guardians[place].address
                &&& amount == swap_size(guardians[place].amount as nat, quotes[place] as nat)
                &&& amount <= guardians[place].amount
            },
        forall|k: int, l: int|
            0 <= k < l < planned_sources(guardians, quotes, ask).len()
                ==> #[trigger] planned_sources(guardians, quotes, ask)[k]
                < #[trigger] planned_sources(guardians, quotes, ask)[l],
{
    lemma_plan_shape(guardians, quotes, 0, ask);
    let swaps = planned_swaps(guardians, quotes, ask);
    let sources = planned_sources(guardians, quotes, ask);
    assert forall|k: int| 0 <= k < swaps.len() implies {
        let place = sources[k];
        &&& 0 <= place < guardians.len()
        &&& #[trigger] swaps[k] matches Instruction::Swap {
            venue,
            asset,
            amount,
            belief_price,
            max_spread,
            to,
        }
        &&& venue == guardians[place].pair_address
        &&& asset == guardians[place].address
        &&& amount == swap_size(guardians[place].amount as nat, quotes[place] as nat)
        &&& amount <= guardians[place].amount
    } by {
        let place = sources[k];
        lemma_coverage(guardians[place].amount as nat, quotes[place] as nat, 0);
    }
}

/// The planner stops as soon as enough is covered: where the guardians
/// before `place` cover all that was asked, no guardian at or after `place`
/// is sold. What the plan leaves is what is left after the last guardian.
pub proof fn law_plan_stops_when_covered(
    guardians: Seq<Guardian>,
    quotes: Seq<u128>,
    ask: nat,
    place: int,
)
    requires
        0 <= place <= guardians.len(),
    ensures
        planned_left(guardians, quotes, ask) == remaining_at(
            guardians,
            quotes,
            ask,
            guardians.len(),
        ),
        remaining_at(guardians, quotes, ask, place as nat) == 0 ==> forall|k: int|
            0 <= k < planned_sources(guardians, quotes, ask).len() ==> #[trigger] planned_sources(
                guardians,
                quotes,
                ask,
            )[k] < place,
        remaining_at(guardians, quotes, ask, place as nat) == 0 ==> planned_left(
            guardians,
            quotes,
            ask,
        ) == 0,
{
    lemma_plan_stops(guardians, quotes, ask, 0, place);
    if remaining_at(guardians, quotes, ask, place as nat) == 0 {
        lemma_remaining_stays_zero(guardians, quotes, ask, place as nat, guardians.len());
    }
}

/// From `from` on, with what is left there, the plan sells exactly the
/// guardians that have something pledged and find something left to raise
/// when their turn comes.
pub proof fn lemma_sold_from(
    guardians: Seq<Guardian>,
    quotes: Seq<u128>,
    ask: nat,
    from: int,
    place: int,
)
    requires
        0 <= from <= guardians.len(),
        0 <= place < guardians.len(),
    ensures
        sources_from(
            guardians,
            quotes,
            from,
            remaining_at(guardians, quotes, ask, from as nat),
        ).contains(place) <==> from <= place && guardians[place].amount > 0 && remaining_at(
            guardians,
            quotes,
            ask,
            place as nat,
        ) > 0,
    decreases guardians.len() - from,
{
    let remaining = remaining_at(guardians, quotes, ask, from as nat);
    let sources = sources_from(guardians, quotes, from, remaining);
    if from >= guardians.len() {
    } else if remaining == 0 {
        if from <= place {
            lemma_remaining_stays_zero(guardians, quotes, ask, from as nat, place as nat);
        }
    } else {
        let next = remaining_at(guardians, quotes, ask, (from + 1) as nat);
        let tail = sources_from(guardians, quotes, from + 1, next);
        lemma_sold_from(guardians, quotes, ask, from + 1, place);
        if guardians[from].amount == 0 {
            assert(next == remaining);
            assert(sources == tail);
        } else {
            assert(sources == seq![from] + tail);
            assert(sources[0] == from);
            if tail.contains(place) {
                let i = choose|i: int| 0 <= i < tail.len() && tail[i] == place;
                assert(sources[i + 1] == place);
            }
            if sources.contains(place) {
                let i = choose|i: int| 0 <= i < sources.len() && sources[i] == place;
                if i > 0 {
                    assert(tail[i - 1] == place);
                }
            }
        }
    }
}

/// A guardian is sold exactly when it has something pledged and something
/// is left to raise when its turn comes: none is passed over while the
/// amount asked is not covered, and none is sold once it is.
pub proof fn law_sold_while_needed(
    guardians: Seq<Guardian>,
    quotes: Seq<u128>,
    ask: nat,
    place: int,
)
    requires
        0 <= place < guardians.len(),
    ensures
        planned_sources(guardians, quotes, ask).contains(place) <==> guardians[place].amount > 0
            && remaining_at(guardians, quotes, ask, place as nat) > 0,
{
    lemma_sold_from(guardians, quotes, ask, 0, place);
}

/// Where every guardian from `from` on has something pledged, the plan from
/// there sells them one after the other, with none left out, up to the one
/// that covers the rest.
pub proof fn lemma_prefix_from(guardians: Seq<Guardian>, quotes: Seq<u128>, ask: nat, from: int)
    requires
        0 <= from <= guardians.len(),
        forall|i: int| from <= i < guardians.len() ==> guardians[i].amount > 0,
    ensures
        ({
            let sources = sources_from(
                guardians,
                quotes,
                from,
                remaining_at(guardians, quotes, ask, from as nat),
            );
            &&& from + sources.len() <= guardians.len()
            &&& forall|k: int| 0 <= k < sources.len() ==> #[trigger] sources[k] == from + k
            &&& forall|k: int|
                0 <= k < sources.len() ==> #[trigger] remaining_at(
                    guardians,
                    quotes,
                    ask,
                    (from + k) as nat,
                ) > 0
            &&& from + sources.len() < guardians.len() ==> remaining_at(
                guardians,
                quotes,
                ask,
                (from + sources.len()) as nat,
            ) == 0
        }),
    decreases guardians.len() - from,
{
    let remaining = remaining_at(guardians, quotes, ask, from as nat);
    let sources = sources_from(guardians, quotes, from, remaining);
    if from >= guardians.len() || remaining == 0 {
    } else {
        let next = remaining_at(guardians, quotes, ask, (from + 1) as nat);
        let tail = sources_from(guardians, quotes, from + 1, next);
        lemma_prefix_from(guardians, quotes, ask, from + 1);
        assert(sources == seq![from] + tail);
        assert forall|k: int| 0 <= k < sources.len() implies #[trigger] sources[k] == from + k by {
            if k > 0 {
                assert(sources[k] == tail[k - 1]);
            }
        }
        assert forall|k: int| 0 <= k < sources.len() implies #[trigger] remaining_at(
            guardians,
            quotes,
            ask,
            (from + k) as nat,
        ) > 0 by {
            if k > 0 {
                assert(remaining_at(guardians, quotes, ask, (from + 1 + (k - 1)) as nat) > 0);
            }
        }
    }
}

/// Where every guardian has something pledged, the swaps sell the first
/// guardians one by one, in pledge order and with none left out: the swap
/// at place `k` sells the guardian at place `k`. Each of them finds
/// something left to raise, and where the plan covers the amount asked, the
/// last guardian sold is the first at which nothing is left.
pub proof fn law_swaps_sell_a_prefix(guardians: Seq<Guardian>, quotes: Seq<u128>, ask: nat)
    requires
        forall|i: int| 0 <= i < guardians.len() ==> guardians[i].amount > 0,
    ensures
        planned_swaps(guardians, quotes, ask).len() <= guardians.len(),
        forall|k: int|
            0 <= k < planned_swaps(guardians, quotes, ask).len() ==> #[trigger] planned_swaps(
                guardians,
                quotes,
                ask,
            )[k] == swap_of(guardians[k], quotes[k] as nat),
        forall|k: int|
            0 <= k < planned_swaps(guardians, quotes, ask).len() ==> #[trigger] remaining_at(
                guardians,
                quotes,
                ask,
                k as nat,
            ) > 0,
        planned_left(guardians, quotes, ask) == 0 ==> remaining_at(
            guardians,
            quotes,
            ask,
            planned_swaps(guardians, quotes, ask).len(),
        ) == 0,
        planned_left(guardians, quotes, ask) == 0 && ask > 0 ==> planned_swaps(
            guardians,
            quotes,
            ask,
        ).len() >= 1,
{
    lemma_prefix_from(guardians, quotes, ask, 0);
    lemma_plan_shape(guardians, quotes, 0, ask);
    lemma_plan_stops(guardians, quotes, ask, 0, guardians.len() as int);
    let swaps = planned_swaps(guardians, quotes, ask);
    let sources = planned_sources(guardians, quotes, ask);
    assert forall|k: int| 0 <= k < swaps.len() implies #[trigger] swaps[k] == swap_of(
        guardians[k],
        quotes[k] as nat,
    ) by {
        assert(sources[k] == 0 + k);
    }
    assert forall|k: int| 0 <= k < swaps.len() implies #[trigger] remaining_at(
        guardians,
        quotes,
        ask,
        k as nat,
    ) > 0 by {
        assert(remaining_at(guardians, quotes, ask, (0 + k) as nat) > 0);
    }
}

/// The planner between two quotes: the swaps planned so far, what is left to
/// raise, and the guardian whose venue is asked next.
#[derive(Clone, Debug, PartialEq, Eq)]
pub struct Planner {
    /// The borrower's guardians, in pledge order.
    pub guardians: Vec<Guardian>,
    /// The place of the guardian that is looked at next.
    pub cursor: usize,
    /// What is left to raise.
    pub remaining: u128,
    /// The swaps planned so far.
    pub swaps: Vec<Instruction>,
}

impl Planner {
    /// The planner waits for the quote of the guardian at the cursor.
    pub open spec fn awaiting(&self) -> bool {
        &&& self.cursor < self.guardians.len()
        &&& self.remaining > 0
        &&& self.guardians[self.cursor as int].amount > 0
    }

    /// The plan is complete: all is raised, or no guardian is left.
    pub open spec fn complete(&self) -> bool {
        self.cursor >= self.guardians.len() || self.remaining == 0
    }

    /// The swaps of the complete plan, where the venues still to be asked
    /// answer as `quotes` says.
    pub open spec fn final_swaps(&self, quotes: Seq<u128>) -> Seq<Instruction> {
        self.swaps@ + swaps_from(self.guardians@, quotes, self.cursor as int, self.remaining as nat)
    }

    /// What the complete plan leaves to raise, where the venues still to be
    /// asked answer as `quotes` says.
    pub open spec fn final_left(&self, quotes: Seq<u128>) -> nat {
        left_from(self.guardians@, quotes, self.cursor as int, self.remaining as nat)
    }

    /// This planner is a fresh one for `ask`: no swap is planned, and the
    /// cursor is at the first guardian with something pledged.
    pub open spec fn starts(&self, guardians: Vec<Guardian>, ask: u128) -> bool {
        &&& self.guardians == guardians
        &&& self.remaining == ask
        &&& self.swaps@.len() == 0
        &&& self.cursor == skip(guardians@, 0, ask as nat)
    }

    /// `next` is this planner after the quote `quoted`. A planner that does
    /// not wait for a quote stays as it is.
    pub open spec fn supplied(&self, quoted: u128, next: Planner) -> bool {
        if self.awaiting() {
            let guardian = self.guardians[self.cursor as int];
            &&& next.guardians == self.guardians
            &&& next.swaps@ == self.swaps@.push(swap_of(guardian, quoted as nat))
            &&& next.remaining == self.remaining - coverage(
                guardian.amount as nat,
                quoted as nat,
                self.remaining as nat,
            )
            &&& next.cursor == skip(self.guardians@, self.cursor + 1, next.remaining as nat)
        } else {
            next == *self
        }
    }

    /// Moves the cursor past the guardians with nothing pledged.
    fn seek(&mut self)
        ensures
            final(self).guardians == old(self).guardians,
            final(self).swaps == old(self).swaps,
            final(self).remaining == old(self).remaining,
            final(self).cursor == skip(
                old(self).guardians@,
                old(self).cursor as int,
                old(self).remaining as nat,
            ),
            final(self).awaiting() || final(self).complete(),
    {
        let ghost start: int = self.cursor as int;
        while self.cursor < self.guardians.len() && self.remaining > 0
            && self.guardians[self.cursor].amount == 0
            invariant
                self.guardians == old(self).guardians,
                self.swaps == old(self).swaps,
                self.remaining == old(self).remaining,
                start == old(self).cursor,
                skip(self.guardians@, self.cursor as int, self.remaining as nat) == skip(
                    self.guardians@,
                    start,
                    self.remaining as nat,
                ),
            decreases self.guardians.len() - self.cursor,
        {
            self.cursor = self.cursor + 1;
        }
    }

    /// A planner that is to raise `ask` from the guardians.
    pub fn start(guardians: Vec<Guardian>, ask: u128) -> (p: Planner)
        ensures
            p.starts(guardians, ask),
            p.awaiting() || p.complete(),
    {
        let mut p: Planner = Planner { guardians, cursor: 0, remaining: ask, swaps: Vec::new() };
        p.seek();
        p
    }

    /// The quote to ask for next: the venue, and the amount of settlement
    /// currency that the swap is to buy. `None` once the plan is complete.
    pub fn pending(&self) -> (r: Option<(String, u128)>)
        ensures
            r is Some <==> self.awaiting(),
            r matches Some(q) ==> q.0 == self.guardians[self.cursor as int].pair_address && q.1
                == self.remaining,
    {
        if self.cursor < self.guardians.len() && self.remaining > 0
            && self.guardians[self.cursor].amount > 0 {
            Some((self.guardians[self.cursor].pair_address.clone(), self.remaining))
        } else {
            None
        }
    }

    /// Takes the venue's answer: how much of the guardian's asset buys what
    /// is left to raise. The swap is planned, what it covers is taken off,
    /// and the cursor moves to the next guardian with something pledged. A
    /// quote that the planner does not wait for changes nothing.
    pub fn supply(&mut self, quoted: u128)
        ensures
            old(self).supplied(quoted, *final(self)),
            old(self).awaiting() ==> final(self).awaiting() || final(self).complete(),
    {
        if !(self.cursor < self.guardians.len() && self.remaining > 0
            && self.guardians[self.cursor].amount > 0) {
            return ;
        }
        let pledged: u128 = self.guardians[self.cursor].amount;
        let venue: String = self.guardians[self.cursor].pair_address.clone();
        let asset: String = self.guardians[self.cursor].address.clone();
        proof {
            lemma_coverage(pledged as nat, quoted as nat, self.remaining as nat);
        }
        let size: u128 = if quoted <= pledged {
            quoted
        } else {
            pledged
        };
        let covered: u128 = if quoted <= pledged {
            self.remaining
        } else {
            checked_multiply_ratio(pledged, self.remaining, quoted).unwrap()
        };
        self.swaps.push(
            Instruction::Swap {
                venue,
                asset,
                amount: size,
                belief_price: None,
                max_spread: None,
                to: None,
            },
        );
        self.remaining = self.remaining - covered;
        self.cursor = self.cursor + 1;
        self.seek();
    }

    /// Whether the plan is complete and raises all that was asked.
    pub fn is_sufficient(&self) -> (r: bool)
        ensures
            r == (self.remaining == 0),
    {
        self.remaining == 0
    }
}

/// A fresh planner ends as the whole plan does, whatever the venues answer.
pub proof fn lemma_start_plans(
    planner: Planner,
    guardians: Vec<Guardian>,
    ask: u128,
    quotes: Seq<u128>,
)
    requires
        planner.starts(guardians, ask),
    ensures
        planner.final_swaps(quotes) == planned_swaps(guardians@, quotes, ask as nat),
        planner.final_left(quotes) == planned_left(guardians@, quotes, ask as nat),
        planner.awaiting() || planner.complete(),
        planner.cursor <= guardians.len(),
{
    lemma_skip(guardians@, quotes, 0, ask as nat);
    lemma_skip_stops(guardians@, 0, ask as nat);
    assert(planner.swaps@ + swaps_from(guardians@, quotes, 0, ask as nat) == swaps_from(
        guardians@,
        quotes,
        0,
        ask as nat,
    ));
}

/// Taking a quote moves the planner on: the cursor passes the guardian that
/// was quoted, and the planner waits for the next quote or is complete.
pub proof fn lemma_supply_moves_on(before: Planner, quoted: u128, after: Planner)
    requires
        before.awaiting(),
        before.supplied(quoted, after),
    ensures
        after.awaiting() || after.complete(),
        before.cursor < after.cursor <= before.guardians.len(),
        after.remaining <= before.remaining,
        after.swaps@.len() == before.swaps@.len() + 1,
{
    let next: int = before.cursor + 1;
    lemma_skip(before.guardians@, Seq::empty(), next, after.remaining as nat);
    lemma_skip_stops(before.guardians@, next, after.remaining as nat);
    lemma_coverage(
        before.guardians[before.cursor as int].amount as nat,
        quoted as nat,
        before.remaining as nat,
    );
}

/// Taking the quote that the venue gave keeps the end of the plan: the
/// swaps of the complete plan and what it leaves are the same before and
/// after the step.
pub proof fn lemma_supply_keeps_plan(
    before: Planner,
    quoted: u128,
    after: Planner,
    quotes: Seq<u128>,
)
    requires
        before.awaiting(),
        before.supplied(quoted, after),
        quotes[before.cursor as int] == quoted,
    ensures
        after.final_swaps(quotes) == before.final_swaps(quotes),
        after.final_left(quotes) == before.final_left(quotes),
        after.awaiting() || after.complete(),
        before.cursor < after.cursor <= before.guardians.len(),
{
    let next: int = before.cursor + 1;
    lemma_supply_moves_on(before, quoted, after);
    lemma_skip(before.guardians@, quotes, next, after.remaining as nat);
    let tail = swaps_from(before.guardians@, quotes, next, after.remaining as nat);
    let head = swap_of(before.guardians[before.cursor as int], quoted as nat);
    lemma_coverage(
        before.guardians[before.cursor as int].amount as nat,
        quoted as nat,
        before.remaining as nat,
    );
    assert(swaps_from(
        before.guardians@,
        quotes,
        before.cursor as int,
        before.remaining as nat,
    ) == seq![head] + tail);
    assert(before.swaps@.push(head) + tail == before.swaps@ + (seq![head] + tail));
}

/// Where `skip` stops, a guardian has something pledged, or nothing is left
/// to raise, or no guardian is left.
pub proof fn lemma_skip_stops(guardians: Seq<Guardian>, from: int, remaining: nat)
    requires
        0 <= from,
    ensures
        ({
            let at = skip(guardians, from, remaining);
            at >= guardians.len() || remaining == 0 || guardians[at].amount > 0
        }),
    decreases guardians.len() - from,
{
    if !(from >= guardians.len() || remaining == 0 || guardians[from].amount > 0) {
        lemma_skip_stops(guardians, from + 1, remaining);
    }
}

/// A complete plan ends as it stands.
pub proof fn lemma_complete_plan(planner: Planner, quotes: Seq<u128>)
    requires
        planner.complete(),
    ensures
        planner.final_swaps(quotes) == planner.swaps@,
        planner.final_left(quotes) == planner.remaining,
{
    assert(planner.swaps@ + Seq::<Instruction>::empty() == planner.swaps@);
}

/// Plans the swaps for `ask`, where `quotes` holds for each guardian the
/// answer of its venue: the swaps in pledge order, and what they leave to
/// raise. `None` where the quotes are not one per guardian.
pub fn plan(guardians: Vec<Guardian>, quotes: &Vec<u128>, ask: u128) -> (r: Option<
    (Vec<Instruction>, u128),
>)
    ensures
        r is Some <==> quotes.len() == guardians.len(),
        r matches Some(p) ==> p.0@ == planned_swaps(guardians@, quotes@, ask as nat) && p.1
            == planned_left(guardians@, quotes@, ask as nat),
{
    if quotes.len() != guardians.len() {
        return None;
    }
    let ghost all: Seq<Guardian> = guardians@;
    let mut planner: Planner = Planner::start(guardians, ask);
    proof {
        lemma_start_plans(planner, guardians, ask, quotes@);
    }
    while planner.cursor < planner.guardians.len() && planner.remaining > 0
        invariant
            planner.guardians@ == all,
            quotes.len() == all.len(),
            planner.cursor <= all.len(),
            planner.awaiting() || planner.complete(),
            planner.final_swaps(quotes@) == planned_swaps(all, quotes@, ask as nat),
            planner.final_left(quotes@) == planned_left(all, quotes@, ask as nat),
        decreases all.len() - planner.cursor,
    {
        let ghost before: Planner = planner;
        let quoted: u128 = quotes[planner.cursor];
        planner.supply(quoted);
        proof {
            lemma_supply_keeps_plan(before, quoted, planner, quotes@);
        }
    }
    proof {
        lemma_complete_plan(planner, quotes@);
    }
    Some((planner.swaps, planner.remaining))
}

} // verus!
