//! What holds of every catalog: a circle in the composition is always
//! found, the cost of a plate is the sum of what its components contribute,
//! and a valuation repeated on an unchanged catalog repeats its result.

use vstd::prelude::*;
use vstd::set_lib::{lemma_int_range, lemma_len_subset, set_int_range};
use crate::fraction::{
    lemma_over_step, lemma_plus_minus, lemma_plus_regroup, lemma_plus_same, lemma_plus_swap,
    lemma_reduced, lemma_same_transitive, lemma_times_distributes, lemma_times_same,
    lemma_times_step, Fraction,
};
use crate::model::{held, CatalogModel, ComponentModel, ValuationError};
use crate::ratio::Ratio;
use crate::valuation::outcome;

verus! {

impl CatalogModel {
    // ------------------------------------------------------------------
    // Circles
    // ------------------------------------------------------------------
    /// A plate that is made of itself, directly or through other plates,
    /// makes the composition cyclic from itself and from every plate that is
    /// made of it.
    pub proof fn lemma_circle_is_cyclic(self, p: int, q: int)
        requires
            p == q || self.made_of(p, q),
            self.made_of(q, q),
        ensures
            self.cyclic_from(p),
    {
        let circle = choose|w: Seq<int>| #[trigger]
            self.is_chain(w) && w.len() >= 2 && w[0] == q && w[w.len() - 1] == q;
        if p == q {
            assert(circle[0] == circle[circle.len() - 1]);
            assert(self.is_chain(circle) && circle[0] == p && !circle.no_duplicates());
        } else {
            let lead = choose|w: Seq<int>| #[trigger]
                self.is_chain(w) && w.len() >= 2 && w[0] == p && w[w.len() - 1] == q;
            let rest = circle.subrange(1, circle.len() as int);
            let w = lead + rest;
            assert forall|i: int| 0 <= i < w.len() - 1 implies self.uses(#[trigger] w[i], w[i + 1]) by {
                if i < lead.len() - 1 {
                    assert(w[i] == lead[i]);
                    assert(w[i + 1] == lead[i + 1]);
                } else if i == lead.len() - 1 {
                    assert(w[i] == circle[0]);
                    assert(w[i + 1] == circle[1]);
                    assert(self.uses(circle[0], circle[1]));
                } else {
                    let at = i - lead.len() + 1;
                    assert(w[i] == circle[at]);
                    assert(w[i + 1] == circle[at + 1]);
                    assert(self.uses(circle[at], circle[at + 1]));
                }
            }
            assert(w[0] == lead[0]);
            assert(w[lead.len() - 1] == q);
            assert(w[w.len() - 1] == circle[circle.len() - 1]);
            assert(self.is_chain(w) && w[0] == p && !w.no_duplicates());
        }
    }

    /// A composition that is cyclic from a plate holds a plate that is made
    /// of itself: the plate, or one that it is made of.
    pub proof fn lemma_cyclic_has_circle(self, p: int)
        requires
            self.cyclic_from(p),
        ensures
            exists|q: int| (p == q || self.made_of(p, q)) && #[trigger] self.made_of(q, q),
    {
        let w = choose|w: Seq<int>| #[trigger] self.is_chain(w) && w[0] == p && !w.no_duplicates();
        let (i, j) = choose|i: int, j: int|
            0 <= i < w.len() && 0 <= j < w.len() && i != j && w[i] == w[j];
        let a = if i < j {
            i
        } else {
            j
        };
        let b = if i < j {
            j
        } else {
            i
        };
        let q = w[a];
        let circle = w.subrange(a, b + 1);
        assert(self.uses(w[a], w[a + 1]));
        assert forall|n: int| 0 <= n < circle.len() - 1 implies self.uses(
            #[trigger] circle[n],
            circle[n + 1],
        ) by {
            assert(circle[n] == w[a + n]);
            assert(circle[n + 1] == w[a + n + 1]);
            assert(self.uses(w[a + n], w[a + n + 1]));
        }
        assert(circle[0] == q);
        assert(circle[circle.len() - 1] == w[b]);
        assert(self.is_chain(circle) && circle.len() >= 2 && circle[0] == q && circle[circle.len()
            - 1] == q);
        assert(self.made_of(q, q));
        if a > 0 {
            let lead = w.subrange(0, a + 1);
            assert forall|n: int| 0 <= n < lead.len() - 1 implies self.uses(
                #[trigger] lead[n],
                lead[n + 1],
            ) by {
                assert(lead[n] == w[n]);
                assert(lead[n + 1] == w[n + 1]);
                assert(self.uses(w[n], w[n + 1]));
            }
            assert(lead[0] == p);
            assert(lead[lead.len() - 1] == q);
            assert(self.is_chain(lead) && lead.len() >= 2 && lead[0] == p && lead[lead.len() - 1]
                == q);
            assert(self.made_of(p, q));
        }
    }

    /// Every valuation that follows the composition of a plate fails with a
    /// cyclic reference where the plate, or a plate that it is made of, is
    /// made of itself. The margin rate does so unless the plate sells for
    /// nothing, in which case it is zero.
    pub proof fn lemma_circle_fails(self, p: int, q: int, rate: Fraction)
        requires
            self.has_plate(p),
            p == q || self.made_of(p, q),
            self.made_of(q, q),
        ensures
            self.ingredient_cost_outcome(p) == Err::<Fraction, _>(ValuationError::CyclicReference),
            self.batch_cost_per_unit_outcome(p) == Err::<Fraction, _>(
                ValuationError::CyclicReference,
            ),
            self.total_cost_price_outcome(p, rate) == Err::<Fraction, _>(
                ValuationError::CyclicReference,
            ),
            self.gross_margin_outcome(p, rate) == Err::<Fraction, _>(
                ValuationError::CyclicReference,
            ),
            !self.plates[p].selling_price.is_zero() ==> self.margin_rate_outcome(p, rate) == Err::<
                Fraction,
                _,
            >(ValuationError::CyclicReference),
    {
        self.lemma_circle_is_cyclic(p, q);
    }

    // ------------------------------------------------------------------
    // Roll-up
    // ------------------------------------------------------------------
    /// No chain of components from `p` is longer than `k` plates.
    pub open spec fn chains_within(self, p: int, k: nat) -> bool {
        forall|w: Seq<int>| #[trigger] self.is_chain(w) && w[0] == p ==> w.len() <= k
    }

    /// What a component contributes to the cost of the plate that lists it:
    /// its quantity times the cost of one unit of the ingredient, or times
    /// the ingredient cost of one unit of the sub-plate's batch.
    pub open spec fn contribution(self, c: ComponentModel) -> Fraction {
        c.quantity().times(self.cost_of_one(c))
    }

    /// What one unit of a component costs: the cost per unit of the
    /// ingredient, in the component's unit, or the ingredient cost of one
    /// unit of the sub-plate's batch.
    pub open spec fn cost_of_one(self, c: ComponentModel) -> Fraction {
        match c {
            ComponentModel::Ingredient { ingredient, unit, .. } => self.ingredients[ingredient].cost_per_unit(
                unit,
            ),
            ComponentModel::Plate { plate, .. } => self.ingredient_cost(plate).over(
                self.plates[plate].batch_quantity,
            ),
        }
    }

    /// What the first `k` components of plate `p` contribute together.
    pub open spec fn contributions(self, p: int, k: nat) -> Fraction
        decreases k,
    {
        if k == 0 {
            Fraction::zero()
        } else {
            self.contributions(p, (k - 1) as nat).plus(
                self.contribution(self.plates[p].components[k - 1]),
            )
        }
    }

    /// Every member of a chain is a plate of the catalog.
    pub proof fn lemma_chain_is_known(self, w: Seq<int>, i: int)
        requires
            self.wf(),
            self.is_chain(w),
            0 <= i < w.len(),
        ensures
            self.has_plate(w[i]),
    {
        if i > 0 {
            assert(self.uses(w[i - 1], w[i - 1 + 1]));
            self.lemma_used_is_known(w[i - 1], w[i]);
        }
    }

    /// A composition without a circle is no deeper than the catalog has
    /// plates, and below a component no deeper than that less one.
    pub proof fn lemma_acyclic_is_shallow(self, p: int)
        requires
            self.wf(),
            self.has_plate(p),
            !self.cyclic_from(p),
        ensures
            self.chains_within(p, self.plates.len()),
            forall|s: int| self.uses(p, s) ==> self.chains_within(s, (self.plates.len() - 1) as nat),
    {
        let n = self.plates.len() as int;
        lemma_int_range(0, n);
        assert forall|w: Seq<int>| #[trigger] self.is_chain(w) && w[0] == p implies w.len()
            <= n by {
            self.lemma_simple_chain_is_short(w);
        }
        assert forall|s: int| self.uses(p, s) implies self.chains_within(s, (n - 1) as nat) by {
            assert forall|w: Seq<int>| #[trigger] self.is_chain(w) && w[0] == s implies w.len()
                <= n - 1 by {
                let longer = seq![p] + w;
                assert forall|i: int| 0 <= i < longer.len() - 1 implies self.uses(
                    #[trigger] longer[i],
                    longer[i + 1],
                ) by {
                    if i == 0 {
                        assert(longer[1] == w[0]);
                    } else {
                        assert(longer[i] == w[i - 1]);
                        assert(longer[i + 1] == w[i]);
                    }
                }
                assert(self.is_chain(longer) && longer[0] == p);
                self.lemma_simple_chain_is_short(longer);
            }
        }
    }

    /// A chain that comes by no plate twice is no longer than the catalog
    /// has plates.
    pub proof fn lemma_simple_chain_is_short(self, w: Seq<int>)
        requires
            self.wf(),
            self.is_chain(w),
            w.no_duplicates(),
        ensures
            w.len() <= self.plates.len(),
    {
        let n = self.plates.len() as int;
        lemma_int_range(0, n);
        w.unique_seq_to_set();
        assert(w.to_set().subset_of(set_int_range(0, n))) by {
            assert forall|x: int| w.to_set().contains(x) implies set_int_range(0, n).contains(
                x,
            ) by {
                let i = choose|i: int| 0 <= i < w.len() && w[i] == x;
                self.lemma_chain_is_known(w, i);
            }
        }
        lemma_len_subset(w.to_set(), set_int_range(0, n));
    }

    /// Following sub-plates further down than the composition goes changes
    /// no cost.
    pub proof fn lemma_depth_is_enough(self, p: int, j: nat, k: nat, d1: nat, d2: nat)
        requires
            self.wf(),
            self.has_plate(p),
            j <= self.plates[p].components.len(),
            self.chains_within(p, k),
            k <= d1,
            k <= d2,
        ensures
            self.partial_cost(p, j, d1) == self.partial_cost(p, j, d2),
        decreases k, j,
    {
        if j > 0 {
            self.lemma_depth_is_enough(p, (j - 1) as nat, k, d1, d2);
            let c = self.plates[p].components[j - 1];
            assert(self.component_known(c));
            match c {
                ComponentModel::Ingredient { .. } => {},
                ComponentModel::Plate { plate, quantity } => {
                    assert(c.is_plate(plate));
                    assert(self.uses(p, plate));
                    let pair = seq![p, plate];
                    assert(self.is_chain(pair) && pair[0] == p);
                    assert(k >= 2);
                    assert forall|w: Seq<int>| #[trigger] self.is_chain(w) && w[0] == plate implies w.len()
                        <= k - 1 by {
                        let longer = seq![p] + w;
                        assert forall|i: int| 0 <= i < longer.len() - 1 implies self.uses(
                            #[trigger] longer[i],
                            longer[i + 1],
                        ) by {
                            if i == 0 {
                                assert(longer[1] == w[0]);
                            } else {
                                assert(longer[i] == w[i - 1]);
                                assert(longer[i + 1] == w[i]);
                            }
                        }
                        assert(self.is_chain(longer) && longer[0] == p);
                    }
                    self.lemma_depth_is_enough(
                        plate,
                        self.plates[plate].components.len(),
                        (k - 1) as nat,
                        (d1 - 1) as nat,
                        (d2 - 1) as nat,
                    );
                },
            }
            assert(self.component_cost(c, d1) == self.component_cost(c, d2));
            assert(self.partial_cost(p, j, d1) == self.partial_cost(p, (j - 1) as nat, d1).plus(
                self.component_cost(c, d1),
            ));
            assert(self.partial_cost(p, j, d2) == self.partial_cost(p, (j - 1) as nat, d2).plus(
                self.component_cost(c, d2),
            ));
        }
    }

    /// The cost of a plate rolls up from its components: where the
    /// composition from plate `p` has no circle, the ingredient cost of `p`
    /// is the sum of what its components contribute, an ingredient its
    /// quantity times its cost per unit, a sub-plate its quantity times the
    /// ingredient cost of one unit of its own batch.
    pub proof fn lemma_cost_rolls_up(self, p: int)
        requires
            self.wf(),
            self.has_plate(p),
            !self.cyclic_from(p),
        ensures
            self.ingredient_cost(p) == self.contributions(p, self.plates[p].components.len()),
    {
        self.lemma_acyclic_is_shallow(p);
        self.lemma_rolls_up_to(p, self.plates[p].components.len());
    }

    proof fn lemma_rolls_up_to(self, p: int, j: nat)
        requires
            self.wf(),
            self.has_plate(p),
            j <= self.plates[p].components.len(),
            forall|s: int| self.uses(p, s) ==> self.chains_within(s, (self.plates.len() - 1) as nat),
        ensures
            self.partial_cost(p, j, self.plates.len()) == self.contributions(p, j),
        decreases j,
    {
        if j > 0 {
            self.lemma_rolls_up_to(p, (j - 1) as nat);
            let c = self.plates[p].components[j - 1];
            assert(self.component_known(c));
            match c {
                ComponentModel::Ingredient { .. } => {},
                ComponentModel::Plate { plate, quantity } => {
                    assert(c.is_plate(plate));
                    assert(self.uses(p, plate));
                    self.lemma_depth_is_enough(
                        plate,
                        self.plates[plate].components.len(),
                        (self.plates.len() - 1) as nat,
                        (self.plates.len() - 1) as nat,
                        self.plates.len(),
                    );
                },
            }
            assert(self.component_cost(c, self.plates.len()) == self.contribution(c));
            assert(self.partial_cost(p, j, self.plates.len()) == self.partial_cost(
                p,
                (j - 1) as nat,
                self.plates.len(),
            ).plus(self.component_cost(c, self.plates.len())));
        }
    }

    /// A sub-plate contributes its quantity times its batch cost per unit:
    /// where valuing the sub-plate gives the batch cost per unit `each`, the
    /// contribution of the component denotes the number `quantity * each`.
    pub proof fn lemma_sub_plate_contributes(self, c: ComponentModel, each: Fraction)
        requires
            self.wf(),
            c is Plate,
            self.component_known(c),
            c.quantity().proper(),
            self.batch_cost_per_unit_outcome(c->plate) == Ok::<Fraction, ValuationError>(each),
        ensures
            self.contribution(c).same(c.quantity().times(each)),
    {
        let s = c->plate;
        let whole = self.ingredient_cost(s);
        let yield_ = self.plates[s].batch_quantity;
        assert(self.plates[s].wf());
        self.lemma_costs_proper(s, self.plates[s].components.len(), self.plates.len());
        lemma_over_step(whole, yield_);
        lemma_reduced(whole.over(yield_));
        assert(each == whole.over(yield_).reduced());
        lemma_times_same(c.quantity(), c.quantity(), whole.over(yield_), each);
    }
}

impl CatalogModel {
    // ------------------------------------------------------------------
    // A changed quantity
    // ------------------------------------------------------------------
    /// `other` differs from the catalog in plate `p` at most.
    pub open spec fn differs_at(self, other: CatalogModel, p: int) -> bool {
        &&& other.ingredients == self.ingredients
        &&& other.plates.len() == self.plates.len()
        &&& forall|x: int|
            0 <= x < self.plates.len() && x != p ==> #[trigger] other.plates[x] == self.plates[x]
    }

    /// No chain of components from `t` comes by `p`.
    pub open spec fn clear_of(self, t: int, p: int) -> bool {
        forall|w: Seq<int>| #[trigger] self.is_chain(w) && w[0] == t ==> !w.contains(p)
    }

    /// A plate that is not made of `p` costs the same whatever is changed
    /// in `p`.
    pub proof fn lemma_untouched(self, other: CatalogModel, p: int, t: int, j: nat, d: nat)
        requires
            self.wf(),
            self.has_plate(t),
            j <= self.plates[t].components.len(),
            self.differs_at(other, p),
            self.clear_of(t, p),
        ensures
            t != p,
            other.partial_cost(t, j, d) == self.partial_cost(t, j, d),
        decreases d, j,
    {
        let alone = seq![t];
        assert(self.is_chain(alone) && alone[0] == t);
        assert(alone[0] == t);
        if t == p {
            assert(alone.contains(p));
        }
        assert(other.plates[t] == self.plates[t]);
        if j > 0 {
            self.lemma_untouched(other, p, t, (j - 1) as nat, d);
            let c = self.plates[t].components[j - 1];
            assert(self.component_known(c));
            match c {
                ComponentModel::Ingredient { .. } => {},
                ComponentModel::Plate { plate, quantity } => {
                    if d > 0 {
                        assert(c.is_plate(plate));
                        assert(self.uses(t, plate));
                        assert forall|w: Seq<int>| #[trigger]
                            self.is_chain(w) && w[0] == plate implies !w.contains(p) by {
                            let longer = seq![t] + w;
                            assert forall|i: int| 0 <= i < longer.len() - 1 implies self.uses(
                                #[trigger] longer[i],
                                longer[i + 1],
                            ) by {
                                if i == 0 {
                                    assert(longer[1] == w[0]);
                                } else {
                                    assert(longer[i] == w[i - 1]);
                                    assert(longer[i + 1] == w[i]);
                                }
                            }
                            assert(self.is_chain(longer) && longer[0] == t);
                            if w.contains(p) {
                                let at = choose|i: int| 0 <= i < w.len() && w[i] == p;
                                assert(longer[at + 1] == p);
                                assert(longer.contains(p));
                            }
                        }
                        self.lemma_untouched(
                            other,
                            p,
                            plate,
                            self.plates[plate].components.len(),
                            (d - 1) as nat,
                        );
                        assert(other.plates[plate] == self.plates[plate]);
                    }
                },
            }
            assert(other.component_cost(c, d) == self.component_cost(c, d));
            assert(other.partial_cost(t, j, d) == other.partial_cost(t, (j - 1) as nat, d).plus(
                other.component_cost(c, d),
            ));
            assert(self.partial_cost(t, j, d) == self.partial_cost(t, (j - 1) as nat, d).plus(
                self.component_cost(c, d),
            ));
        }
    }

    /// A new quantity changes neither which plate is made of which nor the
    /// validity of the catalog.
    pub proof fn lemma_quantity_keeps_composition(self, p: int, k: int, q: Fraction)
        requires
            self.wf(),
            self.has_plate(p),
            0 <= k < self.plates[p].components.len(),
            held(q),
            q.is_positive(),
        ensures
            self.with_component_quantity(p, k, q).wf(),
            self.differs_at(self.with_component_quantity(p, k, q), p),
            forall|a: int, b: int| #[trigger]
                self.with_component_quantity(p, k, q).uses(a, b) ==> self.uses(a, b),
            forall|w: Seq<int>| #[trigger]
                self.with_component_quantity(p, k, q).is_chain(w) ==> self.is_chain(w),
            self.with_component_quantity(p, k, q).cyclic_from(p) ==> self.cyclic_from(p),
    {
        let after = self.with_component_quantity(p, k, q);
        let before = self.plates[p].components;
        assert(self.plates[p].wf());
        assert(self.component_known(before[k]));
        assert forall|x: int| 0 <= x < after.plates.len() implies (#[trigger] after.plates[x]).wf() by {
            if x != p {
                assert(self.plates[x].wf());
            } else {
                assert forall|i: int| 0 <= i < after.plates[p].components.len() implies held(
                    (#[trigger] after.plates[p].components[i]).quantity(),
                ) && after.plates[p].components[i].quantity().is_positive() by {
                    if i != k {
                        assert(after.plates[p].components[i] == before[i]);
                    }
                }
            }
        }
        assert forall|x: int, i: int|
            0 <= x < after.plates.len() && 0 <= i < after.plates[x].components.len()
            implies after.component_known(#[trigger] after.plates[x].components[i]) by {
            if x != p || i != k {
                assert(after.plates[x].components[i] == self.plates[x].components[i]);
                assert(self.component_known(self.plates[x].components[i]));
            }
        }
        assert forall|i: int| 0 <= i < after.ingredients.len() implies (
        #[trigger] after.ingredients[i]).wf() by {
            assert(self.ingredients[i].wf());
        }
        assert forall|a: int, b: int| #[trigger] after.uses(a, b) implies self.uses(a, b) by {
            let i = choose|i: int|
                0 <= i < after.plates[a].components.len() && (
                #[trigger] after.plates[a].components[i]).is_plate(b);
            if a != p || i != k {
                assert(after.plates[a].components[i] == self.plates[a].components[i]);
            }
            assert(self.plates[a].components[i].is_plate(b));
        }
        assert forall|w: Seq<int>| #[trigger] after.is_chain(w) implies self.is_chain(w) by {
            assert forall|i: int| 0 <= i < w.len() - 1 implies self.uses(#[trigger] w[i], w[i + 1]) by {
                assert(after.uses(w[i], w[i + 1]));
            }
        }
        if after.cyclic_from(p) {
            let w = choose|w: Seq<int>| #[trigger] after.is_chain(w) && w[0] == p && !w.no_duplicates();
            assert(self.is_chain(w));
        }
    }

    /// A changed quantity moves the cost by the change times the cost of
    /// one unit. Where the composition from plate `p` has no circle and the
    /// quantity of its component at position `k` is set to `q`, the
    /// ingredient cost of `p` afterwards denotes the number that it denoted
    /// before plus `q` less the old quantity, times what one unit of the
    /// component costs: for a sub-plate its batch cost per unit, with no
    /// rescaling and none of its labor.
    pub proof fn lemma_quantity_moves_cost(self, p: int, k: int, q: Fraction)
        requires
            self.wf(),
            self.has_plate(p),
            0 <= k < self.plates[p].components.len(),
            held(q),
            q.is_positive(),
            !self.cyclic_from(p),
        ensures
            self.with_component_quantity(p, k, q).ingredient_cost(p).same(
                self.ingredient_cost(p).plus(
                    q.minus(self.plates[p].components[k].quantity()).times(
                        self.cost_of_one(self.plates[p].components[k]),
                    ),
                ),
            ),
    {
        let after = self.with_component_quantity(p, k, q);
        self.lemma_quantity_keeps_composition(p, k, q);
        self.lemma_cost_rolls_up(p);
        after.lemma_cost_rolls_up(p);
        self.lemma_moved_sum(p, k, q, self.plates[p].components.len());
    }

    /// A changed quantity of a sub-plate moves the cost by the change times
    /// the sub-plate's batch cost per unit: where valuing the sub-plate gives
    /// the batch cost per unit `each`, the ingredient cost of `p` after the
    /// quantity is set to `q` denotes the number that it denoted before plus
    /// `(q - old quantity) * each`.
    pub proof fn lemma_sub_plate_quantity_moves_cost(
        self,
        p: int,
        k: int,
        q: Fraction,
        each: Fraction,
    )
        requires
            self.wf(),
            self.has_plate(p),
            0 <= k < self.plates[p].components.len(),
            self.plates[p].components[k] is Plate,
            held(q),
            q.is_positive(),
            !self.cyclic_from(p),
            self.batch_cost_per_unit_outcome(self.plates[p].components[k]->plate) == Ok::<
                Fraction,
                ValuationError,
            >(each),
        ensures
            self.with_component_quantity(p, k, q).ingredient_cost(p).same(
                self.ingredient_cost(p).plus(
                    q.minus(self.plates[p].components[k].quantity()).times(each),
                ),
            ),
    {
        let after = self.with_component_quantity(p, k, q);
        let c = self.plates[p].components[k];
        let s = c->plate;
        let one = self.cost_of_one(c);
        let change = q.minus(c.quantity());
        let before = self.ingredient_cost(p);
        self.lemma_quantity_moves_cost(p, k, q);
        self.lemma_cost_of_one_stays(p, k, q, k);
        assert(self.component_known(c));
        assert(self.plates[p].wf());
        assert(self.plates[s].wf());
        assert(held(c.quantity()));
        // `each` is what one unit costs, in lowest terms
        self.lemma_costs_proper(s, self.plates[s].components.len(), self.plates.len());
        lemma_over_step(self.ingredient_cost(s), self.plates[s].batch_quantity);
        lemma_reduced(one);
        assert(each == one.reduced());
        // so the two changes denote the same number, alone and under the sum
        lemma_plus_same(q, q, c.quantity().negated(), c.quantity().negated());
        lemma_times_same(change, change, one, each);
        self.lemma_costs_proper(p, self.plates[p].components.len(), self.plates.len());
        lemma_plus_same(before, before, change.times(one), change.times(each));
        lemma_same_transitive(
            after.ingredient_cost(p),
            before.plus(change.times(one)),
            before.plus(change.times(each)),
        );
    }

    /// What one unit of a component of an acyclic plate costs does not
    /// change with a quantity in that plate.
    proof fn lemma_cost_of_one_stays(self, p: int, k: int, q: Fraction, i: int)
        requires
            self.wf(),
            self.has_plate(p),
            0 <= k < self.plates[p].components.len(),
            0 <= i < self.plates[p].components.len(),
            held(q),
            q.is_positive(),
            !self.cyclic_from(p),
        ensures
            self.with_component_quantity(p, k, q).cost_of_one(
                self.with_component_quantity(p, k, q).plates[p].components[i],
            ) == self.cost_of_one(self.plates[p].components[i]),
            self.cost_of_one(self.plates[p].components[i]).proper(),
    {
        let after = self.with_component_quantity(p, k, q);
        let c = self.plates[p].components[i];
        let c2 = after.plates[p].components[i];
        self.lemma_quantity_keeps_composition(p, k, q);
        assert(self.component_known(c));
        assert(self.plates[p].wf());
        match c {
            ComponentModel::Ingredient { ingredient, quantity, unit } => {
                assert(self.ingredients[ingredient].wf());
                self.ingredients[ingredient].lemma_cost_per_unit_proper(unit);
            },
            ComponentModel::Plate { plate, quantity } => {
                assert(c.is_plate(plate));
                assert(self.uses(p, plate));
                assert forall|w: Seq<int>| #[trigger]
                    self.is_chain(w) && w[0] == plate implies !w.contains(p) by {
                    if w.contains(p) {
                        let at = choose|n: int| 0 <= n < w.len() && w[n] == p;
                        let longer = seq![p] + w;
                        assert forall|n: int| 0 <= n < longer.len() - 1 implies self.uses(
                            #[trigger] longer[n],
                            longer[n + 1],
                        ) by {
                            if n == 0 {
                                assert(longer[1] == w[0]);
                            } else {
                                assert(longer[n] == w[n - 1]);
                                assert(longer[n + 1] == w[n]);
                            }
                        }
                        assert(longer[0] == p);
                        assert(longer[at + 1] == p);
                        assert(self.is_chain(longer) && longer[0] == p && !longer.no_duplicates());
                    }
                }
                self.lemma_untouched(
                    after,
                    p,
                    plate,
                    self.plates[plate].components.len(),
                    self.plates.len(),
                );
                assert(after.plates[plate] == self.plates[plate]);
                assert(self.plates[plate].wf());
                self.lemma_costs_proper(
                    plate,
                    self.plates[plate].components.len(),
                    self.plates.len(),
                );
                lemma_over_step(self.ingredient_cost(plate), self.plates[plate].batch_quantity);
            },
        }
    }

    /// The contributions of the first `j` components after the change,
    /// against those before it.
    proof fn lemma_moved_sum(self, p: int, k: int, q: Fraction, j: nat)
        requires
            self.wf(),
            self.has_plate(p),
            0 <= k < self.plates[p].components.len(),
            j <= self.plates[p].components.len(),
            held(q),
            q.is_positive(),
            !self.cyclic_from(p),
        ensures
            self.contributions(p, j).proper(),
            self.with_component_quantity(p, k, q).contributions(p, j).proper(),
            j <= k ==> self.with_component_quantity(p, k, q).contributions(p, j)
                == self.contributions(p, j),
            j > k ==> self.with_component_quantity(p, k, q).contributions(p, j).same(
                self.contributions(p, j).plus(
                    q.minus(self.plates[p].components[k].quantity()).times(
                        self.cost_of_one(self.plates[p].components[k]),
                    ),
                ),
            ),
        decreases j,
    {
        let after = self.with_component_quantity(p, k, q);
        let old_q = self.plates[p].components[k].quantity();
        let one = self.cost_of_one(self.plates[p].components[k]);
        let change = q.minus(old_q);
        let moved = change.times(one);
        if j > 0 {
            self.lemma_moved_sum(p, k, q, (j - 1) as nat);
            let i = j - 1;
            let c = self.plates[p].components[i];
            let c2 = after.plates[p].components[i];
            let x = self.cost_of_one(c);
            let s1 = self.contributions(p, i as nat);
            let s2 = after.contributions(p, i as nat);
            self.lemma_cost_of_one_stays(p, k, q, i);
            self.lemma_cost_of_one_stays(p, k, q, k);
            assert(self.plates[p].wf());
            assert(held(c.quantity()));
            assert(held(old_q));
            lemma_times_step(c.quantity(), x);
            lemma_times_step(q, x);
            lemma_plus_same(s1, s1, c.quantity().times(x), c.quantity().times(x));
            // the change and what it moves are proper fractions
            lemma_plus_same(q, q, old_q.negated(), old_q.negated());
            lemma_times_same(change, change, one, one);
            if i != k {
                assert(c2 == c);
                assert(after.contribution(c2) == self.contribution(c));
                if i > k {
                    lemma_plus_same(s1, s1, moved, moved);
                    lemma_plus_same(s2, s1.plus(moved), self.contribution(c), self.contribution(c));
                    lemma_plus_swap(s1, moved, self.contribution(c));
                    lemma_same_transitive(
                        s2.plus(self.contribution(c)),
                        s1.plus(moved).plus(self.contribution(c)),
                        s1.plus(self.contribution(c)).plus(moved),
                    );
                } else {
                    lemma_plus_same(s2, s2, self.contribution(c), self.contribution(c));
                }
            } else {
                assert(c2 == c.with_quantity(q));
                assert(c2.quantity() == q);
                assert(after.contribution(c2) == q.times(one));
                assert(self.contribution(c) == old_q.times(one));
                let was = old_q.times(one);
                let is = q.times(one);
                lemma_times_step(old_q, one);
                // q * one is old_q * one and the change times one
                lemma_plus_minus(q, old_q);
                lemma_plus_same(old_q, old_q, change, change);
                lemma_times_same(q, old_q.plus(change), one, one);
                lemma_times_distributes(old_q, change, one);
                lemma_plus_same(was, was, moved, moved);
                lemma_same_transitive(is, old_q.plus(change).times(one), was.plus(moved));
                // and so under the sum
                lemma_plus_same(s1, s1, is, was.plus(moved));
                lemma_plus_regroup(s1, was, moved);
                lemma_same_transitive(
                    s1.plus(is),
                    s1.plus(was.plus(moved)),
                    s1.plus(was).plus(moved),
                );
            }
        }
    }
}

/// A valuation is a function of the catalog: two results that the model sees
/// as the same outcome are the same result.
pub proof fn lemma_outcome_fixes_result(
    first: Result<Ratio, ValuationError>,
    second: Result<Ratio, ValuationError>,
)
    requires
        outcome(first) == outcome(second),
    ensures
        first == second,
{
    match (first, second) {
        (Ok(a), Ok(b)) => {
            Ratio::lemma_view_injective(a, b);
        },
        _ => {},
    }
}

/// Asking twice gives the same answer: any two results of `total_cost_price`
/// for the same plate and rate of an unchanged catalog are identical.
pub proof fn lemma_total_cost_price_repeats(
    catalog: CatalogModel,
    p: int,
    rate: Fraction,
    first: Result<Ratio, ValuationError>,
    second: Result<Ratio, ValuationError>,
)
    requires
        outcome(first) == catalog.total_cost_price_outcome(p, rate),
        outcome(second) == catalog.total_cost_price_outcome(p, rate),
    ensures
        first == second,
{
    lemma_outcome_fixes_result(first, second);
}

} // verus!
