//! The figures of a plate, computed: what its ingredients cost, what a unit
//! of its batch costs, its labor, its total cost, its margin.
//!
//! A valuation follows the composition of the plate down through its
//! sub-plates and keeps the plates it is in the middle of on a path. A
//! sub-plate that is already on the path closes a circle, and the valuation
//! fails. The search for a circle goes on after a value has failed to fit,
//! so that a circle is reported wherever there is one. A sub-plate that
//! several components name is walked once for each of them.

use vstd::prelude::*;
use vstd::pervasive::unreached;
use crate::catalog::{Catalog, Ingredient, PlateComponent};
use crate::composition::{lemma_path_is_short, simple_path};
use crate::fraction::{
    lemma_over_step, lemma_plus_reduced, lemma_reduced, lemma_reduced_fixed, lemma_times_step,
    Fraction,
};
use crate::model::{held, CatalogModel, ComponentModel, IngredientModel, ValuationError};
use crate::ratio::Ratio;
use crate::units::QuantityUnit;

verus! {

/// What a valuation returned, as the model sees it.
pub open spec fn outcome(r: Result<Ratio, ValuationError>) -> Result<Fraction, ValuationError> {
    match r {
        Ok(v) => Ok(v@),
        Err(e) => Err(e),
    }
}

impl IngredientModel {
    /// The costs of a well-formed ingredient are proper fractions.
    pub proof fn lemma_cost_per_unit_proper(self, target: QuantityUnit)
        requires
            self.wf(),
        ensures
            self.base_cost().proper(),
            self.cost_per_unit(target).proper(),
            target.factor_to(self.unit) matches Some(f) ==> f.is_reduced(),
    {
        lemma_over_step(self.cost_price, self.reference_quantity);
        if target.converts_to(self.unit) {
            let raw = Fraction { num: target.size(), den: self.unit.size() };
            lemma_reduced(raw);
            lemma_times_step(raw.reduced(), self.base_cost());
        }
    }
}

impl CatalogModel {
    /// The costs of a well-formed catalog are proper fractions.
    pub proof fn lemma_costs_proper(self, p: int, k: nat, depth: nat)
        requires
            self.wf(),
            self.has_plate(p),
            k <= self.plates[p].components.len(),
        ensures
            self.partial_cost(p, k, depth).proper(),
            k > 0 ==> self.component_cost(self.plates[p].components[k - 1], depth).proper(),
        decreases depth, k,
    {
        if k > 0 {
            self.lemma_costs_proper(p, (k - 1) as nat, depth);
            let c = self.plates[p].components[k - 1];
            assert(self.component_known(c));
            assert(self.plates[p].wf());
            assert(c.quantity().is_reduced());
            match c {
                ComponentModel::Ingredient { ingredient, quantity, unit } => {
                    self.ingredients[ingredient].lemma_cost_per_unit_proper(unit);
                    lemma_times_step(quantity, self.ingredients[ingredient].cost_per_unit(unit));
                },
                ComponentModel::Plate { plate, quantity } => {
                    if depth > 0 {
                        let below = self.plate_cost(plate, (depth - 1) as nat);
                        self.lemma_costs_proper(
                            plate,
                            self.plates[plate].components.len(),
                            (depth - 1) as nat,
                        );
                        assert(self.plates[plate].wf());
                        lemma_over_step(below, self.plates[plate].batch_quantity);
                        lemma_times_step(quantity, below.over(self.plates[plate].batch_quantity));
                    }
                },
            }
            lemma_plus_reduced(
                self.partial_cost(p, (k - 1) as nat, depth),
                self.component_cost(c, depth),
            );
        }
    }
}

impl Ingredient {
    /// What one `target` of the ingredient costs: the cost price over the
    /// reference quantity, rescaled where `target` converts to the
    /// ingredient's unit and left as it is where it does not.
    pub fn cost_per_unit(&self, target: &QuantityUnit) -> (r: Result<Ratio, ValuationError>)
        requires
            self.wf(),
        ensures
            outcome(r) == self@.cost_per_unit_outcome(*target),
            r matches Ok(v) ==> v.wf(),
    {
        proof {
            self@.lemma_cost_per_unit_proper(*target);
        }
        let price = self.cost_price();
        let quantity = self.reference_quantity();
        match price.checked_div(&quantity) {
            None => Err(ValuationError::Overflow),
            Some(base) => match target.conversion_factor_to(&self.unit()) {
                None => Ok(base),
                Some(f) => {
                    proof {
                        lemma_times_step(f@, self@.base_cost());
                    }
                    match base.checked_mul(&f) {
                        None => Err(ValuationError::Overflow),
                        Some(v) => Ok(v),
                    }
                },
            },
        }
    }
}

impl Ingredient {
    /// What one gram of the ingredient costs: its cost per unit with the gram
    /// for the unit. This is the price that the composition of a plate shows
    /// beside a component, and the one that the roll-up reckons with.
    pub fn cost_per_gram(&self) -> (r: Result<Ratio, ValuationError>)
        requires
            self.wf(),
        ensures
            outcome(r) == self@.cost_per_unit_outcome(QuantityUnit::Gram),
            r matches Ok(v) ==> v.wf(),
    {
        self.cost_per_unit(&QuantityUnit::Gram)
    }
}

/// How the walk through one plate ended.
enum Visit {
    /// The walk ran into a plate that it was in the middle of.
    Cyclic,
    /// No circle, but a value did not fit.
    Overflow,
    /// No circle, and the cost of the plate's ingredients.
    Cost(Ratio),
}

/// The sum so far and the next term, added; nothing once either is missing.
fn add_term(
    acc: Option<Ratio>,
    term: Option<Ratio>,
    Ghost(a): Ghost<Fraction>,
    Ghost(t): Ghost<Fraction>,
) -> (r: Option<Ratio>)
    requires
        a.proper(),
        t.proper(),
        acc matches Some(x) ==> x.wf() && x@ == a.reduced(),
        term matches Some(y) ==> y.wf() && y@ == t.reduced(),
    ensures
        r is Some <==> acc is Some && term is Some && a.plus(t).representable(),
        r matches Some(v) ==> v.wf() && v@ == a.plus(t).reduced(),
{
    proof {
        lemma_plus_reduced(a, t);
    }
    match acc {
        None => None,
        Some(x) => match term {
            None => None,
            Some(y) => x.checked_add(&y),
        },
    }
}

impl Catalog {
    /// What so much of an ingredient costs.
    fn ingredient_term(&self, c: &PlateComponent, Ghost(depth): Ghost<nat>) -> (r: Option<Ratio>)
        requires
            self.wf(),
            self@.component_known(c@),
            c@ is Ingredient,
            c.wf(),
            c@.quantity().is_positive(),
        ensures
            r is Some <==> self@.component_fits(c@, depth),
            r matches Some(t) ==> t.wf() && t@ == self@.component_cost(c@, depth).reduced(),
    {
        match *c {
            PlateComponent::Ingredient { ingredient, quantity, unit } => {
                match self.ingredient(ingredient) {
                    None => unreached(),
                    Some(item) => {
                        proof {
                            assert(self@.ingredients[ingredient as int].wf());
                            item@.lemma_cost_per_unit_proper(unit);
                            lemma_times_step(quantity@, item@.cost_per_unit(unit));
                        }
                        match item.cost_per_unit(&unit) {
                            Err(_) => None,
                            Ok(each) => quantity.checked_mul(&each),
                        }
                    },
                }
            },
            PlateComponent::Plate { .. } => unreached(),
        }
    }

    /// What so much of a sub-plate costs, given what one batch of it costs.
    fn plate_term(
        &self,
        c: &PlateComponent,
        batch: Option<Ratio>,
        Ghost(depth): Ghost<nat>,
    ) -> (r: Option<Ratio>)
        requires
            self.wf(),
            self@.component_known(c@),
            c@ is Plate,
            c.wf(),
            c@.quantity().is_positive(),
            depth > 0,
            batch is Some <==> self@.plate_fits(c@->plate, (depth - 1) as nat),
            batch matches Some(b) ==> b.wf() && b@ == self@.plate_cost(
                c@->plate,
                (depth - 1) as nat,
            ).reduced(),
        ensures
            r is Some <==> self@.component_fits(c@, depth),
            r matches Some(t) ==> t.wf() && t@ == self@.component_cost(c@, depth).reduced(),
    {
        match *c {
            PlateComponent::Plate { plate, quantity } => {
                match self.plate(plate) {
                    None => unreached(),
                    Some(sub) => {
                        let yield_ = sub.batch_quantity();
                        proof {
                            let below = self@.plate_cost(plate as int, (depth - 1) as nat);
                            assert(self@.plates[plate as int].wf());
                            self@.lemma_costs_proper(
                                plate as int,
                                self@.plates[plate as int].components.len(),
                                (depth - 1) as nat,
                            );
                            lemma_over_step(below, yield_@);
                            lemma_times_step(quantity@, below.over(yield_@));
                        }
                        match batch {
                            None => None,
                            Some(b) => match b.checked_div(&yield_) {
                                None => None,
                                Some(each) => quantity.checked_mul(&each),
                            },
                        }
                    },
                }
            },
            PlateComponent::Ingredient { .. } => unreached(),
        }
    }

    /// Walks the composition of plate `p`. `on_path` marks the plates that
    /// the walk is in the middle of.
    fn visit(&self, p: usize, on_path: &mut Vec<bool>, Ghost(path): Ghost<Seq<int>>) -> (r: Visit)
        requires
            self.wf(),
            self@.has_plate(p as int),
            old(on_path)@.len() == self@.plates.len(),
            simple_path(path, self@.plates.len() as int),
            forall|j: int|
                0 <= j < old(on_path)@.len() ==> (#[trigger] old(on_path)@[j] <==> path.contains(j)),
        ensures
            final(on_path)@.len() == old(on_path)@.len(),
            r is Cyclic <==> self@.stopped(p as int, path),
            !(r is Cyclic) ==> final(on_path)@ == old(on_path)@,
            !(r is Cyclic) ==> path.len() < self@.plates.len(),
            r is Cost <==> !self@.stopped(p as int, path) && self@.plate_fits(
                p as int,
                (self@.plates.len() - path.len()) as nat,
            ),
            r matches Visit::Cost(v) ==> v.wf() && v@ == self@.plate_cost(
                p as int,
                (self@.plates.len() - path.len()) as nat,
            ).reduced(),
        decreases self@.plates.len() - path.len(),
    {
        if on_path[p] {
            proof {
                self@.lemma_stopped_on_path(p as int, path);
            }
            return Visit::Cyclic;
        }
        proof {
            lemma_path_is_short(path, p as int, self@.plates.len() as int);
        }
        let ghost depth = (self@.plates.len() - path.len()) as nat;
        let ghost below = path.push(p as int);
        on_path[p] = true;
        let plate = match self.plate(p) {
            Some(plate) => plate,
            None => unreached(),
        };
        let count = plate.component_count();
        let mut acc: Option<Ratio> = Some(Ratio::zero());
        let mut k: usize = 0;
        proof {
            lemma_reduced_fixed(Fraction::zero());
            assert(self@.plates[p as int].wf());
            assert forall|j: int| 0 <= j < on_path@.len() implies (#[trigger] on_path@[j]
                <==> below.contains(j)) by {
                if j == p {
                    assert(below[path.len() as int] == p);
                } else if path.contains(j) {
                    let at = choose|i: int| 0 <= i < path.len() && path[i] == j;
                    assert(below[at] == j);
                } else if below.contains(j) {
                    let at = choose|i: int| 0 <= i < below.len() && below[i] == j;
                    assert(path[at] == j);
                }
            }
            assert(simple_path(below, self@.plates.len() as int));
        }
        while k < count
            invariant
                self.wf(),
                self@.has_plate(p as int),
                plate@ == self@.plates[p as int],
                count == plate@.components.len(),
                k <= count,
                depth == self@.plates.len() - path.len(),
                depth > 0,
                below == path.push(p as int),
                simple_path(below, self@.plates.len() as int),
                old(on_path)@.len() == self@.plates.len(),
                on_path@ == old(on_path)@.update(p as int, true),
                on_path@.len() == self@.plates.len(),
                forall|j: int|
                    0 <= j < on_path@.len() ==> (#[trigger] on_path@[j] <==> below.contains(j)),
                forall|j: int, s: int|
                    0 <= j < k && (#[trigger] plate@.components[j]).is_plate(s)
                        ==> !#[trigger] self@.stopped(s, below),
                acc is Some <==> self@.partial_fits(p as int, k as nat, depth),
                acc matches Some(a) ==> a.wf() && a@ == self@.partial_cost(
                    p as int,
                    k as nat,
                    depth,
                ).reduced(),
            decreases count - k,
        {
            let c = match plate.component(k) {
                Some(c) => c,
                None => unreached(),
            };
            proof {
                assert(self@.component_known(plate@.components[k as int]));
                assert(held(plate@.components[k as int].quantity()));
                self@.lemma_costs_proper(p as int, k as nat, depth);
                self@.lemma_costs_proper(p as int, (k + 1) as nat, depth);
            }
            let term = match c {
                PlateComponent::Ingredient { .. } => self.ingredient_term(&c, Ghost(depth)),
                PlateComponent::Plate { plate: s, .. } => {
                    let batch = match self.visit(s, on_path, Ghost(below)) {
                        Visit::Cyclic => {
                            proof {
                                assert(plate@.components[k as int].is_plate(s as int));
                                assert(self@.uses(p as int, s as int));
                                self@.lemma_stopped_below(p as int, s as int, path);
                            }
                            return Visit::Cyclic;
                        },
                        Visit::Overflow => None,
                        Visit::Cost(b) => Some(b),
                    };
                    self.plate_term(&c, batch, Ghost(depth))
                },
            };
            acc = add_term(
                acc,
                term,
                Ghost(self@.partial_cost(p as int, k as nat, depth)),
                Ghost(self@.component_cost(plate@.components[k as int], depth)),
            );
            k = k + 1;
        }
        on_path[p] = false;
        proof {
            assert(on_path@ =~= old(on_path)@);
            assert forall|s: int| self@.uses(p as int, s) implies !self@.stopped(s, below) by {
                let j = choose|j: int|
                    0 <= j < self@.plates[p as int].components.len() && (
                    #[trigger] self@.plates[p as int].components[j]).is_plate(s);
                assert(plate@.components[j].is_plate(s));
            }
            assert(!path.contains(p as int));
            self@.lemma_not_stopped(p as int, path);
        }
        match acc {
            Some(a) => Visit::Cost(a),
            None => Visit::Overflow,
        }
    }
}

impl Catalog {
    /// What the ingredients of one batch of plate `p` cost: over every
    /// component, its quantity times the cost of one unit of the ingredient
    /// or of the sub-plate's batch.
    pub fn ingredient_cost(&self, p: usize) -> (r: Result<Ratio, ValuationError>)
        requires
            self.wf(),
        ensures
            outcome(r) == self@.ingredient_cost_outcome(p as int),
            r matches Ok(v) ==> v.wf(),
    {
        let n = self.plate_count();
        if p >= n {
            return Err(ValuationError::UnknownPlate);
        }
        let mut on_path: Vec<bool> = Vec::new();
        while on_path.len() < n
            invariant
                on_path@.len() <= n,
                forall|j: int| 0 <= j < on_path@.len() ==> !#[trigger] on_path@[j],
            decreases n - on_path@.len(),
        {
            on_path.push(false);
        }
        proof {
            self@.lemma_stopped_at_start(p as int);
        }
        match self.visit(p, &mut on_path, Ghost(Seq::empty())) {
            Visit::Cyclic => Err(ValuationError::CyclicReference),
            Visit::Overflow => Err(ValuationError::Overflow),
            Visit::Cost(v) => Ok(v),
        }
    }

    /// What the ingredients of one unit of the batch of plate `p` cost.
    pub fn batch_cost_per_unit(&self, p: usize) -> (r: Result<Ratio, ValuationError>)
        requires
            self.wf(),
        ensures
            outcome(r) == self@.batch_cost_per_unit_outcome(p as int),
            r matches Ok(v) ==> v.wf(),
    {
        let cost = match self.ingredient_cost(p) {
            Ok(cost) => cost,
            Err(e) => {
                return Err(e);
            },
        };
        let plate = match self.plate(p) {
            Some(plate) => plate,
            None => unreached(),
        };
        proof {
            assert(self@.plates[p as int].wf());
        }
        match cost.checked_div(&plate.batch_quantity()) {
            Some(v) => Ok(v),
            None => Err(ValuationError::Overflow),
        }
    }

    /// What the labor of one batch of plate `p` costs at `rate` per hour.
    pub fn labor_cost(&self, p: usize, rate: &Ratio) -> (r: Result<Ratio, ValuationError>)
        requires
            self.wf(),
            rate.wf(),
        ensures
            outcome(r) == self@.labor_cost_outcome(p as int, rate@),
            r matches Ok(v) ==> v.wf(),
    {
        let plate = match self.plate(p) {
            Some(plate) => plate,
            None => {
                return Err(ValuationError::UnknownPlate);
            },
        };
        proof {
            assert(self@.plates[p as int].wf());
        }
        match rate.checked_mul(&plate.batch_preparation_time_hours()) {
            Some(v) => Ok(v),
            None => Err(ValuationError::Overflow),
        }
    }

    /// What one batch of plate `p` costs: its ingredients and its labor.
    pub fn total_cost_price(&self, p: usize, rate: &Ratio) -> (r: Result<Ratio, ValuationError>)
        requires
            self.wf(),
            rate.wf(),
        ensures
            outcome(r) == self@.total_cost_price_outcome(p as int, rate@),
            r matches Ok(v) ==> v.wf(),
    {
        let cost = match self.ingredient_cost(p) {
            Ok(cost) => cost,
            Err(e) => {
                return Err(e);
            },
        };
        let labor = match self.labor_cost(p, rate) {
            Ok(labor) => labor,
            Err(e) => {
                return Err(e);
            },
        };
        match cost.checked_add(&labor) {
            Some(v) => Ok(v),
            None => Err(ValuationError::Overflow),
        }
    }

    /// What is left of the selling price of plate `p` after its total cost.
    pub fn gross_margin(&self, p: usize, rate: &Ratio) -> (r: Result<Ratio, ValuationError>)
        requires
            self.wf(),
            rate.wf(),
        ensures
            outcome(r) == self@.gross_margin_outcome(p as int, rate@),
            r matches Ok(v) ==> v.wf(),
    {
        let total = match self.total_cost_price(p, rate) {
            Ok(total) => total,
            Err(e) => {
                return Err(e);
            },
        };
        let plate = match self.plate(p) {
            Some(plate) => plate,
            None => unreached(),
        };
        proof {
            assert(self@.plates[p as int].wf());
        }
        match plate.selling_price().checked_sub(&total) {
            Some(v) => Ok(v),
            None => Err(ValuationError::Overflow),
        }
    }

    /// The gross margin of plate `p` as a share of its selling price. A
    /// plate that sells for nothing has the margin rate zero, whatever it is
    /// made of.
    pub fn margin_rate(&self, p: usize, rate: &Ratio) -> (r: Result<Ratio, ValuationError>)
        requires
            self.wf(),
            rate.wf(),
        ensures
            outcome(r) == self@.margin_rate_outcome(p as int, rate@),
            r matches Ok(v) ==> v.wf(),
            self@.has_plate(p as int) && self@.plates[p as int].selling_price.is_zero()
                ==> outcome(r) == Ok::<Fraction, ValuationError>(Fraction::zero()),
    {
        let plate = match self.plate(p) {
            Some(plate) => plate,
            None => {
                return Err(ValuationError::UnknownPlate);
            },
        };
        proof {
            assert(self@.plates[p as int].wf());
        }
        let price = plate.selling_price();
        if price.is_zero() {
            return Ok(Ratio::zero());
        }
        let margin = match self.gross_margin(p, rate) {
            Ok(margin) => margin,
            Err(e) => {
                return Err(e);
            },
        };
        match margin.checked_div(&price) {
            Some(v) => Ok(v),
            None => Err(ValuationError::Overflow),
        }
    }
}

} // verus!
