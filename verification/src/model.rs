//! The mathematical model of a kitchen's books: suppliers, ingredients,
//! plates and the catalog that holds them, with the cost of a plate defined
//! over it.
//!
//! Plates and ingredients are named by their position in the catalog. A
//! plate's components name ingredients and other plates; nothing in the
//! model keeps a plate from naming itself, directly or through others, so
//! the valuation of a plate is defined with a bound on the depth to which
//! sub-plates are followed. On a composition without cycles the bound is
//! never reached.

use vstd::prelude::*;
use crate::fraction::Fraction;
use crate::units::QuantityUnit;

verus! {

/// The category of an ingredient. It plays no part in any cost.
#[derive(Clone, Copy, Debug, PartialEq, Eq, Structural)]
pub enum IngredientType {
    Grocery,
    DairyEggsCheeseSauces,
    VegetablesFruits,
    Packaging,
    MeatProteins,
}

impl IngredientType {
    /// The name under which a choice of categories shows the category.
    pub open spec fn label_text(self) -> Seq<char> {
        match self {
            IngredientType::Grocery => "Épicerie"@,
            IngredientType::DairyEggsCheeseSauces => "Lait, Œufs, Fromages, Sauces"@,
            IngredientType::VegetablesFruits => "Légumes & Fruits"@,
            IngredientType::Packaging => "Packaging"@,
            IngredientType::MeatProteins => "Viandes / Protéines"@,
        }
    }

    /// The name under which a choice of categories shows the category.
    pub fn label(&self) -> (text: &'static str)
        ensures
            text@ == self.label_text(),
    {
        match self {
            IngredientType::Grocery => "Épicerie",
            IngredientType::DairyEggsCheeseSauces => "Lait, Œufs, Fromages, Sauces",
            IngredientType::VegetablesFruits => "Légumes & Fruits",
            IngredientType::Packaging => "Packaging",
            IngredientType::MeatProteins => "Viandes / Protéines",
        }
    }
}

/// Why a valuation gave no figure.
#[derive(Clone, Copy, Debug, PartialEq, Eq, Structural)]
pub enum ValuationError {
    /// The catalog holds no plate under the given number.
    UnknownPlate,
    /// The plate, or a plate it is made of, is made of itself.
    CyclicReference,
    /// A value on the way to the figure does not fit the number type.
    Overflow,
}

/// Why an edit was refused. A refused edit changes nothing.
#[derive(Clone, Copy, Debug, PartialEq, Eq, Structural)]
pub enum EditError {
    /// The catalog holds no ingredient under the given number.
    UnknownIngredient,
    /// The catalog holds no plate under the given number.
    UnknownPlate,
    /// The plate has no component at the given position.
    UnknownComponent,
    /// A reference quantity, a batch quantity or the quantity of a component
    /// is zero or less.
    NotPositive,
}

/// Who an ingredient is bought from.
impl ValuationError {
    /// The words in which a figure that could not be given is reported.
    pub open spec fn label_text(self) -> Seq<char> {
        match self {
            ValuationError::UnknownPlate => "plat inconnu"@,
            ValuationError::CyclicReference => "référence cyclique"@,
            ValuationError::Overflow => "hors limites"@,
        }
    }

    /// The words in which a figure that could not be given is reported.
    pub fn label(&self) -> (text: &'static str)
        ensures
            text@ == self.label_text(),
    {
        match self {
            ValuationError::UnknownPlate => "plat inconnu",
            ValuationError::CyclicReference => "référence cyclique",
            ValuationError::Overflow => "hors limites",
        }
    }
}

impl EditError {
    /// The words in which a refused edit is reported.
    pub open spec fn label_text(self) -> Seq<char> {
        match self {
            EditError::UnknownIngredient => "ingrédient inconnu"@,
            EditError::UnknownPlate => "plat inconnu"@,
            EditError::UnknownComponent => "composant inconnu"@,
            EditError::NotPositive => "la quantité doit être positive"@,
        }
    }

    /// The words in which a refused edit is reported.
    pub fn label(&self) -> (text: &'static str)
        ensures
            text@ == self.label_text(),
    {
        match self {
            EditError::UnknownIngredient => "ingrédient inconnu",
            EditError::UnknownPlate => "plat inconnu",
            EditError::UnknownComponent => "composant inconnu",
            EditError::NotPositive => "la quantité doit être positive",
        }
    }
}

pub struct SupplierModel {
    pub name: Seq<char>,
    pub contact: Option<Seq<char>>,
}

/// Something bought: `cost_price` is paid for `reference_quantity` of `unit`.
pub struct IngredientModel {
    pub name: Seq<char>,
    pub cost_price: Fraction,
    pub reference_quantity: Fraction,
    pub unit: QuantityUnit,
    pub ingredient_type: IngredientType,
    pub supplier: SupplierModel,
}

/// One line of a plate's composition: so much of an ingredient, measured in
/// `unit`, or so much of another plate.
pub enum ComponentModel {
    Ingredient { ingredient: int, quantity: Fraction, unit: QuantityUnit },
    Plate { plate: int, quantity: Fraction },
}

/// A recipe: what one batch is made of, what it yields and what it sells for.
pub struct PlateModel {
    pub name: Seq<char>,
    pub components: Seq<ComponentModel>,
    pub selling_price: Fraction,
    pub batch_preparation_time_hours: Fraction,
    pub batch_quantity: Fraction,
    pub batch_unit: QuantityUnit,
}

/// The ingredients and plates of a kitchen, each named by its position.
pub struct CatalogModel {
    pub ingredients: Seq<IngredientModel>,
    pub plates: Seq<PlateModel>,
}

/// An amount as a `Ratio` holds it: in lowest terms and in range.
pub open spec fn held(x: Fraction) -> bool {
    x.is_reduced() && x.fits()
}

/// The figure `x` as a valuation returns it: in lowest terms where that
/// fits, an overflow where it does not.
pub open spec fn exactly(x: Fraction) -> Result<Fraction, ValuationError> {
    if x.representable() {
        Ok(x.reduced())
    } else {
        Err(ValuationError::Overflow)
    }
}

/// The first `n` members of `s` without those whose position is named in
/// `removed`.
pub open spec fn without_positions<T>(s: Seq<T>, removed: Seq<usize>, n: nat) -> Seq<T>
    decreases n,
{
    if n == 0 {
        Seq::empty()
    } else if removed.contains((n - 1) as usize) {
        without_positions(s, removed, (n - 1) as nat)
    } else {
        without_positions(s, removed, (n - 1) as nat).push(s[n - 1])
    }
}

/// With no position named nothing is taken out.
pub proof fn lemma_without_no_positions<T>(s: Seq<T>)
    ensures
        without_positions(s, Seq::<usize>::empty(), s.len()) == s,
{
    lemma_without_none_so_far(s, s.len());
    assert(s.subrange(0, s.len() as int) =~= s);
}

proof fn lemma_without_none_so_far<T>(s: Seq<T>, n: nat)
    requires
        n <= s.len(),
    ensures
        without_positions(s, Seq::<usize>::empty(), n) == s.subrange(0, n as int),
    decreases n,
{
    if n == 0 {
        assert(s.subrange(0, 0) =~= Seq::<T>::empty());
    } else {
        lemma_without_none_so_far(s, (n - 1) as nat);
        assert(!Seq::<usize>::empty().contains((n - 1) as usize));
        assert(s.subrange(0, n as int) =~= s.subrange(0, n - 1).push(s[n - 1]));
    }
}

impl IngredientModel {
    pub open spec fn with_cost_price(self, cost_price: Fraction) -> IngredientModel {
        IngredientModel { cost_price, ..self }
    }

    pub open spec fn with_reference_quantity(self, reference_quantity: Fraction) -> IngredientModel {
        IngredientModel { reference_quantity, ..self }
    }

    /// The amounts are held exactly and the reference quantity is positive.
    pub open spec fn wf(self) -> bool {
        &&& held(self.cost_price)
        &&& held(self.reference_quantity)
        &&& self.reference_quantity.is_positive()
    }

    /// The price of one of the ingredient's own unit.
    pub open spec fn base_cost(self) -> Fraction {
        self.cost_price.over(self.reference_quantity)
    }

    /// The price of one `target`: the base cost rescaled where `target`
    /// converts to the ingredient's unit, the base cost itself where it
    /// does not.
    pub open spec fn cost_per_unit(self, target: QuantityUnit) -> Fraction {
        match target.factor_to(self.unit) {
            Some(f) => self.base_cost().times(f),
            None => self.base_cost(),
        }
    }

    /// Every value on the way to `cost_per_unit` can be held.
    pub open spec fn cost_per_unit_fits(self, target: QuantityUnit) -> bool {
        self.base_cost().representable() && self.cost_per_unit(target).representable()
    }

    /// What valuing one `target` gives: the exact figure, or an overflow.
    pub open spec fn cost_per_unit_outcome(self, target: QuantityUnit) -> Result<
        Fraction,
        ValuationError,
    > {
        if self.cost_per_unit_fits(target) {
            Ok(self.cost_per_unit(target).reduced())
        } else {
            Err(ValuationError::Overflow)
        }
    }
}

impl ComponentModel {
    pub open spec fn with_quantity(self, q: Fraction) -> ComponentModel {
        match self {
            ComponentModel::Ingredient { ingredient, unit, .. } => ComponentModel::Ingredient {
                ingredient,
                quantity: q,
                unit,
            },
            ComponentModel::Plate { plate, .. } => ComponentModel::Plate { plate, quantity: q },
        }
    }

    /// The component is the plate `b`, in some quantity.
    pub open spec fn is_plate(self, b: int) -> bool {
        self matches ComponentModel::Plate { plate, .. } && plate == b
    }

    pub open spec fn quantity(self) -> Fraction {
        match self {
            ComponentModel::Ingredient { quantity, .. } => quantity,
            ComponentModel::Plate { quantity, .. } => quantity,
        }
    }
}

impl PlateModel {
    pub open spec fn with_components(self, components: Seq<ComponentModel>) -> PlateModel {
        PlateModel { components, ..self }
    }

    pub open spec fn with_selling_price(self, selling_price: Fraction) -> PlateModel {
        PlateModel { selling_price, ..self }
    }

    /// The amounts are held exactly, and the batch quantity and the quantity
    /// of every component are positive.
    pub open spec fn wf(self) -> bool {
        &&& held(self.selling_price)
        &&& held(self.batch_preparation_time_hours)
        &&& held(self.batch_quantity)
        &&& self.batch_quantity.is_positive()
        &&& forall|k: int|
            0 <= k < self.components.len() ==> held((#[trigger] self.components[k]).quantity())
                && self.components[k].quantity().is_positive()
    }

    /// The labor that one batch takes, at `rate` per hour.
    pub open spec fn labor_cost(self, rate: Fraction) -> Fraction {
        rate.times(self.batch_preparation_time_hours)
    }
}

impl CatalogModel {
    pub open spec fn empty() -> CatalogModel {
        CatalogModel { ingredients: Seq::empty(), plates: Seq::empty() }
    }

    pub open spec fn with_ingredient(self, i: int, ingredient: IngredientModel) -> CatalogModel {
        CatalogModel { ingredients: self.ingredients.update(i, ingredient), ..self }
    }

    pub open spec fn with_plate(self, p: int, plate: PlateModel) -> CatalogModel {
        CatalogModel { plates: self.plates.update(p, plate), ..self }
    }

    /// The catalog with the quantity of the component at position `k` of
    /// plate `p` set to `q`.
    pub open spec fn with_component_quantity(self, p: int, k: int, q: Fraction) -> CatalogModel {
        self.with_plate(
            p,
            self.plates[p].with_components(
                self.plates[p].components.update(
                    k,
                    self.plates[p].components[k].with_quantity(q),
                ),
            ),
        )
    }

    pub open spec fn with_new_ingredient(self, ingredient: IngredientModel) -> CatalogModel {
        CatalogModel { ingredients: self.ingredients.push(ingredient), ..self }
    }

    pub open spec fn with_new_plate(self, plate: PlateModel) -> CatalogModel {
        CatalogModel { plates: self.plates.push(plate), ..self }
    }

    pub open spec fn has_ingredient(self, i: int) -> bool {
        0 <= i < self.ingredients.len()
    }

    pub open spec fn has_plate(self, p: int) -> bool {
        0 <= p < self.plates.len()
    }

    /// The component names something that the catalog holds.
    pub open spec fn component_known(self, c: ComponentModel) -> bool {
        match c {
            ComponentModel::Ingredient { ingredient, .. } => self.has_ingredient(ingredient),
            ComponentModel::Plate { plate, .. } => self.has_plate(plate),
        }
    }

    /// Every ingredient and plate is well-formed, and every component names
    /// something that the catalog holds.
    pub open spec fn wf(self) -> bool {
        &&& forall|i: int| 0 <= i < self.ingredients.len() ==> (#[trigger] self.ingredients[i]).wf()
        &&& forall|p: int| 0 <= p < self.plates.len() ==> (#[trigger] self.plates[p]).wf()
        &&& forall|p: int, k: int|
            0 <= p < self.plates.len() && 0 <= k < self.plates[p].components.len()
                ==> self.component_known(#[trigger] self.plates[p].components[k])
    }

    // ------------------------------------------------------------------
    // Composition
    // ------------------------------------------------------------------
    /// Plate `a` lists plate `b` among its components.
    pub open spec fn uses(self, a: int, b: int) -> bool {
        &&& self.has_plate(a)
        &&& exists|k: int|
            0 <= k < self.plates[a].components.len() && (#[trigger] self.plates[a].components[k]).is_plate(b)
    }

    /// A chain of plates, each of which lists the next among its components.
    pub open spec fn is_chain(self, w: Seq<int>) -> bool {
        &&& w.len() > 0
        &&& self.has_plate(w[0])
        &&& forall|i: int| 0 <= i < w.len() - 1 ==> self.uses(#[trigger] w[i], w[i + 1])
    }

    /// Plate `a` is made of plate `b`, directly or through other plates.
    pub open spec fn made_of(self, a: int, b: int) -> bool {
        exists|w: Seq<int>| #[trigger]
            self.is_chain(w) && w.len() >= 2 && w[0] == a && w[w.len() - 1] == b
    }

    /// Following the composition from `p` comes by some plate twice.
    pub open spec fn cyclic_from(self, p: int) -> bool {
        exists|w: Seq<int>| #[trigger] self.is_chain(w) && w[0] == p && !w.no_duplicates()
    }

    // ------------------------------------------------------------------
    // Cost
    // ------------------------------------------------------------------
    /// What the first `k` components of plate `p` cost, with sub-plates
    /// followed `depth` levels down.
    pub open spec fn partial_cost(self, p: int, k: nat, depth: nat) -> Fraction
        decreases depth, k,
    {
        if k == 0 {
            Fraction::zero()
        } else {
            self.partial_cost(p, (k - 1) as nat, depth).plus(
                self.component_cost(self.plates[p].components[k - 1], depth),
            )
        }
    }

    /// What one component costs: its quantity times the cost of one unit of
    /// the ingredient, in the component's unit, or times the cost of one unit
    /// of the sub-plate's batch.
    pub open spec fn component_cost(self, c: ComponentModel, depth: nat) -> Fraction
        decreases depth, 0nat,
    {
        match c {
            ComponentModel::Ingredient { ingredient, quantity, unit } => quantity.times(
                self.ingredients[ingredient].cost_per_unit(unit),
            ),
            ComponentModel::Plate { plate, quantity } => if depth == 0 {
                Fraction::zero()
            } else {
                quantity.times(
                    self.partial_cost(
                        plate,
                        self.plates[plate].components.len(),
                        (depth - 1) as nat,
                    ).over(self.plates[plate].batch_quantity),
                )
            },
        }
    }

    /// What the ingredients of one batch of plate `p` cost, with sub-plates
    /// followed `depth` levels down.
    pub open spec fn plate_cost(self, p: int, depth: nat) -> Fraction {
        self.partial_cost(p, self.plates[p].components.len(), depth)
    }

    /// Every value on the way to `partial_cost` can be held.
    pub open spec fn partial_fits(self, p: int, k: nat, depth: nat) -> bool
        decreases depth, k,
    {
        if k == 0 {
            true
        } else {
            &&& self.partial_fits(p, (k - 1) as nat, depth)
            &&& self.component_fits(self.plates[p].components[k - 1], depth)
            &&& self.partial_cost(p, k, depth).representable()
        }
    }

    /// Every value on the way to `component_cost` can be held.
    pub open spec fn component_fits(self, c: ComponentModel, depth: nat) -> bool
        decreases depth, 0nat,
    {
        match c {
            ComponentModel::Ingredient { ingredient, quantity, unit } => {
                &&& self.ingredients[ingredient].cost_per_unit_fits(unit)
                &&& self.component_cost(c, depth).representable()
            },
            ComponentModel::Plate { plate, quantity } => if depth == 0 {
                true
            } else {
                &&& self.partial_fits(
                    plate,
                    self.plates[plate].components.len(),
                    (depth - 1) as nat,
                )
                &&& self.plate_cost(plate, (depth - 1) as nat).over(
                    self.plates[plate].batch_quantity,
                ).representable()
                &&& self.component_cost(c, depth).representable()
            },
        }
    }

    /// Every value on the way to `plate_cost` can be held.
    pub open spec fn plate_fits(self, p: int, depth: nat) -> bool {
        self.partial_fits(p, self.plates[p].components.len(), depth)
    }

    // ------------------------------------------------------------------
    // The figures of a plate
    // ------------------------------------------------------------------
    /// What the ingredients of one batch of plate `p` cost. A composition
    /// without cycles is never deeper than the catalog has plates.
    pub open spec fn ingredient_cost(self, p: int) -> Fraction {
        self.plate_cost(p, self.plates.len())
    }

    /// What valuing the ingredients of plate `p` gives: the exact cost, or
    /// the first of these that holds: the plate is unknown, its composition
    /// is cyclic, a value on the way does not fit.
    pub open spec fn ingredient_cost_outcome(self, p: int) -> Result<Fraction, ValuationError> {
        if !self.has_plate(p) {
            Err(ValuationError::UnknownPlate)
        } else if self.cyclic_from(p) {
            Err(ValuationError::CyclicReference)
        } else if !self.plate_fits(p, self.plates.len()) {
            Err(ValuationError::Overflow)
        } else {
            Ok(self.ingredient_cost(p).reduced())
        }
    }

    /// The ingredient cost of one unit of the batch.
    pub open spec fn batch_cost_per_unit_outcome(self, p: int) -> Result<
        Fraction,
        ValuationError,
    > {
        match self.ingredient_cost_outcome(p) {
            Ok(c) => exactly(c.over(self.plates[p].batch_quantity)),
            Err(e) => Err(e),
        }
    }

    /// The labor of one batch.
    pub open spec fn labor_cost_outcome(self, p: int, rate: Fraction) -> Result<
        Fraction,
        ValuationError,
    > {
        if !self.has_plate(p) {
            Err(ValuationError::UnknownPlate)
        } else {
            exactly(self.plates[p].labor_cost(rate))
        }
    }

    /// Ingredients and labor of one batch.
    pub open spec fn total_cost_price_outcome(self, p: int, rate: Fraction) -> Result<
        Fraction,
        ValuationError,
    > {
        match self.ingredient_cost_outcome(p) {
            Ok(c) => match self.labor_cost_outcome(p, rate) {
                Ok(l) => exactly(c.plus(l)),
                Err(e) => Err(e),
            },
            Err(e) => Err(e),
        }
    }

    /// The selling price less the total cost.
    pub open spec fn gross_margin_outcome(self, p: int, rate: Fraction) -> Result<
        Fraction,
        ValuationError,
    > {
        match self.total_cost_price_outcome(p, rate) {
            Ok(t) => exactly(self.plates[p].selling_price.minus(t)),
            Err(e) => Err(e),
        }
    }

    /// The gross margin as a share of the selling price; zero for a plate
    /// whose selling price is zero, whatever it is made of.
    pub open spec fn margin_rate_outcome(self, p: int, rate: Fraction) -> Result<
        Fraction,
        ValuationError,
    > {
        if !self.has_plate(p) {
            Err(ValuationError::UnknownPlate)
        } else if self.plates[p].selling_price.is_zero() {
            Ok(Fraction::zero())
        } else {
            match self.gross_margin_outcome(p, rate) {
                Ok(g) => exactly(g.over(self.plates[p].selling_price)),
                Err(e) => Err(e),
            }
        }
    }
}

} // verus!
