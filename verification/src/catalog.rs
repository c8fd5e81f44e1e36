//! The catalog as the machine holds it: ingredients and plates, numbered in
//! the order in which they were added, and the edits that keep every
//! quantity positive and every component pointing at something.

use vstd::prelude::*;
use crate::model::{
    held, without_positions, CatalogModel, ComponentModel, EditError, IngredientModel,
    IngredientType, PlateModel, SupplierModel,
};
use crate::ratio::Ratio;
use crate::units::QuantityUnit;

verus! {

/// Who an ingredient is bought from.
#[derive(Clone, Debug)]
pub struct Supplier {
    pub name: String,
    pub contact: Option<String>,
}

impl View for Supplier {
    type V = SupplierModel;

    open spec fn view(&self) -> SupplierModel {
        SupplierModel {
            name: self.name@,
            contact: match self.contact {
                Some(c) => Some(c@),
                None => None,
            },
        }
    }
}

/// Something bought: `cost_price` is paid for `reference_quantity` of `unit`.
#[derive(Clone, Debug)]
pub struct Ingredient {
    name: String,
    cost_price: Ratio,
    reference_quantity: Ratio,
    unit: QuantityUnit,
    ingredient_type: IngredientType,
    supplier: Supplier,
}

impl View for Ingredient {
    type V = IngredientModel;

    closed spec fn view(&self) -> IngredientModel {
        IngredientModel {
            name: self.name@,
            cost_price: self.cost_price@,
            reference_quantity: self.reference_quantity@,
            unit: self.unit,
            ingredient_type: self.ingredient_type,
            supplier: self.supplier@,
        }
    }
}

/// One line of a plate's composition: so much of an ingredient, measured in
/// `unit`, or so much of another plate, measured in that plate's batch unit.
/// Ingredients and plates are named by their number in the catalog.
#[derive(Clone, Copy, Debug)]
pub enum PlateComponent {
    Ingredient { ingredient: usize, quantity: Ratio, unit: QuantityUnit },
    Plate { plate: usize, quantity: Ratio },
}

impl View for PlateComponent {
    type V = ComponentModel;

    open spec fn view(&self) -> ComponentModel {
        match *self {
            PlateComponent::Ingredient { ingredient, quantity, unit } => ComponentModel::Ingredient {
                ingredient: ingredient as int,
                quantity: quantity@,
                unit,
            },
            PlateComponent::Plate { plate, quantity } => ComponentModel::Plate {
                plate: plate as int,
                quantity: quantity@,
            },
        }
    }
}

impl PlateComponent {
    /// The quantity is a well-formed ratio.
    pub open spec fn wf(&self) -> bool {
        held(self@.quantity())
    }

    pub fn quantity(&self) -> (q: Ratio)
        ensures
            q@ == self@.quantity(),
    {
        match self {
            PlateComponent::Ingredient { quantity, .. } => *quantity,
            PlateComponent::Plate { quantity, .. } => *quantity,
        }
    }
}

/// A recipe: what one batch is made of, what it yields and what it sells for.
#[derive(Clone, Debug)]
pub struct Plate {
    name: String,
    components: Vec<PlateComponent>,
    selling_price: Ratio,
    batch_preparation_time_hours: Ratio,
    batch_quantity: Ratio,
    batch_unit: QuantityUnit,
}

impl View for Plate {
    type V = PlateModel;

    closed spec fn view(&self) -> PlateModel {
        PlateModel {
            name: self.name@,
            components: Seq::new(self.components@.len(), |k: int| self.components@[k]@),
            selling_price: self.selling_price@,
            batch_preparation_time_hours: self.batch_preparation_time_hours@,
            batch_quantity: self.batch_quantity@,
            batch_unit: self.batch_unit,
        }
    }
}

/// The ingredients and plates of a kitchen.
#[derive(Clone, Debug)]
pub struct Catalog {
    ingredients: Vec<Ingredient>,
    plates: Vec<Plate>,
}

impl View for Catalog {
    type V = CatalogModel;

    closed spec fn view(&self) -> CatalogModel {
        CatalogModel {
            ingredients: Seq::new(self.ingredients@.len(), |i: int| self.ingredients@[i]@),
            plates: Seq::new(self.plates@.len(), |p: int| self.plates@[p]@),
        }
    }
}

impl Ingredient {
    pub open spec fn wf(&self) -> bool {
        self@.wf()
    }

    pub fn name(&self) -> (r: &String)
        ensures
            r@ == self@.name,
    {
        &self.name
    }

    pub fn cost_price(&self) -> (r: Ratio)
        ensures
            r@ == self@.cost_price,
    {
        self.cost_price
    }

    pub fn reference_quantity(&self) -> (r: Ratio)
        ensures
            r@ == self@.reference_quantity,
    {
        self.reference_quantity
    }

    pub fn unit(&self) -> (r: QuantityUnit)
        ensures
            r == self@.unit,
    {
        self.unit
    }

    pub fn ingredient_type(&self) -> (r: IngredientType)
        ensures
            r == self@.ingredient_type,
    {
        self.ingredient_type
    }

    pub fn supplier(&self) -> (r: &Supplier)
        ensures
            r@ == self@.supplier,
    {
        &self.supplier
    }
}

impl Plate {
    pub open spec fn wf(&self) -> bool {
        self@.wf()
    }

    pub fn name(&self) -> (r: &String)
        ensures
            r@ == self@.name,
    {
        &self.name
    }

    pub fn component_count(&self) -> (n: usize)
        ensures
            n == self@.components.len(),
    {
        self.components.len()
    }

    /// The component at position `k`, if there is one.
    pub fn component(&self, k: usize) -> (r: Option<PlateComponent>)
        ensures
            match r {
                Some(c) => k < self@.components.len() && c@ == self@.components[k as int],
                None => k >= self@.components.len(),
            },
    {
        if k < self.components.len() {
            Some(self.components[k])
        } else {
            None
        }
    }

    pub fn selling_price(&self) -> (r: Ratio)
        ensures
            r@ == self@.selling_price,
    {
        self.selling_price
    }

    pub fn batch_preparation_time_hours(&self) -> (r: Ratio)
        ensures
            r@ == self@.batch_preparation_time_hours,
    {
        self.batch_preparation_time_hours
    }

    pub fn batch_quantity(&self) -> (r: Ratio)
        ensures
            r@ == self@.batch_quantity,
    {
        self.batch_quantity
    }

    pub fn batch_unit(&self) -> (r: QuantityUnit)
        ensures
            r == self@.batch_unit,
    {
        self.batch_unit
    }
}

impl Catalog {
    pub open spec fn wf(&self) -> bool {
        self@.wf()
    }

    pub fn new() -> (c: Catalog)
        ensures
            c.wf(),
            c@ == CatalogModel::empty(),
    {
        let c = Catalog { ingredients: Vec::new(), plates: Vec::new() };
        assert(c@.ingredients =~= Seq::empty());
        assert(c@.plates =~= Seq::empty());
        c
    }

    pub fn ingredient_count(&self) -> (n: usize)
        ensures
            n == self@.ingredients.len(),
    {
        self.ingredients.len()
    }

    pub fn plate_count(&self) -> (n: usize)
        ensures
            n == self@.plates.len(),
    {
        self.plates.len()
    }

    /// The ingredient numbered `i`, if there is one.
    pub fn ingredient(&self, i: usize) -> (r: Option<&Ingredient>)
        ensures
            match r {
                Some(x) => self@.has_ingredient(i as int) && x@ == self@.ingredients[i as int],
                None => !self@.has_ingredient(i as int),
            },
    {
        if i < self.ingredients.len() {
            Some(&self.ingredients[i])
        } else {
            None
        }
    }

    /// The plate numbered `p`, if there is one.
    pub fn plate(&self, p: usize) -> (r: Option<&Plate>)
        ensures
            match r {
                Some(x) => self@.has_plate(p as int) && x@ == self@.plates[p as int],
                None => !self@.has_plate(p as int),
            },
    {
        if p < self.plates.len() {
            Some(&self.plates[p])
        } else {
            None
        }
    }

    /// Adds an ingredient and returns its number. Refused when the reference
    /// quantity is not positive.
    pub fn add_ingredient(
        &mut self,
        name: String,
        cost_price: Ratio,
        reference_quantity: Ratio,
        unit: QuantityUnit,
        ingredient_type: IngredientType,
        supplier: Supplier,
    ) -> (r: Result<usize, EditError>)
        requires
            old(self).wf(),
            cost_price.wf(),
            reference_quantity.wf(),
        ensures
            final(self).wf(),
            match r {
                Ok(i) => {
                    &&& reference_quantity@.is_positive()
                    &&& i == old(self)@.ingredients.len()
                    &&& final(self)@ == old(self)@.with_new_ingredient(
                        IngredientModel {
                            name: name@,
                            cost_price: cost_price@,
                            reference_quantity: reference_quantity@,
                            unit,
                            ingredient_type,
                            supplier: supplier@,
                        },
                    )
                },
                Err(e) => {
                    &&& !reference_quantity@.is_positive()
                    &&& e == EditError::NotPositive
                    &&& final(self)@ == old(self)@
                },
            },
    {
        if !reference_quantity.is_positive() {
            return Err(EditError::NotPositive);
        }
        let i = self.ingredients.len();
        let item = Ingredient {
            name,
            cost_price,
            reference_quantity,
            unit,
            ingredient_type,
            supplier,
        };
        self.ingredients.push(item);
        proof {
            assert(self@.ingredients =~= old(self)@.ingredients.push(item@));
            assert(self@.plates =~= old(self)@.plates);
        }
        Ok(i)
    }

    /// Adds a plate without components and returns its number. Refused when
    /// the batch quantity is not positive.
    pub fn add_plate(
        &mut self,
        name: String,
        selling_price: Ratio,
        batch_preparation_time_hours: Ratio,
        batch_quantity: Ratio,
        batch_unit: QuantityUnit,
    ) -> (r: Result<usize, EditError>)
        requires
            old(self).wf(),
            selling_price.wf(),
            batch_preparation_time_hours.wf(),
            batch_quantity.wf(),
        ensures
            final(self).wf(),
            match r {
                Ok(p) => {
                    &&& batch_quantity@.is_positive()
                    &&& p == old(self)@.plates.len()
                    &&& final(self)@ == old(self)@.with_new_plate(
                        PlateModel {
                            name: name@,
                            components: Seq::empty(),
                            selling_price: selling_price@,
                            batch_preparation_time_hours: batch_preparation_time_hours@,
                            batch_quantity: batch_quantity@,
                            batch_unit,
                        },
                    )
                },
                Err(e) => {
                    &&& !batch_quantity@.is_positive()
                    &&& e == EditError::NotPositive
                    &&& final(self)@ == old(self)@
                },
            },
    {
        if !batch_quantity.is_positive() {
            return Err(EditError::NotPositive);
        }
        let p = self.plates.len();
        let item = Plate {
            name,
            components: Vec::new(),
            selling_price,
            batch_preparation_time_hours,
            batch_quantity,
            batch_unit,
        };
        assert(item@.components =~= Seq::empty());
        self.plates.push(item);
        proof {
            assert(self@.plates =~= old(self)@.plates.push(item@));
            assert(self@.ingredients =~= old(self)@.ingredients);
        }
        Ok(p)
    }

    /// Sets what is paid for the reference quantity of ingredient `i`.
    pub fn set_cost_price(&mut self, i: usize, cost_price: Ratio) -> (r: Result<(), EditError>)
        requires
            old(self).wf(),
            cost_price.wf(),
        ensures
            final(self).wf(),
            match r {
                Ok(_) => old(self)@.has_ingredient(i as int) && final(self)@ == old(self)@.with_ingredient(
                    i as int,
                    old(self)@.ingredients[i as int].with_cost_price(cost_price@),
                ),
                Err(e) => !old(self)@.has_ingredient(i as int) && e == EditError::UnknownIngredient
                    && final(self)@ == old(self)@,
            },
    {
        if i >= self.ingredients.len() {
            return Err(EditError::UnknownIngredient);
        }
        self.ingredients[i].cost_price = cost_price;
        proof {
            assert(self@.ingredients =~= old(self)@.ingredients.update(
                i as int,
                old(self)@.ingredients[i as int].with_cost_price(cost_price@),
            ));
            assert(self@.plates =~= old(self)@.plates);
        }
        Ok(())
    }

    /// Sets the quantity that the cost price of ingredient `i` pays for.
    /// Refused when the quantity is not positive.
    pub fn set_reference_quantity(&mut self, i: usize, quantity: Ratio) -> (r: Result<
        (),
        EditError,
    >)
        requires
            old(self).wf(),
            quantity.wf(),
        ensures
            final(self).wf(),
            match r {
                Ok(_) => {
                    &&& old(self)@.has_ingredient(i as int)
                    &&& quantity@.is_positive()
                    &&& final(self)@ == old(self)@.with_ingredient(
                        i as int,
                        old(self)@.ingredients[i as int].with_reference_quantity(quantity@),
                    )
                },
                Err(e) => final(self)@ == old(self)@ && if !old(self)@.has_ingredient(i as int) {
                    e == EditError::UnknownIngredient
                } else {
                    e == EditError::NotPositive && !quantity@.is_positive()
                },
            },
    {
        if i >= self.ingredients.len() {
            return Err(EditError::UnknownIngredient);
        }
        if !quantity.is_positive() {
            return Err(EditError::NotPositive);
        }
        self.ingredients[i].reference_quantity = quantity;
        proof {
            assert(self@.ingredients =~= old(self)@.ingredients.update(
                i as int,
                old(self)@.ingredients[i as int].with_reference_quantity(quantity@),
            ));
            assert(self@.plates =~= old(self)@.plates);
        }
        Ok(())
    }

    /// Sets what plate `p` sells for.
    pub fn set_selling_price(&mut self, p: usize, selling_price: Ratio) -> (r: Result<
        (),
        EditError,
    >)
        requires
            old(self).wf(),
            selling_price.wf(),
        ensures
            final(self).wf(),
            match r {
                Ok(_) => old(self)@.has_plate(p as int) && final(self)@ == old(self)@.with_plate(
                    p as int,
                    old(self)@.plates[p as int].with_selling_price(selling_price@),
                ),
                Err(e) => {
                    &&& !old(self)@.has_plate(p as int)
                    &&& e == EditError::UnknownPlate
                    &&& final(self)@ == old(self)@
                },
            },
    {
        if p >= self.plates.len() {
            return Err(EditError::UnknownPlate);
        }
        self.plates[p].selling_price = selling_price;
        proof {
            assert(self.plates@[p as int]@.components =~= old(self)@.plates[p as int].components);
            assert(self@.plates =~= old(self)@.plates.update(
                p as int,
                old(self)@.plates[p as int].with_selling_price(selling_price@),
            ));
            assert(self@.ingredients =~= old(self)@.ingredients);
        }
        Ok(())
    }

    /// Why `add_component` would refuse `c` for plate `p`, if it would: the
    /// plate is unknown, what the component names is unknown, or its
    /// quantity is not positive, in that order.
    pub open spec fn component_refusal(self, p: int, c: ComponentModel) -> Option<EditError> {
        if !self@.has_plate(p) {
            Some(EditError::UnknownPlate)
        } else if !self@.component_known(c) {
            Some(
                match c {
                    ComponentModel::Ingredient { .. } => EditError::UnknownIngredient,
                    ComponentModel::Plate { .. } => EditError::UnknownPlate,
                },
            )
        } else if !c.quantity().is_positive() {
            Some(EditError::NotPositive)
        } else {
            None
        }
    }

    /// Appends a component to plate `p`. The component may name any plate of
    /// the catalog, the plate itself included: a composition that runs in a
    /// circle is found when the plate is valued.
    pub fn add_component(&mut self, p: usize, c: PlateComponent) -> (r: Result<(), EditError>)
        requires
            old(self).wf(),
            c.wf(),
        ensures
            final(self).wf(),
            match r {
                Ok(_) => {
                    &&& old(self).component_refusal(p as int, c@) is None
                    &&& final(self)@ == old(self)@.with_plate(
                        p as int,
                        old(self)@.plates[p as int].with_components(
                            old(self)@.plates[p as int].components.push(c@),
                        ),
                    )
                },
                Err(e) => old(self).component_refusal(p as int, c@) == Some(e) && final(self)@
                    == old(self)@,
            },
    {
        if p >= self.plates.len() {
            return Err(EditError::UnknownPlate);
        }
        match c {
            PlateComponent::Ingredient { ingredient, .. } => {
                if ingredient >= self.ingredients.len() {
                    return Err(EditError::UnknownIngredient);
                }
            },
            PlateComponent::Plate { plate, .. } => {
                if plate >= self.plates.len() {
                    return Err(EditError::UnknownPlate);
                }
            },
        }
        if !c.quantity().is_positive() {
            return Err(EditError::NotPositive);
        }
        self.plates[p].components.push(c);
        proof {
            let before = old(self)@.plates[p as int];
            assert(self.plates@[p as int]@.components =~= before.components.push(c@));
            assert(self@.plates =~= old(self)@.plates.update(
                p as int,
                before.with_components(before.components.push(c@)),
            ));
            assert(self@.ingredients =~= old(self)@.ingredients);
            assert(old(self)@.plates[p as int].wf());
        }
        Ok(())
    }

    /// Sets the quantity of the component at position `k` of plate `p`.
    /// Refused when the quantity is not positive.
    pub fn set_component_quantity(&mut self, p: usize, k: usize, quantity: Ratio) -> (r: Result<
        (),
        EditError,
    >)
        requires
            old(self).wf(),
            quantity.wf(),
        ensures
            final(self).wf(),
            match r {
                Ok(_) => {
                    &&& old(self)@.has_plate(p as int)
                    &&& k < old(self)@.plates[p as int].components.len()
                    &&& quantity@.is_positive()
                    &&& final(self)@ == old(self)@.with_component_quantity(
                        p as int,
                        k as int,
                        quantity@,
                    )
                },
                Err(e) => final(self)@ == old(self)@ && if !old(self)@.has_plate(p as int) {
                    e == EditError::UnknownPlate
                } else if k >= old(self)@.plates[p as int].components.len() {
                    e == EditError::UnknownComponent
                } else {
                    e == EditError::NotPositive && !quantity@.is_positive()
                },
            },
    {
        if p >= self.plates.len() {
            return Err(EditError::UnknownPlate);
        }
        if k >= self.plates[p].components.len() {
            return Err(EditError::UnknownComponent);
        }
        if !quantity.is_positive() {
            return Err(EditError::NotPositive);
        }
        let changed = match self.plates[p].components[k] {
            PlateComponent::Ingredient { ingredient, unit, .. } => PlateComponent::Ingredient {
                ingredient,
                quantity,
                unit,
            },
            PlateComponent::Plate { plate, .. } => PlateComponent::Plate { plate, quantity },
        };
        self.plates[p].components[k] = changed;
        proof {
            let before = old(self)@.plates[p as int];
            let after = before.components.update(
                k as int,
                before.components[k as int].with_quantity(quantity@),
            );
            assert(self.plates@[p as int]@.components =~= after);
            assert(self@.plates =~= old(self)@.plates.update(
                p as int,
                before.with_components(after),
            ));
            assert(self@.ingredients =~= old(self)@.ingredients);
            assert(before.wf());
            assert(old(self)@.component_known(before.components[k as int]));
        }
        Ok(())
    }

    /// Takes the component at position `k` out of plate `p`; those behind it
    /// move up.
    pub fn remove_component(&mut self, p: usize, k: usize) -> (r: Result<(), EditError>)
        requires
            old(self).wf(),
        ensures
            final(self).wf(),
            match r {
                Ok(_) => {
                    &&& old(self)@.has_plate(p as int)
                    &&& k < old(self)@.plates[p as int].components.len()
                    &&& final(self)@ == old(self)@.with_plate(
                        p as int,
                        old(self)@.plates[p as int].with_components(
                            old(self)@.plates[p as int].components.remove(k as int),
                        ),
                    )
                },
                Err(e) => final(self)@ == old(self)@ && if !old(self)@.has_plate(p as int) {
                    e == EditError::UnknownPlate
                } else {
                    e == EditError::UnknownComponent && k >= old(self)@.plates[p
                        as int].components.len()
                },
            },
    {
        if p >= self.plates.len() {
            return Err(EditError::UnknownPlate);
        }
        if k >= self.plates[p].components.len() {
            return Err(EditError::UnknownComponent);
        }
        self.plates[p].components.remove(k);
        proof {
            let before = old(self)@.plates[p as int];
            let after = before.components.remove(k as int);
            assert(self.plates@[p as int]@.components =~= after);
            assert(self@.plates =~= old(self)@.plates.update(
                p as int,
                before.with_components(after),
            ));
            assert(self@.ingredients =~= old(self)@.ingredients);
            assert(before.wf());
            assert forall|j: int| 0 <= j < after.len() implies old(self)@.component_known(
                #[trigger] after[j],
            ) by {
                if j < k {
                    assert(after[j] == before.components[j]);
                } else {
                    assert(after[j] == before.components[j + 1]);
                }
            }
        }
        Ok(())
    }

    /// Takes out of plate `p` the components at the positions named in
    /// `positions`; the others keep their order. A position that the plate
    /// does not have names nothing.
    pub fn remove_components(&mut self, p: usize, positions: &Vec<usize>) -> (r: Result<
        (),
        EditError,
    >)
        requires
            old(self).wf(),
        ensures
            final(self).wf(),
            match r {
                Ok(_) => old(self)@.has_plate(p as int) && final(self)@ == old(self)@.with_plate(
                    p as int,
                    old(self)@.plates[p as int].with_components(
                        without_positions(
                            old(self)@.plates[p as int].components,
                            positions@,
                            old(self)@.plates[p as int].components.len(),
                        ),
                    ),
                ),
                Err(e) => {
                    &&& !old(self)@.has_plate(p as int)
                    &&& e == EditError::UnknownPlate
                    &&& final(self)@ == old(self)@
                },
            },
    {
        if p >= self.plates.len() {
            return Err(EditError::UnknownPlate);
        }
        let ghost before = self@.plates[p as int];
        let count = self.plates[p].components.len();
        let mut kept: Vec<PlateComponent> = Vec::new();
        let mut k: usize = 0;
        proof {
            assert(before.wf());
        }
        while k < count
            invariant
                self.wf(),
                p < self.plates@.len(),
                before == self@.plates[p as int],
                count == self.plates@[p as int].components@.len(),
                k <= count,
                Seq::new(kept@.len(), |j: int| kept@[j]@) == without_positions(
                    before.components,
                    positions@,
                    k as nat,
                ),
                forall|j: int|
                    0 <= j < kept@.len() ==> held((#[trigger] kept@[j])@.quantity())
                        && kept@[j]@.quantity().is_positive() && self@.component_known(kept@[j]@),
            decreases count - k,
        {
            let c = self.plates[p].components[k];
            let ghost so_far = Seq::new(kept@.len(), |j: int| kept@[j]@);
            proof {
                assert(c@ == before.components[k as int]);
                assert(before.wf());
                assert(self@.component_known(before.components[k as int]));
            }
            if !holds_position(positions, k) {
                kept.push(c);
                assert(Seq::new(kept@.len(), |j: int| kept@[j]@) =~= so_far.push(c@));
            }
            k = k + 1;
        }
        self.plates[p].components = kept;
        proof {
            let after = without_positions(before.components, positions@, count as nat);
            assert(self.plates@[p as int]@.components =~= after);
            assert(self@.plates =~= old(self)@.plates.update(
                p as int,
                before.with_components(after),
            ));
            assert(self@.ingredients =~= old(self)@.ingredients);
            assert forall|j: int| 0 <= j < after.len() implies held((#[trigger] after[j]).quantity())
                && after[j].quantity().is_positive() && self@.component_known(after[j]) by {
                assert(after[j] == kept@[j]@);
            }
        }
        Ok(())
    }
}

/// `k` is among `positions`.
fn holds_position(positions: &Vec<usize>, k: usize) -> (b: bool)
    ensures
        b == positions@.contains(k),
{
    let mut i: usize = 0;
    while i < positions.len()
        invariant
            i <= positions@.len(),
            forall|j: int| 0 <= j < i ==> positions@[j] != k,
        decreases positions@.len() - i,
    {
        if positions[i] == k {
            return true;
        }
        i = i + 1;
    }
    false
}

} // verus!
