//! The state of the cost book that a user works on: the catalog, the
//! ingredients and plates that are listed, the two forms for new entries,
//! and the edits that the lists and forms allow.
//!
//! Taking an ingredient or a plate off its list does not take it out of the
//! catalog: the plates that are made of it keep it.

use vstd::prelude::*;
use vstd::pervasive::unreached;
use crate::catalog::{Catalog, PlateComponent, Supplier};
use crate::fraction::{gcd, lemma_reduced_fixed, Fraction};
use crate::model::{
    held, without_positions, CatalogModel, ComponentModel, EditError, IngredientModel,
    IngredientType, PlateModel, SupplierModel,
};
use crate::ratio::Ratio;
use crate::units::QuantityUnit;

verus! {

/// What the form for a new ingredient holds.
pub struct IngredientFormModel {
    pub name: Seq<char>,
    pub price: Fraction,
    pub quantity: Fraction,
    pub unit: QuantityUnit,
    pub ingredient_type: IngredientType,
}

/// What the form for a new recipe holds.
pub struct RecipeFormModel {
    pub name: Seq<char>,
    pub selling_price: Fraction,
    pub prep_time: Fraction,
    pub batch_quantity: Fraction,
    pub batch_unit: QuantityUnit,
}

/// The state of the cost book: the catalog, what of it is listed, what is
/// selected, and the two forms.
pub struct TemplateAppModel {
    pub label: Seq<char>,
    pub catalog: CatalogModel,
    pub ingredients: Seq<int>,
    pub plates: Seq<int>,
    pub selected_ingredient_idx: Option<usize>,
    pub selected_plate_idx: Option<usize>,
    pub ingredient_form: IngredientFormModel,
    pub recipe_form: RecipeFormModel,
    pub show_add_recipe_form: bool,
}

/// The supplier that an ingredient entered through the form is given.
pub open spec fn default_supplier() -> SupplierModel {
    SupplierModel { name: "Par Défaut"@, contact: None }
}

impl IngredientFormModel {
    /// The form as it stands before anything is entered: no name, no price,
    /// a reference quantity of 100 grams, a grocery.
    pub open spec fn blank() -> IngredientFormModel {
        IngredientFormModel {
            name: Seq::empty(),
            price: Fraction::zero(),
            quantity: Fraction::from_int(100),
            unit: QuantityUnit::Gram,
            ingredient_type: IngredientType::Grocery,
        }
    }

    pub open spec fn wf(self) -> bool {
        held(self.price) && held(self.quantity)
    }

    /// The ingredient that the form describes.
    pub open spec fn entry(self) -> IngredientModel {
        IngredientModel {
            name: self.name,
            cost_price: self.price,
            reference_quantity: self.quantity,
            unit: self.unit,
            ingredient_type: self.ingredient_type,
            supplier: default_supplier(),
        }
    }
}

impl RecipeFormModel {
    /// The form as it stands before anything is entered: no name, no
    /// selling price, half an hour of preparation, a batch of one unit.
    pub open spec fn blank() -> RecipeFormModel {
        RecipeFormModel {
            name: Seq::empty(),
            selling_price: Fraction::zero(),
            prep_time: Fraction { num: 1, den: 2 },
            batch_quantity: Fraction::from_int(1),
            batch_unit: QuantityUnit::Unit,
        }
    }

    pub open spec fn wf(self) -> bool {
        held(self.selling_price) && held(self.prep_time) && held(self.batch_quantity)
    }

    /// The plate that the form describes: nothing in it yet.
    pub open spec fn entry(self) -> PlateModel {
        PlateModel {
            name: self.name,
            components: Seq::empty(),
            selling_price: self.selling_price,
            batch_preparation_time_hours: self.prep_time,
            batch_quantity: self.batch_quantity,
            batch_unit: self.batch_unit,
        }
    }
}

/// An ingredient of the sample book, bought by the hundred grams or by the
/// kilogram.
pub open spec fn sample_ingredient(
    name: Seq<char>,
    cost_price: Fraction,
    reference_quantity: int,
    unit: QuantityUnit,
    ingredient_type: IngredientType,
    supplier: SupplierModel,
) -> IngredientModel {
    IngredientModel {
        name,
        cost_price,
        reference_quantity: Fraction::from_int(reference_quantity),
        unit,
        ingredient_type,
        supplier,
    }
}

/// So many grams of an ingredient.
pub open spec fn grams_of(ingredient: int, grams: int) -> ComponentModel {
    ComponentModel::Ingredient {
        ingredient,
        quantity: Fraction::from_int(grams),
        unit: QuantityUnit::Gram,
    }
}

/// The book that a new state starts with: tomato, cheese and flour from two
/// suppliers, a tomato sauce made of tomato, and a pizza made of the sauce,
/// cheese and flour.
pub open spec fn sample_catalog() -> CatalogModel {
    let farm = SupplierModel {
        name: "Fermes Fraîches"@,
        contact: Some("contact@fermesfraîches.fr"@),
    };
    let dairy = SupplierModel { name: "Laiterie Best"@, contact: Some("info@laiteriebest.fr"@) };
    CatalogModel {
        ingredients: seq![
            sample_ingredient(
                "Tomate"@,
                Fraction { num: 1, den: 2 },
                100,
                QuantityUnit::Gram,
                IngredientType::VegetablesFruits,
                farm,
            ),
            sample_ingredient(
                "Fromage"@,
                Fraction::from_int(1),
                100,
                QuantityUnit::Gram,
                IngredientType::DairyEggsCheeseSauces,
                dairy,
            ),
            sample_ingredient(
                "Farine"@,
                Fraction::from_int(2),
                1,
                QuantityUnit::Kilogram,
                IngredientType::Grocery,
                farm,
            ),
        ],
        plates: seq![
            PlateModel {
                name: "Sauce Tomate"@,
                components: seq![grams_of(0, 1500)],
                selling_price: Fraction::from_int(5),
                batch_preparation_time_hours: Fraction { num: 1, den: 4 },
                batch_quantity: Fraction::from_int(1500),
                batch_unit: QuantityUnit::Gram,
            },
            PlateModel {
                name: "Pizza Margherita"@,
                components: seq![
                    ComponentModel::Plate { plate: 0, quantity: Fraction::from_int(150) },
                    grams_of(1, 50),
                    grams_of(2, 200),
                ],
                selling_price: Fraction::from_int(12),
                batch_preparation_time_hours: Fraction { num: 1, den: 2 },
                batch_quantity: Fraction::from_int(1),
                batch_unit: QuantityUnit::Unit,
            },
        ],
    }
}

impl TemplateAppModel {
    /// The catalog is well-formed, the lists name what it holds, and the
    /// amounts in the forms are held exactly.
    pub open spec fn wf(self) -> bool {
        &&& self.catalog.wf()
        &&& forall|i: int|
            0 <= i < self.ingredients.len() ==> self.catalog.has_ingredient(
                #[trigger] self.ingredients[i],
            )
        &&& forall|i: int|
            0 <= i < self.plates.len() ==> self.catalog.has_plate(#[trigger] self.plates[i])
        &&& self.ingredient_form.wf()
        &&& self.recipe_form.wf()
    }

    /// The state that a session starts in: the sample book, all of it
    /// listed, both forms blank.
    pub open spec fn initial() -> TemplateAppModel {
        TemplateAppModel {
            label: "Gestion des Coûts F&B"@,
            catalog: sample_catalog(),
            ingredients: seq![0, 1, 2],
            plates: seq![0, 1],
            selected_ingredient_idx: None,
            selected_plate_idx: None,
            ingredient_form: IngredientFormModel::blank(),
            recipe_form: RecipeFormModel::blank(),
            show_add_recipe_form: false,
        }
    }

    /// What `create_new_recipe` returns: nothing where the form has no
    /// name, a refusal where its batch quantity is not positive, else the
    /// number of the new plate.
    pub open spec fn new_recipe_result(self) -> Result<Option<usize>, EditError> {
        if self.recipe_form.name.len() == 0 {
            Ok(None)
        } else if !self.recipe_form.batch_quantity.is_positive() {
            Err(EditError::NotPositive)
        } else {
            Ok(Some(self.catalog.plates.len() as usize))
        }
    }

    /// The state after `create_new_recipe`: unchanged unless a plate was
    /// entered; else the plate is in the catalog and last on the list, the
    /// form is blank and closed.
    pub open spec fn after_new_recipe(self) -> TemplateAppModel {
        if self.new_recipe_result() matches Ok(Some(id)) {
            TemplateAppModel {
                catalog: self.catalog.with_new_plate(self.recipe_form.entry()),
                plates: self.plates.push(self.catalog.plates.len() as int),
                recipe_form: RecipeFormModel::blank(),
                show_add_recipe_form: false,
                ..self
            }
        } else {
            self
        }
    }

    /// What `add_new_ingredient` returns: nothing where the form has no
    /// name, a refusal where its quantity is not positive, else the number
    /// of the new ingredient.
    pub open spec fn new_ingredient_result(self) -> Result<Option<usize>, EditError> {
        if self.ingredient_form.name.len() == 0 {
            Ok(None)
        } else if !self.ingredient_form.quantity.is_positive() {
            Err(EditError::NotPositive)
        } else {
            Ok(Some(self.catalog.ingredients.len() as usize))
        }
    }

    /// The state after `add_new_ingredient`: unchanged unless an ingredient
    /// was entered; else the ingredient is in the catalog and last on the
    /// list, and the form is blank.
    pub open spec fn after_new_ingredient(self) -> TemplateAppModel {
        if self.new_ingredient_result() matches Ok(Some(id)) {
            TemplateAppModel {
                catalog: self.catalog.with_new_ingredient(self.ingredient_form.entry()),
                ingredients: self.ingredients.push(self.catalog.ingredients.len() as int),
                ingredient_form: IngredientFormModel::blank(),
                ..self
            }
        } else {
            self
        }
    }

    /// The state after the selected ingredient was taken off the list.
    pub open spec fn after_ingredient_removed(self) -> TemplateAppModel {
        TemplateAppModel {
            selected_ingredient_idx: None,
            ingredients: match self.selected_ingredient_idx {
                Some(idx) if idx < self.ingredients.len() => self.ingredients.remove(idx as int),
                _ => self.ingredients,
            },
            ..self
        }
    }

    /// The state after the selected plate was taken off the list.
    pub open spec fn after_plate_removed(self) -> TemplateAppModel {
        TemplateAppModel {
            selected_plate_idx: None,
            plates: match self.selected_plate_idx {
                Some(idx) if idx < self.plates.len() => self.plates.remove(idx as int),
                _ => self.plates,
            },
            ..self
        }
    }

    pub open spec fn with_catalog(self, catalog: CatalogModel) -> TemplateAppModel {
        TemplateAppModel { catalog, ..self }
    }

    /// The state with the sample book in place of its own.
    pub open spec fn with_sample_data(self) -> TemplateAppModel {
        TemplateAppModel {
            catalog: sample_catalog(),
            ingredients: seq![0, 1, 2],
            plates: seq![0, 1],
            ..self
        }
    }
}

/// The form for a new ingredient.
#[derive(Clone, Debug)]
pub struct IngredientForm {
    pub name: String,
    pub price: Ratio,
    pub quantity: Ratio,
    pub unit: QuantityUnit,
    pub ingredient_type: IngredientType,
}

impl View for IngredientForm {
    type V = IngredientFormModel;

    open spec fn view(&self) -> IngredientFormModel {
        IngredientFormModel {
            name: self.name@,
            price: self.price@,
            quantity: self.quantity@,
            unit: self.unit,
            ingredient_type: self.ingredient_type,
        }
    }
}

/// The form for a new recipe.
#[derive(Clone, Debug)]
pub struct RecipeForm {
    pub name: String,
    pub selling_price: Ratio,
    pub prep_time: Ratio,
    pub batch_quantity: Ratio,
    pub batch_unit: QuantityUnit,
}

impl View for RecipeForm {
    type V = RecipeFormModel;

    open spec fn view(&self) -> RecipeFormModel {
        RecipeFormModel {
            name: self.name@,
            selling_price: self.selling_price@,
            prep_time: self.prep_time@,
            batch_quantity: self.batch_quantity@,
            batch_unit: self.batch_unit,
        }
    }
}

impl IngredientForm {
    /// The amounts of the form are held exactly.
    pub open spec fn wf(&self) -> bool {
        self@.wf()
    }

    pub fn blank() -> (form: IngredientForm)
        ensures
            form@ == IngredientFormModel::blank(),
            form@.wf(),
    {
        IngredientForm {
            name: String::new(),
            price: Ratio::zero(),
            quantity: Ratio::from_int(100),
            unit: QuantityUnit::Gram,
            ingredient_type: IngredientType::Grocery,
        }
    }
}

impl RecipeForm {
    /// The amounts of the form are held exactly.
    pub open spec fn wf(&self) -> bool {
        self@.wf()
    }

    pub fn blank() -> (form: RecipeForm)
        ensures
            form@ == RecipeFormModel::blank(),
            form@.wf(),
    {
        proof {
            reveal_with_fuel(gcd, 4);
        }
        RecipeForm {
            name: String::new(),
            selling_price: Ratio::zero(),
            prep_time: fraction(1, 2),
            batch_quantity: Ratio::from_int(1),
            batch_unit: QuantityUnit::Unit,
        }
    }
}

/// The ratio `num / den`, given in lowest terms.
fn fraction(num: i64, den: i64) -> (r: Ratio)
    requires
        (Fraction { num: num as int, den: den as int }).is_reduced(),
    ensures
        r.wf(),
        r@ == (Fraction { num: num as int, den: den as int }),
{
    proof {
        lemma_reduced_fixed(Fraction { num: num as int, den: den as int });
    }
    match Ratio::new(num, den) {
        Some(r) => r,
        None => unreached(),
    }
}

/// The state of the cost book.
#[derive(Clone, Debug)]
pub struct TemplateApp {
    label: String,
    catalog: Catalog,
    ingredients: Vec<usize>,
    plates: Vec<usize>,
    selected_ingredient_idx: Option<usize>,
    selected_plate_idx: Option<usize>,
    ingredient_form: IngredientForm,
    recipe_form: RecipeForm,
    show_add_recipe_form: bool,
}

impl View for TemplateApp {
    type V = TemplateAppModel;

    closed spec fn view(&self) -> TemplateAppModel {
        TemplateAppModel {
            label: self.label@,
            catalog: self.catalog@,
            ingredients: Seq::new(self.ingredients@.len(), |i: int| self.ingredients@[i] as int),
            plates: Seq::new(self.plates@.len(), |i: int| self.plates@[i] as int),
            selected_ingredient_idx: self.selected_ingredient_idx,
            selected_plate_idx: self.selected_plate_idx,
            ingredient_form: self.ingredient_form@,
            recipe_form: self.recipe_form@,
            show_add_recipe_form: self.show_add_recipe_form,
        }
    }
}

/// The sample book and the numbers of what it lists.
fn sample_data() -> (r: (Catalog, Vec<usize>, Vec<usize>))
    ensures
        r.0.wf(),
        r.0@ == sample_catalog(),
        r.1@ == seq![0usize, 1, 2],
        r.2@ == seq![0usize, 1],
{
    proof {
        reveal_with_fuel(gcd, 4);
    }
    let mut catalog = Catalog::new();
    let tomato = match catalog.add_ingredient(
        "Tomate".to_owned(),
        fraction(1, 2),
        Ratio::from_int(100),
        QuantityUnit::Gram,
        IngredientType::VegetablesFruits,
        Supplier {
            name: "Fermes Fraîches".to_owned(),
            contact: Some("contact@fermesfraîches.fr".to_owned()),
        },
    ) {
        Ok(id) => id,
        Err(_) => unreached(),
    };
    let cheese = match catalog.add_ingredient(
        "Fromage".to_owned(),
        Ratio::from_int(1),
        Ratio::from_int(100),
        QuantityUnit::Gram,
        IngredientType::DairyEggsCheeseSauces,
        Supplier {
            name: "Laiterie Best".to_owned(),
            contact: Some("info@laiteriebest.fr".to_owned()),
        },
    ) {
        Ok(id) => id,
        Err(_) => unreached(),
    };
    let flour = match catalog.add_ingredient(
        "Farine".to_owned(),
        Ratio::from_int(2),
        Ratio::from_int(1),
        QuantityUnit::Kilogram,
        IngredientType::Grocery,
        Supplier {
            name: "Fermes Fraîches".to_owned(),
            contact: Some("contact@fermesfraîches.fr".to_owned()),
        },
    ) {
        Ok(id) => id,
        Err(_) => unreached(),
    };
    let sauce = match catalog.add_plate(
        "Sauce Tomate".to_owned(),
        Ratio::from_int(5),
        fraction(1, 4),
        Ratio::from_int(1500),
        QuantityUnit::Gram,
    ) {
        Ok(id) => id,
        Err(_) => unreached(),
    };
    let pizza = match catalog.add_plate(
        "Pizza Margherita".to_owned(),
        Ratio::from_int(12),
        fraction(1, 2),
        Ratio::from_int(1),
        QuantityUnit::Unit,
    ) {
        Ok(id) => id,
        Err(_) => unreached(),
    };
    match catalog.add_component(
        sauce,
        PlateComponent::Ingredient {
            ingredient: tomato,
            quantity: Ratio::from_int(1500),
            unit: QuantityUnit::Gram,
        },
    ) {
        Ok(_) => {},
        Err(_) => unreached(),
    }
    match catalog.add_component(
        pizza,
        PlateComponent::Plate { plate: sauce, quantity: Ratio::from_int(150) },
    ) {
        Ok(_) => {},
        Err(_) => unreached(),
    }
    match catalog.add_component(
        pizza,
        PlateComponent::Ingredient {
            ingredient: cheese,
            quantity: Ratio::from_int(50),
            unit: QuantityUnit::Gram,
        },
    ) {
        Ok(_) => {},
        Err(_) => unreached(),
    }
    match catalog.add_component(
        pizza,
        PlateComponent::Ingredient {
            ingredient: flour,
            quantity: Ratio::from_int(200),
            unit: QuantityUnit::Gram,
        },
    ) {
        Ok(_) => {},
        Err(_) => unreached(),
    }
    proof {
        assert(catalog@.ingredients =~~= sample_catalog().ingredients);
        assert(catalog@.plates[0].components =~~= sample_catalog().plates[0].components);
        assert(catalog@.plates[1].components =~~= sample_catalog().plates[1].components);
        assert(catalog@.plates =~~= sample_catalog().plates);
    }
    let mut ingredients: Vec<usize> = Vec::new();
    ingredients.push(tomato);
    ingredients.push(cheese);
    ingredients.push(flour);
    let mut plates: Vec<usize> = Vec::new();
    plates.push(sauce);
    plates.push(pizza);
    assert(ingredients@ =~= seq![0usize, 1, 2]);
    assert(plates@ =~= seq![0usize, 1]);
    (catalog, ingredients, plates)
}

impl TemplateApp {
    pub open spec fn wf(&self) -> bool {
        self@.wf()
    }

    /// Puts the sample book in place of the state's own. The forms and the
    /// selections stay as they are.
    pub fn initialize_sample_data(&mut self)
        requires
            old(self).wf(),
        ensures
            final(self).wf(),
            final(self)@ == old(self)@.with_sample_data(),
    {
        let (catalog, ingredients, plates) = sample_data();
        self.catalog = catalog;
        self.ingredients = ingredients;
        self.plates = plates;
        proof {
            assert(self@.ingredients =~= seq![0, 1, 2]);
            assert(self@.plates =~= seq![0, 1]);
        }
    }

    /// Every unit, in the order in which a choice of units offers them.
    pub fn get_unit_variants() -> (units: Vec<QuantityUnit>)
        ensures
            units@ == seq![
                QuantityUnit::Gram,
                QuantityUnit::Kilogram,
                QuantityUnit::Milligram,
                QuantityUnit::Liter,
                QuantityUnit::Milliliter,
                QuantityUnit::Centiliter,
                QuantityUnit::Deciliter,
                QuantityUnit::Unit,
                QuantityUnit::Piece,
                QuantityUnit::Slice,
                QuantityUnit::Teaspoon,
                QuantityUnit::Tablespoon,
                QuantityUnit::Cup,
            ],
            forall|unit: QuantityUnit| units@.contains(unit),
    {
        let units = vec![
            QuantityUnit::Gram,
            QuantityUnit::Kilogram,
            QuantityUnit::Milligram,
            QuantityUnit::Liter,
            QuantityUnit::Milliliter,
            QuantityUnit::Centiliter,
            QuantityUnit::Deciliter,
            QuantityUnit::Unit,
            QuantityUnit::Piece,
            QuantityUnit::Slice,
            QuantityUnit::Teaspoon,
            QuantityUnit::Tablespoon,
            QuantityUnit::Cup,
        ];
        proof {
            assert forall|unit: QuantityUnit| units@.contains(unit) by {
                match unit {
                    QuantityUnit::Gram => assert(units@[0] == unit),
                    QuantityUnit::Kilogram => assert(units@[1] == unit),
                    QuantityUnit::Milligram => assert(units@[2] == unit),
                    QuantityUnit::Liter => assert(units@[3] == unit),
                    QuantityUnit::Milliliter => assert(units@[4] == unit),
                    QuantityUnit::Centiliter => assert(units@[5] == unit),
                    QuantityUnit::Deciliter => assert(units@[6] == unit),
                    QuantityUnit::Unit => assert(units@[7] == unit),
                    QuantityUnit::Piece => assert(units@[8] == unit),
                    QuantityUnit::Slice => assert(units@[9] == unit),
                    QuantityUnit::Teaspoon => assert(units@[10] == unit),
                    QuantityUnit::Tablespoon => assert(units@[11] == unit),
                    QuantityUnit::Cup => assert(units@[12] == unit),
                }
            }
        }
        units
    }
}

impl TemplateApp {
    pub fn catalog(&self) -> (r: &Catalog)
        ensures
            r@ == self@.catalog,
    {
        &self.catalog
    }

    /// The title of the book.
    pub fn label(&self) -> (r: &String)
        ensures
            r@ == self@.label,
    {
        &self.label
    }

    pub fn set_label(&mut self, label: String)
        ensures
            final(self)@ == (TemplateAppModel { label: label@, ..old(self)@ }),
    {
        self.label = label;
        proof {
            assert(self@.ingredients =~= old(self)@.ingredients);
            assert(self@.plates =~= old(self)@.plates);
        }
    }

    /// The position on the list of the ingredient that is to leave it.
    pub fn selected_ingredient_idx(&self) -> (r: Option<usize>)
        ensures
            r == self@.selected_ingredient_idx,
    {
        self.selected_ingredient_idx
    }

    pub fn set_selected_ingredient_idx(&mut self, selected: Option<usize>)
        ensures
            final(self)@ == (TemplateAppModel { selected_ingredient_idx: selected, ..old(self)@ }),
    {
        self.selected_ingredient_idx = selected;
        proof {
            assert(self@.ingredients =~= old(self)@.ingredients);
            assert(self@.plates =~= old(self)@.plates);
        }
    }

    /// The position on the list of the plate that is to leave it.
    pub fn selected_plate_idx(&self) -> (r: Option<usize>)
        ensures
            r == self@.selected_plate_idx,
    {
        self.selected_plate_idx
    }

    pub fn set_selected_plate_idx(&mut self, selected: Option<usize>)
        ensures
            final(self)@ == (TemplateAppModel { selected_plate_idx: selected, ..old(self)@ }),
    {
        self.selected_plate_idx = selected;
        proof {
            assert(self@.ingredients =~= old(self)@.ingredients);
            assert(self@.plates =~= old(self)@.plates);
        }
    }

    /// Whether the form for a new recipe is open.
    pub fn show_add_recipe_form(&self) -> (r: bool)
        ensures
            r == self@.show_add_recipe_form,
    {
        self.show_add_recipe_form
    }

    pub fn set_show_add_recipe_form(&mut self, open: bool)
        ensures
            final(self)@ == (TemplateAppModel { show_add_recipe_form: open, ..old(self)@ }),
    {
        self.show_add_recipe_form = open;
        proof {
            assert(self@.ingredients =~= old(self)@.ingredients);
            assert(self@.plates =~= old(self)@.plates);
        }
    }

    /// The form for a new ingredient, as it stands.
    pub fn ingredient_form(&self) -> (r: &IngredientForm)
        ensures
            r@ == self@.ingredient_form,
    {
        &self.ingredient_form
    }

    /// Puts `form` in place of the form for a new ingredient.
    pub fn set_ingredient_form(&mut self, form: IngredientForm)
        requires
            form.wf(),
        ensures
            final(self)@ == (TemplateAppModel { ingredient_form: form@, ..old(self)@ }),
    {
        self.ingredient_form = form;
        proof {
            assert(self@.ingredients =~= old(self)@.ingredients);
            assert(self@.plates =~= old(self)@.plates);
        }
    }

    /// The form for a new recipe, as it stands.
    pub fn recipe_form(&self) -> (r: &RecipeForm)
        ensures
            r@ == self@.recipe_form,
    {
        &self.recipe_form
    }

    /// Puts `form` in place of the form for a new recipe.
    pub fn set_recipe_form(&mut self, form: RecipeForm)
        requires
            form.wf(),
        ensures
            final(self)@ == (TemplateAppModel { recipe_form: form@, ..old(self)@ }),
    {
        self.recipe_form = form;
        proof {
            assert(self@.ingredients =~= old(self)@.ingredients);
            assert(self@.plates =~= old(self)@.plates);
        }
    }

    /// The numbers of the listed ingredients, in the order of the list.
    pub fn ingredients(&self) -> (r: &Vec<usize>)
        ensures
            r@.len() == self@.ingredients.len(),
            forall|i: int| 0 <= i < r@.len() ==> r@[i] == self@.ingredients[i],
    {
        &self.ingredients
    }

    /// The numbers of the listed plates, in the order of the list.
    pub fn plates(&self) -> (r: &Vec<usize>)
        ensures
            r@.len() == self@.plates.len(),
            forall|i: int| 0 <= i < r@.len() ==> r@[i] == self@.plates[i],
    {
        &self.plates
    }

    /// Enters the recipe of the form as a new plate, lists it, clears the
    /// form and closes it. With no name in the form nothing happens; a
    /// batch quantity that is not positive is refused.
    pub fn create_new_recipe(&mut self) -> (r: Result<Option<usize>, EditError>)
        requires
            old(self).wf(),
        ensures
            final(self).wf(),
            r == old(self)@.new_recipe_result(),
            final(self)@ == old(self)@.after_new_recipe(),
    {
        if self.recipe_form.name.as_str().is_empty() {
            return Ok(None);
        }
        let id = match self.catalog.add_plate(
            self.recipe_form.name.clone(),
            self.recipe_form.selling_price,
            self.recipe_form.prep_time,
            self.recipe_form.batch_quantity,
            self.recipe_form.batch_unit,
        ) {
            Ok(id) => id,
            Err(e) => {
                return Err(e);
            },
        };
        self.plates.push(id);
        self.recipe_form = RecipeForm::blank();
        self.show_add_recipe_form = false;
        proof {
            assert(self@.plates =~= old(self)@.plates.push(id as int));
            assert(self@.ingredients =~= old(self)@.ingredients);
        }
        Ok(Some(id))
    }

    /// Enters the ingredient of the form, lists it and clears the form.
    /// With no name in the form nothing happens; a reference quantity that
    /// is not positive is refused.
    pub fn add_new_ingredient(&mut self) -> (r: Result<Option<usize>, EditError>)
        requires
            old(self).wf(),
        ensures
            final(self).wf(),
            r == old(self)@.new_ingredient_result(),
            final(self)@ == old(self)@.after_new_ingredient(),
    {
        if self.ingredient_form.name.as_str().is_empty() {
            return Ok(None);
        }
        let id = match self.catalog.add_ingredient(
            self.ingredient_form.name.clone(),
            self.ingredient_form.price,
            self.ingredient_form.quantity,
            self.ingredient_form.unit,
            self.ingredient_form.ingredient_type,
            Supplier { name: "Par Défaut".to_owned(), contact: None },
        ) {
            Ok(id) => id,
            Err(e) => {
                return Err(e);
            },
        };
        self.ingredients.push(id);
        self.ingredient_form = IngredientForm::blank();
        proof {
            assert(self@.ingredients =~= old(self)@.ingredients.push(id as int));
            assert(self@.plates =~= old(self)@.plates);
        }
        Ok(Some(id))
    }

    /// Takes the selected ingredient off the list and clears the selection.
    /// A selection beyond the list only clears.
    pub fn remove_selected_ingredient(&mut self)
        requires
            old(self).wf(),
        ensures
            final(self).wf(),
            final(self)@ == old(self)@.after_ingredient_removed(),
    {
        let selected = self.selected_ingredient_idx;
        self.selected_ingredient_idx = None;
        match selected {
            Some(idx) => {
                if idx < self.ingredients.len() {
                    self.ingredients.remove(idx);
                    proof {
                        assert(self@.ingredients =~= old(self)@.ingredients.remove(idx as int));
                    }
                }
            },
            None => {},
        }
        proof {
            assert(self@.plates =~= old(self)@.plates);
        }
    }

    /// Takes the selected plate off the list and clears the selection. A
    /// selection beyond the list only clears.
    pub fn remove_selected_plate(&mut self)
        requires
            old(self).wf(),
        ensures
            final(self).wf(),
            final(self)@ == old(self)@.after_plate_removed(),
    {
        let selected = self.selected_plate_idx;
        self.selected_plate_idx = None;
        match selected {
            Some(idx) => {
                if idx < self.plates.len() {
                    self.plates.remove(idx);
                    proof {
                        assert(self@.plates =~= old(self)@.plates.remove(idx as int));
                    }
                }
            },
            None => {},
        }
        proof {
            assert(self@.ingredients =~= old(self)@.ingredients);
        }
    }

    /// Adds a hundred grams of an ingredient to a plate.
    pub fn add_ingredient_to_plate(&mut self, plate: usize, ingredient: usize) -> (r: Result<
        (),
        EditError,
    >)
        requires
            old(self).wf(),
        ensures
            final(self).wf(),
            match r {
                Ok(_) => {
                    &&& old(self)@.catalog.has_plate(plate as int)
                    &&& old(self)@.catalog.has_ingredient(ingredient as int)
                    &&& final(self)@ == old(self)@.with_catalog(
                        old(self)@.catalog.with_plate(
                            plate as int,
                            old(self)@.catalog.plates[plate as int].with_components(
                                old(self)@.catalog.plates[plate as int].components.push(
                                    grams_of(ingredient as int, 100),
                                ),
                            ),
                        ),
                    )
                },
                Err(e) => final(self)@ == old(self)@ && if !old(self)@.catalog.has_plate(
                    plate as int,
                ) {
                    e == EditError::UnknownPlate
                } else {
                    e == EditError::UnknownIngredient && !old(self)@.catalog.has_ingredient(
                        ingredient as int,
                    )
                },
            },
    {
        let r = self.catalog.add_component(
            plate,
            PlateComponent::Ingredient {
                ingredient,
                quantity: Ratio::from_int(100),
                unit: QuantityUnit::Gram,
            },
        );
        proof {
            assert(self@.ingredients =~= old(self)@.ingredients);
            assert(self@.plates =~= old(self)@.plates);
        }
        r
    }

    /// Takes out of a plate the components at the named positions.
    pub fn remove_components(&mut self, plate: usize, positions: &Vec<usize>) -> (r: Result<
        (),
        EditError,
    >)
        requires
            old(self).wf(),
        ensures
            final(self).wf(),
            match r {
                Ok(_) => old(self)@.catalog.has_plate(plate as int) && final(self)@ == old(self)@.with_catalog(
                    old(self)@.catalog.with_plate(
                        plate as int,
                        old(self)@.catalog.plates[plate as int].with_components(
                            without_positions(
                                old(self)@.catalog.plates[plate as int].components,
                                positions@,
                                old(self)@.catalog.plates[plate as int].components.len(),
                            ),
                        ),
                    ),
                ),
                Err(e) => !old(self)@.catalog.has_plate(plate as int) && e
                    == EditError::UnknownPlate && final(self)@ == old(self)@,
            },
    {
        let r = self.catalog.remove_components(plate, positions);
        proof {
            assert(self@.ingredients =~= old(self)@.ingredients);
            assert(self@.plates =~= old(self)@.plates);
        }
        r
    }

    /// Sets what is paid for the reference quantity of an ingredient.
    pub fn set_cost_price(&mut self, ingredient: usize, cost_price: Ratio) -> (r: Result<
        (),
        EditError,
    >)
        requires
            old(self).wf(),
            cost_price.wf(),
        ensures
            final(self).wf(),
            match r {
                Ok(_) => old(self)@.catalog.has_ingredient(ingredient as int) && final(self)@
                    == old(self)@.with_catalog(
                    old(self)@.catalog.with_ingredient(
                        ingredient as int,
                        old(self)@.catalog.ingredients[ingredient as int].with_cost_price(
                            cost_price@,
                        ),
                    ),
                ),
                Err(e) => !old(self)@.catalog.has_ingredient(ingredient as int) && e
                    == EditError::UnknownIngredient && final(self)@ == old(self)@,
            },
    {
        let r = self.catalog.set_cost_price(ingredient, cost_price);
        proof {
            assert(self@.ingredients =~= old(self)@.ingredients);
            assert(self@.plates =~= old(self)@.plates);
        }
        r
    }

    /// Sets the quantity that the cost price of an ingredient pays for.
    /// Refused when the quantity is not positive.
    pub fn set_reference_quantity(&mut self, ingredient: usize, quantity: Ratio) -> (r: Result<
        (),
        EditError,
    >)
        requires
            old(self).wf(),
            quantity.wf(),
        ensures
            final(self).wf(),
            match r {
                Ok(_) => old(self)@.catalog.has_ingredient(ingredient as int)
                    && quantity@.is_positive() && final(self)@ == old(self)@.with_catalog(
                    old(self)@.catalog.with_ingredient(
                        ingredient as int,
                        old(self)@.catalog.ingredients[ingredient as int].with_reference_quantity(
                            quantity@,
                        ),
                    ),
                ),
                Err(e) => final(self)@ == old(self)@ && if !old(self)@.catalog.has_ingredient(
                    ingredient as int,
                ) {
                    e == EditError::UnknownIngredient
                } else {
                    e == EditError::NotPositive && !quantity@.is_positive()
                },
            },
    {
        let r = self.catalog.set_reference_quantity(ingredient, quantity);
        proof {
            assert(self@.ingredients =~= old(self)@.ingredients);
            assert(self@.plates =~= old(self)@.plates);
        }
        r
    }

    /// Sets what a plate sells for.
    pub fn set_selling_price(&mut self, plate: usize, selling_price: Ratio) -> (r: Result<
        (),
        EditError,
    >)
        requires
            old(self).wf(),
            selling_price.wf(),
        ensures
            final(self).wf(),
            match r {
                Ok(_) => old(self)@.catalog.has_plate(plate as int) && final(self)@ == old(self)@.with_catalog(
                    old(self)@.catalog.with_plate(
                        plate as int,
                        old(self)@.catalog.plates[plate as int].with_selling_price(selling_price@),
                    ),
                ),
                Err(e) => !old(self)@.catalog.has_plate(plate as int) && e
                    == EditError::UnknownPlate && final(self)@ == old(self)@,
            },
    {
        let r = self.catalog.set_selling_price(plate, selling_price);
        proof {
            assert(self@.ingredients =~= old(self)@.ingredients);
            assert(self@.plates =~= old(self)@.plates);
        }
        r
    }

    /// Sets the quantity of the component at position `k` of a plate.
    /// Refused when the quantity is not positive.
    pub fn set_component_quantity(&mut self, plate: usize, k: usize, quantity: Ratio) -> (r: Result<
        (),
        EditError,
    >)
        requires
            old(self).wf(),
            quantity.wf(),
        ensures
            final(self).wf(),
            match r {
                Ok(_) => {
                    &&& old(self)@.catalog.has_plate(plate as int)
                    &&& k < old(self)@.catalog.plates[plate as int].components.len()
                    &&& quantity@.is_positive()
                    &&& final(self)@ == old(self)@.with_catalog(
                        old(self)@.catalog.with_component_quantity(
                            plate as int,
                            k as int,
                            quantity@,
                        ),
                    )
                },
                Err(e) => final(self)@ == old(self)@ && if !old(self)@.catalog.has_plate(
                    plate as int,
                ) {
                    e == EditError::UnknownPlate
                } else if k >= old(self)@.catalog.plates[plate as int].components.len() {
                    e == EditError::UnknownComponent
                } else {
                    e == EditError::NotPositive && !quantity@.is_positive()
                },
            },
    {
        let r = self.catalog.set_component_quantity(plate, k, quantity);
        proof {
            assert(self@.ingredients =~= old(self)@.ingredients);
            assert(self@.plates =~= old(self)@.plates);
        }
        r
    }
}

impl Default for TemplateApp {
    /// The state that a session starts in.
    fn default() -> (app: TemplateApp)
        ensures
            app.wf(),
            app@ == TemplateAppModel::initial(),
    {
        let (catalog, ingredients, plates) = sample_data();
        let app = TemplateApp {
            label: "Gestion des Coûts F&B".to_owned(),
            catalog,
            ingredients,
            plates,
            selected_ingredient_idx: None,
            selected_plate_idx: None,
            ingredient_form: IngredientForm::blank(),
            recipe_form: RecipeForm::blank(),
            show_add_recipe_form: false,
        };
        proof {
            assert(app@.ingredients =~= seq![0, 1, 2]);
            assert(app@.plates =~= seq![0, 1]);
        }
        app
    }
}

} // verus!
