use fnb_costing::{
    EditError, IngredientForm, IngredientType, PlateComponent, QuantityUnit, Ratio, RecipeForm,
    TemplateApp, ValuationError,
};

fn edit_recipe(app: &mut TemplateApp, change: impl FnOnce(&mut RecipeForm)) {
    let mut form = app.recipe_form().clone();
    change(&mut form);
    app.set_recipe_form(form);
}

fn edit_ingredient(app: &mut TemplateApp, change: impl FnOnce(&mut IngredientForm)) {
    let mut form = app.ingredient_form().clone();
    change(&mut form);
    app.set_ingredient_form(form);
}

fn figure(num: i64, den: i64) -> Ratio {
    Ratio::new(num, den).expect("a figure that fits")
}

#[test]
fn a_session_starts_with_the_sample_book() {
    let app = TemplateApp::default();
    assert_eq!(app.label(), "Gestion des Coûts F&B");
    assert_eq!(app.ingredients(), &vec![0, 1, 2]);
    assert_eq!(app.plates(), &vec![0, 1]);
    assert_eq!(app.selected_ingredient_idx(), None);
    assert_eq!(app.selected_plate_idx(), None);
    assert!(!app.show_add_recipe_form());
    let catalog = app.catalog();
    assert_eq!(catalog.ingredient_count(), 3);
    assert_eq!(catalog.plate_count(), 2);
    let tomato = catalog.ingredient(0).unwrap();
    assert_eq!(tomato.name(), "Tomate");
    assert_eq!(tomato.cost_price(), figure(1, 2));
    assert_eq!(tomato.reference_quantity(), Ratio::from_int(100));
    assert_eq!(tomato.unit(), QuantityUnit::Gram);
    assert_eq!(tomato.ingredient_type(), IngredientType::VegetablesFruits);
    assert_eq!(tomato.supplier().name, "Fermes Fraîches");
    assert_eq!(tomato.supplier().contact, Some("contact@fermesfraîches.fr".to_string()));
    let cheese = catalog.ingredient(1).unwrap();
    assert_eq!(cheese.name(), "Fromage");
    assert_eq!(cheese.cost_price(), Ratio::from_int(1));
    assert_eq!(cheese.ingredient_type(), IngredientType::DairyEggsCheeseSauces);
    assert_eq!(cheese.supplier().name, "Laiterie Best");
    assert_eq!(cheese.supplier().contact, Some("info@laiteriebest.fr".to_string()));
    let flour = catalog.ingredient(2).unwrap();
    assert_eq!(flour.name(), "Farine");
    assert_eq!(flour.cost_price(), Ratio::from_int(2));
    assert_eq!(flour.reference_quantity(), Ratio::from_int(1));
    assert_eq!(flour.unit(), QuantityUnit::Kilogram);
    assert_eq!(flour.ingredient_type(), IngredientType::Grocery);
    assert_eq!(flour.supplier().name, "Fermes Fraîches");
}

#[test]
fn the_sample_plates_are_sauce_and_pizza() {
    let app = TemplateApp::default();
    let sauce = app.catalog().plate(0).unwrap();
    assert_eq!(sauce.name(), "Sauce Tomate");
    assert_eq!(sauce.selling_price(), Ratio::from_int(5));
    assert_eq!(sauce.batch_preparation_time_hours(), figure(1, 4));
    assert_eq!(sauce.batch_quantity(), Ratio::from_int(1500));
    assert_eq!(sauce.batch_unit(), QuantityUnit::Gram);
    assert_eq!(sauce.component_count(), 1);
    assert!(matches!(
        sauce.component(0).unwrap(),
        PlateComponent::Ingredient { ingredient: 0, unit: QuantityUnit::Gram, .. }
    ));
    assert_eq!(sauce.component(0).unwrap().quantity(), Ratio::from_int(1500));
    let pizza = app.catalog().plate(1).unwrap();
    assert_eq!(pizza.name(), "Pizza Margherita");
    assert_eq!(pizza.selling_price(), Ratio::from_int(12));
    assert_eq!(pizza.batch_preparation_time_hours(), figure(1, 2));
    assert_eq!(pizza.batch_quantity(), Ratio::from_int(1));
    assert_eq!(pizza.batch_unit(), QuantityUnit::Unit);
    assert_eq!(pizza.component_count(), 3);
    assert!(matches!(pizza.component(0).unwrap(), PlateComponent::Plate { plate: 0, .. }));
    assert_eq!(pizza.component(0).unwrap().quantity(), Ratio::from_int(150));
    assert!(matches!(
        pizza.component(1).unwrap(),
        PlateComponent::Ingredient { ingredient: 1, unit: QuantityUnit::Gram, .. }
    ));
    assert_eq!(pizza.component(1).unwrap().quantity(), Ratio::from_int(50));
    assert!(matches!(
        pizza.component(2).unwrap(),
        PlateComponent::Ingredient { ingredient: 2, unit: QuantityUnit::Gram, .. }
    ));
    assert_eq!(pizza.component(2).unwrap().quantity(), Ratio::from_int(200));
}

#[test]
fn the_sample_book_values_as_worked_by_hand() {
    let app = TemplateApp::default();
    let catalog = app.catalog();
    assert_eq!(catalog.ingredient_cost(0), Ok(figure(15, 2)));
    assert_eq!(catalog.batch_cost_per_unit(0), Ok(figure(1, 200)));
    assert_eq!(catalog.ingredient_cost(1), Ok(figure(33, 20)));
    assert_eq!(catalog.ingredient_cost(2), Err(ValuationError::UnknownPlate));
}

#[test]
fn the_forms_start_blank() {
    let app = TemplateApp::default();
    assert_eq!(app.ingredient_form().name, "");
    assert_eq!(app.ingredient_form().price, Ratio::zero());
    assert_eq!(app.ingredient_form().quantity, Ratio::from_int(100));
    assert_eq!(app.ingredient_form().unit, QuantityUnit::Gram);
    assert_eq!(app.ingredient_form().ingredient_type, IngredientType::Grocery);
    assert_eq!(app.recipe_form().name, "");
    assert_eq!(app.recipe_form().selling_price, Ratio::zero());
    assert_eq!(app.recipe_form().prep_time, figure(1, 2));
    assert_eq!(app.recipe_form().batch_quantity, Ratio::from_int(1));
    assert_eq!(app.recipe_form().batch_unit, QuantityUnit::Unit);
}

#[test]
fn units_are_offered_in_a_fixed_order() {
    assert_eq!(
        TemplateApp::get_unit_variants(),
        vec![
            QuantityUnit::Gram,
            QuantityUnit::Kilogram,
            QuantityUnit::Milligram,
            QuantityUnit::Liter,
            QuantityUnit::Milliliter,
            QuantityUnit::Centiliter,
            QuantityUnit::Deciliter,
            QuantityUnit::Unit,
            QuantityUnit::Piece,
            QuantityUnit::Slice,
            QuantityUnit::Teaspoon,
            QuantityUnit::Tablespoon,
            QuantityUnit::Cup,
        ]
    );
}

#[test]
fn a_recipe_without_a_name_is_not_entered() {
    let mut app = TemplateApp::default();
    app.set_show_add_recipe_form(true);
    edit_recipe(&mut app, |form| form.selling_price = Ratio::from_int(9));
    assert_eq!(app.create_new_recipe(), Ok(None));
    assert_eq!(app.catalog().plate_count(), 2);
    assert_eq!(app.plates(), &vec![0, 1]);
    assert!(app.show_add_recipe_form());
    assert_eq!(app.recipe_form().selling_price, Ratio::from_int(9));
}

#[test]
fn a_recipe_is_entered_listed_and_the_form_cleared() {
    let mut app = TemplateApp::default();
    app.set_show_add_recipe_form(true);
    edit_recipe(&mut app, |form| form.name = "Soupe".to_string());
    edit_recipe(&mut app, |form| form.selling_price = Ratio::from_int(9));
    edit_recipe(&mut app, |form| form.prep_time = figure(3, 4));
    edit_recipe(&mut app, |form| form.batch_quantity = Ratio::from_int(4));
    edit_recipe(&mut app, |form| form.batch_unit = QuantityUnit::Liter);
    assert_eq!(app.create_new_recipe(), Ok(Some(2)));
    assert_eq!(app.plates(), &vec![0, 1, 2]);
    assert_eq!(app.ingredients(), &vec![0, 1, 2]);
    let soup = app.catalog().plate(2).unwrap();
    assert_eq!(soup.name(), "Soupe");
    assert_eq!(soup.selling_price(), Ratio::from_int(9));
    assert_eq!(soup.batch_preparation_time_hours(), figure(3, 4));
    assert_eq!(soup.batch_quantity(), Ratio::from_int(4));
    assert_eq!(soup.batch_unit(), QuantityUnit::Liter);
    assert_eq!(soup.component_count(), 0);
    assert!(!app.show_add_recipe_form());
    assert_eq!(app.recipe_form().name, "");
    assert_eq!(app.recipe_form().selling_price, Ratio::zero());
    assert_eq!(app.recipe_form().prep_time, figure(1, 2));
    assert_eq!(app.recipe_form().batch_quantity, Ratio::from_int(1));
    assert_eq!(app.recipe_form().batch_unit, QuantityUnit::Unit);
}

#[test]
fn a_recipe_with_an_empty_batch_is_refused() {
    let mut app = TemplateApp::default();
    app.set_show_add_recipe_form(true);
    edit_recipe(&mut app, |form| form.name = "Rien".to_string());
    edit_recipe(&mut app, |form| form.batch_quantity = Ratio::zero());
    assert_eq!(app.create_new_recipe(), Err(EditError::NotPositive));
    assert_eq!(app.catalog().plate_count(), 2);
    assert_eq!(app.plates(), &vec![0, 1]);
    assert!(app.show_add_recipe_form());
    assert_eq!(app.recipe_form().name, "Rien");
}

#[test]
fn an_ingredient_without_a_name_is_not_entered() {
    let mut app = TemplateApp::default();
    edit_ingredient(&mut app, |form| form.price = Ratio::from_int(3));
    assert_eq!(app.add_new_ingredient(), Ok(None));
    assert_eq!(app.catalog().ingredient_count(), 3);
    assert_eq!(app.ingredient_form().price, Ratio::from_int(3));
}

#[test]
fn an_ingredient_is_entered_listed_and_the_form_cleared() {
    let mut app = TemplateApp::default();
    edit_ingredient(&mut app, |form| form.name = "Basilic".to_string());
    edit_ingredient(&mut app, |form| form.price = figure(3, 2));
    edit_ingredient(&mut app, |form| form.quantity = Ratio::from_int(30));
    edit_ingredient(&mut app, |form| form.unit = QuantityUnit::Piece);
    edit_ingredient(&mut app, |form| form.ingredient_type = IngredientType::VegetablesFruits);
    assert_eq!(app.add_new_ingredient(), Ok(Some(3)));
    assert_eq!(app.ingredients(), &vec![0, 1, 2, 3]);
    assert_eq!(app.plates(), &vec![0, 1]);
    let basil = app.catalog().ingredient(3).unwrap();
    assert_eq!(basil.name(), "Basilic");
    assert_eq!(basil.cost_price(), figure(3, 2));
    assert_eq!(basil.reference_quantity(), Ratio::from_int(30));
    assert_eq!(basil.unit(), QuantityUnit::Piece);
    assert_eq!(basil.ingredient_type(), IngredientType::VegetablesFruits);
    assert_eq!(basil.supplier().name, "Par Défaut");
    assert_eq!(basil.supplier().contact, None);
    assert_eq!(app.ingredient_form().name, "");
    assert_eq!(app.ingredient_form().price, Ratio::zero());
    assert_eq!(app.ingredient_form().quantity, Ratio::from_int(100));
    assert_eq!(app.ingredient_form().unit, QuantityUnit::Gram);
    assert_eq!(app.ingredient_form().ingredient_type, IngredientType::Grocery);
}

#[test]
fn an_ingredient_with_no_quantity_is_refused() {
    let mut app = TemplateApp::default();
    edit_ingredient(&mut app, |form| form.name = "Vide".to_string());
    edit_ingredient(&mut app, |form| form.quantity = Ratio::from_int(-100));
    assert_eq!(app.add_new_ingredient(), Err(EditError::NotPositive));
    assert_eq!(app.catalog().ingredient_count(), 3);
    assert_eq!(app.ingredients(), &vec![0, 1, 2]);
    assert_eq!(app.ingredient_form().name, "Vide");
}

#[test]
fn the_selected_ingredient_leaves_the_list_and_stays_in_the_plates() {
    let mut app = TemplateApp::default();
    app.set_selected_ingredient_idx(Some(0));
    app.remove_selected_ingredient();
    assert_eq!(app.ingredients(), &vec![1, 2]);
    assert_eq!(app.selected_ingredient_idx(), None);
    assert_eq!(app.catalog().ingredient_count(), 3);
    assert_eq!(app.catalog().ingredient_cost(0), Ok(figure(15, 2)));
    app.set_selected_ingredient_idx(Some(1));
    app.remove_selected_ingredient();
    assert_eq!(app.ingredients(), &vec![1]);
}

#[test]
fn a_selection_beyond_the_list_only_clears() {
    let mut app = TemplateApp::default();
    app.set_selected_ingredient_idx(Some(3));
    app.remove_selected_ingredient();
    assert_eq!(app.ingredients(), &vec![0, 1, 2]);
    assert_eq!(app.selected_ingredient_idx(), None);
    app.remove_selected_ingredient();
    assert_eq!(app.ingredients(), &vec![0, 1, 2]);
    app.set_selected_plate_idx(Some(2));
    app.remove_selected_plate();
    assert_eq!(app.plates(), &vec![0, 1]);
    assert_eq!(app.selected_plate_idx(), None);
    app.remove_selected_plate();
    assert_eq!(app.plates(), &vec![0, 1]);
}

#[test]
fn the_selected_plate_leaves_the_list_and_stays_in_the_plates() {
    let mut app = TemplateApp::default();
    app.set_selected_plate_idx(Some(0));
    app.remove_selected_plate();
    assert_eq!(app.plates(), &vec![1]);
    assert_eq!(app.selected_plate_idx(), None);
    assert_eq!(app.ingredients(), &vec![0, 1, 2]);
    assert_eq!(app.catalog().plate_count(), 2);
    assert_eq!(app.catalog().ingredient_cost(1), Ok(figure(33, 20)));
}

#[test]
fn an_ingredient_is_added_to_a_plate_by_the_hundred_grams() {
    let mut app = TemplateApp::default();
    assert_eq!(app.add_ingredient_to_plate(0, 1), Ok(()));
    let sauce = app.catalog().plate(0).unwrap();
    assert_eq!(sauce.component_count(), 2);
    assert!(matches!(
        sauce.component(1).unwrap(),
        PlateComponent::Ingredient { ingredient: 1, unit: QuantityUnit::Gram, .. }
    ));
    assert_eq!(sauce.component(1).unwrap().quantity(), Ratio::from_int(100));
    assert_eq!(app.catalog().ingredient_cost(0), Ok(figure(17, 2)));
    assert_eq!(app.add_ingredient_to_plate(2, 1), Err(EditError::UnknownPlate));
    assert_eq!(app.add_ingredient_to_plate(0, 3), Err(EditError::UnknownIngredient));
    assert_eq!(app.add_ingredient_to_plate(2, 3), Err(EditError::UnknownPlate));
    assert_eq!(app.catalog().plate(0).unwrap().component_count(), 2);
}

#[test]
fn edits_reach_the_catalog() {
    let mut app = TemplateApp::default();
    assert_eq!(app.set_cost_price(0, Ratio::from_int(1)), Ok(()));
    assert_eq!(app.catalog().ingredient_cost(0), Ok(Ratio::from_int(15)));
    assert_eq!(app.set_cost_price(3, Ratio::from_int(1)), Err(EditError::UnknownIngredient));
    assert_eq!(app.set_reference_quantity(0, Ratio::from_int(200)), Ok(()));
    assert_eq!(app.catalog().ingredient_cost(0), Ok(figure(15, 2)));
    assert_eq!(app.set_reference_quantity(0, Ratio::zero()), Err(EditError::NotPositive));
    assert_eq!(app.set_reference_quantity(5, Ratio::zero()), Err(EditError::UnknownIngredient));
    assert_eq!(app.set_selling_price(1, Ratio::from_int(14)), Ok(()));
    assert_eq!(app.catalog().plate(1).unwrap().selling_price(), Ratio::from_int(14));
    assert_eq!(app.set_selling_price(2, Ratio::from_int(14)), Err(EditError::UnknownPlate));
    assert_eq!(app.set_component_quantity(1, 0, Ratio::from_int(300)), Ok(()));
    assert_eq!(app.catalog().ingredient_cost(1), Ok(figure(12, 5)));
    assert_eq!(app.set_component_quantity(1, 0, Ratio::zero()), Err(EditError::NotPositive));
    assert_eq!(
        app.set_component_quantity(1, 3, Ratio::from_int(1)),
        Err(EditError::UnknownComponent)
    );
    assert_eq!(
        app.set_component_quantity(2, 0, Ratio::from_int(1)),
        Err(EditError::UnknownPlate)
    );
    assert_eq!(app.remove_components(1, &vec![0, 2]), Ok(()));
    assert_eq!(app.catalog().plate(1).unwrap().component_count(), 1);
    assert_eq!(app.catalog().ingredient_cost(1), Ok(figure(1, 2)));
    assert_eq!(app.remove_components(2, &vec![0]), Err(EditError::UnknownPlate));
    assert_eq!(app.ingredients(), &vec![0, 1, 2]);
    assert_eq!(app.plates(), &vec![0, 1]);
}

#[test]
fn the_sample_book_replaces_what_was_there() {
    let mut app = TemplateApp::default();
    edit_ingredient(&mut app, |form| form.name = "Sel".to_string());
    app.add_new_ingredient().unwrap();
    edit_recipe(&mut app, |form| form.name = "Soupe".to_string());
    app.create_new_recipe().unwrap();
    app.set_selected_plate_idx(Some(0));
    app.remove_selected_plate();
    app.set_cost_price(0, Ratio::from_int(7)).unwrap();
    edit_recipe(&mut app, |form| form.name = "Reste".to_string());
    app.set_selected_ingredient_idx(Some(1));
    app.initialize_sample_data();
    assert_eq!(app.ingredients(), &vec![0, 1, 2]);
    assert_eq!(app.plates(), &vec![0, 1]);
    assert_eq!(app.catalog().ingredient_count(), 3);
    assert_eq!(app.catalog().plate_count(), 2);
    assert_eq!(app.catalog().ingredient(0).unwrap().cost_price(), figure(1, 2));
    assert_eq!(app.catalog().ingredient_cost(1), Ok(figure(33, 20)));
    assert_eq!(app.recipe_form().name, "Reste");
    assert_eq!(app.selected_ingredient_idx(), Some(1));
}

#[test]
fn the_label_can_be_set() {
    let mut app = TemplateApp::default();
    app.set_label("Carnet".to_string());
    assert_eq!(app.label(), "Carnet");
    assert_eq!(app.plates(), &vec![0, 1]);
}

#[test]
fn refusals_are_reported_in_words() {
    assert_eq!(EditError::UnknownIngredient.label(), "ingrédient inconnu");
    assert_eq!(EditError::UnknownPlate.label(), "plat inconnu");
    assert_eq!(EditError::UnknownComponent.label(), "composant inconnu");
    assert_eq!(EditError::NotPositive.label(), "la quantité doit être positive");
    assert_eq!(ValuationError::UnknownPlate.label(), "plat inconnu");
    assert_eq!(ValuationError::CyclicReference.label(), "référence cyclique");
    assert_eq!(ValuationError::Overflow.label(), "hors limites");
}
