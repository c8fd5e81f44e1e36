use fnb_costing::{
    Catalog, IngredientType, PlateComponent, QuantityUnit, Ratio, Supplier, ValuationError,
};

fn amount(num: i64, den: i64) -> Ratio {
    Ratio::new(num, den).expect("an amount that fits")
}

fn nobody() -> Supplier {
    Supplier { name: "Nobody".to_string(), contact: None }
}

fn enter_ingredient(
    catalog: &mut Catalog,
    name: &str,
    price: Ratio,
    quantity: i64,
    unit: QuantityUnit,
) -> usize {
    catalog
        .add_ingredient(
            name.to_string(),
            price,
            Ratio::from_int(quantity),
            unit,
            IngredientType::Grocery,
            nobody(),
        )
        .expect("a positive reference quantity")
}

fn enter_plate(catalog: &mut Catalog, name: &str, price: i64, hours: Ratio, batch: i64) -> usize {
    catalog
        .add_plate(
            name.to_string(),
            Ratio::from_int(price),
            hours,
            Ratio::from_int(batch),
            QuantityUnit::Gram,
        )
        .expect("a positive batch quantity")
}

fn grams(ingredient: usize, quantity: i64) -> PlateComponent {
    PlateComponent::Ingredient {
        ingredient,
        quantity: Ratio::from_int(quantity),
        unit: QuantityUnit::Gram,
    }
}

fn portion(plate: usize, quantity: i64) -> PlateComponent {
    PlateComponent::Plate { plate, quantity: Ratio::from_int(quantity) }
}

/// Tomato at 0.5 per 100 g, cheese at 1 per 100 g, flour at 2 per kg; a
/// sauce of 1500 g of tomato that yields 1500 g; a pizza of 150 g of sauce,
/// 50 g of cheese and 200 g of flour.
fn kitchen() -> (Catalog, usize, usize) {
    let mut catalog = Catalog::new();
    let tomato = enter_ingredient(&mut catalog, "Tomato", amount(1, 2), 100, QuantityUnit::Gram);
    let cheese = enter_ingredient(&mut catalog, "Cheese", amount(1, 1), 100, QuantityUnit::Gram);
    let flour = enter_ingredient(&mut catalog, "Flour", amount(2, 1), 1, QuantityUnit::Kilogram);
    let sauce = enter_plate(&mut catalog, "Sauce", 5, amount(1, 4), 1500);
    let pizza = enter_plate(&mut catalog, "Pizza", 12, amount(1, 2), 1);
    catalog.add_component(sauce, grams(tomato, 1500)).unwrap();
    catalog.add_component(pizza, portion(sauce, 150)).unwrap();
    catalog.add_component(pizza, grams(cheese, 50)).unwrap();
    catalog.add_component(pizza, grams(flour, 200)).unwrap();
    (catalog, sauce, pizza)
}

#[test]
fn cost_per_unit_of_an_ingredient_by_the_hundred_grams() {
    let (catalog, _, _) = kitchen();
    let tomato = catalog.ingredient(0).unwrap();
    assert_eq!(tomato.cost_per_unit(&QuantityUnit::Gram), Ok(amount(1, 200)));
    assert_eq!(tomato.cost_per_unit(&QuantityUnit::Kilogram), Ok(Ratio::from_int(5)));
    assert_eq!(tomato.cost_per_unit(&QuantityUnit::Milligram), Ok(amount(1, 200_000)));
}

#[test]
fn cost_per_unit_of_an_ingredient_by_the_kilogram() {
    let (catalog, _, _) = kitchen();
    let flour = catalog.ingredient(2).unwrap();
    assert_eq!(flour.cost_per_unit(&QuantityUnit::Kilogram), Ok(Ratio::from_int(2)));
    assert_eq!(flour.cost_per_unit(&QuantityUnit::Gram), Ok(amount(1, 500)));
}

#[test]
fn cost_per_unit_falls_back_to_the_base_cost() {
    let (catalog, _, _) = kitchen();
    let tomato = catalog.ingredient(0).unwrap();
    assert_eq!(tomato.cost_per_unit(&QuantityUnit::Teaspoon), Ok(amount(1, 200)));
    assert_eq!(tomato.cost_per_unit(&QuantityUnit::Liter), Ok(amount(1, 200)));
    assert_eq!(tomato.cost_per_unit(&QuantityUnit::Piece), Ok(amount(1, 200)));
}

#[test]
fn cost_per_unit_that_does_not_fit() {
    let mut catalog = Catalog::new();
    let dear = enter_ingredient(
        &mut catalog,
        "Dear",
        Ratio::from_int(i64::MAX),
        1,
        QuantityUnit::Gram,
    );
    let item = catalog.ingredient(dear).unwrap();
    assert_eq!(item.cost_per_unit(&QuantityUnit::Gram), Ok(Ratio::from_int(i64::MAX)));
    assert_eq!(item.cost_per_unit(&QuantityUnit::Kilogram), Err(ValuationError::Overflow));
    let fine = catalog
        .add_ingredient(
            "Fine".to_string(),
            amount(1, i64::MAX),
            Ratio::from_int(2),
            QuantityUnit::Gram,
            IngredientType::Grocery,
            nobody(),
        )
        .unwrap();
    let item = catalog.ingredient(fine).unwrap();
    assert_eq!(item.cost_per_unit(&QuantityUnit::Gram), Err(ValuationError::Overflow));
    assert_eq!(item.cost_per_unit(&QuantityUnit::Teaspoon), Err(ValuationError::Overflow));
}

#[test]
fn cost_per_gram_as_the_composition_shows_it() {
    let (mut catalog, _, _) = kitchen();
    assert_eq!(catalog.ingredient(0).unwrap().cost_per_gram(), Ok(amount(1, 200)));
    assert_eq!(catalog.ingredient(2).unwrap().cost_per_gram(), Ok(amount(1, 500)));
    let saffron =
        enter_ingredient(&mut catalog, "Saffron", amount(3, 1), 2, QuantityUnit::Milligram);
    assert_eq!(catalog.ingredient(saffron).unwrap().cost_per_gram(), Ok(Ratio::from_int(1500)));
    assert_eq!(
        catalog.ingredient(saffron).unwrap().cost_per_gram(),
        catalog.ingredient(saffron).unwrap().cost_per_unit(&QuantityUnit::Gram)
    );
    let pepper =
        enter_ingredient(&mut catalog, "Pepper", amount(1, 1), 1000, QuantityUnit::Milligram);
    assert_eq!(catalog.ingredient(pepper).unwrap().cost_per_gram(), Ok(Ratio::one()));
    let milk = enter_ingredient(&mut catalog, "Milk", amount(3, 1), 2, QuantityUnit::Liter);
    assert_eq!(catalog.ingredient(milk).unwrap().cost_per_gram(), Ok(amount(3, 2)));
    let eggs = enter_ingredient(&mut catalog, "Eggs", amount(3, 1), 12, QuantityUnit::Piece);
    assert_eq!(catalog.ingredient(eggs).unwrap().cost_per_gram(), Ok(amount(1, 4)));
}

#[test]
fn cost_per_gram_that_does_not_fit() {
    let mut catalog = Catalog::new();
    let bulk = enter_ingredient(
        &mut catalog,
        "Bulk",
        Ratio::from_int(1),
        i64::MAX,
        QuantityUnit::Kilogram,
    );
    assert_eq!(
        catalog.ingredient(bulk).unwrap().cost_per_gram(),
        Err(ValuationError::Overflow)
    );
}

#[test]
fn flat_plate_rolls_up_its_ingredient() {
    let (catalog, sauce, _) = kitchen();
    assert_eq!(catalog.ingredient_cost(sauce), Ok(amount(15, 2)));
}

#[test]
fn batch_cost_per_unit_divides_by_the_batch() {
    let (catalog, sauce, pizza) = kitchen();
    assert_eq!(catalog.batch_cost_per_unit(sauce), Ok(amount(1, 200)));
    assert_eq!(catalog.batch_cost_per_unit(pizza), Ok(amount(33, 20)));
}

#[test]
fn nested_plate_rolls_up_its_sub_plate() {
    let (catalog, sauce, pizza) = kitchen();
    let each = catalog.batch_cost_per_unit(sauce).unwrap();
    let from_sauce = Ratio::from_int(150).checked_mul(&each).unwrap();
    assert_eq!(from_sauce, amount(3, 4));
    let from_cheese = amount(1, 2);
    let from_flour = amount(2, 5);
    let sum = from_sauce.checked_add(&from_cheese).unwrap().checked_add(&from_flour).unwrap();
    assert_eq!(sum, amount(33, 20));
    assert_eq!(catalog.ingredient_cost(pizza), Ok(sum));
}

#[test]
fn sub_plate_alone_contributes_quantity_times_batch_cost_per_unit() {
    let (mut catalog, sauce, _) = kitchen();
    let dish = enter_plate(&mut catalog, "Dish", 3, amount(1, 10), 2);
    catalog.add_component(dish, portion(sauce, 150)).unwrap();
    assert_eq!(catalog.ingredient_cost(dish), Ok(amount(3, 4)));
    assert_eq!(catalog.batch_cost_per_unit(dish), Ok(amount(3, 8)));
}

#[test]
fn a_plate_without_components_costs_nothing() {
    let mut catalog = Catalog::new();
    let empty = enter_plate(&mut catalog, "Empty", 4, amount(1, 2), 3);
    assert_eq!(catalog.ingredient_cost(empty), Ok(Ratio::zero()));
    assert_eq!(catalog.batch_cost_per_unit(empty), Ok(Ratio::zero()));
    assert_eq!(catalog.total_cost_price(empty, &Ratio::from_int(20)), Ok(Ratio::from_int(10)));
}

#[test]
fn component_in_another_unit_is_converted() {
    let mut catalog = Catalog::new();
    let flour = enter_ingredient(&mut catalog, "Flour", amount(2, 1), 1, QuantityUnit::Kilogram);
    let dough = enter_plate(&mut catalog, "Dough", 1, amount(1, 2), 1);
    catalog.add_component(dough, grams(flour, 200)).unwrap();
    assert_eq!(catalog.ingredient_cost(dough), Ok(amount(2, 5)));
    catalog
        .add_component(
            dough,
            PlateComponent::Ingredient {
                ingredient: flour,
                quantity: amount(1, 2),
                unit: QuantityUnit::Kilogram,
            },
        )
        .unwrap();
    assert_eq!(catalog.ingredient_cost(dough), Ok(amount(7, 5)));
}

#[test]
fn component_in_a_unit_that_does_not_convert_counts_as_the_own_unit() {
    let mut catalog = Catalog::new();
    let tomato = enter_ingredient(&mut catalog, "Tomato", amount(1, 2), 100, QuantityUnit::Gram);
    let salad = enter_plate(&mut catalog, "Salad", 1, amount(1, 2), 1);
    catalog
        .add_component(
            salad,
            PlateComponent::Ingredient {
                ingredient: tomato,
                quantity: Ratio::from_int(3),
                unit: QuantityUnit::Piece,
            },
        )
        .unwrap();
    assert_eq!(catalog.ingredient_cost(salad), Ok(amount(3, 200)));
}

#[test]
fn labor_cost_is_rate_times_hours_for_the_batch() {
    let (catalog, sauce, pizza) = kitchen();
    let rate = Ratio::from_int(20);
    assert_eq!(catalog.labor_cost(sauce, &rate), Ok(Ratio::from_int(5)));
    assert_eq!(catalog.labor_cost(pizza, &rate), Ok(Ratio::from_int(10)));
    assert_eq!(catalog.labor_cost(pizza, &Ratio::zero()), Ok(Ratio::zero()));
    assert_eq!(catalog.labor_cost(pizza, &amount(25, 2)), Ok(amount(25, 4)));
}

#[test]
fn total_cost_price_adds_ingredients_and_labor() {
    let (catalog, sauce, pizza) = kitchen();
    let rate = Ratio::from_int(20);
    assert_eq!(catalog.total_cost_price(sauce, &rate), Ok(amount(25, 2)));
    assert_eq!(catalog.total_cost_price(pizza, &rate), Ok(amount(233, 20)));
}

#[test]
fn gross_margin_is_price_less_total_cost() {
    let (catalog, sauce, pizza) = kitchen();
    let rate = Ratio::from_int(20);
    assert_eq!(catalog.gross_margin(sauce, &rate), Ok(amount(-15, 2)));
    assert_eq!(catalog.gross_margin(pizza, &rate), Ok(amount(7, 20)));
}

#[test]
fn margin_rate_is_margin_over_price() {
    let (catalog, sauce, pizza) = kitchen();
    let rate = Ratio::from_int(20);
    assert_eq!(catalog.margin_rate(sauce, &rate), Ok(amount(-3, 2)));
    assert_eq!(catalog.margin_rate(pizza, &rate), Ok(amount(7, 240)));
    assert_eq!(catalog.margin_rate(pizza, &Ratio::zero()), Ok(amount(69, 80)));
}

#[test]
fn margin_rate_of_a_plate_that_sells_for_nothing_is_zero() {
    let (mut catalog, sauce, _) = kitchen();
    catalog.set_selling_price(sauce, Ratio::zero()).unwrap();
    assert_eq!(catalog.margin_rate(sauce, &Ratio::from_int(20)), Ok(Ratio::zero()));
    assert_eq!(catalog.gross_margin(sauce, &Ratio::from_int(20)), Ok(amount(-25, 2)));
}

#[test]
fn margin_rate_of_a_free_plate_is_zero_whatever_it_is_made_of() {
    let mut catalog = Catalog::new();
    let free = enter_plate(&mut catalog, "Free", 0, amount(1, 2), 1);
    catalog.add_component(free, portion(free, 1)).unwrap();
    assert_eq!(catalog.margin_rate(free, &Ratio::from_int(20)), Ok(Ratio::zero()));
    assert_eq!(
        catalog.gross_margin(free, &Ratio::from_int(20)),
        Err(ValuationError::CyclicReference)
    );
}

#[test]
fn margin_rate_with_a_negative_price() {
    let mut catalog = Catalog::new();
    let odd = catalog
        .add_plate(
            "Odd".to_string(),
            Ratio::from_int(-4),
            amount(1, 2),
            Ratio::from_int(1),
            QuantityUnit::Unit,
        )
        .unwrap();
    assert_eq!(catalog.gross_margin(odd, &Ratio::from_int(2)), Ok(Ratio::from_int(-5)));
    assert_eq!(catalog.margin_rate(odd, &Ratio::from_int(2)), Ok(amount(5, 4)));
}

#[test]
fn unknown_plate_is_reported() {
    let (catalog, _, pizza) = kitchen();
    let rate = Ratio::from_int(20);
    let beyond = pizza + 1;
    assert_eq!(catalog.ingredient_cost(beyond), Err(ValuationError::UnknownPlate));
    assert_eq!(catalog.batch_cost_per_unit(beyond), Err(ValuationError::UnknownPlate));
    assert_eq!(catalog.labor_cost(beyond, &rate), Err(ValuationError::UnknownPlate));
    assert_eq!(catalog.total_cost_price(beyond, &rate), Err(ValuationError::UnknownPlate));
    assert_eq!(catalog.gross_margin(beyond, &rate), Err(ValuationError::UnknownPlate));
    assert_eq!(catalog.margin_rate(beyond, &rate), Err(ValuationError::UnknownPlate));
    assert_eq!(Catalog::new().ingredient_cost(0), Err(ValuationError::UnknownPlate));
}

#[test]
fn plate_made_of_itself_is_cyclic() {
    let (mut catalog, sauce, _) = kitchen();
    catalog.add_component(sauce, portion(sauce, 10)).unwrap();
    let rate = Ratio::from_int(20);
    assert_eq!(catalog.ingredient_cost(sauce), Err(ValuationError::CyclicReference));
    assert_eq!(catalog.batch_cost_per_unit(sauce), Err(ValuationError::CyclicReference));
    assert_eq!(catalog.total_cost_price(sauce, &rate), Err(ValuationError::CyclicReference));
    assert_eq!(catalog.gross_margin(sauce, &rate), Err(ValuationError::CyclicReference));
    assert_eq!(catalog.margin_rate(sauce, &rate), Err(ValuationError::CyclicReference));
}

#[test]
fn plate_made_of_a_cyclic_plate_is_cyclic() {
    let (mut catalog, sauce, pizza) = kitchen();
    catalog.add_component(sauce, portion(sauce, 10)).unwrap();
    assert_eq!(catalog.ingredient_cost(pizza), Err(ValuationError::CyclicReference));
}

#[test]
fn two_plates_made_of_each_other_are_cyclic() {
    let (mut catalog, sauce, pizza) = kitchen();
    catalog.add_component(sauce, portion(pizza, 1)).unwrap();
    assert_eq!(catalog.ingredient_cost(sauce), Err(ValuationError::CyclicReference));
    assert_eq!(catalog.ingredient_cost(pizza), Err(ValuationError::CyclicReference));
}

#[test]
fn a_long_circle_is_found() {
    let mut catalog = Catalog::new();
    let mut ids = Vec::new();
    for i in 0..12 {
        ids.push(enter_plate(&mut catalog, &format!("Ring {}", i), 1, amount(1, 2), 1));
    }
    for i in 0..12 {
        catalog.add_component(ids[i], portion(ids[(i + 1) % 12], 1)).unwrap();
    }
    for i in 0..12 {
        assert_eq!(catalog.ingredient_cost(ids[i]), Err(ValuationError::CyclicReference));
    }
}

#[test]
fn labor_cost_does_not_follow_the_composition() {
    let (mut catalog, sauce, _) = kitchen();
    catalog.add_component(sauce, portion(sauce, 10)).unwrap();
    assert_eq!(catalog.labor_cost(sauce, &Ratio::from_int(20)), Ok(Ratio::from_int(5)));
}

#[test]
fn a_plate_beside_a_circle_is_valued() {
    let (mut catalog, sauce, _) = kitchen();
    let ring = enter_plate(&mut catalog, "Ring", 1, amount(1, 2), 1);
    catalog.add_component(ring, portion(ring, 1)).unwrap();
    assert_eq!(catalog.ingredient_cost(sauce), Ok(amount(15, 2)));
}

#[test]
fn a_sub_plate_used_twice_is_no_circle() {
    let (mut catalog, sauce, pizza) = kitchen();
    catalog.add_component(pizza, portion(sauce, 50)).unwrap();
    assert_eq!(catalog.ingredient_cost(pizza), Ok(amount(19, 10)));
    let menu = enter_plate(&mut catalog, "Menu", 30, amount(1, 1), 1);
    catalog.add_component(menu, portion(pizza, 2)).unwrap();
    catalog.add_component(menu, portion(sauce, 100)).unwrap();
    assert_eq!(catalog.ingredient_cost(menu), Ok(amount(43, 10)));
}

#[test]
fn a_circle_is_reported_before_an_overflow() {
    let mut catalog = Catalog::new();
    let dear =
        enter_ingredient(&mut catalog, "Dear", Ratio::from_int(i64::MAX), 1, QuantityUnit::Gram);
    let first = enter_plate(&mut catalog, "First", 1, amount(1, 2), 1);
    let second = enter_plate(&mut catalog, "Second", 1, amount(1, 2), 1);
    catalog.add_component(first, grams(dear, 2)).unwrap();
    assert_eq!(catalog.ingredient_cost(first), Err(ValuationError::Overflow));
    catalog.add_component(first, portion(second, 1)).unwrap();
    assert_eq!(catalog.ingredient_cost(first), Err(ValuationError::Overflow));
    catalog.add_component(second, portion(first, 1)).unwrap();
    assert_eq!(catalog.ingredient_cost(first), Err(ValuationError::CyclicReference));
    assert_eq!(catalog.ingredient_cost(second), Err(ValuationError::CyclicReference));
}

#[test]
fn a_sum_that_does_not_fit_is_an_overflow() {
    let mut catalog = Catalog::new();
    let dear =
        enter_ingredient(&mut catalog, "Dear", Ratio::from_int(i64::MAX), 1, QuantityUnit::Gram);
    let plate = enter_plate(&mut catalog, "Plate", 1, amount(1, 2), 1);
    catalog.add_component(plate, grams(dear, 1)).unwrap();
    assert_eq!(catalog.ingredient_cost(plate), Ok(Ratio::from_int(i64::MAX)));
    catalog.add_component(plate, grams(dear, 1)).unwrap();
    assert_eq!(catalog.ingredient_cost(plate), Err(ValuationError::Overflow));
    assert_eq!(catalog.batch_cost_per_unit(plate), Err(ValuationError::Overflow));
    assert_eq!(
        catalog.total_cost_price(plate, &Ratio::from_int(1)),
        Err(ValuationError::Overflow)
    );
}

#[test]
fn a_total_that_does_not_fit_is_an_overflow() {
    let mut catalog = Catalog::new();
    let dear =
        enter_ingredient(&mut catalog, "Dear", Ratio::from_int(i64::MAX), 1, QuantityUnit::Gram);
    let plate = enter_plate(&mut catalog, "Plate", 1, amount(1, 2), 1);
    catalog.add_component(plate, grams(dear, 1)).unwrap();
    assert_eq!(catalog.total_cost_price(plate, &Ratio::zero()), Ok(Ratio::from_int(i64::MAX)));
    assert_eq!(
        catalog.total_cost_price(plate, &Ratio::from_int(2)),
        Err(ValuationError::Overflow)
    );
    assert_eq!(catalog.labor_cost(plate, &Ratio::from_int(i64::MAX)), Ok(amount(i64::MAX, 2)));
    assert_eq!(catalog.labor_cost(plate, &amount(i64::MAX, 3)), Ok(amount(i64::MAX, 6)));
    let slow = enter_plate(&mut catalog, "Slow", 1, Ratio::from_int(3), 1);
    assert_eq!(
        catalog.labor_cost(slow, &Ratio::from_int(i64::MAX)),
        Err(ValuationError::Overflow)
    );
    assert_eq!(
        catalog.total_cost_price(slow, &Ratio::from_int(i64::MAX)),
        Err(ValuationError::Overflow)
    );
}

#[test]
fn deep_compositions_are_followed() {
    let mut catalog = Catalog::new();
    let salt = enter_ingredient(&mut catalog, "Salt", amount(1, 1), 1, QuantityUnit::Gram);
    let mut below = enter_plate(&mut catalog, "Level 0", 1, amount(1, 2), 2);
    catalog.add_component(below, grams(salt, 3)).unwrap();
    for level in 1..60 {
        let plate = enter_plate(&mut catalog, &format!("Level {}", level), 1, amount(1, 2), 2);
        catalog.add_component(plate, portion(below, 2)).unwrap();
        below = plate;
    }
    assert_eq!(catalog.ingredient_cost(below), Ok(Ratio::from_int(3)));
    assert_eq!(catalog.batch_cost_per_unit(below), Ok(amount(3, 2)));
}

#[test]
fn asking_twice_gives_the_same_answer() {
    let (mut catalog, sauce, pizza) = kitchen();
    let rate = Ratio::from_int(20);
    assert_eq!(catalog.total_cost_price(pizza, &rate), catalog.total_cost_price(pizza, &rate));
    assert_eq!(catalog.total_cost_price(sauce, &rate), catalog.total_cost_price(sauce, &rate));
    assert_eq!(catalog.margin_rate(pizza, &rate), catalog.margin_rate(pizza, &rate));
    catalog.add_component(sauce, portion(pizza, 1)).unwrap();
    assert_eq!(catalog.total_cost_price(pizza, &rate), catalog.total_cost_price(pizza, &rate));
    assert_eq!(
        catalog.total_cost_price(pizza, &rate),
        Err(ValuationError::CyclicReference)
    );
}

#[test]
fn a_new_price_shows_in_every_plate_that_uses_the_ingredient() {
    let (mut catalog, sauce, pizza) = kitchen();
    catalog.set_cost_price(0, Ratio::from_int(1)).unwrap();
    assert_eq!(catalog.ingredient_cost(sauce), Ok(Ratio::from_int(15)));
    assert_eq!(catalog.ingredient_cost(pizza), Ok(amount(12, 5)));
    catalog.set_reference_quantity(0, Ratio::from_int(50)).unwrap();
    assert_eq!(catalog.ingredient_cost(sauce), Ok(Ratio::from_int(30)));
}

#[test]
fn a_changed_quantity_moves_the_cost_by_the_change_times_the_unit_cost() {
    let (mut catalog, sauce, pizza) = kitchen();
    let before = catalog.ingredient_cost(pizza).unwrap();
    let each = catalog.batch_cost_per_unit(sauce).unwrap();
    catalog.set_component_quantity(pizza, 0, Ratio::from_int(400)).unwrap();
    let change = Ratio::from_int(400).checked_sub(&Ratio::from_int(150)).unwrap();
    let moved = before.checked_add(&change.checked_mul(&each).unwrap()).unwrap();
    assert_eq!(moved, amount(29, 10));
    assert_eq!(catalog.ingredient_cost(pizza), Ok(moved));
    assert_eq!(catalog.batch_cost_per_unit(sauce), Ok(each));

    let cheese_each = catalog.ingredient(1).unwrap().cost_per_unit(&QuantityUnit::Gram).unwrap();
    catalog.set_component_quantity(pizza, 1, Ratio::from_int(20)).unwrap();
    let change = Ratio::from_int(20).checked_sub(&Ratio::from_int(50)).unwrap();
    let again = moved.checked_add(&change.checked_mul(&cheese_each).unwrap()).unwrap();
    assert_eq!(again, amount(13, 5));
    assert_eq!(catalog.ingredient_cost(pizza), Ok(again));
}
