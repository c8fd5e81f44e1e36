//! Exact cost accounting for a kitchen: ingredients bought from suppliers,
//! plates (recipes) built from ingredients and from other plates, and the
//! figures derived from them: cost per unit, batch cost, labor cost, gross
//! margin and margin rate.
//!
//! Every amount is an exact rational number. A valuation either returns the
//! exact figure in lowest terms or says why it cannot: the plate is unknown,
//! the composition is cyclic, or a value on the way does not fit the number
//! type.

pub mod fraction;
pub mod ratio;
pub mod units;
pub mod model;
pub mod catalog;
pub mod soft_input;
pub mod composition;
pub mod valuation;
pub mod laws;
pub mod state;

pub use catalog::{Catalog, Ingredient, Plate, PlateComponent, Supplier};
pub use model::{EditError, IngredientType, ValuationError};
pub use ratio::Ratio;
pub use soft_input::{
    hide_soft_input, set_android_app, show_flags, show_soft_input, try_init_from_eframe,
    SoftInputError,
};
pub use state::{IngredientForm, RecipeForm, TemplateApp};
pub use units::{Dimension, QuantityUnit};
