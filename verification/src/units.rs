//! Units of measure and the conversions between them.

use vstd::prelude::*;
use crate::fraction::{
    lemma_fits_representable, lemma_reduced, lemma_same_reduced, lemma_same_transitive,
    lemma_times_same, Fraction,
};
use crate::ratio::Ratio;

verus! {

/// A unit in which a quantity is measured.
#[derive(Clone, Copy, Debug, PartialEq, Eq, Structural)]
pub enum QuantityUnit {
    Milligram,
    Gram,
    Kilogram,
    Milliliter,
    Centiliter,
    Deciliter,
    Liter,
    Unit,
    Piece,
    Slice,
    Teaspoon,
    Tablespoon,
    Cup,
}

/// What a unit measures. Units of mass convert among themselves, and so do
/// units of volume; a unit of count converts only to itself.
#[derive(Clone, Copy, Debug, PartialEq, Eq, Structural)]
pub enum Dimension {
    Mass,
    Volume,
    Count,
}

impl QuantityUnit {
    pub open spec fn dimension_of(self) -> Dimension {
        match self {
            QuantityUnit::Milligram | QuantityUnit::Gram | QuantityUnit::Kilogram => Dimension::Mass,
            QuantityUnit::Milliliter
            | QuantityUnit::Centiliter
            | QuantityUnit::Deciliter
            | QuantityUnit::Liter => Dimension::Volume,
            _ => Dimension::Count,
        }
    }

    /// The size of one of this unit, counted in the smallest unit of its
    /// dimension (milligrams, milliliters); `1` for a unit of count.
    pub open spec fn size(self) -> int {
        match self {
            QuantityUnit::Milligram => 1,
            QuantityUnit::Gram => 1_000,
            QuantityUnit::Kilogram => 1_000_000,
            QuantityUnit::Milliliter => 1,
            QuantityUnit::Centiliter => 10,
            QuantityUnit::Deciliter => 100,
            QuantityUnit::Liter => 1_000,
            _ => 1,
        }
    }

    /// A quantity in `self` can be expressed in `to`.
    pub open spec fn converts_to(self, to: QuantityUnit) -> bool {
        self == to || (self.dimension_of() == to.dimension_of() && self.dimension_of()
            != Dimension::Count)
    }

    /// The factor `f` with `quantity_in_to == quantity_in_self * f`, in
    /// lowest terms, where the two units convert.
    pub open spec fn factor_to(self, to: QuantityUnit) -> Option<Fraction> {
        if self.converts_to(to) {
            Some((Fraction { num: self.size(), den: to.size() }).reduced())
        } else {
            None
        }
    }

    /// The name under which a choice of units shows the unit.
    pub open spec fn label_text(self) -> Seq<char> {
        match self {
            QuantityUnit::Gram => "Gramme"@,
            QuantityUnit::Kilogram => "Kilogramme"@,
            QuantityUnit::Milligram => "Milligramme"@,
            QuantityUnit::Liter => "Litre"@,
            QuantityUnit::Milliliter => "Millilitre"@,
            QuantityUnit::Centiliter => "Centilitre"@,
            QuantityUnit::Deciliter => "Décilitre"@,
            QuantityUnit::Unit => "Unité"@,
            QuantityUnit::Piece => "Pièce"@,
            QuantityUnit::Slice => "Tranche"@,
            QuantityUnit::Teaspoon => "Cuillère à café"@,
            QuantityUnit::Tablespoon => "Cuillère à soupe"@,
            QuantityUnit::Cup => "Tasse"@,
        }
    }

    /// The name under which a choice of units shows the unit.
    pub fn label(&self) -> (text: &'static str)
        ensures
            text@ == self.label_text(),
    {
        match self {
            QuantityUnit::Gram => "Gramme",
            QuantityUnit::Kilogram => "Kilogramme",
            QuantityUnit::Milligram => "Milligramme",
            QuantityUnit::Liter => "Litre",
            QuantityUnit::Milliliter => "Millilitre",
            QuantityUnit::Centiliter => "Centilitre",
            QuantityUnit::Deciliter => "Décilitre",
            QuantityUnit::Unit => "Unité",
            QuantityUnit::Piece => "Pièce",
            QuantityUnit::Slice => "Tranche",
            QuantityUnit::Teaspoon => "Cuillère à café",
            QuantityUnit::Tablespoon => "Cuillère à soupe",
            QuantityUnit::Cup => "Tasse",
        }
    }

    pub fn dimension(&self) -> (d: Dimension)
        ensures
            d == self.dimension_of(),
    {
        match self {
            QuantityUnit::Milligram | QuantityUnit::Gram | QuantityUnit::Kilogram => Dimension::Mass,
            QuantityUnit::Milliliter
            | QuantityUnit::Centiliter
            | QuantityUnit::Deciliter
            | QuantityUnit::Liter => Dimension::Volume,
            _ => Dimension::Count,
        }
    }

    fn size_of(&self) -> (s: i64)
        ensures
            s == self.size(),
    {
        match self {
            QuantityUnit::Milligram => 1,
            QuantityUnit::Gram => 1_000,
            QuantityUnit::Kilogram => 1_000_000,
            QuantityUnit::Milliliter => 1,
            QuantityUnit::Centiliter => 10,
            QuantityUnit::Deciliter => 100,
            QuantityUnit::Liter => 1_000,
            _ => 1,
        }
    }

    /// The factor that turns a quantity in `self` into the same quantity in
    /// `to`, or `None` when the two units do not convert.
    pub fn conversion_factor_to(&self, to: &QuantityUnit) -> (r: Option<Ratio>)
        ensures
            match r {
                Some(f) => f.wf() && self.factor_to(*to) == Some(f@),
                None => self.factor_to(*to) is None,
            },
    {
        let same_unit = *self == *to;
        let d = self.dimension();
        if same_unit || (d == to.dimension() && d != Dimension::Count) {
            proof {
                lemma_fits_representable(Fraction { num: self.size(), den: to.size() });
            }
            Ratio::new(self.size_of(), to.size_of())
        } else {
            None
        }
    }
}

/// Conversion there and back is the identity: where `from` converts to `to`
/// with factor `f`, `to` converts to `from` with a factor `g`, and any amount
/// multiplied by `f` and then by `g` is the amount itself, as a number and,
/// step by step in lowest terms, as a value.
pub proof fn lemma_conversion_round_trip(from: QuantityUnit, to: QuantityUnit, x: Fraction)
    requires
        from.converts_to(to),
        x.proper(),
    ensures
        to.converts_to(from),
        x.times(from.factor_to(to)->0).times(to.factor_to(from)->0).same(x),
        x.times(from.factor_to(to)->0).reduced().times(to.factor_to(from)->0).reduced()
            == x.reduced(),
{
    let a = Fraction { num: from.size(), den: to.size() };
    let b = Fraction { num: to.size(), den: from.size() };
    let f = a.reduced();
    let g = b.reduced();
    let s = from.size();
    let t = to.size();
    lemma_reduced(a);
    lemma_reduced(b);
    // f * g denotes one
    lemma_times_same(f, a, g, b);
    assert(s * t == t * s) by (nonlinear_arith);
    assert(a.times(b).same(Fraction::one()));
    lemma_same_transitive(f.times(g), a.times(b), Fraction::one());
    // x * f * g denotes x
    let xf = x.times(f);
    lemma_times_same(x, x, f, f);
    let xn = x.num;
    let xd = x.den;
    let fn_ = f.num;
    let fd = f.den;
    let gn = g.num;
    let gd = g.den;
    assert(((xn * fn_) * gn) * xd == xn * ((xd * fd) * gd)) by (nonlinear_arith)
        requires
            fn_ * gn == fd * gd,
    ;
    assert(xf.times(g).same(x));
    // and so do the reduced steps
    lemma_reduced(xf);
    lemma_times_same(xf.reduced(), xf, g, g);
    lemma_same_transitive(xf.reduced().times(g), xf.times(g), x);
    lemma_same_reduced(xf.reduced().times(g), x);
}

} // verus!
