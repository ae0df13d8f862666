//! The enum generator: from a symbol table to the description of a closed
//! enumeration with its two conversions, value to variant and variant to value.

use crate::table::{names_distinct, values_collide, Entries, Symbol, SymbolTable};
use vstd::prelude::*;

verus! {

/// How the variants of a generated enumeration carry their values.
#[derive(Clone, Copy, Debug, PartialEq, Eq, Structural)]
pub enum Strategy {
    /// Each variant's discriminant is its value.
    Dense,
    /// Discriminants carry no meaning; both conversions go through explicit tables.
    Sparse,
}

/// The strategy that a duplicate flag selects.
pub open spec fn strategy_for(has_duplicates: bool) -> Strategy {
    if has_duplicates {
        Strategy::Sparse
    } else {
        Strategy::Dense
    }
}

/// What a generated enumeration is: its name, its variants in declaration
/// order with the value of each, and its strategy.
pub struct EnumModel {
    pub name: Seq<char>,
    pub variants: Entries,
    pub strategy: Strategy,
}

impl EnumModel {
    /// Variant names are distinct, and a dense enumeration has no two
    /// variants with one value.
    pub open spec fn wf(self) -> bool {
        &&& names_distinct(self.variants)
        &&& self.strategy == Strategy::Dense ==> !values_collide(self.variants)
    }

    /// The explicit discriminant of a variant, where it has one.
    pub open spec fn discriminant(self, variant: int) -> Option<usize> {
        match self.strategy {
            Strategy::Dense => Some(self.variants[variant].1),
            Strategy::Sparse => None,
        }
    }

    /// The variant-to-integer conversion.
    pub open spec fn value_of(self, variant: int) -> usize {
        self.variants[variant].1
    }

    /// Whether some variant carries `value`.
    pub open spec fn has_value(self, value: usize) -> bool {
        exists|i: int| 0 <= i < self.variants.len() && (#[trigger] self.variants[i]).1 == value
    }

    /// `variant` is the first variant, in declaration order, that carries `value`.
    pub open spec fn is_first_with(self, value: usize, variant: int) -> bool {
        &&& 0 <= variant < self.variants.len()
        &&& self.variants[variant].1 == value
        &&& forall|j: int| 0 <= j < variant ==> (#[trigger] self.variants[j]).1 != value
    }

    /// The integer-to-variant conversion: the first variant that carries
    /// `value`, or nothing where no variant does.
    pub open spec fn variant_of(self, value: usize) -> Option<int> {
        if self.has_value(value) {
            Some(choose|i: int| self.is_first_with(value, i))
        } else {
            None
        }
    }

    /// A value that some variant carries has exactly one first variant.
    pub proof fn lemma_first_with(self, value: usize)
        requires
            self.has_value(value),
        ensures
            self.variant_of(value) is Some,
            self.is_first_with(value, self.variant_of(value)->0),
            forall|i: int| self.is_first_with(value, i) ==> self.variant_of(value) == Some(i),
    {
        let witness = choose|i: int|
            0 <= i < self.variants.len() && (#[trigger] self.variants[i]).1 == value;
        self.lemma_first_below(value, witness);
        let first = choose|i: int| self.is_first_with(value, i);
        assert forall|i: int| self.is_first_with(value, i) implies i == first by {
            if i < first {
                assert(self.variants[i].1 != value);
            } else if first < i {
                assert(self.variants[first].1 != value);
            }
        }
    }

    proof fn lemma_first_below(self, value: usize, bound: int)
        requires
            0 <= bound < self.variants.len(),
            self.variants[bound].1 == value,
        ensures
            exists|i: int| self.is_first_with(value, i),
        decreases bound,
    {
        if exists|j: int| 0 <= j < bound && (#[trigger] self.variants[j]).1 == value {
            let j = choose|j: int| 0 <= j < bound && (#[trigger] self.variants[j]).1 == value;
            self.lemma_first_below(value, j);
        } else {
            assert(self.is_first_with(value, bound));
        }
    }
}

/// A generated enumeration.
#[derive(Debug)]
pub struct GeneratedEnum {
    name: String,
    variants: Vec<Symbol>,
    strategy: Strategy,
}

impl View for GeneratedEnum {
    type V = EnumModel;

    closed spec fn view(&self) -> EnumModel {
        EnumModel {
            name: self.name@,
            variants: self.variants@.map_values(|s: Symbol| s@),
            strategy: self.strategy,
        }
    }
}

impl GeneratedEnum {
    /// The enumeration is well formed.
    pub open spec fn wf(&self) -> bool {
        self@.wf()
    }

    /// The name of the enumeration type.
    pub fn name(&self) -> (name: &String)
        ensures
            name@ == self@.name,
    {
        &self.name
    }

    /// The strategy that was chosen for the enumeration.
    pub fn strategy(&self) -> (strategy: Strategy)
        ensures
            strategy == self@.strategy,
    {
        self.strategy
    }

    /// The number of variants.
    pub fn variant_count(&self) -> (n: usize)
        ensures
            n == self@.variants.len(),
    {
        self.variants.len()
    }

    /// The variant at `variant`, in declaration order: its identifier and its value.
    pub fn variant(&self, variant: usize) -> (symbol: &Symbol)
        requires
            variant < self@.variants.len(),
        ensures
            symbol@ == self@.variants[variant as int],
    {
        &self.variants[variant]
    }

    /// The explicit discriminant that the declaration gives to a variant:
    /// its value in a dense enumeration, none in a sparse one.
    pub fn discriminant(&self, variant: usize) -> (d: Option<usize>)
        requires
            variant < self@.variants.len(),
        ensures
            d == self@.discriminant(variant as int),
    {
        match self.strategy {
            Strategy::Dense => Some(self.variants[variant].value),
            Strategy::Sparse => None,
        }
    }

    /// The variant-to-integer conversion. It never fails.
    pub fn value_of(&self, variant: usize) -> (value: usize)
        requires
            variant < self@.variants.len(),
        ensures
            value == self@.value_of(variant as int),
    {
        self.variants[variant].value
    }

    /// The integer-to-variant conversion: the first variant that carries
    /// `value`, or `None` where no variant does.
    pub fn variant_of(&self, value: usize) -> (variant: Option<usize>)
        ensures
            match variant {
                Some(i) => self@.variant_of(value) == Some(i as int),
                None => self@.variant_of(value) is None,
            },
    {
        let mut i: usize = 0;
        while i < self.variants.len()
            invariant
                i <= self.variants.len(),
                forall|j: int| 0 <= j < i ==> (#[trigger] self@.variants[j]).1 != value,
            decreases self.variants.len() - i,
        {
            if self.variants[i].value == value {
                proof {
                    assert(self@.variants[i as int].1 == value);
                    assert(self@.is_first_with(value, i as int));
                    self@.lemma_first_with(value);
                }
                return Some(i);
            }
            i += 1;
        }
        None
    }
}

/// Describes the enumeration for a symbol table: one variant per entry, in
/// table order, dense unless `has_duplicates` is set.
pub fn generate(table: &SymbolTable, has_duplicates: bool, enum_name: &str) -> (generated:
    GeneratedEnum)
    requires
        table.wf(),
        !has_duplicates ==> !values_collide(table.entries()),
    ensures
        generated.wf(),
        generated@.name == enum_name@,
        generated@.variants == table.entries(),
        generated@.strategy == strategy_for(has_duplicates),
{
    let mut variants: Vec<Symbol> = Vec::new();
    let mut i: usize = 0;
    while i < table.len()
        invariant
            i <= table.entries().len(),
            variants@.map_values(|s: Symbol| s@) == table.entries().take(i as int),
        decreases table.entries().len() - i,
    {
        let symbol = table.symbol(i);
        let ghost before = variants@.map_values(|s: Symbol| s@);
        variants.push(Symbol { name: symbol.name.clone(), value: symbol.value });
        assert(variants@.map_values(|s: Symbol| s@) =~= before.push(symbol@));
        assert(table.entries().take(i + 1) =~= table.entries().take(i as int).push(symbol@));
        i += 1;
    }
    assert(table.entries().take(i as int) =~= table.entries());
    let strategy = if has_duplicates {
        Strategy::Sparse
    } else {
        Strategy::Dense
    };
    GeneratedEnum { name: enum_name.to_owned(), variants, strategy }
}

/// In an enumeration whose values do not collide, converting a variant to
/// its integer and back gives the same variant.
pub proof fn lemma_round_trip(model: EnumModel, variant: int)
    requires
        !values_collide(model.variants),
        0 <= variant < model.variants.len(),
    ensures
        model.variant_of(model.value_of(variant)) == Some(variant),
{
    crate::table::lemma_values_collide(model.variants);
    let value = model.value_of(variant);
    assert(model.variants[variant].1 == value);
    assert forall|j: int| 0 <= j < variant implies (#[trigger] model.variants[j]).1 != value by {
        if model.variants[j].1 == value {
            assert(model.variants[j].1 == model.variants[variant].1);
        }
    }
    assert(model.is_first_with(value, variant));
    model.lemma_first_with(value);
}

/// In every enumeration, converting an integer to a variant and back gives
/// the same integer.
pub proof fn lemma_value_of_variant(model: EnumModel, value: usize)
    ensures
        match model.variant_of(value) {
            Some(variant) => 0 <= variant < model.variants.len() && model.value_of(variant)
                == value,
            None => !model.has_value(value),
        },
{
    if model.has_value(value) {
        model.lemma_first_with(value);
    }
}

} // verus!
