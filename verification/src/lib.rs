//! Turns the `#define` lines of a C header into the description of a closed
//! enumeration with conversions between its variants and their integer
//! values.

pub mod builder;
pub mod config;
pub mod error;
pub mod generator;
pub mod literal;
pub mod name;
pub mod scanner;
pub mod table;
pub mod text;

pub use crate::builder::parse_c_define_strings;
pub use crate::config::{Argument, Configuration, Literal, LiteralValue};
pub use crate::error::Error;
pub use crate::generator::{generate, GeneratedEnum, Strategy};
pub use crate::literal::parse_value;
pub use crate::name::{normalize, CaseMode};
pub use crate::table::{Symbol, SymbolTable};

use crate::builder::{apply_lines, lemma_names_stay_distinct, symbols_spec};
use crate::config::{configuration_spec, Settings};
use crate::error::Failure;
use crate::generator::{lemma_round_trip, strategy_for, EnumModel};
use crate::scanner::split_lines;
use crate::table::{lemma_values_collide, values_collide};
use vstd::prelude::*;

verus! {

/// The enumeration that the settings describe: named as they say, with one
/// variant per entry of the symbol table of their text, dense unless the
/// table holds duplicates.
pub open spec fn enum_for(settings: Settings) -> Result<EnumModel, Failure> {
    match symbols_spec(settings) {
        Err(f) => Err(f),
        Ok((entries, has_duplicates)) => Ok(
            EnumModel {
                name: settings.enum_name,
                variants: entries,
                strategy: strategy_for(has_duplicates),
            },
        ),
    }
}

/// The enumeration that the arguments of an invocation describe.
pub open spec fn enum_spec(arguments: Seq<Argument>) -> Result<EnumModel, Failure> {
    match configuration_spec(arguments) {
        Err(f) => Err(f),
        Ok(settings) => enum_for(settings),
    }
}

/// Generates the enumeration for a configuration.
pub fn generate_from(input: &Configuration) -> (r: Result<GeneratedEnum, Error>)
    ensures
        match r {
            Ok(generated) => generated.wf() && enum_for(input@) == Ok::<EnumModel, Failure>(
                generated@,
            ),
            Err(e) => enum_for(input@) == Err::<EnumModel, Failure>(e@),
        },
{
    match parse_c_define_strings(input) {
        Err(e) => Err(e),
        Ok((table, has_duplicates)) => Ok(
            generate(&table, has_duplicates, input.enum_name.as_str()),
        ),
    }
}

/// Generates the enumeration that the arguments of an invocation describe:
/// puts the configuration together, builds the symbol table of its text and
/// describes the enumeration for it. Fails with the first error met on the way.
pub fn parse_c_defines_to_enum(input: &Vec<Argument>) -> (r: Result<GeneratedEnum, Error>)
    ensures
        match r {
            Ok(generated) => generated.wf() && enum_spec(input@) == Ok::<EnumModel, Failure>(
                generated@,
            ),
            Err(e) => enum_spec(input@) == Err::<EnumModel, Failure>(e@),
        },
{
    match Configuration::from_arguments(input) {
        Err(e) => Err(e),
        Ok(configuration) => generate_from(&configuration),
    }
}

/// Every enumeration that is generated is well formed: its variant names
/// are distinct, and where it is dense its values are distinct too.
pub proof fn lemma_generated_is_well_formed(settings: Settings)
    ensures
        enum_for(settings) matches Ok(model) ==> model.wf(),
{
    lemma_names_stay_distinct(split_lines(settings.source_text), settings);
}

/// Where no value was obtained from another name and all values are
/// distinct, the enumeration is dense, and converting any of its variants to
/// its integer and back gives the same variant.
pub proof fn lemma_distinct_values_are_dense(settings: Settings, variant: int)
    requires
        apply_lines(split_lines(settings.source_text), settings) matches Ok(progress)
            && !progress.alias_used && !values_collide(progress.entries) && 0 <= variant
            < progress.entries.len(),
    ensures
        enum_for(settings) matches Ok(model) && model.strategy == Strategy::Dense
            && model.variant_of(model.value_of(variant)) == Some(variant),
{
    let model = enum_for(settings)->Ok_0;
    lemma_round_trip(model, variant);
}

/// Where two names of the table carry the same value, the duplicate flag is
/// set and the enumeration is sparse.
pub proof fn lemma_shared_value_is_sparse(settings: Settings, first: int, second: int)
    requires
        symbols_spec(settings) matches Ok((entries, _)) && 0 <= first < second < entries.len()
            && entries[first].1 == entries[second].1,
    ensures
        symbols_spec(settings) matches Ok((_, has_duplicates)) && has_duplicates,
        enum_for(settings) matches Ok(model) && model.strategy == Strategy::Sparse,
{
    let entries = symbols_spec(settings)->Ok_0.0;
    lemma_values_collide(entries);
}

} // verus!
