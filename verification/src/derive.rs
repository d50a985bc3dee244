//! From a declared type to the plan of its castable implementation.

use vstd::prelude::*;
use crate::config::attrs_read;
use crate::config::declared_in;
use crate::config::lemma_attrs_distinct;
use crate::config::read_attrs;
use crate::config::ConfigError;
use crate::config::Declared;
use crate::generics::kept_params;
use crate::generics::made_static;
use crate::generics::static_impl_generics;
use crate::generics::where_made_static;
use crate::generics::AngleBracketList;
use crate::generics::GenericArgument;
use crate::generics::GenericParam;
use crate::generics::WhereClause;
use crate::marker::AutoTrait;
use crate::meta::Attribute;
use crate::path::Path;
use crate::path::PathView;
use crate::table::lemma_distinct_paths;
use crate::table::markers_or_default;
use crate::table::CastTable;

verus! {

/// A type declaration as far as generation reads it.
#[derive(Debug, PartialEq, Eq)]
pub struct DeriveInput {
    /// The attributes on the type, in source order.
    pub attrs: Vec<Attribute>,
    /// The name of the type.
    pub ident: String,
    /// The generic parameters as they would be written after `impl`.
    pub impl_generics: AngleBracketList<GenericParam>,
    /// The generic arguments as they would be written after the type's name.
    pub type_generics: AngleBracketList<GenericArgument>,
    /// The `where` clause, if there is one.
    pub where_clause: Option<WhereClause>,
}

/// Everything that the implementation for one type is made from.
#[derive(Debug)]
pub struct DynCastImpl {
    /// The parameters of the implementation, without lifetimes.
    pub impl_generics: AngleBracketList<GenericParam>,
    /// The name of the type.
    pub ident: String,
    /// The arguments of the type, with `'static` for every lifetime.
    pub type_generics: AngleBracketList<GenericArgument>,
    /// The `where` clause, without predicates on lifetimes.
    pub where_clause: Option<WhereClause>,
    /// The path under which the implementation finds this library.
    pub crate_path: Path,
    /// The castable set of the type.
    pub table: CastTable,
}

/// The path under which an implementation finds this library when the
/// declaration names none.
pub open spec fn default_crate_path() -> PathView {
    PathView { leading_colon: true, segments: seq!["nxs_interface"@] }
}

/// The library path that a declaration stands for.
pub open spec fn crate_path_or_default(crate_path: Option<PathView>) -> PathView {
    match crate_path {
        Some(p) => p,
        None => default_crate_path(),
    }
}

/// The interfaces that a declaration stands for: those it names, or none
/// where it has no `base_traits` option.
pub open spec fn interfaces_or_none(base_traits: Option<Seq<PathView>>) -> Seq<PathView> {
    match base_traits {
        Some(b) => b,
        None => Seq::empty(),
    }
}

/// Whether `out` is the plan that the declaration `input` gives once its
/// options have been read as `declared`.
pub open spec fn derived(input: DeriveInput, declared: Declared, out: DynCastImpl) -> bool {
    &&& out.table.wf()
    &&& out.ident@ == input.ident@
    &&& out.table.concrete() == input.ident@
    &&& out.table.interfaces() == interfaces_or_none(declared.base_traits)
    &&& out.table.markers() == markers_or_default(declared.auto_traits)
    &&& out.crate_path@ == crate_path_or_default(declared.crate_path)
    &&& out.impl_generics.lt_token == input.impl_generics.lt_token
    &&& out.impl_generics.gt_token == input.impl_generics.gt_token
    &&& out.impl_generics.items@ == kept_params(input.impl_generics.items@)
    &&& out.type_generics.lt_token == input.type_generics.lt_token
    &&& out.type_generics.gt_token == input.type_generics.gt_token
    &&& out.type_generics.items@.len() == input.type_generics.items@.len()
    &&& forall|i: int|
        0 <= i < input.type_generics.items@.len() ==> made_static(
            input.type_generics.items@[i],
            #[trigger] out.type_generics.items@[i],
        )
    &&& where_made_static(input.where_clause, out.where_clause)
}

/// Plans the castable implementation for a declared type.
///
/// The options are read from the attributes in order, starting from nothing
/// declared. Where reading fails, its error is the result and nothing is
/// generated. Otherwise the castable set is generated for the type's name,
/// the declared interfaces and the declared markers, or the default markers
/// where no `auto_traits` option was given, and the generics are made
/// static.
pub fn derive(input: &DeriveInput) -> (r: Result<DynCastImpl, ConfigError>)
    ensures
        match attrs_read(input.attrs@, Declared::nothing()).error {
            Some(e) => r == Err::<DynCastImpl, ConfigError>(e),
            None => r matches Ok(out) && derived(
                *input,
                attrs_read(input.attrs@, Declared::nothing()).declared,
                out,
            ),
        },
{
    let mut base_traits: Option<Vec<Path>> = None;
    let mut auto_traits: Option<Vec<AutoTrait>> = None;
    let mut crate_path: Option<Path> = None;
    proof {
        assert(declared_in(base_traits, auto_traits, crate_path) == Declared::nothing());
        lemma_attrs_distinct(input.attrs@, Declared::nothing());
    }
    match read_attrs(&input.attrs, &mut base_traits, &mut auto_traits, &mut crate_path) {
        Ok(()) => {},
        Err(e) => {
            return Err(e);
        },
    }
    let ghost declared = attrs_read(input.attrs@, Declared::nothing()).declared;
    let crate_path = match crate_path {
        Some(p) => p,
        None => {
            let mut p = Path::root(true);
            p.push("nxs_interface");
            assert(p@.segments =~= default_crate_path().segments);
            p
        },
    };
    let (impl_generics, type_generics, where_clause) = static_impl_generics(
        &input.impl_generics,
        &input.type_generics,
        &input.where_clause,
    );
    let base_traits = match base_traits {
        Some(b) => b,
        None => {
            let none: Vec<Path> = Vec::new();
            assert(crate::config::paths_view(none@) =~= Seq::empty());
            none
        },
    };
    proof {
        lemma_distinct_paths(interfaces_or_none(declared.base_traits));
    }
    let generated = CastTable::generate(input.ident.as_str(), &base_traits, auto_traits.as_ref());
    match generated {
        Ok(table) => Ok(
            DynCastImpl {
                impl_generics,
                ident: input.ident.clone(),
                type_generics,
                where_clause,
                crate_path,
                table,
            },
        ),
        Err(e) => Err(e),
    }
}

} // verus!
