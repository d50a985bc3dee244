//! From a declared module type to the plan of its loading implementation.
//!
//! A leaf module is loaded through an implementation that is generated for
//! its type. The one option of the declaration, in attributes named
//! `leaf_module`, is `crate(..)`: the path under which the generated code
//! finds the module loader. Where the declaration gives none, whoever writes
//! the implementation out knows where the loader is.

use vstd::prelude::*;
use crate::config::crate_path_read;
use crate::config::opt_path_view;
use crate::config::read_crate_path;
use crate::config::ConfigError;
use crate::derive::DeriveInput;
use crate::generics::kept_params;
use crate::generics::made_static;
use crate::generics::static_impl_generics;
use crate::generics::where_made_static;
use crate::generics::AngleBracketList;
use crate::generics::GenericArgument;
use crate::generics::GenericParam;
use crate::generics::WhereClause;
use crate::meta::Attribute;
use crate::meta::Meta;
use crate::meta::NestedMeta;
use crate::path::Path;
use crate::path::PathView;

verus! {

/// Everything that the loading implementation for one type is made from.
#[derive(Debug, PartialEq, Eq)]
pub struct LeafModuleImpl {
    /// The parameters of the implementation, without lifetimes.
    pub impl_generics: AngleBracketList<GenericParam>,
    /// The name of the type.
    pub ident: String,
    /// The arguments of the type, with `'static` for every lifetime.
    pub type_generics: AngleBracketList<GenericArgument>,
    /// The `where` clause, without predicates on lifetimes.
    pub where_clause: Option<WhereClause>,
    /// The path under which the implementation finds the module loader, if
    /// the declaration gives one.
    pub crate_path: Option<Path>,
}

/// The text shown for an error in a `leaf_module` attribute.
pub fn message(e: ConfigError) -> (s: &'static str)
    ensures
        s@ == match e {
            ConfigError::RepeatedCratePath => "`path` may not be specified more than once."@,
            _ => "Invalid argument(s) to `leaf_module` attribute."@,
        },
{
    match e {
        ConfigError::RepeatedCratePath => "`path` may not be specified more than once.",
        _ => "Invalid argument(s) to `leaf_module` attribute.",
    }
}

/// Reads one option of a `leaf_module` attribute: a `crate(..)` list with
/// exactly one item.
pub open spec fn option_read(item: NestedMeta, crate_path: Option<PathView>) -> (
    Option<PathView>,
    Option<ConfigError>,
) {
    match item {
        NestedMeta::Meta(Meta::List(list)) => {
            if list.path@.ident() == Some("crate"@) && list.nested@.len() == 1 {
                crate_path_read(list.nested@, crate_path)
            } else {
                (crate_path, Some(ConfigError::InvalidArguments))
            }
        },
        _ => (crate_path, Some(ConfigError::InvalidArguments)),
    }
}

/// Reads the options of a `leaf_module` attribute from the first on; the
/// first that fails stops the reading.
pub open spec fn options_read(items: Seq<NestedMeta>, crate_path: Option<PathView>) -> (
    Option<PathView>,
    Option<ConfigError>,
)
    decreases items.len(),
{
    if items.len() == 0 {
        (crate_path, None)
    } else {
        let first = option_read(items[0], crate_path);
        if first.1 is Some {
            first
        } else {
            options_read(items.skip(1), first.0)
        }
    }
}

/// Reads one attribute. An attribute that is not named `leaf_module`
/// declares nothing and is passed over.
pub open spec fn attr_read(attr: Attribute, crate_path: Option<PathView>) -> (
    Option<PathView>,
    Option<ConfigError>,
) {
    if attr.path@.ident() != Some("leaf_module"@) {
        (crate_path, None)
    } else {
        match attr.meta {
            Some(Meta::List(list)) => options_read(list.nested@, crate_path),
            _ => (crate_path, Some(ConfigError::InvalidArguments)),
        }
    }
}

/// Reads the attributes of a declaration from the first on; the first that
/// fails stops the reading.
pub open spec fn attrs_read(attrs: Seq<Attribute>, crate_path: Option<PathView>) -> (
    Option<PathView>,
    Option<ConfigError>,
)
    decreases attrs.len(),
{
    if attrs.len() == 0 {
        (crate_path, None)
    } else {
        let first = attr_read(attrs[0], crate_path);
        if first.1 is Some {
            first
        } else {
            attrs_read(attrs.skip(1), first.0)
        }
    }
}

/// Reads one attribute of the declared type into `crate_path`.
///
/// An attribute that is not named `leaf_module` is passed over. One that is
/// has to hold a list of `crate(..)` options with one item each. Reading
/// stops at the first option that fails.
pub fn read_attr(attr: &Attribute, crate_path: &mut Option<Path>) -> (r: Result<(), ConfigError>)
    ensures
        opt_path_view(*final(crate_path)) == attr_read(*attr, opt_path_view(*old(crate_path))).0,
        r == match attr_read(*attr, opt_path_view(*old(crate_path))).1 {
            Some(e) => Err::<(), ConfigError>(e),
            None => Ok(()),
        },
{
    if !attr.path.is_ident("leaf_module") {
        return Ok(());
    }
    let list = match &attr.meta {
        Some(Meta::List(list)) => list,
        _ => {
            return Err(ConfigError::InvalidArguments);
        },
    };
    let ghost start = opt_path_view(*crate_path);
    let mut i: usize = 0;
    assert(list.nested@.skip(0) =~= list.nested@);
    while i < list.nested.len()
        invariant
            i <= list.nested.len(),
            start == opt_path_view(*old(crate_path)),
            attr_read(*attr, start) == options_read(list.nested@, start),
            options_read(list.nested@, start) == options_read(
                list.nested@.skip(i as int),
                opt_path_view(*crate_path),
            ),
        decreases list.nested.len() - i,
    {
        let ghost rest = list.nested@.skip(i as int);
        proof {
            assert(rest.len() > 0);
            assert(rest[0] == list.nested@[i as int]);
            assert(rest.skip(1) =~= list.nested@.skip(i + 1));
        }
        match &list.nested[i] {
            NestedMeta::Meta(Meta::List(option)) => {
                if option.path.is_ident("crate") && option.nested.len() == 1 {
                    match read_crate_path(option, crate_path) {
                        Ok(()) => {},
                        Err(e) => {
                            return Err(e);
                        },
                    }
                } else {
                    return Err(ConfigError::InvalidArguments);
                }
            },
            _ => {
                return Err(ConfigError::InvalidArguments);
            },
        }
        i += 1;
    }
    Ok(())
}

/// Whether `out` is the plan that the declaration `input` gives once its
/// library path has been read as `crate_path`.
pub open spec fn derived(
    input: DeriveInput,
    crate_path: Option<PathView>,
    out: LeafModuleImpl,
) -> bool {
    &&& out.ident@ == input.ident@
    &&& opt_path_view(out.crate_path) == crate_path
    &&& out.impl_generics.lt_token == input.impl_generics.lt_token
    &&& out.impl_generics.gt_token == input.impl_generics.gt_token
    &&& out.impl_generics.items@ == kept_params(input.impl_generics.items@)
    &&& out.type_generics.lt_token == input.type_generics.lt_token
    &&& out.type_generics.gt_token == input.type_generics.gt_token
    &&& out.type_generics.items@.len() == input.type_generics.items@.len()
    &&& forall|i: int|
        0 <= i < input.type_generics.items@.len() ==> made_static(
            input.type_generics.items@[i],
            #[trigger] out.type_generics.items@[i],
        )
    &&& where_made_static(input.where_clause, out.where_clause)
}

/// Plans the loading implementation for a declared type.
///
/// The library path is read from the attributes in order. Where reading
/// fails, its error is the result. Otherwise the plan holds the path that
/// was read, if one was given, and the generics made static.
pub fn derive(input: &DeriveInput) -> (r: Result<LeafModuleImpl, ConfigError>)
    ensures
        match attrs_read(input.attrs@, None).1 {
            Some(e) => r == Err::<LeafModuleImpl, ConfigError>(e),
            None => r matches Ok(out) && derived(*input, attrs_read(input.attrs@, None).0, out),
        },
{
    let mut crate_path: Option<Path> = None;
    let mut i: usize = 0;
    assert(input.attrs@.skip(0) =~= input.attrs@);
    while i < input.attrs.len()
        invariant
            i <= input.attrs.len(),
            attrs_read(input.attrs@, None) == attrs_read(
                input.attrs@.skip(i as int),
                opt_path_view(crate_path),
            ),
        decreases input.attrs.len() - i,
    {
        let ghost rest = input.attrs@.skip(i as int);
        proof {
            assert(rest.len() > 0);
            assert(rest[0] == input.attrs@[i as int]);
            assert(rest.skip(1) =~= input.attrs@.skip(i + 1));
        }
        match read_attr(&input.attrs[i], &mut crate_path) {
            Ok(()) => {},
            Err(e) => {
                return Err(e);
            },
        }
        i += 1;
    }
    let (impl_generics, type_generics, where_clause) = static_impl_generics(
        &input.impl_generics,
        &input.type_generics,
        &input.where_clause,
    );
    Ok(
        LeafModuleImpl {
            impl_generics,
            ident: input.ident.clone(),
            type_generics,
            where_clause,
            crate_path,
        },
    )
}

} // verus!
