//! Generic parameters of the declared type, prepared for an implementation
//! that must not borrow.
//!
//! An implementation for a type that is used behind type-erased pointers
//! cannot carry lifetime parameters. The parameters of the declared type are
//! therefore rewritten: lifetime parameters and lifetime predicates go, and
//! lifetime arguments of the type become `'static`.

use vstd::prelude::*;
use vstd::string::StringExecFns;

verus! {

/// A generic parameter as written after `impl`, by its kind.
#[derive(Debug, PartialEq, Eq)]
pub enum GenericParam {
    /// A type parameter with its bounds, `T: Clone`.
    Type(String),
    /// A lifetime parameter with its bounds, `'a: 'b`.
    Lifetime(String),
    /// A const parameter, `const N: usize`.
    Const(String),
}

/// A generic argument as written after the type's name, by its kind.
#[derive(Debug, PartialEq, Eq)]
pub enum GenericArgument {
    /// A lifetime, `'a`.
    Lifetime(String),
    /// A type, `T`.
    Type(String),
    /// A const expression.
    Const(String),
    /// A binding of an associated type, `Item = u8`.
    Binding(String),
    /// A bound on an associated type, `Item: Display`.
    Constraint(String),
}

/// A predicate of a `where` clause, by its kind.
#[derive(Debug, PartialEq, Eq)]
pub enum WherePredicate {
    /// A predicate on a type, `T: Trait`.
    Type(String),
    /// A predicate on a lifetime, `'a: 'b`.
    Lifetime(String),
    /// An equality predicate.
    Eq(String),
}

/// The predicates of a `where` clause.
#[derive(Debug, PartialEq, Eq)]
pub struct WhereClause {
    pub predicates: Vec<WherePredicate>,
}

/// A list that may stand between angle brackets.
///
/// A list without an opening bracket has no items and no closing bracket.
#[derive(Debug, PartialEq, Eq)]
pub struct AngleBracketList<T> {
    pub lt_token: bool,
    pub items: Vec<T>,
    pub gt_token: bool,
}

impl GenericParam {
    /// A copy of this parameter.
    pub fn duplicate(&self) -> (p: GenericParam)
        ensures
            p == *self,
    {
        match self {
            GenericParam::Type(s) => GenericParam::Type(s.clone()),
            GenericParam::Lifetime(s) => GenericParam::Lifetime(s.clone()),
            GenericParam::Const(s) => GenericParam::Const(s.clone()),
        }
    }
}

impl GenericArgument {
    /// A copy of this argument.
    pub fn duplicate(&self) -> (a: GenericArgument)
        ensures
            a == *self,
    {
        match self {
            GenericArgument::Lifetime(s) => GenericArgument::Lifetime(s.clone()),
            GenericArgument::Type(s) => GenericArgument::Type(s.clone()),
            GenericArgument::Const(s) => GenericArgument::Const(s.clone()),
            GenericArgument::Binding(s) => GenericArgument::Binding(s.clone()),
            GenericArgument::Constraint(s) => GenericArgument::Constraint(s.clone()),
        }
    }
}

impl WherePredicate {
    /// A copy of this predicate.
    pub fn duplicate(&self) -> (p: WherePredicate)
        ensures
            p == *self,
    {
        match self {
            WherePredicate::Type(s) => WherePredicate::Type(s.clone()),
            WherePredicate::Lifetime(s) => WherePredicate::Lifetime(s.clone()),
            WherePredicate::Eq(s) => WherePredicate::Eq(s.clone()),
        }
    }
}

/// The parameters that an implementation keeps: all but the lifetimes.
pub open spec fn kept_params(params: Seq<GenericParam>) -> Seq<GenericParam> {
    params.filter(|p: GenericParam| !(p is Lifetime))
}

/// The predicates that an implementation keeps: all but those on lifetimes.
pub open spec fn kept_predicates(predicates: Seq<WherePredicate>) -> Seq<WherePredicate> {
    predicates.filter(|p: WherePredicate| !(p is Lifetime))
}

/// Whether `after` is `before` made static: a lifetime becomes `'static`,
/// anything else stays as it is.
pub open spec fn made_static(before: GenericArgument, after: GenericArgument) -> bool {
    if before is Lifetime {
        after matches GenericArgument::Lifetime(s) && s@ == "'static"@
    } else {
        after == before
    }
}

/// Whether `after` is what `where_clause` becomes: a clause stays a clause,
/// without its predicates on lifetimes.
pub open spec fn where_made_static(
    where_clause: Option<WhereClause>,
    after: Option<WhereClause>,
) -> bool {
    match where_clause {
        Some(before) => after matches Some(w) && w.predicates@ == kept_predicates(
            before.predicates@,
        ),
        None => after is None,
    }
}

/// Prepares the generics of a type for an implementation that must be
/// `'static`.
///
/// Takes the parameters as written after `impl`, the arguments as written
/// after the type's name and the `where` clause. Gives back the parameters
/// without lifetimes, the arguments with every lifetime replaced by
/// `'static`, and the clause without its predicates on lifetimes. The
/// brackets stay as they were, also around a list that has become empty.
pub fn static_impl_generics(
    impl_gen: &AngleBracketList<GenericParam>,
    type_gen: &AngleBracketList<GenericArgument>,
    where_clause: &Option<WhereClause>,
) -> (r: (AngleBracketList<GenericParam>, AngleBracketList<GenericArgument>, Option<WhereClause>))
    ensures
        r.0.lt_token == impl_gen.lt_token,
        r.0.gt_token == impl_gen.gt_token,
        r.0.items@ == kept_params(impl_gen.items@),
        r.1.lt_token == type_gen.lt_token,
        r.1.gt_token == type_gen.gt_token,
        r.1.items@.len() == type_gen.items@.len(),
        forall|i: int|
            0 <= i < type_gen.items@.len() ==> made_static(
                type_gen.items@[i],
                #[trigger] r.1.items@[i],
            ),
        where_made_static(*where_clause, r.2),
{
    let mut params: Vec<GenericParam> = Vec::new();
    let mut i: usize = 0;
    proof {
        reveal(Seq::filter);
        assert(impl_gen.items@.take(0) =~= Seq::<GenericParam>::empty());
    }
    while i < impl_gen.items.len()
        invariant
            i <= impl_gen.items.len(),
            params@ == kept_params(impl_gen.items@.take(i as int)),
        decreases impl_gen.items.len() - i,
    {
        proof {
            reveal(Seq::filter);
            assert(impl_gen.items@.take(i + 1).drop_last() =~= impl_gen.items@.take(i as int));
        }
        match &impl_gen.items[i] {
            GenericParam::Lifetime(_) => {},
            other => {
                params.push(other.duplicate());
            },
        }
        i += 1;
    }
    assert(impl_gen.items@.take(impl_gen.items.len() as int) =~= impl_gen.items@);

    let mut args: Vec<GenericArgument> = Vec::new();
    let mut j: usize = 0;
    while j < type_gen.items.len()
        invariant
            j <= type_gen.items.len(),
            args@.len() == j,
            forall|k: int| 0 <= k < j ==> made_static(type_gen.items@[k], #[trigger] args@[k]),
        decreases type_gen.items.len() - j,
    {
        match &type_gen.items[j] {
            GenericArgument::Lifetime(_) => {
                args.push(GenericArgument::Lifetime(String::from_str("'static")));
            },
            other => {
                args.push(other.duplicate());
            },
        }
        j += 1;
    }

    let clause = match where_clause {
        None => None,
        Some(before) => {
            let mut predicates: Vec<WherePredicate> = Vec::new();
            let mut k: usize = 0;
            proof {
                reveal(Seq::filter);
                assert(before.predicates@.take(0) =~= Seq::<WherePredicate>::empty());
            }
            while k < before.predicates.len()
                invariant
                    k <= before.predicates.len(),
                    predicates@ == kept_predicates(before.predicates@.take(k as int)),
                decreases before.predicates.len() - k,
            {
                proof {
                    reveal(Seq::filter);
                    assert(before.predicates@.take(k + 1).drop_last() =~= before.predicates@.take(
                        k as int,
                    ));
                }
                match &before.predicates[k] {
                    WherePredicate::Lifetime(_) => {},
                    other => {
                        predicates.push(other.duplicate());
                    },
                }
                k += 1;
            }
            assert(before.predicates@.take(before.predicates.len() as int)
                =~= before.predicates@);
            Some(WhereClause { predicates })
        },
    };
    (
        AngleBracketList { lt_token: impl_gen.lt_token, items: params, gt_token: impl_gen.gt_token },
        AngleBracketList { lt_token: type_gen.lt_token, items: args, gt_token: type_gen.gt_token },
        clause,
    )
}

} // verus!
