//! Identifiers of the views an object can be cast to.

use vstd::prelude::*;
use vstd::string::StringExecFns;
use crate::marker::MarkerSet;
use crate::path::Path;
use crate::path::PathView;

verus! {

/// The capability that a view of an object is built on.
#[derive(Debug, Clone, PartialEq, Eq)]
pub enum Base {
    /// The universal capability of being a reflectable object.
    Any,
    /// The capability of being cast again.
    DynCast,
    /// A declared interface, named by its path.
    Trait(Path),
}

/// The mathematical value of a [`Base`].
pub enum BaseView {
    Any,
    DynCast,
    Trait(PathView),
}

impl View for Base {
    type V = BaseView;

    open spec fn view(&self) -> BaseView {
        match self {
            Base::Any => BaseView::Any,
            Base::DynCast => BaseView::DynCast,
            Base::Trait(p) => BaseView::Trait(p@),
        }
    }
}

impl Base {
    /// Whether two bases are the same capability.
    pub fn same(&self, other: &Base) -> (r: bool)
        ensures
            r == (self@ == other@),
    {
        match (self, other) {
            (Base::Any, Base::Any) => true,
            (Base::DynCast, Base::DynCast) => true,
            (Base::Trait(p), Base::Trait(q)) => p.same(q),
            _ => false,
        }
    }

    /// A copy of this base.
    pub fn duplicate(&self) -> (b: Base)
        ensures
            b@ == self@,
    {
        match self {
            Base::Any => Base::Any,
            Base::DynCast => Base::DynCast,
            Base::Trait(p) => Base::Trait(p.duplicate()),
        }
    }
}

/// Names one view of an object: the concrete type itself, or one base
/// capability together with a set of markers.
#[derive(Debug, Clone, PartialEq, Eq)]
pub enum ViewId {
    /// The concrete type of the given name.
    Concrete(String),
    /// A base capability qualified by markers.
    Object { base: Base, markers: MarkerSet },
}

/// The mathematical value of a [`ViewId`].
pub enum ViewIdView {
    Concrete(Seq<char>),
    Object { base: BaseView, markers: MarkerSet },
}

impl View for ViewId {
    type V = ViewIdView;

    open spec fn view(&self) -> ViewIdView {
        match self {
            ViewId::Concrete(name) => ViewIdView::Concrete(name@),
            ViewId::Object { base, markers } => ViewIdView::Object {
                base: base@,
                markers: *markers,
            },
        }
    }
}

/// The views of a sequence of identifiers.
pub open spec fn ids_view(s: Seq<ViewId>) -> Seq<ViewIdView> {
    s.map_values(|id: ViewId| id@)
}

impl ViewIdView {
    /// The reflectable-object capability with both thread markers: the view
    /// that an object must have before a shared-atomic pointer to it may be
    /// cast.
    pub open spec fn thread_safe_any() -> ViewIdView {
        ViewIdView::Object {
            base: BaseView::Any,
            markers: MarkerSet::spec_empty().with(crate::marker::AutoTrait::Send).with(
                crate::marker::AutoTrait::Sync,
            ),
        }
    }
}

impl ViewId {
    /// The identifier of the concrete type called `name`.
    pub fn concrete(name: &str) -> (id: ViewId)
        ensures
            id@ == ViewIdView::Concrete(name@),
    {
        ViewId::Concrete(String::from_str(name))
    }

    /// The identifier of the reflectable-object capability with `markers`.
    pub fn any(markers: MarkerSet) -> (id: ViewId)
        ensures
            id@ == (ViewIdView::Object { base: BaseView::Any, markers }),
    {
        ViewId::Object { base: Base::Any, markers }
    }

    /// The identifier of the casting capability with `markers`.
    pub fn dyn_cast(markers: MarkerSet) -> (id: ViewId)
        ensures
            id@ == (ViewIdView::Object { base: BaseView::DynCast, markers }),
    {
        ViewId::Object { base: Base::DynCast, markers }
    }

    /// The identifier of the interface at `path` with `markers`.
    pub fn interface(path: Path, markers: MarkerSet) -> (id: ViewId)
        ensures
            id@ == (ViewIdView::Object { base: BaseView::Trait(path@), markers }),
    {
        ViewId::Object { base: Base::Trait(path), markers }
    }

    /// The identifier that shared-atomic casting asks for besides its
    /// target: the reflectable-object capability with both thread markers.
    pub fn thread_safe_any() -> (id: ViewId)
        ensures
            id@ == ViewIdView::thread_safe_any(),
    {
        let markers = MarkerSet::empty().insert(crate::marker::AutoTrait::Send).insert(
            crate::marker::AutoTrait::Sync,
        );
        ViewId::Object { base: Base::Any, markers }
    }

    /// Whether two identifiers name the same view.
    pub fn same(&self, other: &ViewId) -> (r: bool)
        ensures
            r == (self@ == other@),
    {
        match (self, other) {
            (ViewId::Concrete(a), ViewId::Concrete(b)) => *a == *b,
            (
                ViewId::Object { base: b1, markers: m1 },
                ViewId::Object { base: b2, markers: m2 },
            ) => b1.same(b2) && *m1 == *m2,
            _ => false,
        }
    }

    /// A copy of this identifier.
    pub fn duplicate(&self) -> (id: ViewId)
        ensures
            id@ == self@,
    {
        match self {
            ViewId::Concrete(name) => ViewId::Concrete(name.clone()),
            ViewId::Object { base, markers } => ViewId::Object {
                base: base.duplicate(),
                markers: *markers,
            },
        }
    }
}

} // verus!
