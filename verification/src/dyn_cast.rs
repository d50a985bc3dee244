//! Casting an object between its views, for each of the five pointer kinds.
//!
//! An object that implements [`DynCast`] answers, from the cast table of its
//! concrete type, whether it can be viewed under a given identifier, and
//! hands out a single-use result for each pointer kind. [`DynCastExt`] is
//! what callers use: it asks for the result and finalizes it in one step.

use std::rc::Rc;
use std::sync::Arc;
use vstd::prelude::*;
use crate::table::CastTable;
use crate::view_id::ids_view;
use crate::view_id::ViewId;
use crate::view_id::ViewIdView;

verus! {

/// The result of a successful [`DynCast::dyn_cast_ref`]: a shared reference
/// and the identifier of the view it was matched to.
///
/// To get the reference out, call [`DynCastRef::cast`] with that identifier.
pub struct DynCastRef<'a, S: ?Sized> {
    pub src: &'a S,
    pub to: ViewId,
}

impl<'a, S: ?Sized> DynCastRef<'a, S> {
    /// Pairs a reference with the view that it is to be cast to.
    pub fn from_any_cast_fn(src: &'a S, to: ViewId) -> (w: Self)
        ensures
            w.src == src,
            w.to == to,
    {
        DynCastRef { src, to }
    }

    /// Returns the reference, given the view it was matched to. Any other
    /// view gives nothing.
    pub fn cast(self, expected: &ViewId) -> (r: Option<&'a S>)
        ensures
            r == if self.to@ == expected@ {
                Some(self.src)
            } else {
                None
            },
    {
        if self.to.same(expected) {
            Some(self.src)
        } else {
            None
        }
    }
}

/// The result of a successful [`DynCast::dyn_cast_mut`]: a mutable reference
/// and the identifier of the view it was matched to.
///
/// To get the reference out, call [`DynCastMut::cast`] with that identifier.
pub struct DynCastMut<'a, S> {
    pub src: &'a mut S,
    pub to: ViewId,
}

impl<'a, S> DynCastMut<'a, S> {
    /// Pairs a mutable reference with the view that it is to be cast to.
    pub fn from_any_cast_fn(src: &'a mut S, to: ViewId) -> (w: Self)
        ensures
            *w.src == *old(src),
            *final(w.src) == *final(src),
            w.to == to,
    {
        DynCastMut { src, to }
    }

    /// Returns the reference, given the view it was matched to. Any other
    /// view gives nothing and leaves the referent as it is.
    pub fn cast(self, expected: &ViewId) -> (r: Option<&'a mut S>)
        ensures
            r is Some == (self.to@ == expected@),
            r matches Some(m) ==> *m == *old(self.src) && *final(m) == *final(self.src),
            r is None ==> *final(self.src) == *old(self.src),
    {
        if self.to.same(expected) {
            Some(self.src)
        } else {
            None
        }
    }
}

/// The result of a successful [`DynCast::dyn_cast_box`]: a box and the
/// identifier of the view it was matched to.
///
/// To get the box out, call [`DynCastBox::cast`] with that identifier.
pub struct DynCastBox<S: ?Sized> {
    pub src: Box<S>,
    pub to: ViewId,
}

impl<S: ?Sized> DynCastBox<S> {
    /// Pairs a box with the view that it is to be cast to.
    pub fn from_any_cast_fn(src: Box<S>, to: ViewId) -> (w: Self)
        ensures
            w.src == src,
            w.to == to,
    {
        DynCastBox { src, to }
    }

    /// Returns the box, given the view it was matched to. Any other view
    /// gives nothing.
    pub fn cast(self, expected: &ViewId) -> (r: Option<Box<S>>)
        ensures
            r == if self.to@ == expected@ {
                Some(self.src)
            } else {
                None
            },
    {
        if self.to.same(expected) {
            Some(self.src)
        } else {
            None
        }
    }
}

/// The result of a successful [`DynCast::dyn_cast_rc`]: a shared pointer and
/// the identifier of the view it was matched to.
///
/// To get the pointer out, call [`DynCastRc::cast`] with that identifier.
pub struct DynCastRc<S: ?Sized> {
    pub src: Rc<S>,
    pub to: ViewId,
}

impl<S: ?Sized> DynCastRc<S> {
    /// Pairs a shared pointer with the view that it is to be cast to.
    pub fn from_any_cast_fn(src: Rc<S>, to: ViewId) -> (w: Self)
        ensures
            w.src == src,
            w.to == to,
    {
        DynCastRc { src, to }
    }

    /// Returns the pointer, given the view it was matched to. Any other view
    /// gives nothing.
    pub fn cast(self, expected: &ViewId) -> (r: Option<Rc<S>>)
        ensures
            r == if self.to@ == expected@ {
                Some(self.src)
            } else {
                None
            },
    {
        if self.to.same(expected) {
            Some(self.src)
        } else {
            None
        }
    }
}

/// The result of a successful [`DynCast::dyn_cast_arc`]: a shared-atomic
/// pointer and the identifier of the view it was matched to.
///
/// To get the pointer out, call [`DynCastArc::cast`] with that identifier.
pub struct DynCastArc<S: ?Sized> {
    pub src: Arc<S>,
    pub to: ViewId,
}

impl<S: ?Sized> DynCastArc<S> {
    /// Pairs a shared-atomic pointer with the view that it is to be cast to.
    pub fn from_any_cast_fn(src: Arc<S>, to: ViewId) -> (w: Self)
        ensures
            w.src == src,
            w.to == to,
    {
        DynCastArc { src, to }
    }

    /// Returns the pointer, given the view it was matched to. Any other view
    /// gives nothing.
    pub fn cast(self, expected: &ViewId) -> (r: Option<Arc<S>>)
        ensures
            r == if self.to@ == expected@ {
                Some(self.src)
            } else {
                None
            },
    {
        if self.to.same(expected) {
            Some(self.src)
        } else {
            None
        }
    }
}

/// What a cast of `ptr` to `to` gives under `table`: the same pointer where
/// `to` is in the castable set, nothing otherwise.
pub open spec fn cast_outcome<P>(table: CastTable, ptr: P, to: ViewIdView) -> Option<P> {
    if table.castable(to) {
        Some(ptr)
    } else {
        None
    }
}

/// What a cast of the owned pointer `ptr` to `to` gives under `table`: the
/// pointer comes back either way, as `Ok` where the cast succeeds and as
/// `Err` where it does not.
pub open spec fn owned_cast_outcome<P>(table: CastTable, ptr: P, to: ViewIdView) -> Result<P, P> {
    if table.castable(to) {
        Ok(ptr)
    } else {
        Err(ptr)
    }
}

/// What a cast of the shared-atomic pointer `ptr` to `to` gives under
/// `table`: besides `to`, the reflectable-object capability with both thread
/// markers has to be in the castable set.
pub open spec fn atomic_cast_outcome<P>(table: CastTable, ptr: P, to: ViewIdView) -> Result<P, P> {
    if table.castable(to) && table.castable(ViewIdView::thread_safe_any()) {
        Ok(ptr)
    } else {
        Err(ptr)
    }
}

/// An object that can be cast to the views in the castable set of its
/// concrete type.
///
/// The one thing an implementation supplies is the cast table. The other
/// methods decide from it; an implementation that replaces one of them is
/// held to the same contract.
///
/// The methods that hand out a pointer name its type and so need a sized
/// `Self`. Behind a trait object there is what only asks: the table,
/// [`dyn_can_cast`](Self::dyn_can_cast) and
/// [`castable_types`](Self::castable_types).
pub trait DynCast {
    /// The cast table of this object's concrete type: what
    /// [`cast_table`](Self::cast_table) returns. A verified implementation
    /// says here which table that is.
    open spec fn table(&self) -> CastTable {
        arbitrary()
    }

    /// The cast table of this object's concrete type.
    fn cast_table(&self) -> (t: &CastTable)
        ensures
            *t == self.table(),
            t.wf(),
    ;

    /// Tells whether this object can be cast to `to`.
    fn dyn_can_cast(&self, to: &ViewId) -> (r: bool)
        ensures
            r == self.table().castable(to@),
    {
        self.cast_table().can_cast(to)
    }

    /// The identifiers to which this object can be cast: exactly those for
    /// which [`dyn_can_cast`](Self::dyn_can_cast) holds.
    fn castable_types(&self) -> (v: Vec<ViewId>)
        ensures
            ids_view(v@) == self.table().ids(),
            forall|id: ViewIdView| ids_view(v@).contains(id) == self.table().castable(id),
    {
        self.cast_table().castable_types()
    }

    /// Matches a shared reference to `to`: a result that holds this
    /// reference where the cast succeeds, nothing where it does not.
    fn dyn_cast_ref<'a>(&'a self, to: &ViewId) -> (r: Option<DynCastRef<'a, Self>>) where
        Self: Sized,

        ensures
            r is Some == self.table().castable(to@),
            r matches Some(w) ==> *w.src == *self && w.to@ == to@,
    {
        if self.cast_table().can_cast(to) {
            Some(DynCastRef::from_any_cast_fn(self, to.duplicate()))
        } else {
            None
        }
    }

    /// Matches a mutable reference to `to`: a result that holds this
    /// reference where the cast succeeds, nothing where it does not.
    fn dyn_cast_mut<'a>(&'a mut self, to: &ViewId) -> (r: Option<DynCastMut<'a, Self>>) where
        Self: Sized,

        ensures
            r is Some == old(self).table().castable(to@),
            r matches Some(w) ==> *w.src == *old(self) && *final(w.src) == *final(self) && w.to@
                == to@,
            r is None ==> *final(self) == *old(self),
    {
        if self.cast_table().can_cast(to) {
            Some(DynCastMut::from_any_cast_fn(self, to.duplicate()))
        } else {
            None
        }
    }

    /// Matches a box to `to`: a result that holds this box where the cast
    /// succeeds; where it does not, the box is dropped.
    fn dyn_cast_box(self: Box<Self>, to: &ViewId) -> (r: Option<DynCastBox<Self>>) where
        Self: Sized,

        ensures
            r is Some == self.table().castable(to@),
            r matches Some(w) ==> w.src == self && w.to@ == to@,
    {
        if self.cast_table().can_cast(to) {
            Some(DynCastBox::from_any_cast_fn(self, to.duplicate()))
        } else {
            None
        }
    }

    /// Matches a shared pointer to `to`: a result that holds this pointer
    /// where the cast succeeds; where it does not, the pointer is dropped.
    fn dyn_cast_rc(self: Rc<Self>, to: &ViewId) -> (r: Option<DynCastRc<Self>>) where
        Self: Sized,

        ensures
            r is Some == self.table().castable(to@),
            r matches Some(w) ==> w.src == self && w.to@ == to@,
    {
        if self.cast_table().can_cast(to) {
            Some(DynCastRc::from_any_cast_fn(self, to.duplicate()))
        } else {
            None
        }
    }

    /// Matches a shared-atomic pointer to `to`.
    ///
    /// Unless both thread markers are declared for the concrete type, every
    /// identifier is refused. Where they are, the result holds this pointer
    /// if the cast succeeds. A pointer that is refused is dropped.
    fn dyn_cast_arc(self: Arc<Self>, to: &ViewId) -> (r: Option<DynCastArc<Self>>) where
        Self: Sized,

        ensures
            r is Some == (self.table().atomic() && self.table().castable(to@)),
            r matches Some(w) ==> w.src == self && w.to@ == to@,
    {
        if self.cast_table().is_atomic() && self.cast_table().can_cast(to) {
            Some(DynCastArc::from_any_cast_fn(self, to.duplicate()))
        } else {
            None
        }
    }
}

/// What a caller is told when an implementation of [`DynCast`] hands out a
/// result that does not fit what it was asked for.
pub const DYNCAST_ERR: &'static str = "The contract of `DynCast` has been broken by an implementation.";

/// The methods by which callers cast: each asks the object for a result and
/// finalizes it under the same identifier.
///
/// An implementation that breaks the contract of [`DynCast`] cannot be
/// verified. Where one that was not verified does so, these methods stop
/// with [`DYNCAST_ERR`] instead of returning.
pub trait DynCastExt: DynCast {
    /// Tells whether this object can be cast to `to`.
    fn can_cast(&self, to: &ViewId) -> (r: bool)
        ensures
            r == self.table().castable(to@),
    {
        self.dyn_can_cast(to)
    }

    /// Casts a shared reference to `to`: the same reference where `to` is in
    /// the castable set, nothing otherwise.
    fn cast_ref<'a>(&'a self, to: &ViewId) -> (r: Option<&'a Self>) where Self: Sized
        ensures
            r == cast_outcome(self.table(), self, to@),
    {
        match self.dyn_cast_ref(to) {
            None => None,
            Some(res) => Some(res.cast(to).expect(DYNCAST_ERR)),
        }
    }

    /// Casts a mutable reference to `to`: the same reference where `to` is
    /// in the castable set, nothing otherwise.
    fn cast_mut<'a>(&'a mut self, to: &ViewId) -> (r: Option<&'a mut Self>) where Self: Sized
        ensures
            r is Some == old(self).table().castable(to@),
            r matches Some(m) ==> *m == *old(self) && *final(m) == *final(self),
            r is None ==> *final(self) == *old(self),
    {
        match self.dyn_cast_mut(to) {
            None => None,
            Some(res) => Some(res.cast(to).expect(DYNCAST_ERR)),
        }
    }

    /// Casts a box to `to`: the same box as `Ok` where `to` is in the
    /// castable set, and as `Err` otherwise.
    fn cast_box(self: Box<Self>, to: &ViewId) -> (r: Result<Box<Self>, Box<Self>>) where
        Self: Sized,

        ensures
            r == owned_cast_outcome(self.table(), self, to@),
    {
        if !self.can_cast(to) {
            return Err(self);
        }
        let res = self.dyn_cast_box(to).expect(DYNCAST_ERR);
        Ok(res.cast(to).expect(DYNCAST_ERR))
    }

    /// Casts a shared pointer to `to`: the same pointer as `Ok` where `to`
    /// is in the castable set, and as `Err` otherwise.
    fn cast_rc(self: Rc<Self>, to: &ViewId) -> (r: Result<Rc<Self>, Rc<Self>>) where
        Self: Sized,

        ensures
            r == owned_cast_outcome(self.table(), self, to@),
    {
        if !self.can_cast(to) {
            return Err(self);
        }
        let res = self.dyn_cast_rc(to).expect(DYNCAST_ERR);
        Ok(res.cast(to).expect(DYNCAST_ERR))
    }

    /// Casts a shared-atomic pointer to `to`: the same pointer as `Ok` where
    /// both `to` and the reflectable-object capability with both thread
    /// markers are in the castable set, and as `Err` otherwise.
    fn cast_arc(self: Arc<Self>, to: &ViewId) -> (r: Result<Arc<Self>, Arc<Self>>) where
        Self: Sized,

        ensures
            r == atomic_cast_outcome(self.table(), self, to@),
    {
        if !self.can_cast(to) {
            return Err(self);
        }
        if !self.can_cast(&ViewId::thread_safe_any()) {
            return Err(self);
        }
        proof {
            self.table().lemma_atomic();
        }
        let res = self.dyn_cast_arc(to).expect(DYNCAST_ERR);
        Ok(res.cast(to).expect(DYNCAST_ERR))
    }
}

impl<S: DynCast + ?Sized> DynCastExt for S {

}

/// A value of a concrete type together with the cast table generated for
/// that type.
pub struct Object<S> {
    pub value: S,
    pub table: CastTable,
}

impl<S> Object<S> {
    /// Pairs a value with the cast table of its type.
    pub fn new(value: S, table: CastTable) -> (o: Self)
        ensures
            o.value == value,
            o.table == table,
    {
        Object { value, table }
    }

    /// The value.
    pub fn get(&self) -> (v: &S)
        ensures
            *v == self.value,
    {
        &self.value
    }
}

impl<S> DynCast for Object<S> {
    open spec fn table(&self) -> CastTable {
        self.table
    }

    fn cast_table(&self) -> (t: &CastTable) {
        proof {
            use_type_invariant(&self.table);
        }
        &self.table
    }
}

} // verus!
