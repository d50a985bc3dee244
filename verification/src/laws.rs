//! What holds of every cast table and of every cast.

use vstd::arithmetic::power2::pow2;
use vstd::prelude::*;
use crate::dyn_cast::atomic_cast_outcome;
use crate::dyn_cast::cast_outcome;
use crate::dyn_cast::owned_cast_outcome;
use crate::marker::lemma_of_has;
use crate::marker::AutoTrait;
use crate::marker::MarkerSet;
use crate::path::PathView;
use crate::table::CastTable;
use crate::view_id::BaseView;
use crate::view_id::ViewIdView;

verus! {

/// The castable set of a type that declares `n` interfaces and `m` markers
/// has `1 + (n + 2) * 2^m` members.
pub proof fn law_castable_set_size(table: CastTable)
    requires
        table.wf(),
    ensures
        table.castable_set().finite(),
        table.castable_set().len() == 1 + (table.interfaces().len() + 2) * pow2(
            table.markers().len(),
        ),
        table.castable_set() == table.ids().to_set(),
{
    table.lemma_wf();
    assert(table.castable_set() =~= table.ids().to_set());
    table.ids().unique_seq_to_set();
}

/// The castable set is closed under taking markers away: where a capability
/// is castable with some markers, it is castable with any subset of them.
pub proof fn law_closed_under_marker_removal(
    table: CastTable,
    base: BaseView,
    markers: MarkerSet,
    fewer: MarkerSet,
)
    requires
        table.castable(ViewIdView::Object { base, markers }),
        fewer.subset_of(markers),
    ensures
        table.castable(ViewIdView::Object { base, markers: fewer }),
{
}

/// A cast to the concrete type itself always succeeds and gives the pointer
/// that was cast.
pub proof fn law_cast_to_concrete<P>(table: CastTable, ptr: P)
    ensures
        cast_outcome(table, ptr, ViewIdView::Concrete(table.concrete())) == Some(ptr),
{
}

/// A cast to an interface that was not declared gives nothing, whatever
/// markers are asked for.
pub proof fn law_cast_to_undeclared<P>(
    table: CastTable,
    ptr: P,
    interface: PathView,
    markers: MarkerSet,
)
    requires
        !table.interfaces().contains(interface),
    ensures
        cast_outcome(table, ptr, ViewIdView::Object { base: BaseView::Trait(interface), markers })
            is None,
{
}

/// A cast of an owned pointer that fails hands the pointer back.
pub proof fn law_failed_cast_keeps_pointer<P>(table: CastTable, ptr: P, to: ViewIdView)
    ensures
        owned_cast_outcome(table, ptr, to) matches Err(p) ==> p == ptr,
        atomic_cast_outcome(table, ptr, to) matches Err(p) ==> p == ptr,
        !table.castable(to) ==> owned_cast_outcome(table, ptr, to) == Err::<P, P>(ptr),
        !table.castable(to) ==> atomic_cast_outcome(table, ptr, to) == Err::<P, P>(ptr),
{
}

/// Where cross-thread transfer or safety under concurrent access is not
/// among the declared markers, a cast of a shared-atomic pointer fails for
/// every identifier, the concrete type included.
pub proof fn law_atomic_needs_thread_markers<P>(table: CastTable, ptr: P, to: ViewIdView)
    requires
        !table.markers().contains(AutoTrait::Send) || !table.markers().contains(AutoTrait::Sync),
    ensures
        !table.atomic(),
        atomic_cast_outcome(table, ptr, to) == Err::<P, P>(ptr),
{
    lemma_of_has(table.markers(), AutoTrait::Send);
    lemma_of_has(table.markers(), AutoTrait::Sync);
}

/// Where both thread markers are declared, a cast of a shared-atomic pointer
/// succeeds exactly where a cast of any other pointer does.
pub proof fn law_atomic_with_thread_markers<P>(table: CastTable, ptr: P, to: ViewIdView)
    requires
        table.markers().contains(AutoTrait::Send),
        table.markers().contains(AutoTrait::Sync),
    ensures
        table.atomic(),
        atomic_cast_outcome(table, ptr, to) == owned_cast_outcome(table, ptr, to),
{
    lemma_of_has(table.markers(), AutoTrait::Send);
    lemma_of_has(table.markers(), AutoTrait::Sync);
}

/// A cast to a declared interface, with any of the declared markers, and
/// from there back to the concrete type gives the pointer that was cast
/// first.
pub proof fn law_round_trip<P>(
    table: CastTable,
    ptr: P,
    interface: PathView,
    markers: MarkerSet,
)
    requires
        table.interfaces().contains(interface),
        markers.subset_of(MarkerSet::of(table.markers())),
    ensures
        cast_outcome(table, ptr, ViewIdView::Object { base: BaseView::Trait(interface), markers })
            matches Some(viewed) && cast_outcome(
            table,
            viewed,
            ViewIdView::Concrete(table.concrete()),
        ) == Some(ptr),
{
}

/// A cast between two declared interfaces of one object succeeds in both
/// directions and gives the same pointer.
pub proof fn law_cross_cast<P>(table: CastTable, ptr: P, from: PathView, to: PathView)
    requires
        table.interfaces().contains(from),
        table.interfaces().contains(to),
    ensures
        cast_outcome(
            table,
            ptr,
            ViewIdView::Object { base: BaseView::Trait(to), markers: MarkerSet::spec_empty() },
        ) == Some(ptr),
        cast_outcome(
            table,
            ptr,
            ViewIdView::Object { base: BaseView::Trait(from), markers: MarkerSet::spec_empty() },
        ) == Some(ptr),
{
}

} // verus!
