use nxs_interface::marker::{AutoTrait, MarkerSet};
use nxs_interface::path::Path;
use nxs_interface::view_id::{Base, ViewId};

fn set(list: &[AutoTrait]) -> MarkerSet {
    MarkerSet::from_list(&list.to_vec())
}

#[test]
fn constructors_build_the_variants() {
    assert_eq!(ViewId::concrete("S"), ViewId::Concrete("S".to_string()));
    assert_eq!(
        ViewId::any(set(&[AutoTrait::Send])),
        ViewId::Object { base: Base::Any, markers: set(&[AutoTrait::Send]) }
    );
    assert_eq!(
        ViewId::dyn_cast(set(&[])),
        ViewId::Object { base: Base::DynCast, markers: MarkerSet::empty() }
    );
    assert_eq!(
        ViewId::interface(Path::from_ident("X"), set(&[AutoTrait::Unpin])),
        ViewId::Object {
            base: Base::Trait(Path::from_ident("X")),
            markers: set(&[AutoTrait::Unpin])
        }
    );
    assert_eq!(
        ViewId::thread_safe_any(),
        ViewId::Object { base: Base::Any, markers: set(&[AutoTrait::Send, AutoTrait::Sync]) }
    );
}

#[test]
fn same_tells_views_apart() {
    let ids = [
        ViewId::concrete("S"),
        ViewId::concrete("T"),
        ViewId::any(set(&[])),
        ViewId::any(set(&[AutoTrait::Send])),
        ViewId::any(set(&[AutoTrait::Sync])),
        ViewId::dyn_cast(set(&[])),
        ViewId::dyn_cast(set(&[AutoTrait::Send])),
        ViewId::interface(Path::from_ident("S"), set(&[])),
        ViewId::interface(Path::from_ident("Any"), set(&[])),
        ViewId::interface(Path::from_ident("X"), set(&[AutoTrait::Send])),
    ];
    for (i, a) in ids.iter().enumerate() {
        for (j, b) in ids.iter().enumerate() {
            assert_eq!(a.same(b), i == j);
            assert_eq!(a == b, i == j);
        }
    }
}

#[test]
fn base_same_tells_capabilities_apart() {
    let bases = [
        Base::Any,
        Base::DynCast,
        Base::Trait(Path::from_ident("Any")),
        Base::Trait(Path::from_ident("DynCast")),
    ];
    for (i, a) in bases.iter().enumerate() {
        for (j, b) in bases.iter().enumerate() {
            assert_eq!(a.same(b), i == j);
        }
    }
}

#[test]
fn duplicate_names_the_same_view() {
    for id in [
        ViewId::concrete("S"),
        ViewId::any(set(&[AutoTrait::Send, AutoTrait::Sync])),
        ViewId::dyn_cast(set(&[AutoTrait::Unpin])),
        ViewId::interface(Path::from_ident("X"), set(&[])),
    ] {
        assert_eq!(id.duplicate(), id);
        assert!(id.duplicate().same(&id));
    }
    assert_eq!(Base::Trait(Path::from_ident("X")).duplicate(), Base::Trait(Path::from_ident("X")));
}
