use std::rc::Rc;
use std::sync::Arc;

use nxs_interface::dyn_cast::{DynCast, DynCastExt};
use nxs_interface::marker::{AutoTrait, MarkerSet};
use nxs_interface::path::Path;
use nxs_interface::table::CastTable;
use nxs_interface::view_id::ViewId;

/// A type that carries the cast table of its declaration itself.
struct Widget {
    label: &'static str,
    table: CastTable,
}

impl Widget {
    fn new(label: &'static str) -> Widget {
        let table = CastTable::generate(
            "Widget",
            &vec![Path::from_ident("Draw"), Path::from_ident("Click")],
            Some(&vec![AutoTrait::Unpin]),
        );
        Widget { label, table: table.unwrap() }
    }
}

impl DynCast for Widget {
    fn cast_table(&self) -> &CastTable {
        &self.table
    }
}

fn draw() -> ViewId {
    ViewId::interface(Path::from_ident("Draw"), MarkerSet::empty())
}

fn click_unpin() -> ViewId {
    ViewId::interface(Path::from_ident("Click"), MarkerSet::empty().insert(AutoTrait::Unpin))
}

fn scroll() -> ViewId {
    ViewId::interface(Path::from_ident("Scroll"), MarkerSet::empty())
}

#[test]
fn an_implementation_supplies_only_its_table() {
    let w = Widget::new("ok");
    assert!(w.can_cast(&draw()));
    assert!(w.can_cast(&click_unpin()));
    assert!(!w.can_cast(&scroll()));
    assert_eq!(w.castable_types().len(), 9);
    let viewed = w.cast_ref(&draw()).unwrap();
    assert!(std::ptr::eq(viewed, &w));
    assert_eq!(viewed.cast_ref(&click_unpin()).unwrap().label, "ok");
    assert!(w.cast_ref(&scroll()).is_none());
}

#[test]
fn an_implementation_casts_every_pointer_kind() {
    let mut w = Widget::new("a");
    w.cast_mut(&draw()).unwrap().label = "b";
    assert_eq!(w.label, "b");
    assert!(Box::new(Widget::new("c")).cast_box(&click_unpin()).is_ok());
    assert_eq!(Box::new(Widget::new("c")).cast_box(&scroll()).err().unwrap().label, "c");
    let rc = Rc::new(Widget::new("d"));
    assert!(Rc::ptr_eq(&rc.clone().cast_rc(&draw()).ok().unwrap(), &rc));
    // `Unpin` alone does not allow shared-atomic casts
    let arc = Arc::new(Widget::new("e"));
    assert!(Arc::ptr_eq(&arc.clone().cast_arc(&draw()).err().unwrap(), &arc));
}

trait Shape: DynCast {
    fn corners(&self) -> u32;
}

impl Shape for Widget {
    fn corners(&self) -> u32 {
        4
    }
}

#[test]
fn a_trait_object_answers_what_it_can_be_cast_to() {
    let w = Widget::new("f");
    let shape: &dyn Shape = &w;
    assert_eq!(shape.corners(), 4);
    assert!(shape.dyn_can_cast(&draw()));
    assert!(shape.can_cast(&click_unpin()));
    assert!(!shape.dyn_can_cast(&scroll()));
    assert_eq!(shape.castable_types(), w.castable_types());
    assert_eq!(shape.cast_table().name(), "Widget");
    let plain: &dyn DynCast = &w;
    assert!(plain.can_cast(&ViewId::concrete("Widget")));
}

#[test]
fn a_result_may_hold_a_trait_object() {
    let w = Widget::new("g");
    let shape: &dyn Shape = &w;
    let res = nxs_interface::dyn_cast::DynCastRef::from_any_cast_fn(shape, draw());
    assert_eq!(res.cast(&draw()).map(|s| s.corners()), Some(4));
    let res = nxs_interface::dyn_cast::DynCastRef::from_any_cast_fn(shape, draw());
    assert!(res.cast(&scroll()).is_none());
    let boxed: Box<dyn Shape> = Box::new(Widget::new("h"));
    let res = nxs_interface::dyn_cast::DynCastBox::from_any_cast_fn(boxed, draw());
    assert_eq!(res.cast(&draw()).map(|s| s.corners()), Some(4));
}
