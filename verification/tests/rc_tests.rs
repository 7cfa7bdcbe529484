use hyperquark::rc::{Rc, Weak};

#[test]
fn rc_clone_points_to_the_same_value() {
    let a = Rc::new(41u32);
    let b = a.clone();
    assert_eq!(*a.as_ref(), 41);
    assert_eq!(*b.as_ref(), 41);
    assert!(Rc::ptr_eq(&a, &b));
    let c = Rc::new(41u32);
    assert!(!Rc::ptr_eq(&a, &c));
}

#[test]
fn weak_handles_upgrade_while_the_value_lives() {
    let a = Rc::new(String::from("value"));
    let w = Rc::downgrade(&a);
    let up = w.upgrade().expect("value is alive");
    assert_eq!(up.as_ref(), "value");
    let w2 = w.clone();
    drop(up);
    drop(a);
    assert!(w2.upgrade().is_none());
    let empty: Weak<u8> = Weak::new();
    assert!(empty.upgrade().is_none());
}
