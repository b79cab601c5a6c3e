use scout::error::InvocationError;
use scout::shared::Shared;
use scout::text::string_of;

#[test]
fn shared_values_are_one_value() {
    let a = Shared::new(1u32);
    let b = a.clone();
    *b.borrow_mut().unwrap() = 5;
    assert_eq!(*a.borrow().unwrap(), 5);
    assert_eq!(a.replace(7), Ok(5));
    assert_eq!(*b.borrow().unwrap(), 7);
}

#[test]
fn try_borrow_mut_fails_while_borrowed() {
    let a = Shared::new(String::from("x"));
    let r = a.borrow().unwrap();
    assert!(a.try_borrow_mut().is_err());
    assert!(a.borrow_mut().is_err());
    assert_eq!(a.replace(String::from("y")), Err(String::from("y")));
    assert!(a.borrow().is_ok());
    drop(r);
    assert!(a.try_borrow_mut().is_ok());
    let w = a.borrow_mut().unwrap();
    assert!(a.borrow().is_err());
    drop(w);
    assert_eq!(a.replace(String::from("z")), Ok(String::from("x")));
}

#[test]
fn weak_pointers_follow_the_value() {
    let a = Shared::new(3i32);
    let w = a.get_weak();
    assert_eq!(*Shared::from_weak(&w).ok().unwrap().borrow().unwrap(), 3);
    assert_eq!(*w.to_shared().ok().unwrap().borrow().unwrap(), 3);
    drop(a);
    assert!(w.to_shared().is_err());
}

#[test]
fn invocation_error_other() {
    assert_eq!(InvocationError::other("bad".to_string()), InvocationError::Other("bad".to_string()));
}

#[test]
fn string_of_chars() {
    assert_eq!(string_of(&vec!['a', 'é', 'c']), "aéc");
}
