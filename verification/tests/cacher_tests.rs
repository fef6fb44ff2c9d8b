use rust_opengl_learn::cacher::Cacher;
use std::cell::Cell;

#[test]
fn cacher_computes_values() {
    let mut workout = Cacher::new(|x: i32| x + 1);
    assert_eq!(*workout.get(&4), 5);
    assert_eq!(*workout.get(&5), 6);
    assert_eq!(*workout.get(&3), 4);
    assert_eq!(*workout.get(&4), 5);
}

#[test]
fn cacher_keeps_first_value() {
    let counter = Cell::new(0u32);
    let mut cacher = Cacher::new(|x: u32| {
        counter.set(counter.get() + 1);
        x * 10 + counter.get()
    });
    let first = *cacher.get(&2);
    assert_eq!(first, 21);
    // a later request for the same input returns the value kept the first time
    assert_eq!(*cacher.get(&2), 21);
    assert_eq!(*cacher.get(&3), 33);
    assert_eq!(*cacher.get(&2), 21);
}
