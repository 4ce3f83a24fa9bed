use bolos::lazy::Lazy;

#[test]
fn check_lazy() {
    let mut something: Lazy<u32> = Lazy::from_memory(0x0a);

    {
        let something = something.get_mut(|| 33);
        assert_eq!(33, *something);

        *something += 1;
    }

    let something = something.get_mut(|| 33);
    assert_eq!(34, *something);
}

#[test]
fn constructor_runs_exactly_once() {
    // the sentinel memory starts pre-filled with a non-zero, non-marker
    // garbage pattern
    let counter = std::cell::Cell::new(0u32);
    let mut lazy: Lazy<u32> = Lazy::from_memory(0xa5);

    for _ in 0..10 {
        let v = lazy.get(|| {
            counter.set(counter.get() + 1);
            7
        });
        assert_eq!(*v, 7);
    }
    for _ in 0..10 {
        let v = lazy.get_mut(|| {
            counter.set(counter.get() + 1);
            7
        });
        assert_eq!(*v, 7);
    }
    assert_eq!(counter.get(), 1);
}

#[test]
fn mutation_after_init_sticks() {
    let mut lazy: Lazy<u32> = Lazy::new();
    *lazy.get_mut(|| 1) = 99;
    assert_eq!(*lazy.get(|| 1), 99);
}
