use sorosim::counter::CounterContract;

#[test]
fn test_initial_value() {
    let counter = CounterContract::new();
    assert_eq!(counter.get(), 0);
}

#[test]
fn test_increment() {
    let mut counter = CounterContract::new();
    let result = counter.increment();
    assert_eq!(result, 1);
    assert_eq!(counter.get(), 1);
}

#[test]
fn test_multiple_increments() {
    let mut counter = CounterContract::new();
    assert_eq!(counter.increment(), 1);
    assert_eq!(counter.increment(), 2);
    assert_eq!(counter.increment(), 3);
    assert_eq!(counter.get(), 3);
}

#[test]
fn test_decrement() {
    let mut counter = CounterContract::new();
    let result = counter.decrement();
    assert_eq!(result, -1);
    assert_eq!(counter.get(), -1);
}

#[test]
fn test_increment_and_decrement() {
    let mut counter = CounterContract::new();
    counter.increment();
    counter.increment();
    assert_eq!(counter.get(), 2);

    counter.decrement();
    assert_eq!(counter.get(), 1);

    counter.decrement();
    assert_eq!(counter.get(), 0);
}

#[test]
fn test_decrement_below_zero() {
    let mut counter = CounterContract::new();
    counter.decrement();
    counter.decrement();
    counter.decrement();
    assert_eq!(counter.get(), -3);
}

#[test]
fn test_large_sequence() {
    let mut counter = CounterContract::new();
    for i in 1..=10 {
        assert_eq!(counter.increment(), i);
    }
    for i in (5..10).rev() {
        assert_eq!(counter.decrement(), i);
    }
    assert_eq!(counter.get(), 5);
}

#[test]
fn test_persistence() {
    let mut counter = CounterContract::new();
    counter.increment();
    counter.increment();
    counter.increment();
    assert_eq!(counter.get(), 3);
    assert_eq!(counter.get(), 3);
    assert_eq!(counter.increment(), 4);
}

#[test]
fn counter_increment_then_decrement_restores_value() {
    let mut counter = CounterContract::new();
    for _ in 0..7 {
        counter.increment();
    }
    let before = counter.get();
    counter.increment();
    counter.decrement();
    assert_eq!(counter.get(), before);
    counter.decrement();
    counter.increment();
    assert_eq!(counter.get(), before);
}
