use prime_coroutine::{CoroutineStatus, Prime, PrimesCoroutine};

fn discovered(sequence: &Prime) -> Vec<u64> {
    match sequence.status() {
        CoroutineStatus::Undefined => panic!("the slot is never left empty"),
        CoroutineStatus::Created(generator) => generator.get_primes().clone(),
        CoroutineStatus::Ready(generator) => generator.get_primes().clone(),
        CoroutineStatus::Closed(generator) => generator.get_primes().clone(),
    }
}

fn is_prime(n: u64) -> bool {
    n >= 2 && (2..n).all(|d| n % d != 0)
}

#[test]
fn iter_test() {
    let mut result: Vec<u64> = Vec::new();
    let mut prime = Prime::new();
    while let Some(p) = prime.next() {
        result.push(p);
        if p > 20 {
            break;
        }
    }
    let expected: Vec<u64> = vec![2u64, 3u64, 5u64, 7u64, 11u64, 13u64, 17u64, 19u64, 23u64];
    assert_eq!(expected, result);
}

#[test]
fn nine_steps_then_a_tenth() {
    let mut prime = Prime::new();
    let mut values: Vec<u64> = Vec::new();
    for _ in 0..9 {
        values.push(prime.next().unwrap());
    }
    assert_eq!(values, vec![2, 3, 5, 7, 11, 13, 17, 19, 23]);
    let tenth = prime.next().unwrap();
    assert!(tenth > 23);
    assert_eq!(tenth, 29);
}

#[test]
fn first_values_are_the_first_primes() {
    let mut prime = Prime::new();
    let mut values: Vec<u64> = Vec::new();
    for _ in 0..200 {
        values.push(prime.next().unwrap());
    }
    let expected: Vec<u64> = (2..=*values.last().unwrap()).filter(|n| is_prime(*n)).collect();
    assert_eq!(values, expected);
    assert_eq!(values[199], 1223);
}

#[test]
fn thousandth_prime() {
    let mut prime = Prime::new();
    let mut value = 0u64;
    for _ in 0..1000 {
        value = prime.next().unwrap();
    }
    assert_eq!(value, 7919);
}

#[test]
fn list_holds_exactly_what_was_produced() {
    let mut prime = Prime::new();
    assert!(discovered(&prime).is_empty());
    let mut values: Vec<u64> = Vec::new();
    for k in 1..=50usize {
        values.push(prime.next().unwrap());
        let list = discovered(&prime);
        assert_eq!(list.len(), k);
        assert_eq!(list, values);
        assert!(list.windows(2).all(|pair| pair[0] < pair[1]));
    }
}

#[test]
fn fresh_sequence_is_created() {
    let prime = Prime::new();
    assert!(matches!(prime.status(), CoroutineStatus::Created(_)));
}

#[test]
fn first_step_makes_the_sequence_ready() {
    let mut prime = Prime::new();
    assert_eq!(prime.next(), Some(2));
    assert!(matches!(prime.status(), CoroutineStatus::Ready(_)));
    assert_eq!(discovered(&prime), vec![2]);
}

#[test]
fn end_of_range_is_final() {
    let mut prime = Prime::with_limit(10);
    assert_eq!(prime.next(), Some(2));
    assert_eq!(prime.next(), Some(3));
    assert_eq!(prime.next(), Some(5));
    assert_eq!(prime.next(), Some(7));
    assert_eq!(prime.next(), None);
    assert!(matches!(prime.status(), CoroutineStatus::Closed(_)));
    for _ in 0..5 {
        assert_eq!(prime.next(), None);
        assert!(matches!(prime.status(), CoroutineStatus::Closed(_)));
        assert_eq!(discovered(&prime), vec![2, 3, 5, 7]);
    }
}

#[test]
fn eight_bit_range_ends_at_its_last_prime() {
    let mut prime = Prime::with_limit(u8::MAX as u64);
    let mut values: Vec<u64> = Vec::new();
    while let Some(p) = prime.next() {
        assert!(p <= u8::MAX as u64);
        values.push(p);
    }
    let expected: Vec<u64> = (2..=255u64).filter(|n| is_prime(*n)).collect();
    assert_eq!(values, expected);
    assert_eq!(values.len(), 54);
    assert_eq!(*values.last().unwrap(), 251);
    assert_eq!(prime.next(), None);
    assert_eq!(discovered(&prime), expected);
}

#[test]
fn sixteen_bit_range_ends_at_its_last_prime() {
    let mut prime = Prime::with_limit(u16::MAX as u64);
    let mut count = 0usize;
    let mut last = 0u64;
    while let Some(p) = prime.next() {
        assert!(p > last);
        last = p;
        count += 1;
    }
    assert_eq!(count, 6542);
    assert_eq!(last, 65521);
    assert_eq!(prime.next(), None);
}

#[test]
fn status_steps_through_the_phases() {
    let status = CoroutineStatus::Created(PrimesCoroutine::with_limit(3));
    let (status, value) = status.next();
    assert_eq!(value, Some(2));
    assert!(matches!(status, CoroutineStatus::Ready(_)));
    let (status, value) = status.next();
    assert_eq!(value, Some(3));
    assert!(matches!(status, CoroutineStatus::Ready(_)));
    let (status, value) = status.next();
    assert_eq!(value, None);
    assert!(matches!(status, CoroutineStatus::Closed(_)));
    let (status, value) = status.next();
    assert_eq!(value, None);
    match status {
        CoroutineStatus::Closed(generator) => assert_eq!(generator.get_primes(), &vec![2u64, 3]),
        _ => panic!("a closed sequence stays closed"),
    }
}

#[test]
fn empty_slot_produces_nothing() {
    let status = CoroutineStatus::default();
    assert!(matches!(status, CoroutineStatus::Undefined));
    let (status, value) = status.next();
    assert_eq!(value, None);
    assert!(matches!(status, CoroutineStatus::Undefined));
}
