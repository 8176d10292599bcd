use prime_coroutine::PrimesCoroutine;

#[test]
fn it_works() {
    let primes = PrimesCoroutine::new();
    if let Ok((_result, primes)) = primes.init() {
        let result = primes.resume();
        match result {
            Ok((value, _)) => {
                assert_eq!(value, 3)
            }
            Err(_) => {
                panic!("closed stream")
            }
        }
    }
}

#[test]
fn fresh_generator_has_found_nothing() {
    let primes = PrimesCoroutine::new();
    assert!(primes.get_primes().is_empty());
}

#[test]
fn init_produces_two_and_records_it() {
    let primes = PrimesCoroutine::new();
    match primes.init() {
        Ok((first, primes)) => {
            assert_eq!(first, 2);
            assert_eq!(primes.get_primes(), &vec![2u64]);
        }
        Err(_) => panic!("the first prime is always within the range"),
    }
}

#[test]
fn resume_appends_each_prime_it_produces() {
    let (first, mut primes) = match PrimesCoroutine::new().init() {
        Ok(started) => started,
        Err(_) => panic!("the first prime is always within the range"),
    };
    let mut produced: Vec<u64> = vec![first];
    for k in 1..=20usize {
        primes = match primes.resume() {
            Ok((value, next)) => {
                produced.push(value);
                next
            }
            Err(_) => panic!("the range of u64 is not spent this early"),
        };
        // the first value and k further ones
        assert_eq!(primes.get_primes().len(), k + 1);
        assert_eq!(primes.get_primes(), &produced);
    }
    let expected: Vec<u64> = vec![
        2, 3, 5, 7, 11, 13, 17, 19, 23, 29, 31, 37, 41, 43, 47, 53, 59, 61, 67, 71, 73,
    ];
    assert_eq!(produced, expected);
    assert!(produced.windows(2).all(|pair| pair[0] < pair[1]));
}

#[test]
fn squares_of_primes_are_passed_over() {
    let (_, mut primes) = match PrimesCoroutine::new().init() {
        Ok(started) => started,
        Err(_) => panic!("the first prime is always within the range"),
    };
    let mut produced: Vec<u64> = vec![2];
    while *produced.last().unwrap() < 170 {
        primes = match primes.resume() {
            Ok((value, next)) => {
                produced.push(value);
                next
            }
            Err(_) => panic!("the range of u64 is not spent this early"),
        };
    }
    for square in [4u64, 9, 25, 49, 121, 169] {
        assert!(!produced.contains(&square));
    }
    for neighbour in [3u64, 7, 23, 47, 113, 127, 167, 173] {
        assert!(produced.contains(&neighbour));
    }
}

#[test]
fn generator_with_smallest_limit_ends_after_two() {
    let primes = PrimesCoroutine::with_limit(2);
    let primes = match primes.init() {
        Ok((first, primes)) => {
            assert_eq!(first, 2);
            primes
        }
        Err(_) => panic!("the first prime is within the limit"),
    };
    match primes.resume() {
        Ok(_) => panic!("no prime lies between 2 and the limit"),
        Err(done) => assert_eq!(done.get_primes(), &vec![2u64]),
    }
}

#[test]
fn limit_that_is_prime_is_produced() {
    let (_, mut primes) = match PrimesCoroutine::with_limit(13).init() {
        Ok(started) => started,
        Err(_) => panic!("the first prime is within the limit"),
    };
    let mut last = 2u64;
    let done = loop {
        primes = match primes.resume() {
            Ok((value, next)) => {
                assert!(value > last);
                assert!(value <= 13);
                last = value;
                next
            }
            Err(done) => break done,
        };
    };
    assert_eq!(last, 13);
    assert_eq!(done.get_primes(), &vec![2u64, 3, 5, 7, 11, 13]);
}

#[test]
fn completed_generator_lists_every_prime_of_its_range() {
    let (_, mut primes) = match PrimesCoroutine::with_limit(30).init() {
        Ok(started) => started,
        Err(_) => panic!("the first prime is within the limit"),
    };
    let done = loop {
        primes = match primes.resume() {
            Ok((_, next)) => next,
            Err(done) => break done,
        };
    };
    assert_eq!(done.get_primes(), &vec![2u64, 3, 5, 7, 11, 13, 17, 19, 23, 29]);
}
