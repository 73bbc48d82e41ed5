use goose_etl::sieve::sieve_of_eratosthenes;

#[test]
fn test_small_numbers() {
    assert_eq!(sieve_of_eratosthenes(1), vec![]);
    assert_eq!(sieve_of_eratosthenes(2), vec![2]);
    assert_eq!(sieve_of_eratosthenes(3), vec![2, 3]);
}

#[test]
fn test_first_twenty() {
    let expected = vec![2, 3, 5, 7, 11, 13, 17, 19];
    assert_eq!(sieve_of_eratosthenes(20), expected);
}

#[test]
fn test_prime_count() {
    assert_eq!(sieve_of_eratosthenes(100).len(), 25); // There are 25 primes below 100
    assert_eq!(sieve_of_eratosthenes(1000).len(), 168); // There are 168 primes below 1000
}

#[test]
fn test_zero_limit() {
    assert_eq!(sieve_of_eratosthenes(0), vec![]);
}
