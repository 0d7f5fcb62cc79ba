use num_traits::ToPrimitive;
use pi_digits::pi::{generator, PiGen};

fn pull_digit(g: &mut PiGen) -> u32 {
    g.next()
        .expect("the digit stream must not end")
        .to_u32()
        .expect("a digit must fit in a u32")
}

#[test]
fn first100digits() {
    let expected: [u32; 100] = [
        3, 1, 4, 1, 5, 9, 2, 6, 5, 3, 5, 8, 9, 7, 9, 3, 2, 3, 8, 4, 6, 2, 6, 4, 3, 3, 8, 3, 2,
        7, 9, 5, 0, 2, 8, 8, 4, 1, 9, 7, 1, 6, 9, 3, 9, 9, 3, 7, 5, 1, 0, 5, 8, 2, 0, 9, 7, 4,
        9, 4, 4, 5, 9, 2, 3, 0, 7, 8, 1, 6, 4, 0, 6, 2, 8, 6, 2, 0, 8, 9, 9, 8, 6, 2, 8, 0, 3,
        4, 8, 2, 5, 3, 4, 2, 1, 1, 7, 0, 6, 7,
    ];
    let mut g = generator();
    let mut generated: Vec<u32> = Vec::new();
    for _ in 0..100 {
        generated.push(pull_digit(&mut g));
    }
    assert_eq!(generated, expected);
}

#[test]
fn term_counter_monotonic_and_bounded() {
    let mut g = generator();
    let mut prev_k = g.term_index().to_u64().expect("counter fits in u64");
    assert_eq!(prev_k, 1);
    for _ in 0..1000u32 {
        let _ = pull_digit(&mut g);
        let k = g.term_index().to_u64().expect("counter fits in u64");
        assert!(k >= prev_k);
        prev_k = k;
    }
    // fewer than 10 terms absorbed per digit on average
    assert!(prev_k - 1 < 10 * 1000);
}

#[test]
fn digit_range_first_3000() {
    let mut g = generator();
    for _ in 0..3000u32 {
        let d = pull_digit(&mut g);
        assert!(d <= 9);
    }
}

#[test]
fn determinism_two_instances() {
    let mut a = generator();
    let mut b = generator();
    for _ in 0..500u32 {
        assert_eq!(pull_digit(&mut a), pull_digit(&mut b));
    }
}

#[test]
fn fresh_instance_restarts_from_the_top() {
    let n = 300usize;
    let mut continuous = generator();
    let mut long_run: Vec<u32> = Vec::new();
    for _ in 0..2 * n {
        long_run.push(pull_digit(&mut continuous));
    }
    let mut first = generator();
    let mut a: Vec<u32> = Vec::new();
    for _ in 0..n {
        a.push(pull_digit(&mut first));
    }
    drop(first);
    let mut second = generator();
    let mut b: Vec<u32> = Vec::new();
    for _ in 0..n {
        b.push(pull_digit(&mut second));
    }
    assert_eq!(a, b);
    assert_eq!(a, long_run[..n]);
}

#[test]
fn scenario_3_then_14159_then_3000_total() {
    let mut g = generator();
    assert_eq!(pull_digit(&mut g), 3);
    let mut next5: Vec<u32> = Vec::new();
    for _ in 0..5 {
        next5.push(pull_digit(&mut g));
    }
    assert_eq!(next5, vec![1, 4, 1, 5, 9]);
    for _ in 6..3000u32 {
        let d = pull_digit(&mut g);
        assert!(d <= 9);
    }
}
