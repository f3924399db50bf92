use rand::rand_core::impls::fill_bytes_via_next;
use rand::{Rng, RngCore};

use dory::messages::{
    FirstReduceChallenge, FirstReduceMessage, FoldScalarsChallenge, ScalarProductMessage,
    SecondReduceChallenge, SecondReduceMessage,
};

struct MockRng {
    next: u64,
}

impl RngCore for MockRng {
    fn next_u32(&mut self) -> u32 {
        self.next_u64() as u32
    }
    fn next_u64(&mut self) -> u64 {
        self.next += 1;
        self.next - 1
    }
    fn fill_bytes(&mut self, dst: &mut [u8]) {
        fill_bytes_via_next(self, dst);
    }
}

fn random_first_reduce_message<R: Rng>(rng: &mut R) -> FirstReduceMessage<u32, u64, u32> {
    FirstReduceMessage {
        d1_left: rng.random(),
        d1_right: rng.random(),
        d2_left: rng.random(),
        d2_right: rng.random(),
        e1_beta: rng.random(),
        e2_beta: rng.random(),
    }
}

fn random_first_reduce_challenge<R: Rng>(rng: &mut R) -> FirstReduceChallenge<u32> {
    FirstReduceChallenge { beta: rng.random(), beta_inverse: rng.random() }
}

fn random_second_reduce_message<R: Rng>(rng: &mut R) -> SecondReduceMessage<u32, u64, u32> {
    SecondReduceMessage {
        c_plus: rng.random(),
        c_minus: rng.random(),
        e1_plus: rng.random(),
        e1_minus: rng.random(),
        e2_plus: rng.random(),
        e2_minus: rng.random(),
    }
}

fn random_second_reduce_challenge<R: Rng>(rng: &mut R) -> SecondReduceChallenge<u32> {
    SecondReduceChallenge { alpha: rng.random(), alpha_inverse: rng.random() }
}

fn random_fold_scalars_challenge<R: Rng>(rng: &mut R) -> FoldScalarsChallenge<u32> {
    FoldScalarsChallenge { gamma: rng.random(), gamma_inverse: rng.random() }
}

fn random_scalar_product_message<R: Rng>(rng: &mut R) -> ScalarProductMessage<u32, u64> {
    ScalarProductMessage { e1: rng.random(), e2: rng.random() }
}

#[test]
fn we_can_generate_sequential_values_from_mock_rng() {
    let mut rng = MockRng { next: 0 };
    assert_eq!(rng.next_u32(), 0);
    assert_eq!(rng.next_u32(), 1);
    assert_eq!(rng.next_u64(), 2);
    assert_eq!(rng.next_u64(), 3);
    let mut buf = [0u8; 10];
    rng.fill_bytes(&mut buf);
    assert_eq!(buf, [4, 0, 0, 0, 0, 0, 0, 0, 5, 0]);
    assert_eq!(rng.random::<u64>(), 6);
    assert_eq!(rng.random::<u32>(), 7);
    assert_eq!(rng.random::<i64>(), 8);
    assert_eq!(rng.random::<i32>(), 9);
}

#[test]
fn we_can_generate_random_messages() {
    let mut rng = MockRng { next: 0 };
    assert_eq!(
        random_first_reduce_message(&mut rng),
        FirstReduceMessage {
            d1_left: 0,
            d1_right: 1,
            d2_left: 2,
            d2_right: 3,
            e1_beta: 4,
            e2_beta: 5,
        }
    );
    assert_eq!(
        random_first_reduce_challenge(&mut rng),
        FirstReduceChallenge { beta: 6, beta_inverse: 7 }
    );
    assert_eq!(
        random_second_reduce_message(&mut rng),
        SecondReduceMessage {
            c_plus: 8,
            c_minus: 9,
            e1_plus: 10,
            e1_minus: 11,
            e2_plus: 12,
            e2_minus: 13,
        }
    );
    assert_eq!(
        random_second_reduce_challenge(&mut rng),
        SecondReduceChallenge { alpha: 14, alpha_inverse: 15 }
    );
    assert_eq!(
        random_fold_scalars_challenge(&mut rng),
        FoldScalarsChallenge { gamma: 16, gamma_inverse: 17 }
    );
    assert_eq!(random_scalar_product_message(&mut rng), ScalarProductMessage { e1: 18, e2: 19 });
}
