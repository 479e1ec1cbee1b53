use blitzar::proofs::field::{FieldId, GrumpkinFq};
use blitzar::proofs::sumcheck::{
    input_ok, num_rounds, prepare, round_challenge, SumcheckDescriptor, SumcheckProof,
};
use blitzar::proofs::SumcheckTranscript;

struct TestTranscript {
    dimensions: Option<(usize, usize)>,
    seen: Vec<Vec<GrumpkinFq>>,
}

impl TestTranscript {
    pub fn new() -> Self {
        Self { dimensions: None, seen: Vec::new() }
    }
}

impl SumcheckTranscript<GrumpkinFq> for TestTranscript {
    fn init(&mut self, num_variables: usize, round_degree: usize) {
        self.dimensions = Some((num_variables, round_degree));
    }

    fn round_challenge(&mut self, polynomial: &[GrumpkinFq]) -> GrumpkinFq {
        self.seen.push(polynomial.to_vec());
        fq(1000 + self.seen.len() as u64)
    }
}

fn fq(x: u64) -> GrumpkinFq {
    GrumpkinFq { limbs: [x, 0, 0, 0] }
}

#[test]
fn an_mle_with_a_single_element_takes_one_round_of_two_coefficients() {
    let mles = [fq(8)];
    let product_table = [(fq(1), 1)];
    let product_terms = [0];
    assert!(input_ok(mles.len(), &product_table, &product_terms, 1));
    let mut transcript = TestTranscript::new();
    let descriptor =
        prepare(&mut transcript, mles.len(), &product_table, &product_terms, 1);
    assert_eq!(
        descriptor,
        SumcheckDescriptor {
            n: 1,
            num_mles: 1,
            num_products: 1,
            num_product_terms: 1,
            round_degree: 1,
            num_rounds: 1,
        }
    );
    assert_eq!(transcript.dimensions, Some((1, 1)));

    let proof = SumcheckProof::from_backend(&descriptor, vec![fq(3)], vec![fq(8), fq(0)]);
    assert_eq!(proof.evaluation_point, vec![fq(3)]);
    assert_eq!(proof.round_polynomials, vec![fq(8), fq(0)]);
}

#[test]
fn an_mle_with_two_elements_takes_one_round() {
    let product_table = [(fq(1), 1)];
    let product_terms = [0];
    assert!(input_ok(2, &product_table, &product_terms, 2));
    let mut transcript = TestTranscript::new();
    let descriptor = prepare(&mut transcript, 2, &product_table, &product_terms, 2);
    assert_eq!(descriptor.num_rounds, 1);
    assert_eq!(descriptor.num_mles, 1);
    assert_eq!(descriptor.round_degree, 1);
    assert_eq!(transcript.dimensions, Some((1, 1)));
}

#[test]
fn multiple_mles_are_the_columns_of_one_matrix() {
    let product_table = [(fq(1), 1), (fq(2), 1)];
    let product_terms = [0, 1];
    assert!(input_ok(2, &product_table, &product_terms, 1));
    let mut transcript = TestTranscript::new();
    let descriptor = prepare(&mut transcript, 2, &product_table, &product_terms, 1);
    assert_eq!(
        descriptor,
        SumcheckDescriptor {
            n: 1,
            num_mles: 2,
            num_products: 2,
            num_product_terms: 2,
            round_degree: 1,
            num_rounds: 1,
        }
    );
}

#[test]
fn four_elements_take_two_rounds() {
    let product_table = [(fq(1), 1)];
    let product_terms = [0];
    assert!(input_ok(4, &product_table, &product_terms, 4));
    let mut transcript = TestTranscript::new();
    let descriptor = prepare(&mut transcript, 4, &product_table, &product_terms, 4);
    assert_eq!(descriptor.num_rounds, 2);
    assert_eq!(descriptor.num_mles, 1);
    assert_eq!(transcript.dimensions, Some((2, 1)));
    let proof = SumcheckProof::from_backend(
        &descriptor,
        vec![fq(1), fq(2)],
        vec![fq(11), fq(51), fq(8), fq(3)],
    );
    assert_eq!(proof.round_polynomials.len(), 4);
    assert_eq!(proof.evaluation_point.len(), 2);
}

#[test]
fn a_product_of_two_mles_has_round_polynomials_of_degree_two() {
    let product_table = [(fq(1), 2)];
    let product_terms = [0, 1];
    assert!(input_ok(4, &product_table, &product_terms, 2));
    let mut transcript = TestTranscript::new();
    let descriptor = prepare(&mut transcript, 4, &product_table, &product_terms, 2);
    assert_eq!(
        descriptor,
        SumcheckDescriptor {
            n: 2,
            num_mles: 2,
            num_products: 1,
            num_product_terms: 2,
            round_degree: 2,
            num_rounds: 1,
        }
    );
    assert_eq!(transcript.dimensions, Some((1, 2)));
}

#[test]
fn the_round_degree_is_that_of_the_longest_product() {
    let product_table = [(fq(1), 1), (fq(5), 3), (fq(7), 2)];
    let product_terms = [0, 1, 1, 2, 0, 2];
    assert!(input_ok(3 * 5, &product_table, &product_terms, 5));
    let mut transcript = TestTranscript::new();
    let descriptor = prepare(&mut transcript, 15, &product_table, &product_terms, 5);
    assert_eq!(
        descriptor,
        SumcheckDescriptor {
            n: 5,
            num_mles: 3,
            num_products: 3,
            num_product_terms: 6,
            round_degree: 3,
            num_rounds: 3,
        }
    );
    assert_eq!(transcript.dimensions, Some((3, 3)));
}

#[test]
fn malformed_input_is_told_before_anything_is_asked_of_the_backend() {
    let table = [(fq(1), 1), (fq(2), 1)];
    // no entries in the extensions
    assert!(!input_ok(2, &table, &[0, 1], 0));
    // no product
    let empty: [(GrumpkinFq, u32); 0] = [];
    assert!(!input_ok(2, &empty, &[], 1));
    // the extensions do not fill the matrix
    assert!(!input_ok(3, &table, &[0, 1], 2));
    // a factor names an extension that is not there
    assert!(!input_ok(2, &table, &[0, 2], 1));
    assert!(!input_ok(4, &table, &[2, 0], 2));
    // the factors are not as many as the products ask for
    assert!(!input_ok(2, &table, &[0], 1));
    assert!(!input_ok(2, &table, &[0, 1, 1], 1));
    // the same input, well formed
    assert!(input_ok(2, &table, &[0, 1], 1));
    assert!(input_ok(4, &table, &[1, 0], 2));
}

#[test]
fn the_rounds_are_one_for_each_variable_and_at_least_one() {
    assert_eq!(num_rounds(1), 1);
    assert_eq!(num_rounds(2), 1);
    assert_eq!(num_rounds(3), 2);
    assert_eq!(num_rounds(4), 2);
    assert_eq!(num_rounds(5), 3);
    assert_eq!(num_rounds(1024), 10);
    assert_eq!(num_rounds(1025), 11);
    assert_eq!(num_rounds(u32::MAX), 32);
}

#[test]
fn the_challenge_of_a_round_comes_from_the_transcript() {
    let mut transcript = TestTranscript::new();
    let polynomial = [fq(8), fq(3)];
    let r = round_challenge(&mut transcript, &polynomial);
    assert_eq!(r, fq(1001));
    let r = round_challenge(&mut transcript, &polynomial[..1]);
    assert_eq!(r, fq(1002));
    assert_eq!(transcript.seen, vec![vec![fq(8), fq(3)], vec![fq(8)]]);
}

#[test]
fn the_field_has_its_identifier() {
    assert_eq!(<GrumpkinFq as FieldId>::field_id(), 1);
}
