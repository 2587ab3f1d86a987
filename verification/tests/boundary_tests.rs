use bfv_core::{
    BFVEncoder, BFVEvaluator, BfvEncryptionParametersBuilder, CoefficientModulus, Context,
    Decryptor, Encryptor, Error, Evaluator, KeyGenerator, PlainModulus, SecurityLevel,
};

fn context_with(plain_bits: u64, expand_mod_chain: bool) -> Context {
    let params = BfvEncryptionParametersBuilder::new()
        .set_poly_modulus_degree(8192)
        .set_coefficient_modulus(
            CoefficientModulus::create(8192, &vec![50, 30, 30, 50, 50]).unwrap(),
        )
        .set_plain_modulus(PlainModulus::batching(8192, plain_bits).unwrap())
        .build()
        .unwrap();

    Context::new(&params, expand_mod_chain, SecurityLevel::TC128).unwrap()
}

fn ramp(n: usize) -> Vec<i64> {
    let mut data = vec![];
    for i in 0..n {
        data.push(16i64 - i as i64 % 32i64);
    }
    data
}

#[test]
fn rotation_step_out_of_range_fails() {
    let ctx = context_with(32, false);
    let gen = KeyGenerator::new(&ctx).unwrap();
    let encoder = BFVEncoder::new(&ctx).unwrap();
    let encryptor =
        Encryptor::with_public_and_secret_key(&ctx, &gen.create_public_key(), &gen.secret_key())
            .unwrap();
    let evaluator = BFVEvaluator::new(&ctx).unwrap();
    let galois_keys = gen.create_galois_keys();

    let a_p = encoder.encode_signed(&ramp(8192)).unwrap();
    let a_c = encryptor.encrypt(&a_p).unwrap();

    // N/2 - 1 = 4095 is the largest legal step in either direction.
    assert!(evaluator.rotate_rows(&a_c, 4095, &galois_keys).is_ok());
    assert!(evaluator.rotate_rows(&a_c, -4095, &galois_keys).is_ok());
    assert_eq!(
        evaluator.rotate_rows(&a_c, 4096, &galois_keys).err(),
        Some(Error::InvalidArgument)
    );
    assert_eq!(
        evaluator.rotate_rows(&a_c, -4096, &galois_keys).err(),
        Some(Error::InvalidArgument)
    );
}

#[test]
fn rotation_by_zero_is_identity() {
    let ctx = context_with(32, false);
    let gen = KeyGenerator::new(&ctx).unwrap();
    let encoder = BFVEncoder::new(&ctx).unwrap();
    let encryptor =
        Encryptor::with_public_and_secret_key(&ctx, &gen.create_public_key(), &gen.secret_key())
            .unwrap();
    let decryptor = Decryptor::new(&ctx, &gen.secret_key()).unwrap();
    let evaluator = BFVEvaluator::new(&ctx).unwrap();
    let galois_keys = gen.create_galois_keys();

    let a = ramp(8192);
    let a_p = encoder.encode_signed(&a).unwrap();
    let a_c = encryptor.encrypt(&a_p).unwrap();

    let c_c = evaluator.rotate_rows(&a_c, 0, &galois_keys).unwrap();
    let c = encoder.decode_signed(&decryptor.decrypt(&c_c).unwrap()).unwrap();

    assert_eq!(a, c);
}

#[test]
fn rotate_rows_then_back_restores_vector() {
    let ctx = context_with(32, false);
    let gen = KeyGenerator::new(&ctx).unwrap();
    let encoder = BFVEncoder::new(&ctx).unwrap();
    let encryptor =
        Encryptor::with_public_and_secret_key(&ctx, &gen.create_public_key(), &gen.secret_key())
            .unwrap();
    let decryptor = Decryptor::new(&ctx, &gen.secret_key()).unwrap();
    let evaluator = BFVEvaluator::new(&ctx).unwrap();
    let galois_keys = gen.create_galois_keys();

    let a = ramp(8192);
    let a_p = encoder.encode_signed(&a).unwrap();
    let a_c = encryptor.encrypt(&a_p).unwrap();

    let r1 = evaluator.rotate_rows(&a_c, 17, &galois_keys).unwrap();
    let r2 = evaluator.rotate_rows(&r1, -17, &galois_keys).unwrap();
    let back = encoder.decode_signed(&decryptor.decrypt(&r2).unwrap()).unwrap();

    assert_eq!(a, back);
}

#[test]
fn rotate_columns_twice_restores_vector() {
    let ctx = context_with(32, false);
    let gen = KeyGenerator::new(&ctx).unwrap();
    let encoder = BFVEncoder::new(&ctx).unwrap();
    let encryptor =
        Encryptor::with_public_and_secret_key(&ctx, &gen.create_public_key(), &gen.secret_key())
            .unwrap();
    let decryptor = Decryptor::new(&ctx, &gen.secret_key()).unwrap();
    let evaluator = BFVEvaluator::new(&ctx).unwrap();
    let galois_keys = gen.create_galois_keys();

    let a = ramp(8192);
    let a_p = encoder.encode_signed(&a).unwrap();
    let a_c = encryptor.encrypt(&a_p).unwrap();

    let r1 = evaluator.rotate_columns(&a_c, &galois_keys).unwrap();
    let r2 = evaluator.rotate_columns(&r1, &galois_keys).unwrap();
    let back = encoder.decode_signed(&decryptor.decrypt(&r2).unwrap()).unwrap();

    assert_eq!(a, back);
}

#[test]
fn operations_across_contexts_fail() {
    let ctx_a = context_with(32, false);
    let ctx_b = context_with(20, false);

    let gen_a = KeyGenerator::new(&ctx_a).unwrap();
    let gen_b = KeyGenerator::new(&ctx_b).unwrap();
    let encoder_a = BFVEncoder::new(&ctx_a).unwrap();
    let encoder_b = BFVEncoder::new(&ctx_b).unwrap();
    let encryptor_a = Encryptor::with_public_and_secret_key(
        &ctx_a,
        &gen_a.create_public_key(),
        &gen_a.secret_key(),
    )
    .unwrap();
    let encryptor_b = Encryptor::with_public_and_secret_key(
        &ctx_b,
        &gen_b.create_public_key(),
        &gen_b.secret_key(),
    )
    .unwrap();
    let evaluator = BFVEvaluator::new(&ctx_a).unwrap();

    let a_c = encryptor_a.encrypt(&encoder_a.encode_signed(&ramp(8192)).unwrap()).unwrap();
    let b_c = encryptor_b.encrypt(&encoder_b.encode_signed(&ramp(8192)).unwrap()).unwrap();

    assert_eq!(evaluator.evaluator().add(&a_c, &b_c).err(), Some(Error::InvalidOperation));
    assert_eq!(
        evaluator.evaluator().multiply(&a_c, &b_c).err(),
        Some(Error::InvalidOperation)
    );
    assert_eq!(evaluator.evaluator().negate(&b_c).err(), Some(Error::InvalidOperation));
}

#[test]
fn keys_from_another_context_fail() {
    let ctx_a = context_with(32, false);
    let ctx_b = context_with(20, false);

    let gen_a = KeyGenerator::new(&ctx_a).unwrap();
    let gen_b = KeyGenerator::new(&ctx_b).unwrap();
    let encoder_a = BFVEncoder::new(&ctx_a).unwrap();
    let encryptor_a = Encryptor::with_public_and_secret_key(
        &ctx_a,
        &gen_a.create_public_key(),
        &gen_a.secret_key(),
    )
    .unwrap();
    let evaluator = BFVEvaluator::new(&ctx_a).unwrap();

    let a_c = encryptor_a.encrypt(&encoder_a.encode_signed(&ramp(8192)).unwrap()).unwrap();
    let sq = evaluator.evaluator().square(&a_c).unwrap();

    assert_eq!(
        evaluator.relinearize(&sq, &gen_b.create_relinearization_keys()).err(),
        Some(Error::KeyMismatch)
    );
    assert_eq!(
        evaluator.rotate_rows(&a_c, 1, &gen_b.create_galois_keys()).err(),
        Some(Error::KeyMismatch)
    );
    assert_eq!(
        evaluator
            .evaluator()
            .exponentiate(&a_c, 4, &gen_b.create_relinearization_keys())
            .err(),
        Some(Error::KeyMismatch)
    );
    assert!(Decryptor::new(&ctx_a, &gen_b.secret_key()).is_err());
}

#[test]
fn add_many_rejects_empty_list() {
    let ctx = context_with(32, false);
    let evaluator = Evaluator::new(&ctx).unwrap();

    assert_eq!(evaluator.add_many(&vec![]).err(), Some(Error::InvalidArgument));
}

#[test]
fn multiply_many_rejects_empty_list() {
    let ctx = context_with(32, false);
    let gen = KeyGenerator::new(&ctx).unwrap();
    let evaluator = Evaluator::new(&ctx).unwrap();

    assert_eq!(
        evaluator.multiply_many(&vec![], &gen.create_relinearization_keys()).err(),
        Some(Error::InvalidArgument)
    );
}

#[test]
fn exponentiate_rejects_zero_exponent() {
    let ctx = context_with(32, false);
    let gen = KeyGenerator::new(&ctx).unwrap();
    let encoder = BFVEncoder::new(&ctx).unwrap();
    let encryptor =
        Encryptor::with_public_and_secret_key(&ctx, &gen.create_public_key(), &gen.secret_key())
            .unwrap();
    let evaluator = Evaluator::new(&ctx).unwrap();

    let a_c = encryptor.encrypt(&encoder.encode_signed(&ramp(8192)).unwrap()).unwrap();

    assert_eq!(
        evaluator.exponentiate(&a_c, 0, &gen.create_relinearization_keys()).err(),
        Some(Error::InvalidArgument)
    );
}

#[test]
fn multiply_by_transparent_plaintext_fails() {
    let ctx = context_with(32, false);
    let gen = KeyGenerator::new(&ctx).unwrap();
    let encoder = BFVEncoder::new(&ctx).unwrap();
    let encryptor =
        Encryptor::with_public_and_secret_key(&ctx, &gen.create_public_key(), &gen.secret_key())
            .unwrap();
    let evaluator = Evaluator::new(&ctx).unwrap();

    let a_c = encryptor.encrypt(&encoder.encode_signed(&ramp(8192)).unwrap()).unwrap();
    let zero_p = encoder.encode_unsigned(&vec![0u64; 8192]).unwrap();

    assert_eq!(evaluator.multiply_plain(&a_c, &zero_p).err(), Some(Error::InvalidOperation));
}

#[test]
fn multiplication_grows_size_and_relinearization_resets_it() {
    let ctx = context_with(32, false);
    let gen = KeyGenerator::new(&ctx).unwrap();
    let encoder = BFVEncoder::new(&ctx).unwrap();
    let encryptor =
        Encryptor::with_public_and_secret_key(&ctx, &gen.create_public_key(), &gen.secret_key())
            .unwrap();
    let evaluator = BFVEvaluator::new(&ctx).unwrap();

    let a_c = encryptor.encrypt(&encoder.encode_signed(&ramp(8192)).unwrap()).unwrap();
    assert_eq!(a_c.size(), 2);

    let sq = evaluator.evaluator().square(&a_c).unwrap();
    assert_eq!(sq.size(), 3);

    let prod = evaluator.evaluator().multiply(&sq, &a_c).unwrap();
    assert_eq!(prod.size(), 4);

    let relin_keys = gen.create_relinearization_keys();
    // One component key reduces a size-3 ciphertext but not a size-4 one.
    assert_eq!(evaluator.relinearize(&prod, &relin_keys).err(), Some(Error::KeyMismatch));
    let red = evaluator.relinearize(&sq, &relin_keys).unwrap();
    assert_eq!(red.size(), 2);
}

#[test]
fn mod_switch_walks_the_chain_and_stops_at_the_end() {
    let ctx = context_with(32, true);
    let gen = KeyGenerator::new(&ctx).unwrap();
    let encoder = BFVEncoder::new(&ctx).unwrap();
    let encryptor =
        Encryptor::with_public_and_secret_key(&ctx, &gen.create_public_key(), &gen.secret_key())
            .unwrap();
    let decryptor = Decryptor::new(&ctx, &gen.secret_key()).unwrap();
    let evaluator = Evaluator::new(&ctx).unwrap();

    let a = ramp(8192);
    let mut a_c = encryptor.encrypt(&encoder.encode_signed(&a).unwrap()).unwrap();
    // The chain has five moduli, so a fresh ciphertext sits at level 4.
    assert_eq!(a_c.chain_level(), 4);

    for expected in [3u64, 2, 1, 0] {
        evaluator.mod_switch_to_next_inplace(&mut a_c).unwrap();
        assert_eq!(a_c.chain_level(), expected);
    }
    assert_eq!(evaluator.mod_switch_to_next(&a_c).err(), Some(Error::InvalidOperation));

    let back = encoder.decode_signed(&decryptor.decrypt(&a_c).unwrap()).unwrap();
    assert_eq!(a, back);
}

#[test]
fn mod_switch_fails_without_expanded_chain() {
    let ctx = context_with(32, false);
    let gen = KeyGenerator::new(&ctx).unwrap();
    let encoder = BFVEncoder::new(&ctx).unwrap();
    let encryptor =
        Encryptor::with_public_and_secret_key(&ctx, &gen.create_public_key(), &gen.secret_key())
            .unwrap();
    let evaluator = Evaluator::new(&ctx).unwrap();

    let a_c = encryptor.encrypt(&encoder.encode_signed(&ramp(8192)).unwrap()).unwrap();
    assert_eq!(a_c.chain_level(), 0);
    assert_eq!(evaluator.mod_switch_to_next(&a_c).err(), Some(Error::InvalidOperation));
}

#[test]
fn mod_switch_rejects_levels_mixing() {
    let ctx = context_with(32, true);
    let gen = KeyGenerator::new(&ctx).unwrap();
    let encoder = BFVEncoder::new(&ctx).unwrap();
    let encryptor =
        Encryptor::with_public_and_secret_key(&ctx, &gen.create_public_key(), &gen.secret_key())
            .unwrap();
    let evaluator = Evaluator::new(&ctx).unwrap();

    let a_c = encryptor.encrypt(&encoder.encode_signed(&ramp(8192)).unwrap()).unwrap();
    let switched = evaluator.mod_switch_to_next(&a_c).unwrap();

    assert_eq!(evaluator.add(&a_c, &switched).err(), Some(Error::InvalidOperation));
}

#[test]
fn plaintext_mod_switch_requires_ntt_form() {
    let ctx = context_with(32, true);
    let encoder = BFVEncoder::new(&ctx).unwrap();
    let evaluator = Evaluator::new(&ctx).unwrap();

    // Batched plaintexts are produced in coefficient form, which the
    // plaintext modulus switch refuses.
    let p = encoder.encode_signed(&ramp(8192)).unwrap();
    assert_eq!(evaluator.mod_switch_to_next_plaintext(&p).err(), Some(Error::InvalidOperation));
}

#[test]
fn exponentiate_matches_chain_of_multiplications() {
    let ctx = context_with(32, false);
    let gen = KeyGenerator::new(&ctx).unwrap();
    let encoder = BFVEncoder::new(&ctx).unwrap();
    let encryptor =
        Encryptor::with_public_and_secret_key(&ctx, &gen.create_public_key(), &gen.secret_key())
            .unwrap();
    let decryptor = Decryptor::new(&ctx, &gen.secret_key()).unwrap();
    let evaluator = BFVEvaluator::new(&ctx).unwrap();
    let relin_keys = gen.create_relinearization_keys();

    let a_c = encryptor.encrypt(&encoder.encode_signed(&ramp(8192)).unwrap()).unwrap();

    let by_exp = evaluator.evaluator().exponentiate(&a_c, 5, &relin_keys).unwrap();

    let mut by_mul = a_c.clone();
    for _ in 0..4 {
        evaluator.evaluator().multiply_inplace(&mut by_mul, &a_c).unwrap();
        evaluator.relinearize_inplace(&mut by_mul, &relin_keys).unwrap();
    }

    let d_exp = encoder.decode_signed(&decryptor.decrypt(&by_exp).unwrap()).unwrap();
    let d_mul = encoder.decode_signed(&decryptor.decrypt(&by_mul).unwrap()).unwrap();

    assert_eq!(d_exp, d_mul);
}

#[test]
fn fresh_noise_budget_reflects_parameter_headroom() {
    let ctx = context_with(32, false);
    let gen = KeyGenerator::new(&ctx).unwrap();
    let encoder = BFVEncoder::new(&ctx).unwrap();
    let encryptor =
        Encryptor::with_public_and_secret_key(&ctx, &gen.create_public_key(), &gen.secret_key())
            .unwrap();
    let decryptor = Decryptor::new(&ctx, &gen.secret_key()).unwrap();

    let a_c = encryptor.encrypt(&encoder.encode_signed(&ramp(8192)).unwrap()).unwrap();

    // 210 bits of coefficient modulus, a 32-bit plaintext modulus, one
    // bit of margin.
    assert_eq!(decryptor.invariant_noise_budget(&a_c).unwrap(), 210 - 32 - 1);
}

#[test]
fn unsigned_addition_wraps_modulo_plain_modulus() {
    let ctx = context_with(20, false);
    let gen = KeyGenerator::new(&ctx).unwrap();
    let encoder = BFVEncoder::new(&ctx).unwrap();
    let encryptor =
        Encryptor::with_public_and_secret_key(&ctx, &gen.create_public_key(), &gen.secret_key())
            .unwrap();
    let decryptor = Decryptor::new(&ctx, &gen.secret_key()).unwrap();
    let evaluator = Evaluator::new(&ctx).unwrap();

    // The 20-bit batching modulus for degree 8192 is 1032193.
    let a_c = encryptor.encrypt(&encoder.encode_unsigned(&vec![1032192u64]).unwrap()).unwrap();
    let b_c = encryptor.encrypt(&encoder.encode_unsigned(&vec![5u64]).unwrap()).unwrap();

    let sum = evaluator.add(&a_c, &b_c).unwrap();
    let out = encoder.decode_unsigned(&decryptor.decrypt(&sum).unwrap()).unwrap();

    assert_eq!(out, vec![4u64]);
}

#[test]
fn decryption_fails_when_noise_budget_is_exhausted() {
    let ctx = context_with(32, false);
    let gen = KeyGenerator::new(&ctx).unwrap();
    let encoder = BFVEncoder::new(&ctx).unwrap();
    let encryptor =
        Encryptor::with_public_and_secret_key(&ctx, &gen.create_public_key(), &gen.secret_key())
            .unwrap();
    let decryptor = Decryptor::new(&ctx, &gen.secret_key()).unwrap();
    let evaluator = Evaluator::new(&ctx).unwrap();

    let mut a_c = encryptor.encrypt(&encoder.encode_signed(&vec![1i64]).unwrap()).unwrap();

    // Unrelinearized squaring doubles the size, so its noise cost grows
    // geometrically; a handful of squarings drains the whole budget.
    for _ in 0..8 {
        evaluator.square_inplace(&mut a_c).unwrap();
    }

    assert_eq!(decryptor.invariant_noise_budget(&a_c).unwrap(), 0);
    assert_eq!(decryptor.decrypt(&a_c).err(), Some(Error::InvalidOperation));
}
