use bfv_core::{
    BFVEncoder, BFVEvaluator, BfvEncryptionParametersBuilder, CoefficientModulus, Context,
    Decryptor, Encryptor, Evaluator, KeyGenerator, PlainModulus, SecurityLevel,
};

fn bfv_fixture() -> (Decryptor, BFVEncoder, Encryptor, BFVEvaluator, KeyGenerator) {
    let params = BfvEncryptionParametersBuilder::new()
        .set_poly_modulus_degree(8192)
        .set_coefficient_modulus(
            CoefficientModulus::create(8192, &vec![50, 30, 30, 50, 50]).unwrap(),
        )
        .set_plain_modulus(PlainModulus::batching(8192, 32).unwrap())
        .build()
        .unwrap();

    let ctx = Context::new(&params, false, SecurityLevel::TC128).unwrap();
    let gen = KeyGenerator::new(&ctx).unwrap();

    let encoder = BFVEncoder::new(&ctx).unwrap();

    let public_key = gen.create_public_key();
    let secret_key = gen.secret_key();

    let encryptor = Encryptor::with_public_and_secret_key(&ctx, &public_key, &secret_key).unwrap();
    let decryptor = Decryptor::new(&ctx, &secret_key).unwrap();
    let evaluator = BFVEvaluator::new(&ctx).unwrap();

    (decryptor, encoder, encryptor, evaluator, gen)
}

fn make_vec(encoder: &BFVEncoder) -> Vec<i64> {
    let mut data = vec![];

    for i in 0..encoder.get_slot_count() {
        data.push(encoder.get_slot_count() as i64 / 2i64 - i as i64)
    }

    data
}

fn make_small_vec(encoder: &BFVEncoder) -> Vec<i64> {
    let mut data = vec![];

    for i in 0..encoder.get_slot_count() {
        data.push(16i64 - i as i64 % 32i64);
    }

    data
}

fn make_matrix(encoder: &BFVEncoder) -> Vec<i64> {
    let dim = encoder.get_slot_count();
    let dim_2 = dim / 2;

    let mut matrix = vec![0i64; dim];

    matrix[0] = 1;
    matrix[1] = -2;
    matrix[dim_2] = -1;
    matrix[dim_2 + 1] = 2;

    matrix
}

#[test]
fn can_create_and_destroy_evaluator() {
    let params = BfvEncryptionParametersBuilder::new()
        .set_poly_modulus_degree(8192)
        .set_coefficient_modulus(
            CoefficientModulus::create(8192, &vec![50, 30, 30, 50, 50]).unwrap(),
        )
        .set_plain_modulus(PlainModulus::batching(8192, 20).unwrap())
        .build()
        .unwrap();

    let ctx = Context::new(&params, false, SecurityLevel::TC128).unwrap();

    let evaluator = Evaluator::new(&ctx);

    std::mem::drop(evaluator);
}

#[test]
fn can_negate() {
    let (decryptor, encoder, encryptor, evaluator, _) = bfv_fixture();

    let a = make_vec(&encoder);
    let a_p = encoder.encode_signed(&a).unwrap();
    let a_c = encryptor.encrypt(&a_p).unwrap();

    let b_c = evaluator.evaluator().negate(&a_c).unwrap();

    let b_p = decryptor.decrypt(&b_c).unwrap();
    let b = encoder.decode_signed(&b_p).unwrap();

    assert_eq!(a.len(), b.len());

    for i in 0..a.len() {
        assert_eq!(a[i], -b[i]);
    }
}

#[test]
fn can_negate_inplace() {
    let (decryptor, encoder, encryptor, evaluator, _) = bfv_fixture();

    let a = make_vec(&encoder);
    let a_p = encoder.encode_signed(&a).unwrap();
    let mut a_c = encryptor.encrypt(&a_p).unwrap();

    evaluator.evaluator().negate_inplace(&mut a_c).unwrap();

    let a_p = decryptor.decrypt(&a_c).unwrap();
    let b = encoder.decode_signed(&a_p).unwrap();

    assert_eq!(a.len(), b.len());

    for i in 0..a.len() {
        assert_eq!(a[i], -b[i]);
    }
}

#[test]
fn can_add() {
    let (decryptor, encoder, encryptor, evaluator, _) = bfv_fixture();

    let a = make_vec(&encoder);
    let b = make_vec(&encoder);
    let a_p = encoder.encode_signed(&a).unwrap();
    let b_p = encoder.encode_signed(&b).unwrap();
    let a_c = encryptor.encrypt(&a_p).unwrap();
    let b_c = encryptor.encrypt(&b_p).unwrap();

    let c_c = evaluator.evaluator().add(&a_c, &b_c).unwrap();

    let c_p = decryptor.decrypt(&c_c).unwrap();
    let c = encoder.decode_signed(&c_p).unwrap();

    assert_eq!(a.len(), c.len());
    assert_eq!(b.len(), c.len());

    for i in 0..a.len() {
        assert_eq!(c[i], a[i] + b[i]);
    }
}

#[test]
fn can_add_inplace() {
    let (decryptor, encoder, encryptor, evaluator, _) = bfv_fixture();

    let a = make_vec(&encoder);
    let b = make_vec(&encoder);
    let a_p = encoder.encode_signed(&a).unwrap();
    let b_p = encoder.encode_signed(&b).unwrap();
    let mut a_c = encryptor.encrypt(&a_p).unwrap();
    let b_c = encryptor.encrypt(&b_p).unwrap();

    evaluator.evaluator().add_inplace(&mut a_c, &b_c).unwrap();

    let a_p = decryptor.decrypt(&a_c).unwrap();
    let c = encoder.decode_signed(&a_p).unwrap();

    assert_eq!(a.len(), c.len());
    assert_eq!(b.len(), c.len());

    for i in 0..a.len() {
        assert_eq!(c[i], a[i] + b[i]);
    }
}

#[test]
fn can_add_many() {
    let (decryptor, encoder, encryptor, evaluator, _) = bfv_fixture();

    let a = make_vec(&encoder);
    let b = make_vec(&encoder);
    let c = make_vec(&encoder);
    let d = make_vec(&encoder);
    let a_p = encoder.encode_signed(&a).unwrap();
    let b_p = encoder.encode_signed(&b).unwrap();
    let c_p = encoder.encode_signed(&c).unwrap();
    let d_p = encoder.encode_signed(&d).unwrap();

    let data_c = vec![
        encryptor.encrypt(&a_p).unwrap(),
        encryptor.encrypt(&b_p).unwrap(),
        encryptor.encrypt(&c_p).unwrap(),
        encryptor.encrypt(&d_p).unwrap(),
    ];

    let out_c = evaluator.evaluator().add_many(&data_c).unwrap();

    let out_p = decryptor.decrypt(&out_c).unwrap();
    let out = encoder.decode_signed(&out_p).unwrap();

    assert_eq!(a.len(), out.len());
    assert_eq!(b.len(), out.len());
    assert_eq!(c.len(), out.len());
    assert_eq!(d.len(), out.len());

    for i in 0..a.len() {
        assert_eq!(out[i], a[i] + b[i] + c[i] + d[i]);
    }
}

#[test]
fn can_multiply_many() {
    let (decryptor, encoder, encryptor, evaluator, keygen) = bfv_fixture();

    let relin_keys = keygen.create_relinearization_keys();

    let a = make_small_vec(&encoder);
    let b = make_small_vec(&encoder);
    let c = make_small_vec(&encoder);
    let d = make_small_vec(&encoder);
    let a_p = encoder.encode_signed(&a).unwrap();
    let b_p = encoder.encode_signed(&b).unwrap();
    let c_p = encoder.encode_signed(&c).unwrap();
    let d_p = encoder.encode_signed(&d).unwrap();

    let data_c = vec![
        encryptor.encrypt(&a_p).unwrap(),
        encryptor.encrypt(&b_p).unwrap(),
        encryptor.encrypt(&c_p).unwrap(),
        encryptor.encrypt(&d_p).unwrap(),
    ];

    let out_c = evaluator.evaluator().multiply_many(&data_c, &relin_keys).unwrap();

    let out_p = decryptor.decrypt(&out_c).unwrap();
    let out = encoder.decode_signed(&out_p).unwrap();

    assert_eq!(a.len(), out.len());
    assert_eq!(b.len(), out.len());
    assert_eq!(c.len(), out.len());
    assert_eq!(d.len(), out.len());

    for i in 0..a.len() {
        assert_eq!(out[i], a[i] * b[i] * c[i] * d[i]);
    }
}

#[test]
fn can_sub() {
    let (decryptor, encoder, encryptor, evaluator, _) = bfv_fixture();

    let a = make_vec(&encoder);
    let b = make_vec(&encoder);
    let a_p = encoder.encode_signed(&a).unwrap();
    let b_p = encoder.encode_signed(&b).unwrap();
    let a_c = encryptor.encrypt(&a_p).unwrap();
    let b_c = encryptor.encrypt(&b_p).unwrap();

    let c_c = evaluator.evaluator().sub(&a_c, &b_c).unwrap();

    let c_p = decryptor.decrypt(&c_c).unwrap();
    let c = encoder.decode_signed(&c_p).unwrap();

    assert_eq!(a.len(), c.len());
    assert_eq!(b.len(), c.len());

    for i in 0..a.len() {
        assert_eq!(c[i], a[i] - b[i]);
    }
}

#[test]
fn can_sub_inplace() {
    let (decryptor, encoder, encryptor, evaluator, _) = bfv_fixture();

    let a = make_vec(&encoder);
    let b = make_vec(&encoder);
    let a_p = encoder.encode_signed(&a).unwrap();
    let b_p = encoder.encode_signed(&b).unwrap();
    let mut a_c = encryptor.encrypt(&a_p).unwrap();
    let b_c = encryptor.encrypt(&b_p).unwrap();

    evaluator.evaluator().sub_inplace(&mut a_c, &b_c).unwrap();

    let a_p = decryptor.decrypt(&a_c).unwrap();
    let c = encoder.decode_signed(&a_p).unwrap();

    assert_eq!(a.len(), c.len());
    assert_eq!(b.len(), c.len());

    for i in 0..a.len() {
        assert_eq!(c[i], a[i] - b[i]);
    }
}

#[test]
fn can_multiply() {
    let (decryptor, encoder, encryptor, evaluator, _) = bfv_fixture();

    let a = make_vec(&encoder);
    let b = make_vec(&encoder);
    let a_p = encoder.encode_signed(&a).unwrap();
    let b_p = encoder.encode_signed(&b).unwrap();
    let a_c = encryptor.encrypt(&a_p).unwrap();
    let b_c = encryptor.encrypt(&b_p).unwrap();

    let c_c = evaluator.evaluator().multiply(&a_c, &b_c).unwrap();

    let c_p = decryptor.decrypt(&c_c).unwrap();
    let c = encoder.decode_signed(&c_p).unwrap();

    assert_eq!(a.len(), c.len());
    assert_eq!(b.len(), c.len());

    for i in 0..a.len() {
        assert_eq!(c[i], a[i] * b[i]);
    }
}

#[test]
fn can_multiply_inplace() {
    let (decryptor, encoder, encryptor, evaluator, _) = bfv_fixture();

    let a = make_vec(&encoder);
    let b = make_vec(&encoder);
    let a_p = encoder.encode_signed(&a).unwrap();
    let b_p = encoder.encode_signed(&b).unwrap();
    let mut a_c = encryptor.encrypt(&a_p).unwrap();
    let b_c = encryptor.encrypt(&b_p).unwrap();

    evaluator.evaluator().multiply_inplace(&mut a_c, &b_c).unwrap();

    let a_p = decryptor.decrypt(&a_c).unwrap();
    let c = encoder.decode_signed(&a_p).unwrap();

    assert_eq!(a.len(), c.len());
    assert_eq!(b.len(), c.len());

    for i in 0..a.len() {
        assert_eq!(c[i], a[i] * b[i]);
    }
}

#[test]
fn can_square() {
    let (decryptor, encoder, encryptor, evaluator, _) = bfv_fixture();

    let a = make_vec(&encoder);
    let a_p = encoder.encode_signed(&a).unwrap();
    let a_c = encryptor.encrypt(&a_p).unwrap();

    let b_c = evaluator.evaluator().square(&a_c).unwrap();

    let b_p = decryptor.decrypt(&b_c).unwrap();
    let b = encoder.decode_signed(&b_p).unwrap();

    assert_eq!(a.len(), b.len());

    for i in 0..a.len() {
        assert_eq!(b[i], a[i] * a[i]);
    }
}

#[test]
fn can_square_inplace() {
    let (decryptor, encoder, encryptor, evaluator, _) = bfv_fixture();

    let a = make_vec(&encoder);
    let a_p = encoder.encode_signed(&a).unwrap();
    let mut a_c = encryptor.encrypt(&a_p).unwrap();

    evaluator.evaluator().square_inplace(&mut a_c).unwrap();

    let a_p = decryptor.decrypt(&a_c).unwrap();
    let b = encoder.decode_signed(&a_p).unwrap();

    assert_eq!(a.len(), b.len());

    for i in 0..a.len() {
        assert_eq!(b[i], a[i] * a[i]);
    }
}

#[test]
fn can_relinearize_inplace() {
    let (decryptor, encoder, encryptor, evaluator, keygen) = bfv_fixture();

    let relin_keys = keygen.create_relinearization_keys();

    let a = make_vec(&encoder);
    let a_p = encoder.encode_signed(&a).unwrap();
    let mut a_c = encryptor.encrypt(&a_p).unwrap();
    let mut a_c_2 = encryptor.encrypt(&a_p).unwrap();

    let noise_before = decryptor.invariant_noise_budget(&a_c).unwrap();

    evaluator.evaluator().square_inplace(&mut a_c).unwrap();
    evaluator.relinearize_inplace(&mut a_c, &relin_keys).unwrap();
    evaluator.evaluator().square_inplace(&mut a_c).unwrap();
    evaluator.relinearize_inplace(&mut a_c, &relin_keys).unwrap();

    let relin_noise = noise_before - decryptor.invariant_noise_budget(&a_c).unwrap();

    let noise_before = decryptor.invariant_noise_budget(&a_c_2).unwrap();

    evaluator.evaluator().square_inplace(&mut a_c_2).unwrap();
    evaluator.evaluator().square_inplace(&mut a_c_2).unwrap();

    let no_relin_noise = noise_before - decryptor.invariant_noise_budget(&a_c_2).unwrap();

    assert_eq!(relin_noise < no_relin_noise, true)
}

#[test]
fn can_relinearize() {
    let (decryptor, encoder, encryptor, evaluator, keygen) = bfv_fixture();

    let relin_keys = keygen.create_relinearization_keys();

    let a = make_vec(&encoder);
    let a_p = encoder.encode_signed(&a).unwrap();
    let mut a_c = encryptor.encrypt(&a_p).unwrap();
    let mut a_c_2 = encryptor.encrypt(&a_p).unwrap();

    let noise_before = decryptor.invariant_noise_budget(&a_c).unwrap();

    evaluator.evaluator().square_inplace(&mut a_c).unwrap();
    let mut a_c = evaluator.relinearize(&a_c, &relin_keys).unwrap();
    evaluator.evaluator().square_inplace(&mut a_c).unwrap();
    let a_c = evaluator.relinearize(&a_c, &relin_keys).unwrap();

    let relin_noise = noise_before - decryptor.invariant_noise_budget(&a_c).unwrap();

    let noise_before = decryptor.invariant_noise_budget(&a_c_2).unwrap();

    evaluator.evaluator().square_inplace(&mut a_c_2).unwrap();
    evaluator.evaluator().square_inplace(&mut a_c_2).unwrap();

    let no_relin_noise = noise_before - decryptor.invariant_noise_budget(&a_c_2).unwrap();

    assert_eq!(relin_noise < no_relin_noise, true)
}

#[test]
fn can_exponentiate() {
    let (decryptor, encoder, encryptor, evaluator, keygen) = bfv_fixture();

    let relin_keys = keygen.create_relinearization_keys();

    let a = make_small_vec(&encoder);
    let a_p = encoder.encode_signed(&a).unwrap();
    let a_c = encryptor.encrypt(&a_p).unwrap();

    let c_c = evaluator.evaluator().exponentiate(&a_c, 4, &relin_keys).unwrap();

    let c_p = decryptor.decrypt(&c_c).unwrap();
    let c = encoder.decode_signed(&c_p).unwrap();

    assert_eq!(a.len(), c.len());

    for i in 0..a.len() {
        assert_eq!(c[i], a[i] * a[i] * a[i] * a[i]);
    }
}

#[test]
fn can_exponentiate_inplace() {
    let (decryptor, encoder, encryptor, evaluator, keygen) = bfv_fixture();

    let relin_keys = keygen.create_relinearization_keys();

    let a = make_small_vec(&encoder);
    let a_p = encoder.encode_signed(&a).unwrap();
    let mut a_c = encryptor.encrypt(&a_p).unwrap();

    evaluator.evaluator().exponentiate_inplace(&mut a_c, 4, &relin_keys).unwrap();

    let a_p = decryptor.decrypt(&a_c).unwrap();
    let c = encoder.decode_signed(&a_p).unwrap();

    assert_eq!(a.len(), c.len());

    for i in 0..a.len() {
        assert_eq!(c[i], a[i] * a[i] * a[i] * a[i]);
    }
}

#[test]
fn can_add_plain() {
    let (decryptor, encoder, encryptor, evaluator, _) = bfv_fixture();

    let a = make_vec(&encoder);
    let b = make_vec(&encoder);
    let a_p = encoder.encode_signed(&a).unwrap();
    let b_p = encoder.encode_signed(&b).unwrap();
    let a_c = encryptor.encrypt(&a_p).unwrap();

    let c_c = evaluator.evaluator().add_plain(&a_c, &b_p).unwrap();

    let c_p = decryptor.decrypt(&c_c).unwrap();
    let c = encoder.decode_signed(&c_p).unwrap();

    assert_eq!(a.len(), c.len());
    assert_eq!(b.len(), c.len());

    for i in 0..a.len() {
        assert_eq!(c[i], a[i] + b[i]);
    }
}

#[test]
fn can_add_plain_inplace() {
    let (decryptor, encoder, encryptor, evaluator, _) = bfv_fixture();

    let a = make_vec(&encoder);
    let b = make_vec(&encoder);
    let a_p = encoder.encode_signed(&a).unwrap();
    let b_p = encoder.encode_signed(&b).unwrap();
    let mut a_c = encryptor.encrypt(&a_p).unwrap();

    evaluator.evaluator().add_plain_inplace(&mut a_c, &b_p).unwrap();

    let a_p = decryptor.decrypt(&a_c).unwrap();
    let c = encoder.decode_signed(&a_p).unwrap();

    assert_eq!(a.len(), c.len());
    assert_eq!(b.len(), c.len());

    for i in 0..a.len() {
        assert_eq!(c[i], a[i] + b[i]);
    }
}

#[test]
fn can_sub_plain() {
    let (decryptor, encoder, encryptor, evaluator, _) = bfv_fixture();

    let a = make_vec(&encoder);
    let b = make_vec(&encoder);
    let a_p = encoder.encode_signed(&a).unwrap();
    let b_p = encoder.encode_signed(&b).unwrap();
    let a_c = encryptor.encrypt(&a_p).unwrap();

    let c_c = evaluator.evaluator().sub_plain(&a_c, &b_p).unwrap();

    let c_p = decryptor.decrypt(&c_c).unwrap();
    let c = encoder.decode_signed(&c_p).unwrap();

    assert_eq!(a.len(), c.len());
    assert_eq!(b.len(), c.len());

    for i in 0..a.len() {
        assert_eq!(c[i], a[i] - b[i]);
    }
}

#[test]
fn can_sub_plain_inplace() {
    let (decryptor, encoder, encryptor, evaluator, _) = bfv_fixture();

    let a = make_vec(&encoder);
    let b = make_vec(&encoder);
    let a_p = encoder.encode_signed(&a).unwrap();
    let b_p = encoder.encode_signed(&b).unwrap();
    let mut a_c = encryptor.encrypt(&a_p).unwrap();

    evaluator.evaluator().sub_plain_inplace(&mut a_c, &b_p).unwrap();

    let a_p = decryptor.decrypt(&a_c).unwrap();
    let c = encoder.decode_signed(&a_p).unwrap();

    assert_eq!(a.len(), c.len());
    assert_eq!(b.len(), c.len());

    for i in 0..a.len() {
        assert_eq!(c[i], a[i] - b[i]);
    }
}

#[test]
fn can_multiply_plain() {
    let (decryptor, encoder, encryptor, evaluator, _) = bfv_fixture();

    let a = make_vec(&encoder);
    let b = make_vec(&encoder);
    let a_p = encoder.encode_signed(&a).unwrap();
    let b_p = encoder.encode_signed(&b).unwrap();
    let a_c = encryptor.encrypt(&a_p).unwrap();

    let c_c = evaluator.evaluator().multiply_plain(&a_c, &b_p).unwrap();

    let c_p = decryptor.decrypt(&c_c).unwrap();
    let c = encoder.decode_signed(&c_p).unwrap();

    assert_eq!(a.len(), c.len());
    assert_eq!(b.len(), c.len());

    for i in 0..a.len() {
        assert_eq!(c[i], a[i] * b[i]);
    }
}

#[test]
fn can_multiply_plain_inplace() {
    let (decryptor, encoder, encryptor, evaluator, _) = bfv_fixture();

    let a = make_vec(&encoder);
    let b = make_vec(&encoder);
    let a_p = encoder.encode_signed(&a).unwrap();
    let b_p = encoder.encode_signed(&b).unwrap();
    let mut a_c = encryptor.encrypt(&a_p).unwrap();

    evaluator.evaluator().multiply_plain_inplace(&mut a_c, &b_p).unwrap();

    let a_p = decryptor.decrypt(&a_c).unwrap();
    let c = encoder.decode_signed(&a_p).unwrap();

    assert_eq!(a.len(), c.len());
    assert_eq!(b.len(), c.len());

    for i in 0..a.len() {
        assert_eq!(c[i], a[i] * b[i]);
    }
}

#[test]
fn can_rotate_rows() {
    let (decryptor, encoder, encryptor, evaluator, keygen) = bfv_fixture();

    let galois_keys = keygen.create_galois_keys();

    let a = make_matrix(&encoder);
    let a_p = encoder.encode_signed(&a).unwrap();
    let a_c = encryptor.encrypt(&a_p).unwrap();

    let c_c = evaluator.rotate_rows(&a_c, -1, &galois_keys).unwrap();

    let c_p = decryptor.decrypt(&c_c).unwrap();
    let c = encoder.decode_signed(&c_p).unwrap();

    assert_eq!(a[0], c[1]);
    assert_eq!(a[1], c[2]);
    assert_eq!(a[4096], c[4097]);
    assert_eq!(a[4097], c[4098]);
}

#[test]
fn can_rotate_rows_inplace() {
    let (decryptor, encoder, encryptor, evaluator, keygen) = bfv_fixture();

    let galois_keys = keygen.create_galois_keys();

    let a = make_matrix(&encoder);
    let a_p = encoder.encode_signed(&a).unwrap();
    let mut a_c = encryptor.encrypt(&a_p).unwrap();

    evaluator.rotate_rows_inplace(&mut a_c, -1, &galois_keys).unwrap();

    let a_p = decryptor.decrypt(&a_c).unwrap();
    let c = encoder.decode_signed(&a_p).unwrap();

    assert_eq!(a[0], c[1]);
    assert_eq!(a[1], c[2]);
    assert_eq!(a[4096], c[4097]);
    assert_eq!(a[4097], c[4098]);
}

#[test]
fn can_rotate_columns() {
    let (decryptor, encoder, encryptor, evaluator, keygen) = bfv_fixture();

    let galois_keys = keygen.create_galois_keys();

    let a = make_matrix(&encoder);
    let a_p = encoder.encode_signed(&a).unwrap();
    let a_c = encryptor.encrypt(&a_p).unwrap();

    let c_c = evaluator.rotate_columns(&a_c, &galois_keys).unwrap();

    let c_p = decryptor.decrypt(&c_c).unwrap();
    let c = encoder.decode_signed(&c_p).unwrap();

    assert_eq!(a[0], c[4096]);
    assert_eq!(a[1], c[4097]);
    assert_eq!(a[4096], c[0]);
    assert_eq!(a[4097], c[1]);
}

#[test]
fn can_rotate_columns_inplace() {
    let (decryptor, encoder, encryptor, evaluator, keygen) = bfv_fixture();

    let galois_keys = keygen.create_galois_keys();

    let a = make_matrix(&encoder);
    let a_p = encoder.encode_signed(&a).unwrap();
    let mut a_c = encryptor.encrypt(&a_p).unwrap();

    evaluator.rotate_columns_inplace(&mut a_c, &galois_keys).unwrap();

    let a_p = decryptor.decrypt(&a_c).unwrap();
    let c = encoder.decode_signed(&a_p).unwrap();

    assert_eq!(a[0], c[4096]);
    assert_eq!(a[1], c[4097]);
    assert_eq!(a[4096], c[0]);
    assert_eq!(a[4097], c[1]);
}
