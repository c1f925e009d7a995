use transaction_codec::codec::check_identity;
use transaction_codec::digest::{
    absorb_bytes, absorb_field_bytes, compute_deploy_digest, compute_execute_digest,
    compute_fee_digest, mix_word, DIGEST_BASIS,
};
use transaction_codec::error::{CodecError, ConstructionError, Field, Variant};
use transaction_codec::transaction::{
    Deployment, Execution, Fee, Owner, Transaction, TransactionID, MAX_TRANSACTION_SIZE,
};

fn minimal_deploy() -> Transaction {
    Transaction::from_deployment(
        Owner { bytes: vec![0xAA] },
        Deployment { bytes: vec![0xBB] },
        Fee { bytes: vec![0xCC] },
    )
    .unwrap()
}

fn feeless_execute() -> Transaction {
    Transaction::from_execution(Execution { bytes: vec![7, 8, 9] }, None).unwrap()
}

fn samples() -> Vec<Transaction> {
    vec![
        minimal_deploy(),
        feeless_execute(),
        Transaction::from_execution(Execution { bytes: vec![7, 8, 9] }, Some(Fee { bytes: vec![5] }))
            .unwrap(),
        Transaction::from_execution(Execution { bytes: vec![7, 8, 9] }, Some(Fee { bytes: vec![] }))
            .unwrap(),
        Transaction::from_fee(Fee { bytes: vec![1, 2] }).unwrap(),
        Transaction::from_deployment(
            Owner { bytes: vec![] },
            Deployment { bytes: vec![0; 1000] },
            Fee { bytes: vec![] },
        )
        .unwrap(),
    ]
}

#[test]
fn deploy_encoding_is_exact() {
    let t = minimal_deploy();
    assert_eq!(t.id(), TransactionID { value: 0xf40b_4b2e_c783_1845 });
    let bytes = t.write_le().unwrap();
    assert_eq!(
        bytes,
        vec![
            1, 0, 69, 24, 131, 199, 46, 75, 11, 244, 1, 0, 0, 0, 170, 1, 0, 0, 0, 187, 1, 0, 0, 0,
            204
        ]
    );
    assert_eq!(&bytes[..2], &[0x01, 0x00]);
    assert_eq!(&bytes[2..10], &t.id().value.to_le_bytes());
    assert_eq!(Transaction::read_le(&bytes), Ok(t));
}

#[test]
fn execute_without_fee_writes_zero_presence_byte() {
    let t = feeless_execute();
    let bytes = t.write_le().unwrap();
    assert_eq!(bytes, vec![1, 1, 147, 187, 210, 137, 45, 252, 61, 252, 3, 0, 0, 0, 7, 8, 9, 0]);
    // The execution ends at 10 + 4 + 3; the presence byte follows it.
    assert_eq!(bytes[17], 0x00);
    assert_eq!(bytes.len(), 18);
    match Transaction::read_le(&bytes).unwrap() {
        Transaction::Execute(id, execution, fee) => {
            assert_eq!(id.value, 0xfc3d_fc2d_89d2_bb93);
            assert_eq!(execution.bytes, vec![7, 8, 9]);
            assert_eq!(fee, None);
        }
        other => panic!("decoded {:?}", other),
    }
}

#[test]
fn execute_with_fee_encoding_is_exact() {
    let t = Transaction::from_execution(
        Execution { bytes: vec![7, 8, 9] },
        Some(Fee { bytes: vec![5] }),
    )
    .unwrap();
    assert_eq!(
        t.write_le().unwrap(),
        vec![1, 1, 34, 77, 84, 97, 38, 88, 180, 117, 3, 0, 0, 0, 7, 8, 9, 1, 1, 0, 0, 0, 5]
    );
}

#[test]
fn fee_encoding_is_exact() {
    let t = Transaction::from_fee(Fee { bytes: vec![1, 2] }).unwrap();
    assert_eq!(t.variant(), Variant::Fee);
    assert_eq!(
        t.write_le().unwrap(),
        vec![1, 2, 170, 170, 6, 84, 144, 96, 106, 158, 2, 0, 0, 0, 1, 2]
    );
}

#[test]
fn digest_values_are_exact() {
    assert_eq!(mix_word(DIGEST_BASIS, 0), 0xaf63_bd4c_8601_b7df);
    assert_eq!(absorb_bytes(17, &[]), 17);
    assert_eq!(compute_deploy_digest(&[0xAA], &[0xBB], &[0xCC]), 0xf40b_4b2e_c783_1845);
    assert_eq!(compute_execute_digest(&[7, 8, 9], None), 0xfc3d_fc2d_89d2_bb93);
    assert_eq!(compute_execute_digest(&[7, 8, 9], Some(&[5][..])), 0x75b4_5826_6154_4d22);
    assert_eq!(compute_execute_digest(&[7, 8, 9], Some(&[][..])), 0x700b_ae61_3111_d7a0);
    assert_eq!(compute_fee_digest(&[1, 2]), 0x9e6a_6090_5406_aaaa);
}

#[test]
fn round_trip_on_samples() {
    for t in samples() {
        let bytes = t.write_le().unwrap();
        assert_eq!(Transaction::read_le(&bytes), Ok(t.clone()));
        assert_eq!(Transaction::read_le(&bytes).unwrap().id(), t.id());
    }
}

#[test]
fn canonical_form_on_samples() {
    for t in samples() {
        let bytes = t.write_le().unwrap();
        let again = Transaction::read_le(&bytes).unwrap().write_le().unwrap();
        assert_eq!(again, bytes);
    }
}

#[test]
fn bytes_after_the_transaction_are_not_read() {
    let t = minimal_deploy();
    let mut bytes = t.write_le().unwrap();
    bytes.extend_from_slice(&[9, 9, 9]);
    assert_eq!(Transaction::read_le(&bytes), Ok(t));
}

#[test]
fn every_flipped_identifier_bit_is_a_mismatch() {
    for t in samples() {
        let bytes = t.write_le().unwrap();
        for i in 2..10 {
            for k in 0..8 {
                let mut tampered = bytes.clone();
                tampered[i] ^= 1u8 << k;
                assert_eq!(Transaction::read_le(&tampered), Err(CodecError::IdentifierMismatch));
            }
        }
    }
}

#[test]
fn a_changed_field_is_a_mismatch() {
    let mut bytes = minimal_deploy().write_le().unwrap();
    let last = bytes.len() - 1;
    bytes[last] ^= 0x40;
    assert_eq!(Transaction::read_le(&bytes), Err(CodecError::IdentifierMismatch));
}

#[test]
fn a_stored_identifier_is_written_unchanged() {
    let forged = Transaction::Fee(TransactionID { value: 0x0807_0605_0403_0201 }, Fee { bytes: vec![3] });
    let bytes = forged.write_le().unwrap();
    assert_eq!(bytes, vec![1, 2, 1, 2, 3, 4, 5, 6, 7, 8, 1, 0, 0, 0, 3]);
    assert_eq!(Transaction::read_le(&bytes), Err(CodecError::IdentifierMismatch));
}

#[test]
fn tags_from_three_up_are_rejected() {
    let valid = minimal_deploy().write_le().unwrap();
    for tag in 3..=255u8 {
        let mut bytes = valid.clone();
        bytes[1] = tag;
        assert_eq!(Transaction::read_le(&bytes), Err(CodecError::InvalidVariant));
        assert_eq!(Transaction::read_le(&[1, tag]), Err(CodecError::InvalidVariant));
    }
}

#[test]
fn versions_other_than_one_are_rejected() {
    let valid = minimal_deploy().write_le().unwrap();
    for version in 0..=255u8 {
        if version == 1 {
            continue;
        }
        let mut bytes = valid.clone();
        bytes[0] = version;
        assert_eq!(Transaction::read_le(&bytes), Err(CodecError::InvalidVersion));
        assert_eq!(Transaction::read_le(&[version]), Err(CodecError::InvalidVersion));
    }
}

#[test]
fn fee_presence_bytes_other_than_zero_and_one_are_rejected() {
    let valid = feeless_execute().write_le().unwrap();
    for presence in 2..=255u8 {
        let mut bytes = valid.clone();
        bytes[17] = presence;
        assert_eq!(Transaction::read_le(&bytes), Err(CodecError::InvalidFeeVariant));
    }
}

#[test]
fn short_inputs_fail_where_they_end() {
    assert_eq!(Transaction::read_le(&[]), Err(CodecError::UnexpectedEnd));
    assert_eq!(Transaction::read_le(&[1]), Err(CodecError::UnexpectedEnd));
    assert_eq!(
        Transaction::read_le(&[1, 0, 1, 2, 3]),
        Err(CodecError::SubObjectDecode { variant: Variant::Deploy, field: Field::Identifier })
    );
    let deploy = minimal_deploy().write_le().unwrap();
    assert_eq!(
        Transaction::read_le(&deploy[..12]),
        Err(CodecError::SubObjectDecode { variant: Variant::Deploy, field: Field::Owner })
    );
    assert_eq!(
        Transaction::read_le(&deploy[..19]),
        Err(CodecError::SubObjectDecode { variant: Variant::Deploy, field: Field::Deployment })
    );
    assert_eq!(
        Transaction::read_le(&deploy[..24]),
        Err(CodecError::SubObjectDecode { variant: Variant::Deploy, field: Field::Fee })
    );
    let execute = feeless_execute().write_le().unwrap();
    assert_eq!(
        Transaction::read_le(&execute[..16]),
        Err(CodecError::SubObjectDecode { variant: Variant::Execute, field: Field::Execution })
    );
    assert_eq!(Transaction::read_le(&execute[..17]), Err(CodecError::UnexpectedEnd));
    let fee = Transaction::from_fee(Fee { bytes: vec![1, 2] }).unwrap().write_le().unwrap();
    assert_eq!(
        Transaction::read_le(&fee[..15]),
        Err(CodecError::SubObjectDecode { variant: Variant::Fee, field: Field::Fee })
    );
}

#[test]
fn constructors_reject_empty_contents() {
    assert_eq!(
        Transaction::from_deployment(
            Owner { bytes: vec![1] },
            Deployment { bytes: vec![] },
            Fee { bytes: vec![1] }
        ),
        Err(ConstructionError::EmptyDeployment)
    );
    assert_eq!(
        Transaction::from_execution(Execution { bytes: vec![] }, None),
        Err(ConstructionError::EmptyExecution)
    );
    assert_eq!(Transaction::from_fee(Fee { bytes: vec![] }), Err(ConstructionError::EmptyFee));
    assert_eq!(ConstructionError::EmptyDeployment.message(), "empty deployment");
    assert_eq!(ConstructionError::EmptyExecution.message(), "empty execution");
    assert_eq!(ConstructionError::EmptyFee.message(), "empty fee");
}

#[test]
fn a_stream_that_the_constructor_rejects_is_invalid() {
    // A fee transaction whose fee has length 0.
    let bytes = [1u8, 2, 0, 0, 0, 0, 0, 0, 0, 0, 0, 0, 0, 0];
    assert_eq!(
        Transaction::read_le(&bytes),
        Err(CodecError::InvalidTransaction(ConstructionError::EmptyFee))
    );
    let bytes = [1u8, 1, 0, 0, 0, 0, 0, 0, 0, 0, 0, 0, 0, 0, 0];
    assert_eq!(
        Transaction::read_le(&bytes),
        Err(CodecError::InvalidTransaction(ConstructionError::EmptyExecution))
    );
    let bytes = [1u8, 0, 0, 0, 0, 0, 0, 0, 0, 0, 0, 0, 0, 0, 0, 0, 0, 0, 0, 0, 0, 0];
    assert_eq!(
        Transaction::read_le(&bytes),
        Err(CodecError::InvalidTransaction(ConstructionError::EmptyDeployment))
    );
}

#[test]
fn the_ceiling_is_exact_on_both_paths() {
    let t = minimal_deploy();
    let bytes = t.write_le().unwrap();
    assert_eq!(bytes.len(), 25);
    assert_eq!(t.write_le_bounded(25), Ok(bytes.clone()));
    assert_eq!(Transaction::read_le_bounded(&bytes, 25), Ok(t.clone()));
    for limit in 0..25 {
        assert_eq!(t.write_le_bounded(limit), Err(CodecError::SizeLimitExceeded));
        assert_eq!(
            Transaction::read_le_bounded(&bytes, limit),
            Err(CodecError::SizeLimitExceeded)
        );
    }
}

#[test]
fn an_announced_length_beyond_the_ceiling_is_stopped_before_the_input_is_read() {
    // The owner announces 0xffffffff bytes and none follows.
    let bytes = [1u8, 0, 0, 0, 0, 0, 0, 0, 0, 0, 0xff, 0xff, 0xff, 0xff];
    assert_eq!(Transaction::read_le(&bytes), Err(CodecError::SizeLimitExceeded));
}

#[test]
fn a_transaction_of_the_largest_size_passes_and_one_byte_more_fails() {
    // 10 bytes of header, 4 of prefix, 1 presence byte.
    let fits = Transaction::from_execution(
        Execution { bytes: vec![3; MAX_TRANSACTION_SIZE - 15] },
        None,
    )
    .unwrap();
    let bytes = fits.write_le().unwrap();
    assert_eq!(bytes.len(), MAX_TRANSACTION_SIZE);
    assert_eq!(Transaction::read_le(&bytes), Ok(fits));

    let over = Transaction::from_execution(
        Execution { bytes: vec![3; MAX_TRANSACTION_SIZE - 14] },
        None,
    )
    .unwrap();
    assert_eq!(over.write_le(), Err(CodecError::SizeLimitExceeded));
    let raw = over.write_le_bounded(usize::MAX).unwrap();
    assert_eq!(raw.len(), MAX_TRANSACTION_SIZE + 1);
    assert_eq!(Transaction::read_le(&raw), Err(CodecError::SizeLimitExceeded));
}

#[test]
fn an_oversized_execution_is_neither_written_nor_read() {
    let t = Transaction::from_execution(
        Execution { bytes: vec![1; MAX_TRANSACTION_SIZE + 1] },
        Some(Fee { bytes: vec![2; 8] }),
    )
    .unwrap();
    assert_eq!(t.write_le(), Err(CodecError::SizeLimitExceeded));
    let raw = t.write_le_bounded(usize::MAX).unwrap();
    assert!(raw.len() > MAX_TRANSACTION_SIZE);
    assert_eq!(Transaction::read_le(&raw), Err(CodecError::SizeLimitExceeded));
    assert_eq!(Transaction::read_le_bounded(&raw, usize::MAX), Ok(t));
}

#[test]
fn variant_tags() {
    assert_eq!(Variant::Deploy.tag(), 0);
    assert_eq!(Variant::Execute.tag(), 1);
    assert_eq!(Variant::Fee.tag(), 2);
    assert_eq!(minimal_deploy().variant(), Variant::Deploy);
    assert_eq!(feeless_execute().variant(), Variant::Execute);
}

#[test]
fn bytes_past_the_ceiling_change_nothing() {
    let t = Transaction::from_fee(Fee { bytes: vec![4; 30] }).unwrap();
    let mut bytes = t.write_le().unwrap();
    bytes.extend_from_slice(&[0xEE; 50]);
    for limit in 0..bytes.len() {
        assert_eq!(
            Transaction::read_le_bounded(&bytes[..limit], limit),
            Transaction::read_le_bounded(&bytes, limit)
        );
    }
}

#[test]
fn error_messages() {
    assert_eq!(CodecError::InvalidVersion.message(), "Invalid transaction version");
    assert_eq!(CodecError::InvalidVariant.message(), "Invalid transaction variant");
    assert_eq!(CodecError::InvalidFeeVariant.message(), "Invalid fee variant");
    assert_eq!(CodecError::IdentifierMismatch.message(), "Transaction ID mismatch");
    assert_eq!(CodecError::SizeLimitExceeded.message(), "Transaction size limit exceeded");
    assert_eq!(CodecError::UnexpectedEnd.message(), "Unexpected end of input");
    assert_eq!(
        CodecError::SubObjectDecode { variant: Variant::Deploy, field: Field::Owner }.message(),
        "Failed to read a transaction field"
    );
    assert_eq!(
        CodecError::SubObjectEncode { variant: Variant::Deploy, field: Field::Owner }.message(),
        "Failed to write a transaction field"
    );
    assert_eq!(
        CodecError::InvalidTransaction(ConstructionError::EmptyExecution).message(),
        "empty execution"
    );
}

#[test]
fn identity_check_lets_only_the_computed_identifier_through() {
    let t = minimal_deploy();
    assert_eq!(check_identity(t.id(), Ok(t.clone())), Ok(t.clone()));
    assert_eq!(
        check_identity(TransactionID { value: t.id().value ^ 1 }, Ok(t.clone())),
        Err(CodecError::IdentifierMismatch)
    );
    assert_eq!(
        check_identity(t.id(), Err(ConstructionError::EmptyDeployment)),
        Err(CodecError::InvalidTransaction(ConstructionError::EmptyDeployment))
    );
}

#[test]
fn a_field_is_taken_in_with_its_length() {
    assert_eq!(absorb_field_bytes(DIGEST_BASIS, &[]), mix_word(DIGEST_BASIS, 0));
    assert_eq!(
        absorb_field_bytes(DIGEST_BASIS, &[9, 4]),
        mix_word(mix_word(mix_word(DIGEST_BASIS, 2), 9), 4)
    );
    assert_eq!(absorb_bytes(DIGEST_BASIS, &[9, 4]), mix_word(mix_word(DIGEST_BASIS, 9), 4));
    // An absent fee and an empty one give different identifiers.
    assert_ne!(
        compute_execute_digest(&[7, 8, 9], None),
        compute_execute_digest(&[7, 8, 9], Some(&[][..]))
    );
}
