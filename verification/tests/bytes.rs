use transaction_codec::transaction::{
    Deployment, Execution, Fee, Owner, Transaction, MAX_TRANSACTION_SIZE,
};

/// A small generator of bytes, the same on every run.
struct TestRng {
    state: u64,
}

impl TestRng {
    fn default() -> Self {
        TestRng { state: 0x2545_f491_4f6c_dd1d }
    }

    fn next_byte(&mut self) -> u8 {
        self.state ^= self.state << 13;
        self.state ^= self.state >> 7;
        self.state ^= self.state << 17;
        (self.state >> 24) as u8
    }

    fn bytes(&mut self, n: usize) -> Vec<u8> {
        let mut out = Vec::with_capacity(n);
        for _ in 0..n {
            out.push(self.next_byte());
        }
        out
    }
}

fn sample_fee(is_fee_private: bool, rng: &mut TestRng) -> Fee {
    let mut bytes = vec![if is_fee_private { 1u8 } else { 0u8 }];
    bytes.extend(rng.bytes(if is_fee_private { 96 } else { 64 }));
    Fee { bytes }
}

fn sample_deployment_transaction(is_fee_private: bool, rng: &mut TestRng) -> Transaction {
    let owner = Owner { bytes: rng.bytes(64) };
    let deployment = Deployment { bytes: rng.bytes(700) };
    let fee = sample_fee(is_fee_private, rng);
    Transaction::from_deployment(owner, deployment, fee).unwrap()
}

fn sample_execution_transaction_with_fee(is_fee_private: bool, rng: &mut TestRng) -> Transaction {
    let execution = Execution { bytes: rng.bytes(300) };
    let fee = sample_fee(is_fee_private, rng);
    Transaction::from_execution(execution, Some(fee)).unwrap()
}

fn sample_large_execution_transaction(rng: &mut TestRng) -> Transaction {
    let execution = Execution { bytes: rng.bytes(MAX_TRANSACTION_SIZE + 1) };
    let fee = sample_fee(false, rng);
    Transaction::from_execution(execution, Some(fee)).unwrap()
}

fn unchecked_write_le(transaction: &Transaction, out: &mut Vec<u8>) -> Result<(), String> {
    match transaction.write_le_bounded(usize::MAX) {
        Ok(bytes) => {
            out.extend(bytes);
            Ok(())
        }
        Err(e) => Err(format!("{:?}", e)),
    }
}

#[test]
fn test_bytes() {
    let rng = &mut TestRng::default();

    for expected in [
        sample_deployment_transaction(true, rng),
        sample_deployment_transaction(false, rng),
        sample_execution_transaction_with_fee(true, rng),
        sample_execution_transaction_with_fee(false, rng),
    ]
    .into_iter()
    {
        // Check the byte representation.
        let expected_bytes = expected.write_le().unwrap();
        assert_eq!(expected, Transaction::read_le(&expected_bytes[..]).unwrap());
    }
}

#[test]
fn test_large_transaction_fails() {
    let rng = &mut TestRng::default();
    // Construct a large execution transaction.
    let transaction = sample_large_execution_transaction(rng);
    // Check that the execution is larger than the maximum transaction size.
    if let Transaction::Execute(_, execution, _) = &transaction {
        assert!(execution.bytes.len() > MAX_TRANSACTION_SIZE);
    } else {
        unreachable!();
    }
    // Check that encoding fails.
    assert!(transaction.write_le().is_err());

    // Check that decoding fails.
    let mut bytes_le = Vec::new();
    unchecked_write_le(&transaction, &mut bytes_le).unwrap();
    // Check that the raw bytes are larger than the maximum transaction size.
    assert!(bytes_le.len() > MAX_TRANSACTION_SIZE);
    assert!(Transaction::read_le(&bytes_le[..]).is_err());
}
