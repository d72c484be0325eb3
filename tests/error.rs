use ckb_sync::error::{
    Cause, Error, HeaderError, HeaderErrorKind, TimestampError, TransactionError,
    TransactionErrorSource,
};

#[test]
fn is_too_new() {
    let too_old = TimestampError::BlockTimeTooOld { min: 0, actual: 0 };
    let too_new = TimestampError::BlockTimeTooNew { max: 0, actual: 0 };

    let errors: Vec<HeaderError> = vec![
        HeaderErrorKind::InvalidParent.into(),
        HeaderErrorKind::Pow.into(),
        HeaderErrorKind::Version.into(),
        HeaderErrorKind::Epoch.into(),
        HeaderErrorKind::Version.into(),
        HeaderErrorKind::Timestamp.into(),
        too_old.into(),
        too_new.into(),
    ];

    let is_too_new: Vec<bool> = errors.iter().map(|e| e.is_too_new()).collect();
    assert_eq!(
        is_too_new,
        vec![false, false, false, false, false, false, false, true]
    );
}

#[test]
fn timestamp_error_kind_and_cause() {
    let e: HeaderError = TimestampError::BlockTimeTooNew { max: 5, actual: 9 }.into();
    assert_eq!(*e.kind(), HeaderErrorKind::Timestamp);
    assert_eq!(
        e.downcast_ref(),
        Some(&Cause::Timestamp(TimestampError::BlockTimeTooNew { max: 5, actual: 9 }))
    );
    let plain: HeaderError = HeaderErrorKind::Pow.into();
    assert_eq!(plain.downcast_ref(), None);
    assert!(Error::Header(e).is_too_new());
    assert!(!Error::Header(plain).is_too_new());
}

#[test]
fn malformed_transactions() {
    assert!(TransactionError::Empty { source: TransactionErrorSource::Inputs }.is_malformed_tx());
    assert!(TransactionError::OutputsSumOverflow { inputs_sum: 1, outputs_sum: 2 }.is_malformed_tx());
    assert!(TransactionError::InvalidSince { index: 0 }.is_malformed_tx());
    assert!(!TransactionError::Immature { index: 0 }.is_malformed_tx());
    assert!(!TransactionError::MismatchedVersion { expected: 0, actual: 1 }.is_malformed_tx());
    assert!(!TransactionError::CellbaseImmaturity {
        source: TransactionErrorSource::Inputs,
        index: 0
    }
    .is_malformed_tx());
}
