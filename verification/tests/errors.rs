use sp_runtime::{ArithmeticError, DispatchError, ModuleError, TokenError};
use xcm_currency_adapter::error::{report, transact_error, Error};
use xcm_currency_adapter::types::XcmError;

fn reason(error: XcmError) -> &'static str {
    match error {
        XcmError::FailedToTransactAsset(reason) => reason,
        _ => panic!("not a failure to transact"),
    }
}

#[test]
fn own_failures_give_their_names() {
    assert_eq!(reason(XcmError::from(Error::FailedToMatchFungible)), "FailedToMatchFungible");
    assert_eq!(reason(XcmError::from(Error::AccountIdConversionFailed)), "AccountIdConversionFailed");
    assert_eq!(
        reason(XcmError::from(Error::CurrencyIdConversionFailed)),
        "CurrencyIdConversionFailed"
    );
}

#[test]
fn ledger_failures_give_their_text() {
    assert_eq!(reason(transact_error(DispatchError::Other("no such ledger"))), "no such ledger");
    assert_eq!(reason(transact_error(DispatchError::BadOrigin)), "Bad origin");
    assert_eq!(
        reason(transact_error(DispatchError::Token(TokenError::FundsUnavailable))),
        "Funds are unavailable"
    );
    assert_eq!(
        reason(transact_error(DispatchError::Arithmetic(ArithmeticError::Overflow))),
        "An overflow would occur"
    );
    let silent = ModuleError { index: 1, error: [0; 4], message: None };
    assert_eq!(reason(transact_error(DispatchError::Module(silent))), "Unknown module error");
    let spoken = ModuleError { index: 1, error: [0; 4], message: Some("BalanceTooLow") };
    assert_eq!(reason(transact_error(DispatchError::Module(spoken))), "BalanceTooLow");
}

#[test]
fn an_answer_is_reported_as_it_is() {
    assert!(report(Ok(())).is_ok());
    match report(Err(DispatchError::CannotLookup)) {
        Ok(()) => panic!("a refusal is no success"),
        Err(error) => assert_eq!(reason(error), "Cannot lookup"),
    }
}
