use dispute_coordinator::account::AccountValidity;
use dispute_coordinator::account::Crowdsale;
use dispute_coordinator::account::CrowdsaleError;

#[test]
fn set_account_validity_works() {
    let mut crowdsale = Crowdsale::new(6);
    // User initially has no validity statement, by default, they are `Invalid`.
    assert_eq!(crowdsale.get_validity(42), AccountValidity::Invalid);
    // Origin must be the `ValidityOrigin`
    assert_eq!(
        crowdsale.set_account_validity(1, 42, AccountValidity::ValidLow),
        Err(CrowdsaleError::BadOrigin)
    );
    assert!(crowdsale.set_account_validity(6, 42, AccountValidity::ValidLow).is_ok());
    // Account is updated
    assert_eq!(crowdsale.get_validity(42), AccountValidity::ValidLow);
    // We update validity statement
    assert!(crowdsale.set_account_validity(6, 42, AccountValidity::Invalid).is_ok());
    assert_eq!(crowdsale.get_validity(42), AccountValidity::Invalid);
}

#[test]
fn set_account_validity_handles_basic_errors() {
    let mut crowdsale = Crowdsale::new(6);
    // Create an "existing account"
    crowdsale.note_live_account(42);
    // Origin must be the `ValidityOrigin`
    assert_eq!(
        crowdsale.set_account_validity(1, 42, AccountValidity::ValidLow),
        Err(CrowdsaleError::BadOrigin)
    );
    // Account must be dead
    assert_eq!(
        crowdsale.set_account_validity(6, 42, AccountValidity::ValidLow),
        Err(CrowdsaleError::ExistingAccount)
    );
}

#[test]
fn default_account_validity_is_invalid() {
    assert_eq!(AccountValidity::default(), AccountValidity::Invalid);
}

#[test]
fn update_event_is_deposited() {
    let mut crowdsale = Crowdsale::new(6);
    assert!(crowdsale.set_account_validity(6, 7, AccountValidity::ValidHigh).is_ok());
    assert_eq!(crowdsale.events.len(), 1);
    assert!(matches!(
        crowdsale.events[0],
        dispute_coordinator::account::CrowdsaleEvent::ValidityUpdated(7, AccountValidity::ValidHigh)
    ));
}
