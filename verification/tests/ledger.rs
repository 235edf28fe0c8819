use pallet_currency::{AccountId, Balance, Error, Event, Pallet};

const ALICE: AccountId = 0;
const BOB: AccountId = 1;
const CHARLIE: AccountId = 2;

struct StateBuilder {
    balances: Vec<(AccountId, Balance)>,
}

impl Default for StateBuilder {
    fn default() -> Self {
        Self { balances: vec![(ALICE, 100), (BOB, 100)] }
    }
}

impl StateBuilder {
    fn build_and_execute(self, test: impl FnOnce(&mut Pallet)) {
        let mut ledger = Pallet::new();
        for (who, amount) in &self.balances {
            ledger.insert_balance(*who, *amount);
            let issued = ledger.total_issuance().unwrap_or(0) + amount;
            ledger.set_total_issuance(Some(issued));
        }

        test(&mut ledger);

        // assertions that must always hold
        assert_eq!(
            ledger.iterate().iter().map(|(_, x)| x).sum::<u128>(),
            ledger.total_issuance().unwrap_or_default()
        );
        assert!(ledger.is_balanced());
    }

    fn add_balance(mut self, who: AccountId, amount: Balance) -> Self {
        self.balances.push((who, amount));
        self
    }
}

#[test]
fn state_builder_works() {
    StateBuilder::default().build_and_execute(|ledger| {
        assert_eq!(ledger.get(ALICE), Some(100));
        assert_eq!(ledger.get(BOB), Some(100));
        assert_eq!(ledger.get(CHARLIE), None);
        assert_eq!(ledger.total_issuance(), Some(200));
    });
}

#[test]
fn state_builder_add_balance() {
    StateBuilder::default().add_balance(CHARLIE, 42).build_and_execute(|ledger| {
        assert_eq!(ledger.get(CHARLIE), Some(42));
        assert_eq!(ledger.total_issuance(), Some(242));
    })
}

#[test]
fn mint_works() {
    StateBuilder::default().build_and_execute(|ledger| {
        // given the initial state, when:
        assert_eq!(ledger.mint_unsafe(ALICE, BOB, 100), Ok(()));

        // then:
        assert_eq!(ledger.get(BOB), Some(200));
        assert_eq!(ledger.total_issuance(), Some(300));

        // given:
        assert_eq!(ledger.mint_unsafe(ALICE, CHARLIE, 100), Ok(()));

        // then:
        assert_eq!(ledger.get(CHARLIE), Some(100));
        assert_eq!(ledger.total_issuance(), Some(400));
    });
}

#[test]
fn transfer_works() {
    StateBuilder::default().build_and_execute(|ledger| {
        // given the the initial state, when:
        assert_eq!(ledger.transfer(ALICE, BOB, 50), Ok(()));

        // then:
        assert_eq!(ledger.get(ALICE), Some(50));
        assert_eq!(ledger.get(BOB), Some(150));
        assert_eq!(ledger.total_issuance(), Some(200));

        // when:
        assert_eq!(ledger.transfer(BOB, ALICE, 50), Ok(()));

        // test event
        let expected = Event::Transferred { from: BOB, to: ALICE, amount: 50 };
        assert!(ledger.events().contains(&expected));
        assert_eq!(ledger.events().iter().filter(|e| **e == expected).count(), 1);

        // then:
        assert_eq!(ledger.get(ALICE), Some(100));
        assert_eq!(ledger.get(BOB), Some(100));
        assert_eq!(ledger.total_issuance(), Some(200));
    });
}

#[test]
fn transfer_from_non_existent_fails() {
    StateBuilder::default().build_and_execute(|ledger| {
        // given the the initial state, when:
        assert_eq!(ledger.transfer(CHARLIE, ALICE, 10), Err(Error::NonExistentAccount));

        // then nothing has changed.
        assert_eq!(ledger.get(ALICE), Some(100));
        assert_eq!(ledger.get(BOB), Some(100));
        assert_eq!(ledger.get(CHARLIE), None);
        assert_eq!(ledger.total_issuance(), Some(200));
    });
}

#[test]
fn transfer_exceed_balance_fails() {
    StateBuilder::default().build_and_execute(|ledger| {
        // then nothing has changed.
        assert_eq!(ledger.get(ALICE), Some(100));

        assert_eq!(ledger.transfer(ALICE, BOB, 101), Err(Error::InsufficientBalance));
    });
}

#[test]
fn transfer_exceeding_the_only_balance_leaves_it() {
    StateBuilder { balances: vec![(ALICE, 100)] }.build_and_execute(|ledger| {
        assert_eq!(ledger.transfer(ALICE, BOB, 101), Err(Error::InsufficientBalance));

        assert_eq!(ledger.get(ALICE), Some(100));
        assert_eq!(ledger.get(BOB), None);
        assert_eq!(ledger.total_issuance(), Some(100));
        assert!(ledger.events().is_empty());
    });
}

#[test]
fn mint_emits_no_event() {
    StateBuilder::default().build_and_execute(|ledger| {
        assert_eq!(ledger.mint_unsafe(CHARLIE, BOB, 7), Ok(()));
        assert_eq!(ledger.mint_unsafe(CHARLIE, CHARLIE, 0), Ok(()));
        assert!(ledger.events().is_empty());
    });
}

#[test]
fn mint_ignores_who_calls() {
    // an account that the table does not know may mint
    StateBuilder::default().build_and_execute(|ledger| {
        assert_eq!(ledger.get(9), None);
        assert_eq!(ledger.mint_unsafe(9, ALICE, 1), Ok(()));
        assert_eq!(ledger.get(ALICE), Some(101));
        assert_eq!(ledger.get(9), None);
    });
}

#[test]
fn mint_of_zero_records_a_zero_balance() {
    let mut ledger = Pallet::new();
    assert_eq!(ledger.mint_unsafe(ALICE, BOB, 0), Ok(()));
    assert_eq!(ledger.get(BOB), Some(0));
    assert_eq!(ledger.total_issuance(), Some(0));
    assert_eq!(ledger.iterate(), vec![(BOB, 0)]);
    assert!(ledger.is_balanced());
}

#[test]
fn mint_that_overflows_a_balance_changes_nothing() {
    let mut ledger = Pallet::new();
    ledger.insert_balance(BOB, Balance::MAX);
    ledger.set_total_issuance(Some(5));

    assert_eq!(ledger.mint_unsafe(ALICE, BOB, 1), Err(Error::Overflow));

    assert_eq!(ledger.get(BOB), Some(Balance::MAX));
    assert_eq!(ledger.total_issuance(), Some(5));
    assert_eq!(ledger.iterate(), vec![(BOB, Balance::MAX)]);
    assert!(ledger.events().is_empty());
}

#[test]
fn mint_that_overflows_the_issuance_changes_nothing() {
    let mut ledger = Pallet::new();
    ledger.insert_balance(ALICE, Balance::MAX);
    ledger.set_total_issuance(Some(Balance::MAX));
    assert!(ledger.is_balanced());

    assert_eq!(ledger.mint_unsafe(ALICE, BOB, 1), Err(Error::Overflow));

    assert_eq!(ledger.get(BOB), None);
    assert_eq!(ledger.get(ALICE), Some(Balance::MAX));
    assert_eq!(ledger.total_issuance(), Some(Balance::MAX));
    assert!(ledger.is_balanced());
}

#[test]
fn mint_up_to_the_limit_succeeds() {
    let mut ledger = Pallet::new();
    assert_eq!(ledger.mint_unsafe(ALICE, ALICE, Balance::MAX - 1), Ok(()));
    assert_eq!(ledger.mint_unsafe(ALICE, BOB, 1), Ok(()));
    assert_eq!(ledger.get(ALICE), Some(Balance::MAX - 1));
    assert_eq!(ledger.get(BOB), Some(1));
    assert_eq!(ledger.total_issuance(), Some(Balance::MAX));
    assert!(ledger.is_balanced());
}

#[test]
fn transfer_to_oneself_nets_to_zero() {
    StateBuilder::default().build_and_execute(|ledger| {
        assert_eq!(ledger.transfer(ALICE, ALICE, 30), Ok(()));

        assert_eq!(ledger.get(ALICE), Some(100));
        assert_eq!(ledger.get(BOB), Some(100));
        assert_eq!(ledger.total_issuance(), Some(200));
        assert_eq!(
            ledger.events(),
            &vec![Event::Transferred { from: ALICE, to: ALICE, amount: 30 }]
        );

        // the whole balance, too
        assert_eq!(ledger.transfer(ALICE, ALICE, 100), Ok(()));
        assert_eq!(ledger.get(ALICE), Some(100));
    });
}

#[test]
fn transfer_to_oneself_is_checked_like_any_credit() {
    let mut ledger = Pallet::new();
    ledger.insert_balance(ALICE, Balance::MAX);
    ledger.set_total_issuance(Some(Balance::MAX));

    assert_eq!(ledger.transfer(ALICE, ALICE, 1), Err(Error::Overflow));
    assert_eq!(ledger.transfer(ALICE, ALICE, 0), Ok(()));

    assert_eq!(ledger.get(ALICE), Some(Balance::MAX));
    assert_eq!(ledger.events().len(), 1);
    assert!(ledger.is_balanced());
}

#[test]
fn transfer_of_everything_keeps_a_zero_entry() {
    StateBuilder::default().build_and_execute(|ledger| {
        assert_eq!(ledger.transfer(ALICE, BOB, 100), Ok(()));
        assert_eq!(ledger.get(ALICE), Some(0));
        assert_eq!(ledger.get(BOB), Some(200));
        assert_eq!(ledger.iterate(), vec![(ALICE, 0), (BOB, 200)]);

        // the emptied account still exists as a sender
        assert_eq!(ledger.transfer(ALICE, BOB, 0), Ok(()));
        assert_eq!(ledger.transfer(ALICE, BOB, 1), Err(Error::InsufficientBalance));
    });
}

#[test]
fn transfer_to_an_unknown_account_creates_it() {
    StateBuilder::default().build_and_execute(|ledger| {
        assert_eq!(ledger.transfer(BOB, CHARLIE, 40), Ok(()));
        assert_eq!(ledger.get(BOB), Some(60));
        assert_eq!(ledger.get(CHARLIE), Some(40));
        assert_eq!(ledger.total_issuance(), Some(200));
    });
}

#[test]
fn transfer_that_overflows_the_destination_changes_nothing() {
    let mut ledger = Pallet::new();
    ledger.insert_balance(ALICE, 10);
    ledger.insert_balance(BOB, Balance::MAX - 5);

    assert_eq!(ledger.transfer(ALICE, BOB, 6), Err(Error::Overflow));

    assert_eq!(ledger.iterate(), vec![(ALICE, 10), (BOB, Balance::MAX - 5)]);
    assert_eq!(ledger.total_issuance(), None);
    assert!(ledger.events().is_empty());

    // one less fits
    assert_eq!(ledger.transfer(ALICE, BOB, 5), Ok(()));
    assert_eq!(ledger.iterate(), vec![(ALICE, 5), (BOB, Balance::MAX)]);
}

#[test]
fn transfer_reports_the_first_check_that_fails() {
    let mut ledger = Pallet::new();
    ledger.insert_balance(ALICE, 10);
    ledger.insert_balance(BOB, Balance::MAX);

    // no sender comes before everything else
    assert_eq!(ledger.transfer(CHARLIE, BOB, 1), Err(Error::NonExistentAccount));
    assert_eq!(ledger.transfer(CHARLIE, CHARLIE, 0), Err(Error::NonExistentAccount));
    // an uncovered amount comes before the overflow it would cause
    assert_eq!(ledger.transfer(ALICE, BOB, 11), Err(Error::InsufficientBalance));
    assert_eq!(ledger.transfer(ALICE, BOB, 10), Err(Error::Overflow));
}

#[test]
fn failed_transfer_leaves_every_part_of_the_state() {
    StateBuilder::default().add_balance(CHARLIE, 0).build_and_execute(|ledger| {
        assert_eq!(ledger.transfer(ALICE, BOB, 1), Ok(()));
        let balances = ledger.iterate();
        let issued = ledger.total_issuance();
        let events = ledger.events().clone();

        assert_eq!(ledger.transfer(7, ALICE, 10), Err(Error::NonExistentAccount));
        assert_eq!(ledger.transfer(CHARLIE, ALICE, 1), Err(Error::InsufficientBalance));
        assert_eq!(ledger.transfer(ALICE, BOB, 100), Err(Error::InsufficientBalance));

        assert_eq!(ledger.iterate(), balances);
        assert_eq!(ledger.total_issuance(), issued);
        assert_eq!(ledger.events(), &events);
    });
}

#[test]
fn every_successful_call_leaves_the_ledger_balanced() {
    let mut ledger = Pallet::new();
    assert!(ledger.is_balanced());
    assert_eq!(ledger.mint_unsafe(ALICE, ALICE, 1_000), Ok(()));
    assert!(ledger.is_balanced());
    assert_eq!(ledger.transfer(ALICE, BOB, 250), Ok(()));
    assert!(ledger.is_balanced());
    assert_eq!(ledger.mint_unsafe(BOB, CHARLIE, 1), Ok(()));
    assert!(ledger.is_balanced());
    assert_eq!(ledger.transfer(BOB, BOB, 250), Ok(()));
    assert!(ledger.is_balanced());
    assert_eq!(ledger.transfer(CHARLIE, ALICE, 1), Ok(()));
    assert!(ledger.is_balanced());
    assert_eq!(ledger.transfer(BOB, CHARLIE, 251), Err(Error::InsufficientBalance));
    assert!(ledger.is_balanced());

    assert_eq!(ledger.iterate(), vec![(ALICE, 751), (BOB, 250), (CHARLIE, 0)]);
    assert_eq!(ledger.total_issuance(), Some(1_001));
}

#[test]
fn each_successful_transfer_emits_one_event_in_order() {
    StateBuilder::default().build_and_execute(|ledger| {
        assert_eq!(ledger.transfer(ALICE, BOB, 1), Ok(()));
        assert_eq!(ledger.transfer(BOB, ALICE, 200), Err(Error::InsufficientBalance));
        assert_eq!(ledger.transfer(BOB, CHARLIE, 2), Ok(()));

        assert_eq!(
            ledger.events(),
            &vec![
                Event::Transferred { from: ALICE, to: BOB, amount: 1 },
                Event::Transferred { from: BOB, to: CHARLIE, amount: 2 },
            ]
        );
    });
}
