use anchor_lang::prelude::Pubkey;
use token_escrow::address::Address;
use token_escrow::authority::{derive_record_address, find_record_address, seeds_of, signer_seeds};
use token_escrow::custody::custody_is_valid;
use token_escrow::instructions::make::Make;
use token_escrow::instructions::refund::{handler, Refund};
use token_escrow::instructions::take::Take;
use token_escrow::ledger::{Ledger, Reclaim, Record};
use token_escrow::record::{Escrow, EscrowError};
use token_escrow::steps::Step;
use token_escrow::{make, refund, take};

fn addr(b: u8) -> Address {
    Address::new([b; 32])
}

fn program() -> Address {
    addr(9)
}

fn maker() -> Address {
    addr(1)
}

fn taker() -> Address {
    addr(2)
}

fn asset_x() -> Address {
    addr(10)
}

fn asset_y() -> Address {
    addr(11)
}

fn record_address(maker: &Address, seed: u64) -> (Address, u8) {
    find_record_address(maker, seed, &program()).expect("a bump exists")
}

fn offer(seed: u64) -> Make {
    let (escrow, _) = record_address(&maker(), seed);
    Make { maker: maker(), escrow, mint_a: asset_x(), mint_b: asset_y() }
}

fn fulfill(seed: u64) -> Take {
    let (escrow, _) = record_address(&maker(), seed);
    Take { taker: taker(), maker: maker(), escrow, mint_a: asset_x(), mint_b: asset_y() }
}

fn cancel(seed: u64) -> Refund {
    let (escrow, _) = record_address(&maker(), seed);
    Refund { maker: maker(), escrow, mint_a: asset_x() }
}

/// The maker holds 5,000 of X, the taker 800 of Y.
fn funded() -> Ledger {
    let mut ledger = Ledger::new(program());
    assert!(ledger.deposit(&maker(), &asset_x(), 5_000));
    assert!(ledger.deposit(&taker(), &asset_y(), 800));
    ledger
}

/// The funded ledger after the maker locked 1,000 of X for 500 of Y, seed 7.
fn opened() -> Ledger {
    let mut ledger = funded();
    assert_eq!(make(&mut ledger, &offer(7), 7, 500, 1_000), Ok(()));
    ledger
}

#[test]
fn address_same_compares_bytes() {
    let mut bytes = [3u8; 32];
    assert!(Address::new(bytes).same(&addr(3)));
    bytes[31] = 4;
    assert!(!Address::new(bytes).same(&addr(3)));
    assert_eq!(addr(3).to_vec(), vec![3u8; 32]);
}

#[test]
fn seeds_have_tag_maker_and_little_endian_seed() {
    let seeds = seeds_of(&maker(), 0x0102_0304_0506_0708);
    assert_eq!(
        seeds,
        vec![b"escrow".to_vec(), vec![1u8; 32], vec![8u8, 7, 6, 5, 4, 3, 2, 1]]
    );
    let signed = signer_seeds(&maker(), 7, 254);
    assert_eq!(
        signed,
        vec![b"escrow".to_vec(), vec![1u8; 32], vec![7u8, 0, 0, 0, 0, 0, 0, 0], vec![254u8]]
    );
}

#[test]
fn search_agrees_with_the_program_address_search() {
    let program_id = Pubkey::new_from_array([9u8; 32]);
    let seed: u64 = 7;
    let (expected, bump) =
        Pubkey::find_program_address(&[b"escrow", &[1u8; 32], &seed.to_le_bytes()], &program_id);
    let (found, found_bump) = record_address(&maker(), seed);
    assert_eq!(found.bytes, expected.to_bytes());
    assert_eq!(found_bump, bump);
    assert_ne!(found, maker());
}

#[test]
fn derivation_is_stable_and_rederivable() {
    for seed in [0u64, 7, 8, u64::MAX] {
        let (first, bump) = record_address(&maker(), seed);
        let (second, bump_again) = record_address(&maker(), seed);
        assert_eq!(first, second);
        assert_eq!(bump, bump_again);
        assert_eq!(derive_record_address(&maker(), seed, bump, &program()), Some(first));
    }
    let (a, _) = record_address(&maker(), 7);
    let (b, _) = record_address(&maker(), 8);
    let (c, _) = record_address(&taker(), 7);
    assert_ne!(a, b);
    assert_ne!(a, c);
}

#[test]
fn rederivation_with_another_bump_gives_another_address() {
    let (address, bump) = record_address(&maker(), 7);
    let other = derive_record_address(&maker(), 7, bump.wrapping_sub(1), &program());
    assert_ne!(other, Some(address));
}

#[test]
fn create_writes_record_and_fills_custody() {
    let ledger = opened();
    let (escrow, bump) = record_address(&maker(), 7);
    assert_eq!(
        ledger.record_of(&escrow),
        Some(Escrow {
            maker: maker(),
            mint_a: asset_x(),
            mint_b: asset_y(),
            seed: 7,
            receive: 500,
            bump,
        })
    );
    assert!(ledger.has_holding(&escrow, &asset_x()));
    assert_eq!(ledger.balance_of(&escrow, &asset_x()), 1_000);
    assert_eq!(ledger.balance_of(&maker(), &asset_x()), 4_000);
    assert_eq!(ledger.balance_of(&taker(), &asset_y()), 800);
    assert_eq!(ledger.records.len(), 1);
    assert_eq!(ledger.holdings.len(), 3);
}

#[test]
fn scenario_fulfill() {
    let mut ledger = opened();
    let (escrow, _) = record_address(&maker(), 7);
    assert_eq!(take(&mut ledger, &fulfill(7)), Ok(()));
    assert_eq!(ledger.balance_of(&maker(), &asset_y()), 500);
    assert_eq!(ledger.balance_of(&taker(), &asset_x()), 1_000);
    assert_eq!(ledger.balance_of(&taker(), &asset_y()), 300);
    assert_eq!(ledger.balance_of(&maker(), &asset_x()), 4_000);
    assert!(!ledger.has_holding(&escrow, &asset_x()));
    assert_eq!(ledger.record_of(&escrow), None);
    assert!(ledger.records.is_empty());
    assert_eq!(
        ledger.reclaims,
        vec![
            Reclaim::Holding { owner: escrow, mint: asset_x(), destination: taker() },
            Reclaim::Record { address: escrow, destination: maker() },
        ]
    );
}

#[test]
fn scenario_cancel() {
    let before = funded();
    let mut ledger = opened();
    let (escrow, _) = record_address(&maker(), 7);
    assert_eq!(refund(&mut ledger, &cancel(7)), Ok(()));
    assert_eq!(ledger.balance_of(&maker(), &asset_x()), 5_000);
    assert!(!ledger.has_holding(&escrow, &asset_x()));
    assert_eq!(ledger.record_of(&escrow), None);
    assert_eq!(ledger.holdings, before.holdings);
    assert_eq!(ledger.records, before.records);
    assert_eq!(
        ledger.reclaims,
        vec![
            Reclaim::Holding { owner: escrow, mint: asset_x(), destination: maker() },
            Reclaim::Record { address: escrow, destination: maker() },
        ]
    );
}

#[test]
fn cancel_handler_is_the_cancel_request() {
    let mut by_handler = opened();
    let mut by_request = opened();
    assert_eq!(handler(&mut by_handler, &cancel(7)), Ok(()));
    assert_eq!(refund(&mut by_request, &cancel(7)), Ok(()));
    assert_eq!(by_handler, by_request);
}

#[test]
fn fulfill_with_wrong_maker_is_invalid_maker() {
    let mut ledger = opened();
    let before = ledger.clone();
    let mut request = fulfill(7);
    request.maker = addr(77);
    assert_eq!(take(&mut ledger, &request), Err(EscrowError::InvalidMaker));
    assert_eq!(ledger, before);
}

#[test]
fn fulfill_with_wrong_offered_asset_is_invalid_asset_type() {
    let mut ledger = opened();
    let before = ledger.clone();
    let mut request = fulfill(7);
    request.mint_a = addr(78);
    assert_eq!(take(&mut ledger, &request), Err(EscrowError::InvalidAssetType));
    assert_eq!(ledger, before);
}

#[test]
fn fulfill_with_wrong_asked_asset_is_invalid_asset_type() {
    let mut ledger = opened();
    let before = ledger.clone();
    let mut request = fulfill(7);
    request.mint_b = addr(79);
    assert_eq!(take(&mut ledger, &request), Err(EscrowError::InvalidAssetType));
    assert_eq!(ledger, before);
}

#[test]
fn fulfill_without_enough_is_insufficient_balance() {
    let mut ledger = funded();
    assert_eq!(make(&mut ledger, &offer(7), 7, 801, 1_000), Ok(()));
    let before = ledger.clone();
    assert_eq!(take(&mut ledger, &fulfill(7)), Err(EscrowError::InsufficientBalance));
    assert_eq!(ledger, before);
    let mut stranger = fulfill(7);
    stranger.taker = addr(50);
    assert_eq!(take(&mut ledger, &stranger), Err(EscrowError::InsufficientBalance));
    assert_eq!(ledger, before);
}

#[test]
fn fulfill_with_exactly_enough_empties_the_taker() {
    let mut ledger = funded();
    assert_eq!(make(&mut ledger, &offer(7), 7, 800, 1_000), Ok(()));
    assert_eq!(take(&mut ledger, &fulfill(7)), Ok(()));
    assert_eq!(ledger.balance_of(&taker(), &asset_y()), 0);
    assert_eq!(ledger.balance_of(&maker(), &asset_y()), 800);
    assert_eq!(ledger.balance_of(&taker(), &asset_x()), 1_000);
}

#[test]
fn cancel_by_stranger_is_invalid_maker() {
    let mut ledger = opened();
    let before = ledger.clone();
    let mut request = cancel(7);
    request.maker = taker();
    assert_eq!(refund(&mut ledger, &request), Err(EscrowError::InvalidMaker));
    assert_eq!(ledger, before);
}

#[test]
fn cancel_with_wrong_asset_is_invalid_asset_type() {
    let mut ledger = opened();
    let before = ledger.clone();
    let mut request = cancel(7);
    request.mint_a = asset_y();
    assert_eq!(refund(&mut ledger, &request), Err(EscrowError::InvalidAssetType));
    assert_eq!(ledger, before);
}

#[test]
fn second_create_is_duplicate_offer() {
    let mut ledger = opened();
    let before = ledger.clone();
    assert_eq!(make(&mut ledger, &offer(7), 7, 1, 1), Err(EscrowError::DuplicateOffer));
    assert_eq!(ledger, before);
    assert_eq!(make(&mut ledger, &offer(8), 8, 1, 1), Ok(()));
    assert_eq!(ledger.records.len(), 2);
}

#[test]
fn create_after_close_is_accepted_again() {
    let mut ledger = opened();
    assert_eq!(refund(&mut ledger, &cancel(7)), Ok(()));
    assert_eq!(make(&mut ledger, &offer(7), 7, 500, 1_000), Ok(()));
}

#[test]
fn create_over_existing_custody_account_is_duplicate_offer() {
    let mut ledger = funded();
    let (escrow, _) = record_address(&maker(), 7);
    ledger.ensure_holding_account(&escrow, &asset_x());
    let before = ledger.clone();
    assert_eq!(make(&mut ledger, &offer(7), 7, 500, 1_000), Err(EscrowError::DuplicateOffer));
    assert_eq!(ledger, before);
}

#[test]
fn create_without_enough_is_insufficient_balance() {
    let mut ledger = funded();
    let before = ledger.clone();
    assert_eq!(
        make(&mut ledger, &offer(7), 7, 500, 5_001),
        Err(EscrowError::InsufficientBalance)
    );
    assert_eq!(ledger, before);
    let mut empty = Ledger::new(program());
    assert_eq!(make(&mut empty, &offer(7), 7, 500, 0), Err(EscrowError::InsufficientBalance));
}

#[test]
fn create_at_another_address_is_authority_mismatch() {
    let mut ledger = funded();
    let before = ledger.clone();
    let mut request = offer(7);
    request.escrow = addr(60);
    assert_eq!(make(&mut ledger, &request, 7, 500, 1_000), Err(EscrowError::AuthorityMismatch));
    assert_eq!(make(&mut ledger, &offer(7), 8, 500, 1_000), Err(EscrowError::AuthorityMismatch));
    assert_eq!(ledger, before);
}

#[test]
fn open_at_without_address_is_authority_mismatch() {
    let mut ledger = funded();
    let before = ledger.clone();
    assert_eq!(
        offer(7).open_at(&mut ledger, 7, 500, 1_000, None),
        Err(EscrowError::AuthorityMismatch)
    );
    assert_eq!(ledger, before);
    let found = find_record_address(&maker(), 7, &program());
    assert_eq!(offer(7).open_at(&mut ledger, 7, 500, 1_000, found), Ok(()));
    assert_eq!(ledger, opened());
}

#[test]
fn closed_escrow_is_not_found() {
    let mut ledger = opened();
    assert_eq!(take(&mut ledger, &fulfill(7)), Ok(()));
    let after = ledger.clone();
    assert_eq!(take(&mut ledger, &fulfill(7)), Err(EscrowError::RecordNotFound));
    assert_eq!(refund(&mut ledger, &cancel(7)), Err(EscrowError::RecordNotFound));
    assert_eq!(ledger, after);

    let mut ledger = opened();
    assert_eq!(refund(&mut ledger, &cancel(7)), Ok(()));
    let after = ledger.clone();
    assert_eq!(refund(&mut ledger, &cancel(7)), Err(EscrowError::RecordNotFound));
    assert_eq!(take(&mut ledger, &fulfill(7)), Err(EscrowError::RecordNotFound));
    assert_eq!(ledger, after);
}

#[test]
fn never_opened_escrow_is_not_found() {
    let mut ledger = funded();
    assert_eq!(take(&mut ledger, &fulfill(7)), Err(EscrowError::RecordNotFound));
    assert_eq!(refund(&mut ledger, &cancel(7)), Err(EscrowError::RecordNotFound));
}

#[test]
fn record_at_underived_address_is_authority_mismatch() {
    let mut ledger = funded();
    let (_, bump) = record_address(&maker(), 7);
    let planted = addr(61);
    let escrow = Escrow {
        maker: maker(),
        mint_a: asset_x(),
        mint_b: asset_y(),
        seed: 7,
        receive: 500,
        bump,
    };
    ledger.records.push(Record { address: planted, escrow });
    assert!(ledger.deposit(&planted, &asset_x(), 1_000));
    assert!(!custody_is_valid(&ledger, &escrow, &planted));
    let before = ledger.clone();
    let mut request = fulfill(7);
    request.escrow = planted;
    assert_eq!(take(&mut ledger, &request), Err(EscrowError::AuthorityMismatch));
    let mut back = cancel(7);
    back.escrow = planted;
    assert_eq!(refund(&mut ledger, &back), Err(EscrowError::AuthorityMismatch));
    assert_eq!(back.withdraw_and_close_vault(&mut ledger, &escrow), Err(EscrowError::AuthorityMismatch));
    assert_eq!(
        request.withdraw_and_close_vault(&mut ledger, &escrow),
        Err(EscrowError::AuthorityMismatch)
    );
    assert_eq!(ledger, before);
}

#[test]
fn record_with_wrong_bump_is_authority_mismatch() {
    let mut ledger = funded();
    let (address, bump) = record_address(&maker(), 7);
    let escrow = Escrow {
        maker: maker(),
        mint_a: asset_x(),
        mint_b: asset_y(),
        seed: 7,
        receive: 500,
        bump: bump.wrapping_sub(1),
    };
    ledger.records.push(Record { address, escrow });
    assert!(ledger.deposit(&address, &asset_x(), 1_000));
    assert_eq!(take(&mut ledger, &fulfill(7)), Err(EscrowError::AuthorityMismatch));
    assert_eq!(refund(&mut ledger, &cancel(7)), Err(EscrowError::AuthorityMismatch));
}

#[test]
fn record_without_custody_is_authority_mismatch() {
    let mut ledger = opened();
    let (escrow, _) = record_address(&maker(), 7);
    assert_eq!(ledger.transfer(&escrow, &maker(), &asset_x(), 1_000), Ok(()));
    ledger.close_account(&escrow, &asset_x(), &maker());
    assert_eq!(take(&mut ledger, &fulfill(7)), Err(EscrowError::AuthorityMismatch));
    assert_eq!(refund(&mut ledger, &cancel(7)), Err(EscrowError::AuthorityMismatch));
}

#[test]
fn custody_check_accepts_a_created_record() {
    let ledger = opened();
    let (address, _) = record_address(&maker(), 7);
    let escrow = ledger.record_of(&address).expect("the record exists");
    assert!(custody_is_valid(&ledger, &escrow, &address));
    assert_eq!(fulfill(7).validate(&ledger), Ok(escrow));
    assert_eq!(cancel(7).validate(&ledger), Ok(escrow));
}

#[test]
fn zero_receive_offer_gives_custody_away() {
    let mut ledger = funded();
    assert_eq!(make(&mut ledger, &offer(7), 7, 0, 1_000), Ok(()));
    assert_eq!(take(&mut ledger, &fulfill(7)), Ok(()));
    assert_eq!(ledger.balance_of(&maker(), &asset_y()), 0);
    assert_eq!(ledger.balance_of(&taker(), &asset_y()), 800);
    assert_eq!(ledger.balance_of(&taker(), &asset_x()), 1_000);
}

#[test]
fn zero_amount_offer_moves_only_the_price() {
    let mut ledger = funded();
    assert_eq!(make(&mut ledger, &offer(7), 7, 500, 0), Ok(()));
    assert_eq!(take(&mut ledger, &fulfill(7)), Ok(()));
    assert_eq!(ledger.balance_of(&maker(), &asset_y()), 500);
    assert_eq!(ledger.balance_of(&taker(), &asset_x()), 0);
    assert!(ledger.has_holding(&taker(), &asset_x()));
}

#[test]
fn maker_fulfills_own_offer() {
    let mut ledger = funded();
    assert!(ledger.deposit(&maker(), &asset_y(), 600));
    assert_eq!(make(&mut ledger, &offer(7), 7, 500, 1_000), Ok(()));
    let mut request = fulfill(7);
    request.taker = maker();
    assert_eq!(take(&mut ledger, &request), Ok(()));
    assert_eq!(ledger.balance_of(&maker(), &asset_y()), 600);
    assert_eq!(ledger.balance_of(&maker(), &asset_x()), 5_000);
}

#[test]
fn offer_of_one_asset_for_itself() {
    let mut ledger = Ledger::new(program());
    assert!(ledger.deposit(&maker(), &asset_x(), 1_000));
    assert!(ledger.deposit(&taker(), &asset_x(), 700));
    let (escrow, _) = record_address(&maker(), 3);
    let request = Make { maker: maker(), escrow, mint_a: asset_x(), mint_b: asset_x() };
    assert_eq!(make(&mut ledger, &request, 3, 500, 1_000), Ok(()));
    let fill = Take { taker: taker(), maker: maker(), escrow, mint_a: asset_x(), mint_b: asset_x() };
    assert_eq!(take(&mut ledger, &fill), Ok(()));
    assert_eq!(ledger.balance_of(&maker(), &asset_x()), 500);
    assert_eq!(ledger.balance_of(&taker(), &asset_x()), 1_200);
}

#[test]
fn two_escrows_of_one_maker_are_independent() {
    let mut ledger = opened();
    assert_eq!(make(&mut ledger, &offer(8), 8, 100, 2_000), Ok(()));
    assert_eq!(refund(&mut ledger, &cancel(7)), Ok(()));
    let (second, _) = record_address(&maker(), 8);
    assert_eq!(ledger.balance_of(&second, &asset_x()), 2_000);
    assert_eq!(ledger.balance_of(&maker(), &asset_x()), 3_000);
    assert_eq!(take(&mut ledger, &fulfill(8)), Ok(()));
    assert_eq!(ledger.balance_of(&taker(), &asset_x()), 2_000);
    assert_eq!(ledger.balance_of(&maker(), &asset_y()), 100);
}

#[test]
fn steps_of_fulfill_one_by_one() {
    let mut ledger = opened();
    let request = fulfill(7);
    let escrow = request.validate(&ledger).expect("the request is valid");
    assert_eq!(request.transfer_to_maker(&mut ledger, &escrow), Ok(()));
    assert_eq!(ledger.balance_of(&maker(), &asset_y()), 500);
    assert_eq!(ledger.balance_of(&taker(), &asset_y()), 300);
    assert_eq!(ledger.balance_of(&request.escrow, &asset_x()), 1_000);
    assert_eq!(request.withdraw_and_close_vault(&mut ledger, &escrow), Ok(()));
    assert_eq!(ledger.balance_of(&taker(), &asset_x()), 1_000);
    assert!(!ledger.has_holding(&request.escrow, &asset_x()));
    assert_eq!(ledger.record_of(&request.escrow), Some(escrow));
}

#[test]
fn transfer_to_maker_without_enough_changes_nothing() {
    let mut ledger = opened();
    let request = fulfill(7);
    let mut escrow = request.validate(&ledger).expect("the request is valid");
    escrow.receive = 801;
    let before = ledger.clone();
    assert_eq!(
        request.transfer_to_maker(&mut ledger, &escrow),
        Err(EscrowError::InsufficientBalance)
    );
    assert_eq!(ledger, before);
}

#[test]
fn ledger_transfer_and_deposit() {
    let mut ledger = Ledger::new(program());
    assert!(!ledger.has_holding(&maker(), &asset_x()));
    assert_eq!(ledger.balance_of(&maker(), &asset_x()), 0);
    assert!(ledger.deposit(&maker(), &asset_x(), u64::MAX - 1));
    assert!(!ledger.deposit(&maker(), &asset_x(), 2));
    assert!(ledger.deposit(&maker(), &asset_x(), 1));
    assert_eq!(ledger.balance_of(&maker(), &asset_x()), u64::MAX);
    assert_eq!(ledger.transfer(&maker(), &taker(), &asset_x(), 10), Ok(()));
    assert_eq!(ledger.balance_of(&maker(), &asset_x()), u64::MAX - 10);
    assert_eq!(ledger.balance_of(&taker(), &asset_x()), 10);
    assert_eq!(ledger.transfer(&maker(), &maker(), &asset_x(), 5), Ok(()));
    assert_eq!(ledger.balance_of(&maker(), &asset_x()), u64::MAX - 10);
    let before = ledger.clone();
    assert_eq!(
        ledger.transfer(&taker(), &maker(), &asset_x(), 11),
        Err(EscrowError::InsufficientBalance)
    );
    assert_eq!(
        ledger.transfer(&taker(), &maker(), &asset_y(), 0),
        Err(EscrowError::InsufficientBalance)
    );
    assert_eq!(ledger, before);
    assert_eq!(ledger.transfer(&taker(), &maker(), &asset_x(), 10), Ok(()));
    ledger.close_account(&taker(), &asset_x(), &maker());
    assert!(!ledger.has_holding(&taker(), &asset_x()));
    assert_eq!(ledger.holdings.len(), 1);
    assert_eq!(
        ledger.reclaims,
        vec![Reclaim::Holding { owner: taker(), mint: asset_x(), destination: maker() }]
    );
    ledger.close_account(&taker(), &asset_x(), &maker());
    assert_eq!(ledger.reclaims.len(), 1);
}

#[test]
fn ledger_records_open_and_close() {
    let mut ledger = Ledger::new(program());
    let escrow = Escrow {
        maker: maker(),
        mint_a: asset_x(),
        mint_b: asset_y(),
        seed: 1,
        receive: 2,
        bump: 3,
    };
    ledger.open_record(&addr(40), escrow);
    ledger.open_record(&addr(41), Escrow { seed: 5, ..escrow });
    assert_eq!(ledger.record_of(&addr(40)), Some(escrow));
    assert_eq!(ledger.record_of(&addr(41)).map(|e| e.seed), Some(5));
    ledger.close_record(&addr(40), &maker());
    assert_eq!(ledger.record_of(&addr(40)), None);
    assert_eq!(ledger.record_of(&addr(41)).map(|e| e.seed), Some(5));
    ledger.close_record(&addr(40), &maker());
    assert_eq!(ledger.records.len(), 1);
    assert_eq!(
        ledger.reclaims,
        vec![Reclaim::Record { address: addr(40), destination: maker() }]
    );
}

#[test]
fn steps_of_fulfill_in_order() {
    let request = fulfill(7);
    assert_eq!(
        request.steps(500, 1_000),
        vec![
            Step::Transfer {
                from: taker(),
                to: maker(),
                mint: asset_y(),
                amount: 500,
                by_custody: false,
            },
            Step::Transfer {
                from: request.escrow,
                to: taker(),
                mint: asset_x(),
                amount: 1_000,
                by_custody: true,
            },
            Step::CloseCustody { owner: request.escrow, mint: asset_x(), destination: taker() },
            Step::CloseRecord { address: request.escrow, destination: maker() },
        ]
    );
}

#[test]
fn steps_of_cancel_and_create_in_order() {
    let request = cancel(7);
    assert_eq!(
        request.steps(1_000),
        vec![
            Step::Transfer {
                from: request.escrow,
                to: maker(),
                mint: asset_x(),
                amount: 1_000,
                by_custody: true,
            },
            Step::CloseCustody { owner: request.escrow, mint: asset_x(), destination: maker() },
            Step::CloseRecord { address: request.escrow, destination: maker() },
        ]
    );
    assert_eq!(
        offer(7).steps(1_000),
        vec![Step::Transfer {
            from: maker(),
            to: request.escrow,
            mint: asset_x(),
            amount: 1_000,
            by_custody: false,
        }]
    );
}

#[test]
fn applying_the_steps_gives_what_the_request_gives() {
    let mut by_steps = opened();
    let mut by_request = opened();
    let request = fulfill(7);
    let held = by_steps.balance_of(&request.escrow, &asset_x());
    for step in request.steps(500, held) {
        assert_eq!(by_steps.apply(&step), Ok(()));
    }
    assert_eq!(take(&mut by_request, &request), Ok(()));
    assert_eq!(by_steps, by_request);

    let mut by_steps = opened();
    let mut by_request = opened();
    for step in cancel(7).steps(1_000) {
        assert_eq!(by_steps.apply(&step), Ok(()));
    }
    assert_eq!(refund(&mut by_request, &cancel(7)), Ok(()));
    assert_eq!(by_steps, by_request);
}

#[test]
fn applying_an_uncovered_transfer_changes_nothing() {
    let mut ledger = funded();
    let before = ledger.clone();
    let step = Step::Transfer {
        from: taker(),
        to: maker(),
        mint: asset_y(),
        amount: 801,
        by_custody: false,
    };
    assert_eq!(ledger.apply(&step), Err(EscrowError::InsufficientBalance));
    assert_eq!(ledger, before);
}

#[test]
fn handlers_are_the_requests() {
    let mut by_handler = funded();
    assert_eq!(offer(7).handler(&mut by_handler, 7, 500, 1_000), Ok(()));
    assert_eq!(by_handler, opened());
    let mut by_request = opened();
    assert_eq!(fulfill(7).handler(&mut by_handler), Ok(()));
    assert_eq!(take(&mut by_request, &fulfill(7)), Ok(()));
    assert_eq!(by_handler, by_request);
}

#[test]
fn rejected_fulfill_needs_no_room() {
    let mut ledger = Ledger::new(program());
    assert!(ledger.deposit(&maker(), &asset_x(), 1_000));
    assert!(ledger.deposit(&maker(), &asset_y(), 1));
    assert_eq!(make(&mut ledger, &offer(7), 7, u64::MAX, 1_000), Ok(()));
    let before = ledger.clone();
    assert_eq!(take(&mut ledger, &fulfill(7)), Err(EscrowError::InsufficientBalance));
    let mut wrong = fulfill(7);
    wrong.maker = addr(77);
    assert_eq!(take(&mut ledger, &wrong), Err(EscrowError::InvalidMaker));
    let mut wrong = fulfill(7);
    wrong.mint_a = addr(78);
    assert_eq!(take(&mut ledger, &wrong), Err(EscrowError::InvalidAssetType));
    let escrow = ledger.record_of(&fulfill(7).escrow).expect("the record exists");
    assert_eq!(
        fulfill(7).transfer_to_maker(&mut ledger, &escrow),
        Err(EscrowError::InsufficientBalance)
    );
    assert_eq!(ledger, before);
}

#[test]
fn withdrawal_refuses_a_record_of_another_maker_or_asset() {
    let mut ledger = opened();
    let before = ledger.clone();
    let escrow = ledger.record_of(&cancel(7).escrow).expect("the record exists");
    let mut stranger = cancel(7);
    stranger.maker = taker();
    assert_eq!(
        stranger.withdraw_and_close_vault(&mut ledger, &escrow),
        Err(EscrowError::InvalidMaker)
    );
    let mut other = cancel(7);
    other.mint_a = asset_y();
    assert_eq!(
        other.withdraw_and_close_vault(&mut ledger, &escrow),
        Err(EscrowError::InvalidAssetType)
    );
    let mut named = fulfill(7);
    named.maker = addr(77);
    assert_eq!(
        named.withdraw_and_close_vault(&mut ledger, &escrow),
        Err(EscrowError::InvalidMaker)
    );
    let mut asset = fulfill(7);
    asset.mint_a = asset_y();
    assert_eq!(
        asset.withdraw_and_close_vault(&mut ledger, &escrow),
        Err(EscrowError::InvalidAssetType)
    );
    assert_eq!(ledger, before);
    assert_eq!(cancel(7).withdraw_and_close_vault(&mut ledger, &escrow), Ok(()));
    assert_eq!(
        ledger.reclaims,
        vec![Reclaim::Holding { owner: cancel(7).escrow, mint: asset_x(), destination: maker() }]
    );
    assert_eq!(ledger.balance_of(&maker(), &asset_x()), 5_000);
}
