use cap_guard::{
    guarded_transfer, init_config, max_allowed, set_graduated, within_cap, Config, CustomError,
    GuardedTransfer, InitConfig, Key, SetGraduated, TransferOrder,
};

fn key(b: u8) -> Key {
    Key::new([b; 32])
}

fn config(max_percent: u8, graduated: bool) -> Config {
    Config { authority: key(1), max_percent, graduated }
}

fn transfer(cfg: Config, supply: u64, balance: u64) -> GuardedTransfer {
    GuardedTransfer { config: cfg, supply, decimals: 6, destination_balance: balance }
}

#[test]
fn accepts_transfer_reaching_cap_exactly() {
    let ctx = transfer(config(10, false), 1_000_000, 0);
    assert_eq!(
        guarded_transfer(&ctx, 100_000),
        Ok(TransferOrder { amount: 100_000, decimals: 6 })
    );
}

#[test]
fn rejects_transfer_one_above_cap() {
    let ctx = transfer(config(10, false), 1_000_000, 0);
    assert_eq!(guarded_transfer(&ctx, 100_001), Err(CustomError::OverCap));
}

#[test]
fn graduated_accepts_any_amount() {
    let ctx = transfer(config(10, true), 1_000_000, 0);
    assert_eq!(
        guarded_transfer(&ctx, 5_000_000),
        Ok(TransferOrder { amount: 5_000_000, decimals: 6 })
    );
    let ctx = transfer(config(0, true), 0, u64::MAX);
    assert!(guarded_transfer(&ctx, u64::MAX).is_ok());
}

#[test]
fn second_creation_fails() {
    let mut ctx = InitConfig { config: None, authority: key(1) };
    assert_eq!(init_config(&mut ctx, 10), Ok(()));
    assert_eq!(ctx.config, Some(Config { authority: key(1), max_percent: 10, graduated: false }));
    let mut again = InitConfig { config: ctx.config, authority: key(2) };
    assert_eq!(init_config(&mut again, 50), Err(CustomError::AlreadyInitialized));
    assert_eq!(again.config, ctx.config);
}

#[test]
fn stranger_cannot_graduate() {
    let mut ctx = SetGraduated { config: config(10, false), authority: key(2) };
    assert_eq!(set_graduated(&mut ctx, true), Err(CustomError::Unauthorized));
    assert!(!ctx.config.graduated);
    let mut ctx = SetGraduated { config: config(10, true), authority: key(2) };
    assert_eq!(set_graduated(&mut ctx, false), Err(CustomError::Unauthorized));
    assert!(ctx.config.graduated);
}

#[test]
fn zero_supply_rejects_any_amount() {
    let ctx = transfer(config(50, false), 0, 0);
    assert_eq!(guarded_transfer(&ctx, 1), Err(CustomError::OverCap));
    assert_eq!(max_allowed(0, 50), 0);
}

#[test]
fn graduating_twice_succeeds() {
    let mut ctx = SetGraduated { config: config(10, false), authority: key(1) };
    assert_eq!(set_graduated(&mut ctx, true), Ok(()));
    assert_eq!(set_graduated(&mut ctx, true), Ok(()));
    assert!(ctx.config.graduated);
    assert_eq!(ctx.config.authority, key(1));
}

#[test]
fn authority_may_clear_graduation() {
    let mut ctx = SetGraduated { config: config(10, true), authority: key(1) };
    assert_eq!(set_graduated(&mut ctx, false), Ok(()));
    assert!(!ctx.config.graduated);
}

#[test]
fn cap_rounds_down() {
    assert_eq!(max_allowed(999, 10), 99);
    assert_eq!(max_allowed(1_000_000, 10), 100_000);
    assert_eq!(max_allowed(7, 33), 2);
}

#[test]
fn cap_uses_wide_arithmetic() {
    assert_eq!(max_allowed(u64::MAX, 100), u64::MAX as u128);
    assert_eq!(max_allowed(u64::MAX, 255), (u64::MAX as u128 * 255) / 100);
    let cfg = config(100, false);
    assert!(within_cap(&cfg, u64::MAX, u64::MAX, 0));
    assert!(!within_cap(&cfg, u64::MAX, u64::MAX, 1));
}

#[test]
fn full_supply_cap() {
    let cfg = config(100, false);
    assert!(within_cap(&cfg, 500, 0, 500));
    assert!(!within_cap(&cfg, 500, 0, 501));
}

#[test]
fn out_of_range_percent_exceeds_supply() {
    let cfg = config(200, false);
    assert_eq!(max_allowed(500, 200), 1000);
    assert!(within_cap(&cfg, 500, 400, 600));
}

#[test]
fn cap_counts_balance_already_held() {
    let cfg = config(10, false);
    assert!(within_cap(&cfg, 1_000_000, 60_000, 40_000));
    assert!(!within_cap(&cfg, 1_000_000, 60_000, 40_001));
}

#[test]
fn zero_amount_follows_existing_balance() {
    let cfg = config(10, false);
    assert!(within_cap(&cfg, 1_000, 100, 0));
    assert!(!within_cap(&cfg, 1_000, 101, 0));
}

#[test]
fn identity_equality() {
    assert!(key(3).same_as(&key(3)));
    let mut bytes = [3u8; 32];
    bytes[31] = 4;
    assert!(!key(3).same_as(&Key::new(bytes)));
}
