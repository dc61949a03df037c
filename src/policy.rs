use vstd::prelude::*;

use crate::key::Key;

verus! {

/// Why an operation on a policy was refused.
#[derive(Clone, Copy, Debug, PartialEq, Eq, Structural)]
pub enum CustomError {
    /// The transfer would leave the recipient above the cap before graduation.
    OverCap,
    /// The signer is not the policy's authority.
    Unauthorized,
    /// A policy record already exists where one was to be created.
    AlreadyInitialized,
    /// No policy record exists for the asset.
    NotInitialized,
}

/// The policy record of one governed asset.
///
/// `max_percent` is taken as given at creation and never range-checked: a
/// value above 100 yields a cap above total supply.
#[derive(Clone, Copy, Debug, PartialEq, Eq)]
pub struct Config {
    /// The only identity allowed to change this record; fixed at creation.
    pub authority: Key,
    /// The cap, as a percentage of total supply.
    pub max_percent: u8,
    /// Once set, the cap no longer applies.
    pub graduated: bool,
}

/// The record that creation writes.
pub open spec fn fresh_config(authority: Key, max_percent: u8) -> Config {
    Config { authority, max_percent, graduated: false }
}

/// Whether `signer` may change `config`.
pub open spec fn is_authorized(config: Config, signer: Key) -> bool {
    signer == config.authority
}

/// The record after `signer` asks to set the graduation flag to `graduated`:
/// the flag is overwritten when the signer is the authority, and nothing
/// changes otherwise.
pub open spec fn graduated_by(config: Config, signer: Key, graduated: bool) -> Config {
    if is_authorized(config, signer) {
        Config { graduated, ..config }
    } else {
        config
    }
}

/// What the creation of a policy record works on: the slot where the record
/// is to live, empty or not, and the creating identity.
pub struct InitConfig {
    pub config: Option<Config>,
    pub authority: Key,
}

/// What a change of the graduation flag works on: the record and the signer.
pub struct SetGraduated {
    pub config: Config,
    pub authority: Key,
}

/// Creates the policy record in an empty slot, with the creating identity as
/// authority, the given cap and the flag cleared. A slot that already holds a
/// record is left as it was.
pub fn init_config(ctx: &mut InitConfig, max_percent: u8) -> (r: Result<(), CustomError>)
    ensures
        final(ctx).authority == old(ctx).authority,
        old(ctx).config is None ==> r is Ok && final(ctx).config == Some(
            fresh_config(old(ctx).authority, max_percent),
        ),
        old(ctx).config is Some ==> r == Err::<(), CustomError>(CustomError::AlreadyInitialized)
            && final(ctx).config == old(ctx).config,
{
    if ctx.config.is_some() {
        return Err(CustomError::AlreadyInitialized);
    }
    ctx.config = Some(Config { authority: ctx.authority, max_percent, graduated: false });
    Ok(())
}

/// Sets the graduation flag, provided the signer is the record's authority;
/// otherwise fails with `Unauthorized` and changes nothing.
pub fn set_graduated(ctx: &mut SetGraduated, graduated: bool) -> (r: Result<(), CustomError>)
    ensures
        final(ctx).authority == old(ctx).authority,
        final(ctx).config == graduated_by(old(ctx).config, old(ctx).authority, graduated),
        r is Ok <==> is_authorized(old(ctx).config, old(ctx).authority),
        r is Err ==> r == Err::<(), CustomError>(CustomError::Unauthorized),
{
    if !ctx.authority.same_as(&ctx.config.authority) {
        return Err(CustomError::Unauthorized);
    }
    ctx.config.graduated = graduated;
    Ok(())
}

/// Setting the flag to `true` twice in a row with the authority as signer
/// succeeds both times and leaves the flag set, the same as after one call.
pub proof fn graduation_is_idempotent(config: Config, signer: Key)
    requires
        is_authorized(config, signer),
    ensures
        is_authorized(graduated_by(config, signer, true), signer),
        graduated_by(graduated_by(config, signer, true), signer, true).graduated,
        graduated_by(graduated_by(config, signer, true), signer, true) == graduated_by(
            config,
            signer,
            true,
        ),
{
}

/// A signer other than the authority changes nothing, the flag included.
pub proof fn unauthorized_change_is_void(config: Config, signer: Key, graduated: bool)
    requires
        !is_authorized(config, signer),
    ensures
        graduated_by(config, signer, graduated) == config,
        graduated_by(config, signer, graduated).graduated == config.graduated,
{
}

} // verus!
