//! A supply-relative transfer cap for a fungible asset.
//!
//! Each governed asset has one policy record: the identity allowed to change
//! it, a cap as a percentage of total supply, and a graduation flag. Before
//! graduation a transfer is allowed only while the recipient's balance after
//! the transfer stays within the cap; after graduation every transfer is
//! allowed.
mod guard;
mod key;
mod policy;
mod store;

pub use guard::{
    cap_of, guarded_transfer, max_allowed, transfer_allowed, within_cap, GuardedTransfer,
    TransferOrder,
};
pub use key::Key;
pub use policy::{
    fresh_config, graduated_by, graduation_is_idempotent, init_config, is_authorized,
    set_graduated, unauthorized_change_is_void, Config, CustomError, InitConfig, SetGraduated,
};
pub use store::{
    apply_op, apply_ops, authority_never_changes, created, graduation_set, PolicyOp, PolicyStore,
};
