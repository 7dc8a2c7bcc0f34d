pub mod effects;
pub mod request_checks;
pub mod reserve_allocation_operations;
pub mod reserve_whitelist_operations;
pub mod vault_checks;
pub mod vault_config_operations;
pub mod vault_operations;
