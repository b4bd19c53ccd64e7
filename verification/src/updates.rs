pub mod add_token;
pub mod subscribe;
pub mod update_token_config;
