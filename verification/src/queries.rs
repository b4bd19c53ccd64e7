pub mod http_request;
pub mod supported_tokens;
