//! Builds request URLs for the rule34.xxx post API and turns the JSON it
//! answers with into posts.
//!
//! `ApiUrl::new().add_tag("big_boobs").set_limit(1).to_api_url()` gives the
//! URL to request; `R34JsonParser::new().from_api_response(answer)` gives
//! the posts of the answer.

pub mod text;
pub mod json;
pub mod post;
pub mod api_url;
pub mod parser;

pub use api_url::{format_id, ApiUrl};
pub use json::JsonValue;
pub use parser::{PostField, R34Error, R34JsonParser};
pub use post::{Post, Rating};
