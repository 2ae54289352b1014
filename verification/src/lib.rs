use vstd::prelude::*;

pub mod api;
pub mod archive_pdf;
pub mod auth;
pub mod calculate;
pub mod customer;
pub mod decimal;
pub mod events;
pub mod flows;
pub mod issue_flows;
pub mod map_flows;
pub mod models;
pub mod multipart;
pub mod notifications;
pub mod order_templates;
pub mod production_map;
pub mod profile;
pub mod push;
pub mod push_tokens;
pub mod reply_flows;
pub mod rezka;
pub mod rps;
pub mod server;
pub mod werka;
pub mod text;
pub mod upload_flows;

verus! {

} // verus!
