//! The decisions around the "level cleared" webhook: which sender name and
//! message suffix a clear announcement carries, the message itself, and the
//! endpoint the configured webhook id and token name. Sending is the
//! transport layer's job; everything it sends is assembled here.
use vstd::prelude::*;
use vstd::string::StringExecFns;

use crate::id_codec::spec_canonicalize;
use crate::smm2_level::Smm2Level;
use crate::text::to_string;

verus! {

/// The webhook bot's credentials, as configured.
#[derive(Clone, Debug)]
pub struct DiscordBotWebhookConfig {
    pub id: String,
    pub token: String,
}

/// One recognized clear source: its lookup key and the address shown in the
/// announcement.
#[derive(Clone, Debug)]
pub struct DiscordWebhookSource {
    pub key: String,
    pub url: String,
}

/// The sender name and message suffix of a clear announcement: a clear
/// reported by a recognized source is announced under the API's name with
/// the source in parentheses; any other clear under the site's own name
/// with no suffix.
pub fn lookup_message_data(source_url: Option<&str>) -> (r: (String, String))
    ensures
        match source_url {
            Some(url) => r.0@ == "api.smm-uncleared.com"@ && r.1@ == " ("@ + url@ + ")"@,
            None => r.0@ == "smm-uncleared.com"@ && r.1@.len() == 0,
        },
{
    match source_url {
        Some(url) => {
            let mut appendix = to_string(" (");
            appendix.append(url);
            appendix.append(")");
            (to_string("api.smm-uncleared.com"), appendix)
        },
        None => (to_string("smm-uncleared.com"), String::new()),
    }
}

/// The chat command a clear announcement carries.
pub fn clear_message(level_id: &str, appendix: &str) -> (r: String)
    ensures
        r@ == "!clear "@ + level_id@ + appendix@,
{
    let mut msg = to_string("!clear ");
    msg.append(level_id);
    msg.append(appendix);
    msg
}

/// The webhook endpoint the configured credentials name.
pub fn webhook_endpoint(config: &DiscordBotWebhookConfig) -> (r: String)
    ensures
        r@ == "https://discord.com/api/webhooks/"@ + config.id@ + "/"@ + config.token@,
{
    let mut url = to_string("https://discord.com/api/webhooks/");
    url.append(config.id.as_str());
    url.append("/");
    url.append(config.token.as_str());
    url
}

/// Validates a mark-cleared request's raw id: canonicalized it must be
/// exactly nine characters, else the request is rejected. Whether the id
/// exists in the catalog is the store's question, asked afterward.
pub fn validate_mark_cleared_id(raw_id: &str) -> (r: Option<String>)
    ensures
        match r {
            Some(id) => id@ == spec_canonicalize(raw_id@) && id@.len() == 9,
            None => spec_canonicalize(raw_id@).len() != 9,
        },
{
    let id = Smm2Level::normalized_internal_level_id(raw_id);
    if id.as_str().unicode_len() == 9 {
        Some(id)
    } else {
        None
    }
}

} // verus!
