//! The records the client keeps and shows, and the pure rules around
//! the persistent store: settings assembly and validation, conversation
//! title normalization, model list shaping, authentication status, and
//! the derivation of the store's encryption key.

use vstd::prelude::*;
use vstd::string::StringExecFns;
use vstd::string::StringSliceAdditionalSpecFns;
use vstd::string::StrSliceExecFns;

use std::collections::hash_map::DefaultHasher;
use std::hash::Hasher;
use vstd::std_specs::hash::DefaultHasherAdditionalSpecFns;

use vstd::utf8::encode_utf8;

use crate::error::AppError;
use crate::text::{hex16_of, trim_of, trim_str, u64_to_hex16};

verus! {

/// Upper bound, in characters, on a conversation title.
pub const MAX_TITLE_LENGTH: usize = 200;

/// Upper bound, in bytes of the encoded text, on one stored setting
/// value.
pub const MAX_SETTING_VALUE_SIZE: usize = 100_000;

/// Whether the backend considers the user signed in, and as whom.
#[derive(Clone, Debug)]
pub struct AuthStatus {
    pub authenticated: bool,
    pub username: Option<String>,
}

/// One model the backend offers.
#[derive(Clone, Debug)]
pub struct ModelInfo {
    pub id: String,
    pub name: String,
    pub provider: Option<String>,
}

/// One stored conversation.
#[derive(Clone, Debug)]
pub struct Conversation {
    pub id: String,
    pub title: String,
    pub model: Option<String>,
    pub created_at: String,
    pub updated_at: String,
}

/// One stored message of a conversation.
#[derive(Clone, Debug)]
pub struct Message {
    pub id: String,
    pub conversation_id: String,
    pub role: String,
    pub content: String,
    pub created_at: String,
}

/// The user's settings.
#[derive(Clone, Debug)]
pub struct Settings {
    pub theme: String,
    pub default_model: Option<String>,
    pub system_prompt: Option<String>,
}

/// Assembles the settings from the stored values: a missing theme
/// falls back to the default, the optional values stay as stored.
pub fn settings_from_values(
    theme: Option<String>,
    default_model: Option<String>,
    system_prompt: Option<String>,
) -> (s: Settings)
    ensures
        s.theme@ == (match theme {
            Some(t) => t@,
            None => "dark"@,
        }),
        s.default_model == default_model,
        s.system_prompt == system_prompt,
{
    let theme_value = match theme {
        Some(t) => t,
        None => String::from_str("dark"),
    };
    Settings { theme: theme_value, default_model, system_prompt }
}

/// Whether every settings value fits the stored-value size bound.
pub open spec fn settings_ok(s: &Settings) -> bool {
    &&& encode_utf8(s.theme@).len() <= MAX_SETTING_VALUE_SIZE
    &&& (s.default_model matches Some(m) ==> encode_utf8(m@).len() <= MAX_SETTING_VALUE_SIZE)
    &&& (s.system_prompt matches Some(p) ==> encode_utf8(p@).len() <= MAX_SETTING_VALUE_SIZE)
}

/// Rejects settings with an oversized value before anything is stored.
pub fn validate_settings(s: &Settings) -> (r: Result<(), String>)
    ensures
        r is Ok <==> settings_ok(s),
        encode_utf8(s.theme@).len() > MAX_SETTING_VALUE_SIZE ==> (r matches Err(e) && e@
            == "Theme value is too large."@),
        encode_utf8(s.theme@).len() <= MAX_SETTING_VALUE_SIZE && (s.default_model matches Some(m)
            && encode_utf8(m@).len() > MAX_SETTING_VALUE_SIZE) ==> (r matches Err(e) && e@
            == "Default model value is too large."@),
        encode_utf8(s.theme@).len() <= MAX_SETTING_VALUE_SIZE && (s.default_model matches Some(m)
            ==> encode_utf8(m@).len() <= MAX_SETTING_VALUE_SIZE) && (s.system_prompt matches Some(
            p,
        ) && encode_utf8(p@).len() > MAX_SETTING_VALUE_SIZE) ==> (r matches Err(e) && e@
            == "System prompt value is too large."@),
{
    if s.theme.as_str().as_bytes().len() > MAX_SETTING_VALUE_SIZE {
        return Err(String::from_str("Theme value is too large."));
    }
    match &s.default_model {
        Some(m) => {
            if m.as_str().as_bytes().len() > MAX_SETTING_VALUE_SIZE {
                return Err(String::from_str("Default model value is too large."));
            }
        },
        None => {},
    }
    match &s.system_prompt {
        Some(p) => {
            if p.as_str().as_bytes().len() > MAX_SETTING_VALUE_SIZE {
                return Err(String::from_str("System prompt value is too large."));
            }
        },
        None => {},
    }
    Ok(())
}

/// The text a requested title starts from: the given one, or the
/// default for a fresh conversation.
pub open spec fn title_source(title: Option<Seq<char>>) -> Seq<char> {
    match title {
        Some(t) => t,
        None => "New Chat"@,
    }
}

/// The normalized form of a requested title: trimmed, then cut to the
/// title length bound.
pub open spec fn normalized_title(title: Option<Seq<char>>) -> Seq<char> {
    let trimmed = trim_of(title_source(title));
    if trimmed.len() > MAX_TITLE_LENGTH {
        trimmed.subrange(0, MAX_TITLE_LENGTH as int)
    } else {
        trimmed
    }
}

/// Normalizes a requested conversation title: trims it, cuts it to the
/// length bound, and rejects a title that is empty after trimming.
pub fn normalize_title(title: Option<String>) -> (r: Result<String, AppError>)
    ensures
        ({
            let norm = normalized_title(match title {
                Some(t) => Some(t@),
                None => None,
            });
            match r {
                Ok(s) => norm.len() > 0 && s@ == norm,
                Err(e) => norm.len() == 0 && e is Validation && e.spec_message()
                    == "Conversation title cannot be empty."@,
            }
        }),
{
    let base: &str = match &title {
        Some(t) => t.as_str(),
        None => "New Chat",
    };
    let trimmed = trim_str(base);
    let tlen = trimmed.unicode_len();
    let cut: &str = if tlen > MAX_TITLE_LENGTH {
        trimmed.substring_char(0, MAX_TITLE_LENGTH)
    } else {
        proof {
            assert(trimmed@.subrange(0, trimmed@.len() as int) =~= trimmed@);
        }
        trimmed
    };
    if cut.unicode_len() == 0 {
        Err(AppError::Validation(String::from_str("Conversation title cannot be empty.")))
    } else {
        Ok(String::from_str(cut))
    }
}

/// Shapes the backend's model list into the client's records: one
/// record per (identifier, name) pair, in order, with no provider set.
pub fn model_infos_from_pairs(pairs: Vec<(String, String)>) -> (r: Vec<ModelInfo>)
    ensures
        r@.len() == pairs@.len(),
        forall|i: int|
            0 <= i < r@.len() ==> (#[trigger] r@[i]).id@ == pairs@[i].0@ && r@[i].name@
                == pairs@[i].1@ && r@[i].provider is None,
{
    let mut r: Vec<ModelInfo> = Vec::new();
    let n = pairs.len();
    let mut k: usize = 0;
    while k < n
        invariant
            0 <= k <= n,
            n == pairs@.len(),
            r@.len() == k,
            forall|i: int|
                0 <= i < k ==> (#[trigger] r@[i]).id@ == pairs@[i].0@ && r@[i].name@
                    == pairs@[i].1@ && r@[i].provider is None,
        decreases n - k,
    {
        r.push(
            ModelInfo {
                id: pairs[k].0.clone(),
                name: pairs[k].1.clone(),
                provider: None,
            },
        );
        k = k + 1;
    }
    r
}

/// The signed-in status shown for a backend answer: the reported
/// status when one came back, signed out when the call failed.
pub fn auth_status_from(answer: Option<(bool, Option<String>)>) -> (r: AuthStatus)
    ensures
        (match answer {
            Some((authenticated, username)) => r.authenticated == authenticated && r.username
                == username,
            None => r.authenticated == false && r.username is None,
        }),
{
    match answer {
        Some((authenticated, username)) => AuthStatus { authenticated, username },
        None => AuthStatus { authenticated: false, username: None },
    }
}

/// The salt mixed into the store's encryption key.
pub open spec fn db_key_salt_bytes() -> Seq<u8> {
    "copilot-desktop-db-salt-2024".spec_bytes()
}

/// The single byte that string hashing writes after each string's
/// bytes, keeping adjacent strings from running into each other.
pub open spec fn str_hash_terminator() -> Seq<u8> {
    seq![0xffu8]
}

/// The encryption key derived for a store at the given path: the
/// digest of the terminated salt and the terminated path, rendered as
/// sixteen hexadecimal characters.
pub open spec fn db_key_of(path_bytes: Seq<u8>) -> Seq<char> {
    hex16_of(
        DefaultHasher::spec_finish(
            seq![
                db_key_salt_bytes(),
                str_hash_terminator(),
                path_bytes,
                str_hash_terminator(),
            ],
        ),
    )
}

/// Derives the store's encryption key from its file path, tying the
/// key to the file location. Salt and path are each hashed as string
/// hashing does: the text's bytes, then a terminator byte.
pub fn derive_encryption_key(path: &str) -> (r: String)
    ensures
        r@ == db_key_of(path.spec_bytes()),
        r@.len() == 16,
{
    let mut terminator: Vec<u8> = Vec::new();
    terminator.push(0xff);
    let mut hasher = DefaultHasher::new();
    hasher.write("copilot-desktop-db-salt-2024".as_bytes());
    hasher.write(terminator.as_slice());
    hasher.write(path.as_bytes());
    hasher.write(terminator.as_slice());
    let h = hasher.finish();
    proof {
        assert(terminator@ =~= str_hash_terminator());
        assert(hasher@ =~= seq![
            db_key_salt_bytes(),
            str_hash_terminator(),
            path.spec_bytes(),
            str_hash_terminator(),
        ]);
    }
    u64_to_hex16(h)
}

} // verus!
