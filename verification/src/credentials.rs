//! How S3 credentials are kept in the system keyring: one item per profile,
//! labelled and tagged by profile, whose secret is a JSON blob holding the
//! access key id and the secret access key.

use vstd::prelude::*;
use crate::text::push_str;

verus! {

#[verifier::external_type_specification]
#[verifier::external_body]
pub struct ExJsonError(serde_json::Error);

/// The service identifier every credentials item is tagged with.
pub open spec fn service_tag() -> Seq<char> {
    "chronos-fm-s3"@
}

/// The keyring label of a profile's item: `Chronos-FM S3 — <profile>`.
pub open spec fn label_text(profile: Seq<char>) -> Seq<char> {
    "Chronos-FM S3 \u{2014} "@ + profile
}

/// The keyring label of `profile`'s credentials item.
pub fn credentials_label(profile: &str) -> (r: String)
    ensures
        r@ == label_text(profile@),
{
    let mut s = String::new();
    push_str(&mut s, "Chronos-FM S3 \u{2014} ");
    proof {
        reveal_strlit("Chronos-FM S3 \u{2014} ");
    }
    push_str(&mut s, profile);
    s
}

/// The attributes that identify `profile`'s item: the service tag and the
/// profile name.
pub fn keyring_attributes(profile: &str) -> (r: Vec<(String, String)>)
    ensures
        r@.len() == 2,
        r@[0].0@ == "service"@ && r@[0].1@ == service_tag(),
        r@[1].0@ == "profile"@ && r@[1].1@ == profile@,
{
    let mut r: Vec<(String, String)> = Vec::new();
    r.push(("service".to_string(), "chronos-fm-s3".to_string()));
    r.push(("profile".to_string(), profile.to_string()));
    r
}

/// The secret stored for a key pair:
/// `{"access_key_id":"<access>","secret_access_key":"<secret>"}`, the keys
/// written in as given.
pub open spec fn secret_text(access: Seq<char>, secret: Seq<char>) -> Seq<char> {
    "{\"access_key_id\":\""@ + access + "\",\"secret_access_key\":\""@ + secret + "\"}"@
}

/// The JSON blob stored as the secret of a profile's item.
pub fn credentials_json(access_key: &str, secret_key: &str) -> (r: String)
    ensures
        r@ == secret_text(access_key@, secret_key@),
{
    let mut s = String::new();
    push_str(&mut s, "{\"access_key_id\":\"");
    push_str(&mut s, access_key);
    push_str(&mut s, "\",\"secret_access_key\":\"");
    push_str(&mut s, secret_key);
    push_str(&mut s, "\"}");
    proof {
        reveal_strlit("{\"access_key_id\":\"");
        reveal_strlit("\",\"secret_access_key\":\"");
        reveal_strlit("\"}");
    }
    s
}

/// What `serde_json` reads from `text` at the top-level member `key`:
/// `None` when the text is not JSON; otherwise the member's string value,
/// or `None` inside when the text is not an object, has no such member, or
/// the member is not a string.
pub uninterp spec fn json_member(text: Seq<char>, key: Seq<char>) -> Option<Option<Seq<char>>>;

/// The characters of an optional string.
pub open spec fn opt_string(o: Option<String>) -> Option<Seq<char>> {
    match o {
        Some(s) => Some(s@),
        None => None,
    }
}

/// Whether `s` can stand inside a JSON string literal as it is: no quote,
/// no backslash, no control character below U+0020.
pub open spec fn json_plain(s: Seq<char>) -> bool {
    forall|i: int|
        0 <= i < s.len() ==> #[trigger] s[i] != '"' && s[i] != '\\' && s[i] >= '\u{20}'
}

/// Whether a member read `r` of `text` at `key` gives back the values of a
/// credentials secret written without escapes.
pub open spec fn reads_back_members(
    text: Seq<char>,
    key: Seq<char>,
    r: Result<Option<String>, serde_json::Error>,
) -> bool {
    forall|a: Seq<char>, b: Seq<char>|
        #![trigger secret_text(a, b)]
        json_plain(a) && json_plain(b) && text == secret_text(a, b) ==> ((key == "access_key_id"@
            ==> (r matches Ok(Some(v)) && v@ == a)) && (key == "secret_access_key"@ ==> (r matches Ok(
            Some(v),
        ) && v@ == b)))
}

/// `serde_json::from_str::<serde_json::Value>`, then indexing by `key`
/// (which gives `Null` for a missing member or a non-object) and
/// `Value::as_str`. The result is named by [`json_member`]; parse errors
/// come back as the crate's error. Of the parser itself only this is
/// stated: an object of the two credential members, whose values need no
/// escaping, reads back those values.
#[verifier::external_body]
fn json_string_member(text: &str, key: &str) -> (r: Result<Option<String>, serde_json::Error>)
    ensures
        match r {
            Ok(m) => json_member(text@, key@) == Some(opt_string(m)),
            Err(_) => json_member(text@, key@) is None,
        },
        reads_back_members(text@, key@, r),
{
    let value: serde_json::Value = serde_json::from_str(text)?;
    Ok(value[key].as_str().map(str::to_owned))
}

/// Why stored credentials could not be read.
#[derive(Debug)]
pub enum CredentialsError {
    /// The stored secret is not JSON.
    Parse(serde_json::Error),
}

/// A stored key pair from the secret's two members: both must be non-empty
/// strings (a missing or non-string member counts as empty).
pub open spec fn key_pair(access: Option<Seq<char>>, secret: Option<Seq<char>>) -> Option<
    (Seq<char>, Seq<char>),
> {
    match (access, secret) {
        (Some(a), Some(s)) => if a.len() > 0 && s.len() > 0 {
            Some((a, s))
        } else {
            None
        },
        _ => None,
    }
}

/// The key pair made of the secret's `access_key_id` and
/// `secret_access_key` members, or `None` when either is missing, not a
/// string, or empty.
pub fn credentials_from_members(access: Option<String>, secret: Option<String>) -> (r: Option<
    (String, String),
>)
    ensures
        match r {
            Some((a, s)) => key_pair(opt_string(access), opt_string(secret)) == Some((a@, s@)),
            None => key_pair(opt_string(access), opt_string(secret)) is None,
        },
{
    let a = match access {
        Some(a) => a,
        None => {
            return None;
        },
    };
    let s = match secret {
        Some(s) => s,
        None => {
            return None;
        },
    };
    if a.as_str().is_empty() || s.as_str().is_empty() {
        return None;
    }
    Some((a, s))
}

/// Reads a stored secret: an error when it is not JSON, otherwise the key
/// pair it holds, or `None` when either key is missing or empty.
pub fn parse_stored_credentials(json: &str) -> (r: Result<Option<(String, String)>, CredentialsError>)
    ensures
        forall|a: Seq<char>, b: Seq<char>|
            #![trigger secret_text(a, b)]
            json_plain(a) && json_plain(b) && a.len() > 0 && b.len() > 0 && json@ == secret_text(
                a,
                b,
            ) ==> (r matches Ok(Some((x, y))) && x@ == a && y@ == b),
        json_member(json@, "access_key_id"@) is None ==> r is Err,
        json_member(json@, "access_key_id"@) matches Some(a) ==> match json_member(
            json@,
            "secret_access_key"@,
        ) {
            None => r is Err,
            Some(s) => match r {
                Ok(Some((x, y))) => key_pair(a, s) == Some((x@, y@)),
                Ok(None) => key_pair(a, s) is None,
                Err(_) => false,
            },
        },
{
    proof {
        reveal_strlit("access_key_id");
        reveal_strlit("secret_access_key");
    }
    let access = match json_string_member(json, "access_key_id") {
        Ok(a) => a,
        Err(e) => {
            return Err(CredentialsError::Parse(e));
        },
    };
    let secret = match json_string_member(json, "secret_access_key") {
        Ok(s) => s,
        Err(e) => {
            return Err(CredentialsError::Parse(e));
        },
    };
    Ok(credentials_from_members(access, secret))
}

} // verus!
