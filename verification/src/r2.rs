//! Settings of the R2 bucket (an S3-compatible object store) and how its answers are
//! read.
use vstd::prelude::*;
use vstd::utf8::{decode_utf8, valid_utf8};
use std::string::FromUtf8Error;

verus! {

/// Connection settings of the R2 bucket.
#[derive(Clone, Debug, PartialEq, Eq)]
pub struct R2Config {
    pub account_id: String,
    pub access_key_id: String,
    pub secret_access_key: String,
    pub bucket: String,
}

/// Why the R2 settings are incomplete: the variable that is not set.
#[derive(Clone, Debug, PartialEq, Eq)]
pub struct MissingSetting {
    pub variable: String,
}

impl MissingSetting {
    /// `<variable> not set`.
    pub fn message(&self) -> (m: String)
        ensures
            m@ == self.variable@ + " not set"@,
    {
        let mut m = self.variable.clone();
        m.append(" not set");
        m
    }
}

fn missing(variable: &str) -> (e: MissingSetting)
    ensures
        e.variable@ == variable@,
{
    MissingSetting { variable: variable.to_owned() }
}

impl R2Config {
    /// The settings from the values of `IRONMIND_R2_ACCOUNT_ID`,
    /// `IRONMIND_R2_ACCESS_KEY_ID`, `IRONMIND_R2_SECRET_ACCESS_KEY` and
    /// `IRONMIND_R2_BUCKET` (`None` where unset). The first three are required, checked
    /// in that order; the bucket defaults to "ironmind".
    pub fn from_values(
        account_id: Option<String>,
        access_key_id: Option<String>,
        secret_access_key: Option<String>,
        bucket: Option<String>,
    ) -> (r: Result<R2Config, MissingSetting>)
        ensures
            account_id is None ==> (r matches Err(e) && e.variable@
                == "IRONMIND_R2_ACCOUNT_ID"@),
            account_id is Some && access_key_id is None ==> (r matches Err(e) && e.variable@
                == "IRONMIND_R2_ACCESS_KEY_ID"@),
            account_id is Some && access_key_id is Some && secret_access_key is None ==> (r matches Err(
                e,
            ) && e.variable@ == "IRONMIND_R2_SECRET_ACCESS_KEY"@),
            account_id is Some && access_key_id is Some && secret_access_key is Some ==> (r matches Ok(
                c,
            ) && c.account_id == account_id->0 && c.access_key_id == access_key_id->0
                && c.secret_access_key == secret_access_key->0 && (match bucket {
                Some(b) => c.bucket == b,
                None => c.bucket@ == "ironmind"@,
            })),
    {
        let account_id = match account_id {
            Some(v) => v,
            None => {
                return Err(missing("IRONMIND_R2_ACCOUNT_ID"));
            },
        };
        let access_key_id = match access_key_id {
            Some(v) => v,
            None => {
                return Err(missing("IRONMIND_R2_ACCESS_KEY_ID"));
            },
        };
        let secret_access_key = match secret_access_key {
            Some(v) => v,
            None => {
                return Err(missing("IRONMIND_R2_SECRET_ACCESS_KEY"));
            },
        };
        let bucket = match bucket {
            Some(b) => b,
            None => "ironmind".to_owned(),
        };
        Ok(R2Config { account_id, access_key_id, secret_access_key, bucket })
    }
}

/// The bucket's endpoint: `https://<account_id>.r2.cloudflarestorage.com`.
pub fn r2_endpoint(account_id: &str) -> (e: String)
    ensures
        e@ == "https://"@ + account_id@ + ".r2.cloudflarestorage.com"@,
{
    let mut e = "https://".to_owned();
    e.append(account_id);
    e.append(".r2.cloudflarestorage.com");
    e
}

#[verifier::external_type_specification]
#[verifier::external_body]
pub struct ExFromUtf8Error(FromUtf8Error);

/// The text that `bytes` encode in UTF-8.
/// Trusted: calls `String::from_utf8`, which std documents as succeeding exactly when
/// the bytes are valid UTF-8, and then holding the text they encode.
#[verifier::external_body]
fn utf8_text(bytes: Vec<u8>) -> (r: Result<String, FromUtf8Error>)
    ensures
        r is Ok <==> valid_utf8(bytes@),
        r matches Ok(s) ==> s@ == decode_utf8(bytes@),
{
    String::from_utf8(bytes)
}

/// An object read as text: `None` for a missing object; an error when its bytes are not
/// UTF-8.
pub fn object_text(object: Option<Vec<u8>>) -> (r: Result<Option<String>, FromUtf8Error>)
    ensures
        object is None ==> r matches Ok(None),
        object matches Some(b) ==> (r is Ok <==> valid_utf8(b@)),
        object matches Some(b) ==> (r matches Ok(t) ==> t matches Some(s) && s@ == decode_utf8(
            b@,
        )),
{
    match object {
        None => Ok(None),
        Some(bytes) => match utf8_text(bytes) {
            Ok(s) => Ok(Some(s)),
            Err(e) => Err(e),
        },
    }
}

/// The key of a listing entry, when it has one.
pub open spec fn entry_key() -> spec_fn(Option<String>) -> Option<Seq<char>> {
    |e: Option<String>|
        match e {
            Some(k) => Some(k@),
            None => None,
        }
}

/// The keys of a listing: the entries that have one, in order.
pub fn listed_keys(entries: Vec<Option<String>>) -> (keys: Vec<String>)
    ensures
        crate::text::strings_view(keys@) == entries@.filter_map(entry_key()),
{
    let mut keys: Vec<String> = Vec::new();
    let mut i: usize = 0;
    while i < entries.len()
        invariant
            0 <= i <= entries@.len(),
            crate::text::strings_view(keys@) == entries@.take(i as int).filter_map(entry_key()),
        decreases entries@.len() - i,
    {
        let ghost before = keys@;
        proof {
            reveal_with_fuel(Seq::<Option<String>>::filter_map, 1);
            assert(entries@.take(i + 1).drop_last() =~= entries@.take(i as int));
            assert(entries@.take(i + 1).last() == entries@[i as int]);
        }
        match &entries[i] {
            Some(k) => {
                keys.push(k.clone());
                proof {
                    assert(entry_key()(entries@[i as int]) == Some(k@));
                    assert(crate::text::strings_view(keys@) =~= crate::text::strings_view(before)
                        + seq![k@]);
                }
            },
            None => {
                assert(entry_key()(entries@[i as int]) is None);
            },
        }
        i = i + 1;
    }
    proof {
        assert(entries@.take(i as int) =~= entries@);
    }
    keys
}

} // verus!
