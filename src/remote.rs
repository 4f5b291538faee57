use vstd::prelude::*;
use vstd::string::StringExecFns;

use crate::error::Error;
use crate::url::{segments, UrlDirPath, UrlPath};

verus! {

/// One entry of a remote directory listing.
#[derive(Debug)]
pub struct Item {
    pub array_number: u64,
    pub checksum: Option<String>,
    pub content_type: String,
    pub date_created: String,
    pub guid: String,
    pub is_directory: bool,
    pub last_changed: String,
    pub length: u64,
    pub object_name: String,
    pub path: String,
    pub replicated_zones: Option<String>,
    pub server_id: u64,
    pub storage_zone_id: u64,
    pub storage_zone_name: String,
    pub user_id: String,
}

impl Item {
    /// The entry's name behind a folder or a page icon, by its kind.
    pub fn format_object_name(&self) -> (r: String)
        ensures
            r@ == (if self.is_directory {
                "📂 "@
            } else {
                "📄 "@
            }) + self.object_name@,
    {
        let mut s = if self.is_directory {
            proof {
                reveal_strlit("📂 ");
            }
            String::from_str("📂 ")
        } else {
            proof {
                reveal_strlit("📄 ");
            }
            String::from_str("📄 ")
        };
        s.append(self.object_name.as_str());
        s
    }
}

/// The address of a remote object: the base URL, a `/`, then the object's path.
pub fn endpoint(base: &str, path: &str) -> (r: String)
    ensures
        r@ == base@ + "/"@ + path@,
{
    let mut s = String::from_str(base);
    s.append("/");
    s.append(path);
    s
}

/// How an answer of the storage API is handled, by its status code.
#[derive(Debug, Clone, Copy, PartialEq, Eq)]
pub enum ResponseKind {
    /// `200` or `201`: the request was accepted.
    Accepted,
    /// `401`, `403` or `404`: the body is a JSON message of the API.
    ApiError,
    /// Anything else: the body's text is the message.
    Unexpected,
}

/// Sorts a status code into how its answer is handled.
pub fn classify_status(code: u16) -> (r: ResponseKind)
    ensures
        (code == 200 || code == 201) <==> r == ResponseKind::Accepted,
        (code == 401 || code == 403 || code == 404) <==> r == ResponseKind::ApiError,
{
    if code == 200 || code == 201 {
        ResponseKind::Accepted
    } else if code == 401 || code == 403 || code == 404 {
        ResponseKind::ApiError
    } else {
        ResponseKind::Unexpected
    }
}

/// Relies on `http::StatusCode::from_u16`, which accepts exactly the codes
/// from 100 to 999.
#[verifier::external_body]
fn is_valid_status(code: u16) -> (r: bool)
    ensures
        r == (100 <= code <= 999),
{
    http::StatusCode::from_u16(code).is_ok()
}

/// Reads a numeric status code of an API message: the number is cut to its
/// low 16 bits, which must then be a code from 100 to 999.
pub fn status_from_number(v: u64) -> (r: Result<u16, Error>)
    ensures
        match r {
            Ok(c) => c == v % 65536 && 100 <= c <= 999,
            Err(e) => !(100 <= v % 65536 <= 999) && e is Serialization,
        },
{
    let code = (v % 65536) as u16;
    if is_valid_status(code) {
        Ok(code)
    } else {
        Err(Error::Serialization(String::from_str("invalid status code")))
    }
}

/// The essence (type and subtype, without parameters) of the media type that
/// `s` spells, or `None` where `s` is no media type.
pub uninterp spec fn mime_essence(s: Seq<char>) -> Option<Seq<char>>;

/// Relies on `mime::Mime`'s `FromStr` to parse `s`, and on `Mime::essence_str`.
#[verifier::external_body]
fn parse_mime_essence(s: &str) -> (r: Option<String>)
    ensures
        match r {
            Some(e) => mime_essence(s@) == Some(e@),
            None => mime_essence(s@) is None,
        },
{
    s.parse::<mime::Mime>().ok().map(|m| m.essence_str().to_string())
}

/// Accepts a payload only when its media type essence is `application/json`.
pub fn check_json_essence(essence: Option<String>) -> (r: Result<(), Error>)
    ensures
        r is Ok <==> (essence matches Some(e) && e@ == "application/json"@),
        r matches Err(e) ==> e is Parse,
{
    proof {
        reveal_strlit("application/json");
    }
    match essence {
        Some(e) => {
            if e == String::from_str("application/json") {
                Ok(())
            } else {
                Err(Error::Parse(e))
            }
        },
        None => Err(Error::Parse(String::new())),
    }
}

/// Accepts a payload whose `Content-Type` header, if any, parses as a media type
/// of essence `application/json`.
pub fn expect_json(content_type: Option<&str>) -> (r: Result<(), Error>)
    ensures
        r is Ok <==> (content_type matches Some(ct) && mime_essence(ct@) == Some("application/json"@)),
        r matches Err(e) ==> e is Parse,
{
    match content_type {
        Some(ct) => check_json_essence(parse_mime_essence(ct)),
        None => check_json_essence(None),
    }
}

/// What a download fetches: a single file, stored under its name, or a directory.
#[derive(Debug)]
pub enum RemoteOp {
    File(String, UrlPath),
    Dir(UrlDirPath),
}

/// A download may write into a directory or into a path that does not exist
/// yet, never over a file.
pub fn check_output(output: &str, output_is_file: bool) -> (r: Result<(), Error>)
    ensures
        r is Ok <==> !output_is_file,
        r matches Err(e) ==> (e matches Error::Parse(m) && m@ == output@),
{
    if output_is_file {
        Err(Error::Parse(String::from_str(output)))
    } else {
        Ok(())
    }
}

/// Decides what to download at `path`. A non-empty listing of its directory
/// form makes it a directory; otherwise it is taken as a file, which needs a
/// file name.
pub fn choose_remote_op(path: UrlPath, listing_empty: bool) -> (r: Result<RemoteOp, Error>)
    ensures
        !listing_empty ==> (r matches Ok(RemoteOp::Dir(d)) && d@ == path@ + "/"@),
        listing_empty && segments(path@).len() > 0 ==> (r matches Ok(RemoteOp::File(n, p)) && n@
            == segments(path@).last() && p@ == path@),
        listing_empty && segments(path@).len() == 0 ==> (r matches Err(e) && e is Parse),
{
    proof {
        reveal_strlit("/");
    }
    if !listing_empty {
        return Ok(RemoteOp::Dir(path.as_dir()));
    }
    match path.file_name() {
        Some(name) => Ok(RemoteOp::File(name, path)),
        None => Err(Error::Parse(String::from_str(path.as_str()))),
    }
}

} // verus!
