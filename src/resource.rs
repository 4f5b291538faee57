use vstd::prelude::*;
use vstd::string::StrSliceExecFns;
use vstd::string::StringExecFns;

use sha2::Digest;

use crate::error::Error;
use crate::traverse::{path_text, LocalPath};
use crate::url::{join_spec, parse_spec, UrlDirPath, UrlPath};

verus! {

/// The SHA-256 digest of `data`.
pub uninterp spec fn sha256_of(data: Seq<u8>) -> Seq<u8>;

/// Relies on `sha2::Sha256::digest` (through `digest::Digest`): the 32-byte
/// SHA-256 digest of `data`.
#[verifier::external_body]
fn sha256_digest(data: &[u8]) -> (r: Vec<u8>)
    ensures
        r@ == sha256_of(data@),
        r@.len() == 32,
{
    sha2::Sha256::digest(data).to_vec()
}

/// The upper-case hexadecimal digits, by value.
pub open spec fn hex_digits() -> Seq<char> {
    seq!['0', '1', '2', '3', '4', '5', '6', '7', '8', '9', 'A', 'B', 'C', 'D', 'E', 'F']
}

/// Upper-case hexadecimal text of `bytes`: two digits per byte, high nibble first.
pub open spec fn hex_upper(bytes: Seq<u8>) -> Seq<char>
    decreases bytes.len(),
{
    if bytes.len() == 0 {
        Seq::<char>::empty()
    } else {
        let b = bytes.last();
        hex_upper(bytes.drop_last()) + seq![
            hex_digits()[(b / 16) as int],
            hex_digits()[(b % 16) as int],
        ]
    }
}

/// Relies on `base16ct::upper::encode_string`: two upper-case hex digits per
/// input byte, high nibble first. It panics on inputs longer than `usize::MAX / 2`.
#[verifier::external_body]
fn hex_upper_string(bytes: &[u8]) -> (r: String)
    requires
        bytes@.len() <= usize::MAX / 2,
    ensures
        r@ == hex_upper(bytes@),
{
    base16ct::upper::encode_string(bytes)
}

proof fn lemma_hex_upper_len(bytes: Seq<u8>)
    ensures
        hex_upper(bytes).len() == 2 * bytes.len(),
    decreases bytes.len(),
{
    if bytes.len() > 0 {
        lemma_hex_upper_len(bytes.drop_last());
    }
}

/// The checksum text of a file's content: its SHA-256 digest in upper-case hex.
pub open spec fn checksum_of(content: Seq<u8>) -> Seq<char> {
    hex_upper(sha256_of(content))
}

/// Hashes `content` and renders the digest as 64 upper-case hex digits.
pub fn content_checksum(content: &[u8]) -> (r: String)
    ensures
        r@ == checksum_of(content@),
        r@.len() == 64,
{
    let digest = sha256_digest(content);
    digest_hex(&digest)
}

/// Renders a digest as upper-case hex, two digits per byte.
pub fn digest_hex(digest: &Vec<u8>) -> (r: String)
    requires
        digest@.len() <= usize::MAX / 2,
    ensures
        r@ == hex_upper(digest@),
        r@.len() == 2 * digest@.len(),
{
    proof {
        lemma_hex_upper_len(digest@);
    }
    hex_upper_string(digest.as_slice())
}

/// One file to upload: where it is locally, relative to the working directory,
/// where it goes remotely, and the checksum of its content when one was asked for.
#[derive(Debug)]
pub struct LocalResource {
    pub path: LocalPath,
    pub url: UrlPath,
    pub checksum: Option<String>,
}

/// The remote target of a local relative path under `prefix`, if the path
/// parses as a remote path.
pub open spec fn target_of(prefix: Seq<char>, path: Seq<Seq<char>>) -> Option<Seq<char>> {
    match parse_spec(path_text(path)) {
        Some(p) => Some(join_spec(prefix, p)),
        None => None,
    }
}

/// `r` pairs `path` with its remote target under `prefix`, and has no checksum.
pub open spec fn maps_to(r: LocalResource, prefix: Seq<char>, path: Seq<Seq<char>>) -> bool {
    &&& r.path@ == path
    &&& target_of(prefix, path) == Some(r.url@)
    &&& r.checksum is None
}

/// Pairs a local relative path with its remote target: the path's text,
/// parsed as a remote path, below `prefix`.
pub fn map_resource(prefix: &UrlPath, path: LocalPath) -> (r: Result<LocalResource, Error>)
    ensures
        match r {
            Ok(res) => maps_to(res, prefix@, path@),
            Err(e) => target_of(prefix@, path@) is None && e is Parse,
        },
{
    let text = path.to_text();
    match UrlPath::parse(text.as_str()) {
        Ok(url) => {
            let url = prefix.join(&url);
            Ok(LocalResource { path, url, checksum: None })
        },
        Err(e) => Err(e),
    }
}

/// Maps every path, in order, failing on the first that does not parse.
pub fn map_resources(prefix: &UrlPath, paths: &Vec<LocalPath>) -> (r: Result<
    Vec<LocalResource>,
    Error,
>)
    ensures
        r is Ok <==> forall|i: int|
            0 <= i < paths@.len() ==> (#[trigger] target_of(prefix@, paths@[i]@)) is Some,
        r matches Err(e) ==> e is Parse,
        r matches Ok(v) ==> v@.len() == paths@.len() && forall|i: int|
            0 <= i < paths@.len() ==> maps_to(#[trigger] v@[i], prefix@, paths@[i]@),
{
    let mut out: Vec<LocalResource> = Vec::new();
    let mut i: usize = 0;
    while i < paths.len()
        invariant
            i <= paths@.len(),
            out@.len() == i,
            forall|j: int| 0 <= j < i ==> maps_to(#[trigger] out@[j], prefix@, paths@[j]@),
            forall|j: int| 0 <= j < i ==> (#[trigger] target_of(prefix@, paths@[j]@)) is Some,
        decreases paths.len() - i,
    {
        let res = map_resource(prefix, paths[i].copy());
        match res {
            Ok(res) => {
                out.push(res);
            },
            Err(e) => {
                return Err(e);
            },
        }
        i = i + 1;
    }
    Ok(out)
}

impl LocalResource {
    /// The same resource, with the checksum of `content` attached.
    pub fn with_checksum(self, content: &[u8]) -> (r: LocalResource)
        ensures
            r.path@ == self.path@,
            r.url@ == self.url@,
            r.checksum matches Some(c) && c@ == checksum_of(content@),
    {
        let sum = content_checksum(content);
        LocalResource { path: self.path, url: self.url, checksum: Some(sum) }
    }

    /// How the report shows whether a checksum was computed.
    pub fn checksum_yes_or_no(&self) -> (r: String)
        ensures
            r@ == (if self.checksum is Some {
                "👍"@
            } else {
                "none"@
            }),
    {
        match self.checksum {
            Some(_) => String::from_str("👍"),
            None => String::from_str("none"),
        }
    }

    /// The local file's name: its last component, or `[none]` when it has none.
    pub fn name_from_path(&self) -> (r: String)
        ensures
            self.path@.len() > 0 ==> r@ == self.path@.last(),
            self.path@.len() == 0 ==> r@ == "[none]"@,
    {
        match self.path.last_part() {
            Some(p) => p.clone(),
            None => String::from_str("[none]"),
        }
    }

    /// The remote target with the local file's name cut off its end, where it
    /// ends with that name; the whole target otherwise.
    pub fn basepath(&self) -> (r: String)
        ensures
            r@ == strip_suffix_spec(self.url@, self.name_from_path_spec()),
    {
        let name = self.name_from_path();
        strip_suffix(self.url.as_str(), name.as_str())
    }

    pub open spec fn name_from_path_spec(&self) -> Seq<char> {
        if self.path@.len() > 0 {
            self.path@.last()
        } else {
            "[none]"@
        }
    }
}

/// `s` without the trailing `suffix`, where `s` ends with it; `s` otherwise.
pub open spec fn strip_suffix_spec(s: Seq<char>, suffix: Seq<char>) -> Seq<char> {
    if suffix.len() <= s.len() && s.skip(s.len() - suffix.len()) == suffix {
        s.take(s.len() - suffix.len())
    } else {
        s
    }
}

/// Cuts `suffix` off the end of `s`, where `s` ends with it.
pub fn strip_suffix(s: &str, suffix: &str) -> (r: String)
    ensures
        r@ == strip_suffix_spec(s@, suffix@),
{
    let n = s.unicode_len();
    let m = suffix.unicode_len();
    if m > n {
        return String::from_str(s);
    }
    let base = n - m;
    let mut i: usize = 0;
    while i < m
        invariant
            n == s@.len(),
            m == suffix@.len(),
            base == n - m,
            i <= m,
            forall|j: int| 0 <= j < i ==> s@[base + j] == suffix@[j],
        decreases m - i,
    {
        if s.get_char(base + i) != suffix.get_char(i) {
            proof {
                assert(s@.skip(base as int)[i as int] != suffix@[i as int]);
            }
            return String::from_str(s);
        }
        i = i + 1;
    }
    proof {
        assert(s@.skip(base as int) =~= suffix@);
    }
    String::from_str(s.substring_char(0, base))
}

/// The content checksums of the resources, attached only when `checksum` is set.
/// `contents[i]` is the content of the file of `resources[i]`.
pub fn finish_resources(resources: Vec<LocalResource>, checksum: bool, contents: &Vec<Vec<u8>>) -> (r:
    Vec<LocalResource>)
    requires
        checksum ==> contents@.len() == resources@.len(),
    ensures
        r@.len() == resources@.len(),
        forall|i: int|
            0 <= i < r@.len() ==> (#[trigger] r@[i]).path@ == resources@[i].path@ && r@[i].url@
                == resources@[i].url@,
        !checksum ==> forall|i: int| 0 <= i < r@.len() ==> (#[trigger] r@[i]).checksum is None,
        checksum ==> forall|i: int|
            0 <= i < r@.len() ==> ((#[trigger] r@[i]).checksum matches Some(c) && c@
                == checksum_of(contents@[i]@)),
{
    let mut out: Vec<LocalResource> = Vec::new();
    let n = resources.len();
    let mut rest = resources;
    let ghost orig = rest@;
    let mut k: usize = 0;
    proof {
        assert(rest@ =~= orig.skip(0));
    }
    while rest.len() > 0
        invariant
            k + rest@.len() == orig.len(),
            n == orig.len(),
            rest@ == orig.skip(k as int),
            out@.len() == k,
            checksum ==> contents@.len() == orig.len(),
            forall|i: int|
                0 <= i < k ==> (#[trigger] out@[i]).path@ == orig[i].path@ && out@[i].url@
                    == orig[i].url@,
            !checksum ==> forall|i: int| 0 <= i < k ==> (#[trigger] out@[i]).checksum is None,
            checksum ==> forall|i: int|
                0 <= i < k ==> ((#[trigger] out@[i]).checksum matches Some(c) && c@
                    == checksum_of(contents@[i]@)),
        decreases rest@.len(),
    {
        let res = rest.remove(0);
        proof {
            assert(rest@ =~= orig.skip(k + 1));
        }
        let done = if checksum {
            res.with_checksum(contents[k].as_slice())
        } else {
            LocalResource { path: res.path, url: res.url, checksum: None }
        };
        out.push(done);
        k = k + 1;
    }
    out
}

/// The overwrite guard: with `items_found` entries already listed under the
/// directory `dir`, the upload may go on only when that listing is empty or
/// overwriting was allowed.
pub fn overwrite_guard(dir: &UrlDirPath, overwrite: bool, items_found: usize) -> (r: Result<(), Error>)
    ensures
        r is Ok <==> (overwrite || items_found == 0),
        r matches Err(e) ==> (e matches Error::Operations(m) && m@ == dir@),
{
    if !overwrite && items_found > 0 {
        Err(Error::Operations(String::from_str(dir.as_str())))
    } else {
        Ok(())
    }
}

/// Re-hashing the same content gives the same checksum.
pub proof fn checksum_deterministic(a: Seq<u8>, b: Seq<u8>)
    requires
        a == b,
    ensures
        checksum_of(a) == checksum_of(b),
{
}

} // verus!
