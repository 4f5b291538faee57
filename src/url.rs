use vstd::prelude::*;
use vstd::string::StrSliceExecFns;
use vstd::string::StringExecFns;

use crate::error::Error;

verus! {

/// Splits `s` at every `/`, keeping the empty pieces between repeated separators.
pub open spec fn split_on_slash(s: Seq<char>) -> Seq<Seq<char>>
    decreases s.len(),
{
    if s.len() == 0 {
        seq![Seq::<char>::empty()]
    } else {
        let init = split_on_slash(s.drop_last());
        if s.last() == '/' {
            init.push(Seq::<char>::empty())
        } else {
            init.drop_last().push(init.last().push(s.last()))
        }
    }
}

/// The pieces of `segs` that are not empty, in order.
pub open spec fn drop_empty(segs: Seq<Seq<char>>) -> Seq<Seq<char>>
    decreases segs.len(),
{
    if segs.len() == 0 {
        segs
    } else if segs.last().len() == 0 {
        drop_empty(segs.drop_last())
    } else {
        drop_empty(segs.drop_last()).push(segs.last())
    }
}

/// The non-empty segments of a slash separated text.
pub open spec fn segments(s: Seq<char>) -> Seq<Seq<char>> {
    drop_empty(split_on_slash(s))
}

/// Segments glued together with a single `/` between neighbours.
pub open spec fn join_segments(segs: Seq<Seq<char>>) -> Seq<char>
    decreases segs.len(),
{
    if segs.len() == 0 {
        Seq::<char>::empty()
    } else if segs.len() == 1 {
        segs[0]
    } else {
        join_segments(segs.drop_last()) + seq!['/'] + segs.last()
    }
}

/// A text with repeated, leading and trailing separators collapsed away.
pub open spec fn normalized(s: Seq<char>) -> Seq<char> {
    join_segments(segments(s))
}

/// The two spellings of the root path: `/` and the empty text.
pub open spec fn is_root(s: Seq<char>) -> bool {
    s.len() == 0 || s == seq!['/']
}

/// Text of `a` joined with `b`; the root on either side leaves the other unchanged.
pub open spec fn join_spec(a: Seq<char>, b: Seq<char>) -> Seq<char> {
    if is_root(a) {
        b
    } else if is_root(b) {
        a
    } else {
        a + seq!['/'] + b
    }
}

/// `s` with a leading separator put in front when it has none.
pub open spec fn with_leading_slash(s: Seq<char>) -> Seq<char> {
    if s.len() > 0 && s[0] == '/' {
        s
    } else {
        seq!['/'] + s
    }
}

/// The path component of the URI that `s` spells, or `None` where `s` is no URI.
pub uninterp spec fn uri_path(s: Seq<char>) -> Option<Seq<char>>;

/// What `UrlPath::parse` gives for a raw text, stated over the URI path.
pub open spec fn parse_spec(s: Seq<char>) -> Option<Seq<char>> {
    if s.len() == 0 {
        None
    } else {
        match uri_path(with_leading_slash(s)) {
            Some(p) => Some(normalized(p)),
            None => None,
        }
    }
}

#[verifier::external_type_specification]
#[verifier::external_body]
pub struct ExInvalidUri(http::uri::InvalidUri);

/// Relies on `http::Uri`'s `FromStr` to accept or reject `s`, and on `Uri::path`
/// for the path component of what was accepted.
#[verifier::external_body]
fn uri_path_of(s: &str) -> (r: Result<String, http::uri::InvalidUri>)
    ensures
        match r {
            Ok(p) => uri_path(s@) == Some(p@),
            Err(_) => uri_path(s@) is None,
        },
{
    s.parse::<http::Uri>().map(|uri| uri.path().to_string())
}

proof fn lemma_split_nonempty(s: Seq<char>)
    ensures
        split_on_slash(s).len() >= 1,
    decreases s.len(),
{
    if s.len() > 0 {
        lemma_split_nonempty(s.drop_last());
    }
}

proof fn lemma_join_push(segs: Seq<Seq<char>>, seg: Seq<char>)
    ensures
        join_segments(segs.push(seg)) == if segs.len() == 0 {
            seg
        } else {
            join_segments(segs) + seq!['/'] + seg
        },
{
    assert(segs.push(seg).drop_last() =~= segs);
}

proof fn lemma_drop_empty_push(segs: Seq<Seq<char>>, seg: Seq<char>)
    ensures
        drop_empty(segs.push(seg)) == if seg.len() == 0 {
            drop_empty(segs)
        } else {
            drop_empty(segs).push(seg)
        },
{
    assert(segs.push(seg).drop_last() =~= segs);
}

proof fn lemma_join_nonempty(segs: Seq<Seq<char>>)
    requires
        forall|i: int| 0 <= i < segs.len() ==> (#[trigger] segs[i]).len() > 0,
    ensures
        (join_segments(segs).len() == 0) == (segs.len() == 0),
    decreases segs.len(),
{
    if segs.len() > 1 {
        lemma_join_nonempty(segs.drop_last());
    }
}

proof fn lemma_drop_empty_all_nonempty(segs: Seq<Seq<char>>)
    ensures
        forall|i: int|
            0 <= i < drop_empty(segs).len() ==> (#[trigger] drop_empty(segs)[i]).len() > 0,
    decreases segs.len(),
{
    if segs.len() > 0 {
        lemma_drop_empty_all_nonempty(segs.drop_last());
        let prev = drop_empty(segs.drop_last());
        assert forall|i: int| 0 <= i < drop_empty(segs).len() implies (#[trigger] drop_empty(
            segs,
        )[i]).len() > 0 by {
            if i < prev.len() {
                assert(prev[i].len() > 0);
            }
        }
    }
}

/// One step of the left-to-right scan over a slash separated text.
proof fn lemma_split_step(s: Seq<char>, i: int, done: Seq<Seq<char>>, start: int)
    requires
        0 <= start <= i < s.len(),
        split_on_slash(s.take(i)) == done.push(s.subrange(start, i)),
    ensures
        s[i] == '/' ==> split_on_slash(s.take(i + 1)) == done.push(s.subrange(start, i)).push(
            s.subrange(i + 1, i + 1),
        ),
        s[i] != '/' ==> split_on_slash(s.take(i + 1)) == done.push(s.subrange(start, i + 1)),
{
    assert(s.take(i + 1).drop_last() =~= s.take(i));
    assert(s.take(i + 1).last() == s[i]);
    assert(s.subrange(i + 1, i + 1) =~= Seq::<char>::empty());
    assert(s.subrange(start, i).push(s[i]) =~= s.subrange(start, i + 1));
    assert(done.push(s.subrange(start, i)).drop_last() =~= done);
}

/// A path text with no separator at either end and no two separators in a row,
/// so that none of its segments is empty.
pub open spec fn is_clean(s: Seq<char>) -> bool {
    forall|i: int|
        0 <= i < s.len() && #[trigger] s[i] == '/' ==> 0 < i < s.len() - 1 && s[i + 1] != '/'
}

/// A text that holds no separator.
pub open spec fn no_slash(s: Seq<char>) -> bool {
    forall|i: int| 0 <= i < s.len() ==> #[trigger] s[i] != '/'
}

proof fn lemma_split_no_slash(s: Seq<char>)
    ensures
        forall|k: int|
            0 <= k < split_on_slash(s).len() ==> no_slash(#[trigger] split_on_slash(s)[k]),
    decreases s.len(),
{
    if s.len() > 0 {
        lemma_split_no_slash(s.drop_last());
        lemma_split_nonempty(s.drop_last());
        let init = split_on_slash(s.drop_last());
        if s.last() != '/' {
            let piece = init.last().push(s.last());
            assert(no_slash(init[init.len() - 1]));
            assert(no_slash(piece));
            assert forall|k: int| 0 <= k < split_on_slash(s).len() implies no_slash(
                #[trigger] split_on_slash(s)[k],
            ) by {
                if k < init.len() - 1 {
                    assert(split_on_slash(s)[k] == init[k]);
                }
            }
        } else {
            assert forall|k: int| 0 <= k < split_on_slash(s).len() implies no_slash(
                #[trigger] split_on_slash(s)[k],
            ) by {
                if k < init.len() {
                    assert(split_on_slash(s)[k] == init[k]);
                }
            }
        }
    }
}

proof fn lemma_drop_empty_no_slash(segs: Seq<Seq<char>>)
    requires
        forall|k: int| 0 <= k < segs.len() ==> no_slash(#[trigger] segs[k]),
    ensures
        forall|k: int|
            0 <= k < drop_empty(segs).len() ==> no_slash(#[trigger] drop_empty(segs)[k]),
    decreases segs.len(),
{
    if segs.len() > 0 {
        let prev = drop_empty(segs.drop_last());
        assert forall|k: int| 0 <= k < segs.drop_last().len() implies no_slash(
            #[trigger] segs.drop_last()[k],
        ) by {
            assert(segs.drop_last()[k] == segs[k]);
        }
        lemma_drop_empty_no_slash(segs.drop_last());
        assert(no_slash(segs[segs.len() - 1]));
        assert forall|k: int| 0 <= k < drop_empty(segs).len() implies no_slash(
            #[trigger] drop_empty(segs)[k],
        ) by {
            if k < prev.len() {
                assert(drop_empty(segs)[k] == prev[k]);
            }
        }
    }
}

proof fn lemma_concat_clean(x: Seq<char>, y: Seq<char>)
    requires
        is_clean(x),
        is_clean(y),
        x.len() > 0,
        y.len() > 0,
    ensures
        is_clean(x + seq!['/'] + y),
{
    let z = x + seq!['/'] + y;
    let n = x.len();
    assert forall|i: int| 0 <= i < z.len() && #[trigger] z[i] == '/' implies 0 < i < z.len() - 1
        && z[i + 1] != '/' by {
        if i < n {
            assert(z[i] == x[i]);
            if i + 1 < n {
                assert(z[i + 1] == x[i + 1]);
            }
        } else if i > n {
            assert(z[i] == y[i - n - 1]);
            if i + 1 < z.len() {
                assert(z[i + 1] == y[i - n]);
            }
        } else {
            assert(z[i + 1] == y[0]);
        }
    }
}

proof fn lemma_no_slash_clean(s: Seq<char>)
    requires
        no_slash(s),
    ensures
        is_clean(s),
{
    assert forall|i: int| 0 <= i < s.len() && #[trigger] s[i] == '/' implies 0 < i < s.len() - 1
        && s[i + 1] != '/' by {
        assert(s[i] != '/');
    }
}

proof fn lemma_join_clean(segs: Seq<Seq<char>>)
    requires
        forall|k: int| 0 <= k < segs.len() ==> (#[trigger] segs[k]).len() > 0,
        forall|k: int| 0 <= k < segs.len() ==> no_slash(#[trigger] segs[k]),
    ensures
        is_clean(join_segments(segs)),
    decreases segs.len(),
{
    if segs.len() == 1 {
        lemma_no_slash_clean(segs[0]);
    } else if segs.len() > 1 {
        let init = segs.drop_last();
        assert forall|k: int| 0 <= k < init.len() implies (#[trigger] init[k]).len() > 0 && no_slash(
            init[k],
        ) by {
            assert(init[k] == segs[k]);
        }
        lemma_join_clean(init);
        lemma_join_nonempty(init);
        assert(no_slash(segs[segs.len() - 1]));
        lemma_no_slash_clean(segs.last());
        lemma_concat_clean(join_segments(init), segs.last());
    }
}

/// A normalized text has no empty segment.
pub proof fn normalized_is_clean(s: Seq<char>)
    ensures
        is_clean(normalized(s)),
{
    lemma_split_no_slash(s);
    lemma_drop_empty_no_slash(split_on_slash(s));
    lemma_drop_empty_all_nonempty(split_on_slash(s));
    lemma_join_clean(segments(s));
}

/// Joining two well-formed paths gives a well-formed path.
pub proof fn join_keeps_clean(a: Seq<char>, b: Seq<char>)
    requires
        a == seq!['/'] || is_clean(a),
        b == seq!['/'] || is_clean(b),
    ensures
        join_spec(a, b) == seq!['/'] || is_clean(join_spec(a, b)),
{
    if !is_root(a) && !is_root(b) {
        lemma_concat_clean(a, b);
    }
}

/// Joins the non-empty segments of `path` with single separators, dropping
/// leading, trailing and repeated `/`.
pub fn normalize_path(path: &str) -> (r: String)
    ensures
        r@ == normalized(path@),
{
    let ghost s = path@;
    let n = path.unicode_len();
    let mut out = String::new();
    let mut start: usize = 0;
    let mut i: usize = 0;
    let ghost mut done: Seq<Seq<char>> = Seq::empty();
    proof {
        reveal_strlit("/");
        assert(s.take(0) =~= Seq::<char>::empty());
        assert(s.subrange(0, 0) =~= Seq::<char>::empty());
        assert(split_on_slash(s.take(0)) =~= done.push(s.subrange(0, 0)));
    }
    while i < n
        invariant
            n == s.len(),
            s == path@,
            start <= i <= n,
            split_on_slash(s.take(i as int)) == done.push(s.subrange(start as int, i as int)),
            out@ == join_segments(drop_empty(done)),
            (out@.len() == 0) == (drop_empty(done).len() == 0),
        decreases n - i,
    {
        let c = path.get_char(i);
        proof {
            lemma_split_step(s, i as int, done, start as int);
        }
        if c == '/' {
            let ghost seg = s.subrange(start as int, i as int);
            proof {
                lemma_drop_empty_push(done, seg);
                lemma_join_push(drop_empty(done), seg);
                lemma_drop_empty_all_nonempty(done.push(seg));
                lemma_join_nonempty(drop_empty(done.push(seg)));
            }
            if start < i {
                proof {
                    reveal_strlit("/");
                }
                if out.as_str().unicode_len() > 0 {
                    out.append("/");
                }
                let piece = path.substring_char(start, i);
                out.append(piece);
            }
            proof {
                done = done.push(seg);
            }
            start = i + 1;
        }
        i = i + 1;
    }
    let ghost seg = s.subrange(start as int, n as int);
    proof {
        assert(s.take(n as int) =~= s);
        lemma_drop_empty_push(done, seg);
        lemma_join_push(drop_empty(done), seg);
    }
    if start < n {
        proof {
            reveal_strlit("/");
        }
        if out.as_str().unicode_len() > 0 {
            out.append("/");
        }
        let piece = path.substring_char(start, n);
        out.append(piece);
    }
    out
}

/// A normalized remote path: its segments are joined by single separators,
/// with no separator at either end. The root is spelled `/` or as the empty text.
#[derive(Debug)]
pub struct UrlPath(String);

/// A remote directory path: a path text followed by exactly one `/`.
#[derive(Debug)]
pub struct UrlDirPath(String);

impl View for UrlPath {
    type V = Seq<char>;

    closed spec fn view(&self) -> Seq<char> {
        self.0@
    }
}

impl View for UrlDirPath {
    type V = Seq<char>;

    closed spec fn view(&self) -> Seq<char> {
        self.0@
    }
}

fn is_root_text(s: &str) -> (r: bool)
    ensures
        r == is_root(s@),
{
    let n = s.unicode_len();
    if n == 0 {
        true
    } else if n == 1 {
        let c = s.get_char(0);
        proof {
            if c == '/' {
                assert(s@ =~= seq!['/']);
            }
        }
        c == '/'
    } else {
        false
    }
}

impl UrlPath {
    /// The path is the root spelled `/`, or none of its segments is empty.
    pub open spec fn wf(&self) -> bool {
        self@ == seq!['/'] || is_clean(self@)
    }

    /// The root path, spelled `/`.
    pub fn root() -> (r: UrlPath)
        ensures
            r@ == seq!['/'],
            r.wf(),
    {
        proof {
            reveal_strlit("/");
        }
        let r = UrlPath(String::from_str("/"));
        assert(r@ =~= seq!['/']);
        r
    }

    /// Parses a raw path: a leading `/` is put in front where missing, the text
    /// must then be a URI, and the segments of its path are kept. Empty input fails.
    pub fn parse(s: &str) -> (r: Result<UrlPath, Error>)
        ensures
            match r {
                Ok(p) => parse_spec(s@) == Some(p@) && p.wf(),
                Err(e) => parse_spec(s@) is None && (e matches Error::Parse(m) && m@ == s@),
            },
    {
        if s.unicode_len() == 0 {
            return Err(Error::Parse(String::from_str(s)));
        }
        let prefixed = if s.get_char(0) == '/' {
            String::from_str(s)
        } else {
            proof {
                reveal_strlit("/");
            }
            let mut t = String::from_str("/");
            t.append(s);
            t
        };
        proof {
            assert(prefixed@ =~= with_leading_slash(s@));
        }
        match uri_path_of(prefixed.as_str()) {
            Ok(path) => {
                proof {
                    normalized_is_clean(path@);
                }
                Ok(UrlPath(normalize_path(path.as_str())))
            },
            Err(_) => Err(Error::Parse(String::from_str(s))),
        }
    }

    /// The text of the path.
    pub fn as_str(&self) -> (r: &str)
        ensures
            r@ == self@,
    {
        self.0.as_str()
    }

    /// Appends `other` below `self`; the root on either side is the identity.
    pub fn join(&self, other: &UrlPath) -> (r: UrlPath)
        ensures
            r@ == join_spec(self@, other@),
            self.wf() && other.wf() ==> r.wf(),
    {
        proof {
            if self.wf() && other.wf() {
                join_keeps_clean(self@, other@);
            }
        }
        if is_root_text(self.0.as_str()) {
            UrlPath(other.0.clone())
        } else if is_root_text(other.0.as_str()) {
            UrlPath(self.0.clone())
        } else {
            proof {
                reveal_strlit("/");
            }
            let mut t = self.0.clone();
            t.append("/");
            t.append(other.0.as_str());
            UrlPath(t)
        }
    }

    /// The last non-empty segment, or `None` when the path has none.
    pub fn file_name(&self) -> (r: Option<String>)
        ensures
            match r {
                Some(name) => segments(self@).len() > 0 && name@ == segments(self@).last(),
                None => segments(self@).len() == 0,
            },
    {
        let path = self.0.as_str();
        let ghost s = path@;
        let n = path.unicode_len();
        let mut start: usize = 0;
        let mut last: Option<(usize, usize)> = None;
        let mut i: usize = 0;
        let ghost mut done: Seq<Seq<char>> = Seq::empty();
        proof {
            assert(s.take(0) =~= Seq::<char>::empty());
            assert(s.subrange(0, 0) =~= Seq::<char>::empty());
            assert(split_on_slash(s.take(0)) =~= done.push(s.subrange(0, 0)));
        }
        while i < n
            invariant
                n == s.len(),
                s == path@,
                start <= i <= n,
                split_on_slash(s.take(i as int)) == done.push(s.subrange(start as int, i as int)),
                match last {
                    Some((a, b)) => a <= b <= n && drop_empty(done).len() > 0 && drop_empty(
                        done,
                    ).last() == s.subrange(a as int, b as int),
                    None => drop_empty(done).len() == 0,
                },
            decreases n - i,
        {
            let c = path.get_char(i);
            proof {
                lemma_split_step(s, i as int, done, start as int);
            }
            if c == '/' {
                let ghost seg = s.subrange(start as int, i as int);
                proof {
                    lemma_drop_empty_push(done, seg);
                    done = done.push(seg);
                }
                if start < i {
                    last = Some((start, i));
                }
                start = i + 1;
            }
            i = i + 1;
        }
        let ghost seg = s.subrange(start as int, n as int);
        proof {
            assert(s.take(n as int) =~= s);
            lemma_drop_empty_push(done, seg);
        }
        if start < n {
            Some(String::from_str(path.substring_char(start, n)))
        } else {
            match last {
                Some((a, b)) => Some(String::from_str(path.substring_char(a, b))),
                None => None,
            }
        }
    }

    /// The directory form of this path: its text followed by one `/`.
    pub fn as_dir(&self) -> (r: UrlDirPath)
        ensures
            r@ == self@ + seq!['/'],
    {
        proof {
            reveal_strlit("/");
        }
        let mut t = self.0.clone();
        t.append("/");
        UrlDirPath(t)
    }
}

impl UrlDirPath {
    /// Appends `path` right after the directory's trailing separator.
    pub fn join(&self, path: &UrlPath) -> (r: UrlPath)
        ensures
            r@ == self@ + path@,
    {
        let mut t = self.0.clone();
        t.append(path.0.as_str());
        UrlPath(t)
    }

    /// The text of the directory path, trailing separator included.
    pub fn as_str(&self) -> (r: &str)
        ensures
            r@ == self@,
    {
        self.0.as_str()
    }

    /// The same text, as a plain path.
    pub fn into_path(self) -> (r: UrlPath)
        ensures
            r@ == self@,
    {
        UrlPath(self.0)
    }
}

impl Clone for UrlPath {
    fn clone(&self) -> (r: UrlPath)
        ensures
            r@ == self@,
    {
        UrlPath(self.0.clone())
    }
}

impl Clone for UrlDirPath {
    fn clone(&self) -> (r: UrlDirPath)
        ensures
            r@ == self@,
    {
        UrlDirPath(self.0.clone())
    }
}

impl Default for UrlPath {
    /// The root path, spelled `/`.
    fn default() -> (r: UrlPath)
        ensures
            r@ == seq!['/'],
            r.wf(),
    {
        UrlPath::root()
    }
}

/// Joining with the root, on either side, gives the other path back. Where `p` is
/// itself a root, it is taken in the same spelling as `root`.
pub proof fn join_identity(root: Seq<char>, p: Seq<char>)
    requires
        is_root(root),
        is_root(p) ==> p == root,
    ensures
        join_spec(root, p) == p,
        join_spec(p, root) == p,
{
}

} // verus!
