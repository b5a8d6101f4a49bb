//! Resolving a remote locator, `s3://[profile@]endpoint{/|:}bucket`, into
//! the parameters of a connection.

use vstd::prelude::*;
use crate::error::{Error, ErrorView};
use crate::text::{
    chars_of, cut, find_in, first_index, is_word, lemma_first_index, lemma_first_index_is,
    lemma_first_index_none,
};

verus! {

/// How the bucket is addressed.
#[derive(Debug, Clone, Copy, PartialEq, Eq, Structural)]
pub enum BucketStyle {
    /// The bucket is a path segment under the endpoint.
    Path,
    /// The bucket is a host name of its own, resolved apart from the endpoint.
    Subdomain,
}

/// The mathematical value of a resolved locator.
pub struct Locator {
    pub profile: Option<Seq<char>>,
    pub endpoint: Seq<char>,
    pub bucket: Seq<char>,
    pub style: BucketStyle,
}

/// The scheme that every locator starts with.
pub open spec fn scheme() -> Seq<char> {
    seq!['s', '3', ':', '/', '/']
}

/// The characters that part the endpoint from the bucket.
pub open spec fn is_separator(c: char) -> bool {
    c == '/' || c == ':'
}

/// The style that a separator stands for.
pub open spec fn style_of(c: char) -> BucketStyle {
    if c == '/' {
        BucketStyle::Path
    } else {
        BucketStyle::Subdomain
    }
}

/// The separator of a style.
pub open spec fn separator_of(style: BucketStyle) -> char {
    match style {
        BucketStyle::Path => '/',
        BucketStyle::Subdomain => ':',
    }
}

/// Position of the last separator of `s`, if it has one.
pub open spec fn last_separator(s: Seq<char>) -> Option<int>
    decreases s.len(),
{
    if s.len() == 0 {
        None
    } else if is_separator(s.last()) {
        Some(s.len() - 1)
    } else {
        last_separator(s.drop_last())
    }
}

/// What a locator resolves to: the scheme is cut off, the text before the
/// first `@` (if there is one) is the profile, and what is left is parted at
/// its last separator into endpoint and bucket.
pub open spec fn locate(url: Seq<char>) -> Result<Locator, ErrorView> {
    if !(url.len() >= 5 && url.take(5) == scheme()) {
        Err(ErrorView::MalformedLocator)
    } else {
        let rest = url.skip(5);
        let at = first_index(rest, '@');
        let remainder = match at {
            Some(i) => rest.skip(i + 1),
            None => rest,
        };
        match last_separator(remainder) {
            Some(j) => Ok(
                Locator {
                    profile: match at {
                        Some(i) => Some(rest.take(i)),
                        None => None,
                    },
                    endpoint: remainder.take(j),
                    bucket: remainder.skip(j + 1),
                    style: style_of(remainder[j]),
                },
            ),
            None => Err(ErrorView::AmbiguousLocator),
        }
    }
}

/// The mathematical value of the four parts that `parse_remote_url` returns.
pub open spec fn parts_view(parts: (Option<String>, String, String, BucketStyle)) -> Locator {
    Locator {
        profile: match parts.0 {
            Some(p) => Some(p@),
            None => None,
        },
        endpoint: parts.1@,
        bucket: parts.2@,
        style: parts.3,
    }
}

/// `last_separator` finds the greatest position that holds a separator, and
/// finds none exactly when there is no separator.
pub proof fn lemma_last_separator(s: Seq<char>)
    ensures
        match last_separator(s) {
            Some(j) => 0 <= j < s.len() && is_separator(s[j]) && forall|k: int|
                j < k < s.len() ==> !is_separator(#[trigger] s[k]),
            None => forall|k: int| 0 <= k < s.len() ==> !is_separator(#[trigger] s[k]),
        },
    decreases s.len(),
{
    if s.len() != 0 && !is_separator(s.last()) {
        let t = s.drop_last();
        lemma_last_separator(t);
        match last_separator(t) {
            Some(j) => {
                assert(s[j] == t[j]);
                assert forall|k: int| j < k < s.len() implies !is_separator(#[trigger] s[k]) by {
                    if k < t.len() {
                        assert(s[k] == t[k]);
                    }
                }
            },
            None => {
                assert forall|k: int| 0 <= k < s.len() implies !is_separator(#[trigger] s[k]) by {
                    if k < t.len() {
                        assert(s[k] == t[k]);
                    }
                }
            },
        }
    }
}

/// A position that holds a separator and has none after it is the last one.
pub proof fn lemma_last_separator_is(s: Seq<char>, j: int)
    requires
        0 <= j < s.len(),
        is_separator(s[j]),
        forall|k: int| j < k < s.len() ==> !is_separator(#[trigger] s[k]),
    ensures
        last_separator(s) == Some(j),
{
    lemma_last_separator(s);
    match last_separator(s) {
        Some(i) => {
            if i < j {
                assert(!is_separator(s[j]));
            }
        },
        None => {
            assert(!is_separator(s[j]));
        },
    }
}

fn find_last_separator(v: &Vec<char>, from: usize) -> (r: Option<usize>)
    requires
        from <= v.len(),
    ensures
        match r {
            Some(j) => last_separator(v@.skip(from as int)) == Some(j - from),
            None => last_separator(v@.skip(from as int)) is None,
        },
{
    let ghost s = v@.skip(from as int);
    let mut j: usize = v.len();
    while j > from
        invariant
            from <= j <= v.len(),
            s == v@.skip(from as int),
            forall|k: int| j - from <= k < s.len() ==> !is_separator(#[trigger] s[k]),
        decreases j,
    {
        j -= 1;
        assert(s[j - from] == v@[j as int]);
        if v[j] == '/' || v[j] == ':' {
            proof {
                lemma_last_separator_is(s, j - from);
            }
            return Some(j);
        }
    }
    proof {
        lemma_last_separator(s);
    }
    None
}

/// Parses a locator into the optional profile, the endpoint, the bucket and
/// the style in which the bucket is addressed.
pub fn parse_remote_url(remote_url: String) -> (res: Result<
    (Option<String>, String, String, BucketStyle),
    Error,
>)
    ensures
        match locate(remote_url@) {
            Ok(l) => res matches Ok(parts) && parts_view(parts) == l,
            Err(e) => res matches Err(x) && x@ == e,
        },
{
    let s = remote_url.as_str();
    let v = chars_of(s);
    let n = v.len();
    proof {
        reveal_strlit("s3://");
        assert("s3://"@ =~= scheme());
    }
    if n < 5 || !is_word(&v, 0, 5, "s3://") {
        return Err(Error::MalformedLocator);
    }
    let ghost rest = v@.skip(5);
    assert(v@.subrange(5, n as int) =~= rest);
    let at = find_in(&v, 5, n, '@');
    proof {
        lemma_first_index(rest, '@');
    }
    let start: usize = match at {
        Some(i) => i + 1,
        None => 5,
    };
    let ghost remainder = v@.skip(start as int);
    assert(remainder == match first_index(rest, '@') {
        Some(i) => rest.skip(i + 1),
        None => rest,
    });
    proof {
        lemma_last_separator(remainder);
    }
    match find_last_separator(&v, start) {
        Some(j) => {
            let profile = match at {
                Some(i) => Some(cut(s, 5, i)),
                None => None,
            };
            let endpoint = cut(s, start, j);
            let bucket = cut(s, j + 1, n);
            let style = if v[j] == '/' {
                BucketStyle::Path
            } else {
                BucketStyle::Subdomain
            };
            proof {
                let l = locate(remote_url@)->Ok_0;
                assert(endpoint@ =~= l.endpoint);
                assert(bucket@ =~= l.bucket);
                assert(remainder[j - start] == v@[j as int]);
                if let Some(i) = at {
                    assert(profile->Some_0@ =~= l.profile->Some_0);
                }
            }
            Ok((profile, endpoint, bucket, style))
        },
        None => Err(Error::AmbiguousLocator),
    }
}

/// The text of the locator that has the given parts.
pub open spec fn render(l: Locator) -> Seq<char> {
    scheme() + match l.profile {
        Some(p) => p + seq!['@'],
        None => Seq::<char>::empty(),
    } + l.endpoint + seq![separator_of(l.style)] + l.bucket
}

/// The parts that a locator can be told apart into: no separator in the
/// bucket, no `@` in the profile and, where there is no profile, no `@` at all.
pub open spec fn well_formed(l: Locator) -> bool {
    &&& forall|k: int| 0 <= k < l.bucket.len() ==> !is_separator(#[trigger] l.bucket[k])
    &&& match l.profile {
        Some(p) => forall|k: int| 0 <= k < p.len() ==> #[trigger] p[k] != '@',
        None => {
            &&& forall|k: int| 0 <= k < l.endpoint.len() ==> #[trigger] l.endpoint[k] != '@'
            &&& forall|k: int| 0 <= k < l.bucket.len() ==> #[trigger] l.bucket[k] != '@'
        },
    }
}

/// Parsing undoes rendering: the locator written from well-formed parts
/// resolves to exactly those parts, whatever separators and `@` the endpoint
/// holds behind a profile.
pub proof fn law_locate_render(l: Locator)
    requires
        well_formed(l),
    ensures
        locate(render(l)) == Ok::<Locator, ErrorView>(l),
{
    let url = render(l);
    let sep = separator_of(l.style);
    let tail = l.endpoint + seq![sep] + l.bucket;
    assert(url.take(5) =~= scheme());
    let rest = url.skip(5);
    match l.profile {
        Some(p) => {
            assert(rest =~= p + seq!['@'] + tail);
            lemma_first_index_is(rest, '@', p.len() as int);
            assert(rest.skip(p.len() as int + 1) =~= tail);
            assert(rest.take(p.len() as int) =~= p);
        },
        None => {
            assert(rest =~= tail);
            lemma_first_index_none(rest, '@');
        },
    }
    let j = l.endpoint.len() as int;
    assert forall|k: int| j < k < tail.len() implies !is_separator(#[trigger] tail[k]) by {
        assert(tail[k] == l.bucket[k - j - 1]);
    }
    lemma_last_separator_is(tail, j);
    assert(tail.take(j) =~= l.endpoint);
    assert(tail.skip(j + 1) =~= l.bucket);
    assert(style_of(tail[j]) == l.style);
}

/// Rendering undoes parsing: what a locator resolves to is well formed and
/// is written back as the same locator, so the bucket is what follows the
/// last separator and the profile what precedes the first `@`.
pub proof fn law_render_locate(url: Seq<char>)
    requires
        locate(url) is Ok,
    ensures
        well_formed(locate(url)->Ok_0),
        render(locate(url)->Ok_0) == url,
{
    let l = locate(url)->Ok_0;
    let rest = url.skip(5);
    let at = first_index(rest, '@');
    let remainder = match at {
        Some(i) => rest.skip(i + 1),
        None => rest,
    };
    lemma_first_index(rest, '@');
    lemma_last_separator(remainder);
    let j = last_separator(remainder)->Some_0;
    assert forall|k: int| 0 <= k < l.bucket.len() implies !is_separator(#[trigger] l.bucket[k]) by {
        assert(l.bucket[k] == remainder[j + 1 + k]);
    }
    assert(separator_of(l.style) == remainder[j]);
    assert(remainder =~= l.endpoint + seq![remainder[j]] + l.bucket);
    match at {
        Some(i) => {
            let p = rest.take(i);
            assert forall|k: int| 0 <= k < p.len() implies #[trigger] p[k] != '@' by {
                assert(p[k] == rest[k]);
            }
            assert(rest =~= p + seq!['@'] + remainder);
        },
        None => {
            assert forall|k: int| 0 <= k < l.endpoint.len() implies #[trigger] l.endpoint[k]
                != '@' by {
                assert(l.endpoint[k] == rest[k]);
            }
            assert forall|k: int| 0 <= k < l.bucket.len() implies #[trigger] l.bucket[k]
                != '@' by {
                assert(l.bucket[k] == rest[j + 1 + k]);
            }
        },
    }
    assert(url =~= url.take(5) + rest);
    assert(render(l) =~= url);
}

} // verus!
