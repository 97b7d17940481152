//! URL parsing, resolution and query strings, computed by the `url` crate.
//! Texts passed around are URL serializations: the `url` crate checks as an
//! invariant of every `Url` that parsing its serialization gives it back
//! (`Url::check_invariants`), which the facts below rely on.

use vstd::prelude::*;

verus! {

/// `Url::parse(text)`, as the serialization of the parsed URL.
pub uninterp spec fn parsed_url(text: Seq<char>) -> Option<Seq<char>>;

/// `Url::parse(base)?.join(reference)`, as a serialization.
pub uninterp spec fn joined_url(base: Seq<char>, reference: Seq<char>) -> Option<Seq<char>>;

/// The serialization of `url` after `query_pairs_mut().append_pair(key, value)`.
pub uninterp spec fn url_with_pair(url: Seq<char>, key: Seq<char>, value: Seq<char>) -> Seq<char>;

/// `Url::query_pairs()` of `url`: its decoded query pairs in order.
pub uninterp spec fn url_query_pairs(url: Seq<char>) -> Seq<(Seq<char>, Seq<char>)>;

/// Whether `text` is the serialization of a URL.
pub open spec fn is_url(text: Seq<char>) -> bool {
    parsed_url(text) == Some(text)
}

/// The views of a vector of string pairs.
pub open spec fn pair_views(v: Seq<(String, String)>) -> Seq<(Seq<char>, Seq<char>)> {
    v.map_values(|p: (String, String)| (p.0@, p.1@))
}

/// `Url::parse`: the serialization of the URL `text` denotes, if any.
#[verifier::external_body]
pub(crate) fn url_parse(text: &str) -> (r: Option<String>)
    ensures
        match r {
            Some(t) => parsed_url(text@) == Some(t@) && is_url(t@),
            None => parsed_url(text@) is None,
        },
{
    url::Url::parse(text).ok().map(|u| u.to_string())
}

/// `Url::join`: `reference` resolved against the URL `base`.
#[verifier::external_body]
pub(crate) fn url_join(base: &str, reference: &str) -> (r: Option<String>)
    requires
        parsed_url(base@) is Some,
    ensures
        match r {
            Some(t) => joined_url(base@, reference@) == Some(t@) && is_url(t@),
            None => joined_url(base@, reference@) is None,
        },
{
    url::Url::parse(base).unwrap().join(reference).ok().map(|u| u.to_string())
}

/// `query_pairs_mut().append_pair(key, value)` on the URL `url`. The pair
/// is form-urlencoded and joined to the query with `&` (where the query is
/// not empty); `query_pairs` splits on `&`, skips empty segments and decodes
/// each name and value, so it reads the earlier pairs and then `(key,
/// value)`.
#[verifier::external_body]
fn url_append_pair(url: &str, key: &str, value: &str) -> (r: String)
    requires
        is_url(url@),
    ensures
        r@ == url_with_pair(url@, key@, value@),
        is_url(r@),
        url_query_pairs(r@) == url_query_pairs(url@).push((key@, value@)),
{
    let mut u = url::Url::parse(url).unwrap();
    u.query_pairs_mut().append_pair(key, value);
    u.to_string()
}

/// `Url::query_pairs` of the URL `url`, decoded.
#[verifier::external_body]
fn url_pairs(url: &str) -> (r: Vec<(String, String)>)
    requires
        parsed_url(url@) is Some,
    ensures
        pair_views(r@) == url_query_pairs(url@),
{
    url::Url::parse(url).unwrap().query_pairs().map(|(k, v)| (k.into_owned(), v.into_owned())).collect()
}

/// `url` with the pairs appended to its query, in order.
pub open spec fn url_with_pairs(url: Seq<char>, pairs: Seq<(Seq<char>, Seq<char>)>) -> Seq<char>
    decreases pairs.len(),
{
    if pairs.len() == 0 {
        url
    } else {
        url_with_pairs(url_with_pair(url, pairs[0].0, pairs[0].1), pairs.drop_first())
    }
}

/// Appends the pairs to the query of the URL `url`, in order.
pub fn append_pairs(url: &str, pairs: &Vec<(String, String)>) -> (r: String)
    requires
        is_url(url@),
    ensures
        r@ == url_with_pairs(url@, pair_views(pairs@)),
        is_url(r@),
        url_query_pairs(r@) == url_query_pairs(url@) + pair_views(pairs@),
{
    let mut current = url.to_owned();
    let mut i: usize = 0;
    assert(pair_views(pairs@).skip(0) =~= pair_views(pairs@));
    assert(url_query_pairs(url@) + pair_views(pairs@).take(0) =~= url_query_pairs(url@));
    while i < pairs.len()
        invariant
            i <= pairs@.len(),
            is_url(current@),
            url_with_pairs(url@, pair_views(pairs@)) == url_with_pairs(
                current@,
                pair_views(pairs@).skip(i as int),
            ),
            url_query_pairs(current@) == url_query_pairs(url@) + pair_views(pairs@).take(i as int),
        decreases pairs@.len() - i,
    {
        let next = url_append_pair(current.as_str(), pairs[i].0.as_str(), pairs[i].1.as_str());
        proof {
            let rest = pair_views(pairs@).skip(i as int);
            assert(rest.drop_first() =~= pair_views(pairs@).skip(i + 1));
            assert(rest[0] == (pairs@[i as int].0@, pairs@[i as int].1@));
            assert(pair_views(pairs@).take(i + 1) =~= pair_views(pairs@).take(i as int).push(
                (pairs@[i as int].0@, pairs@[i as int].1@),
            ));
            assert(url_query_pairs(next@) =~= url_query_pairs(url@) + pair_views(pairs@).take(
                i + 1,
            ));
        }
        current = next;
        i = i + 1;
    }
    assert(pair_views(pairs@).skip(pairs@.len() as int) =~= Seq::<(Seq<char>, Seq<char>)>::empty());
    assert(pair_views(pairs@).take(pairs@.len() as int) =~= pair_views(pairs@));
    current
}

/// The value of the first query pair of `url` whose key is `key`.
pub open spec fn first_query_value(pairs: Seq<(Seq<char>, Seq<char>)>, key: Seq<char>) -> Option<
    Seq<char>,
>
    decreases pairs.len(),
{
    if pairs.len() == 0 {
        None
    } else if pairs[0].0 == key {
        Some(pairs[0].1)
    } else {
        first_query_value(pairs.drop_first(), key)
    }
}

pub(crate) proof fn lemma_first_query_value(pairs: Seq<(Seq<char>, Seq<char>)>, key: Seq<char>, i: int)
    requires
        0 <= i <= pairs.len(),
        forall|j: int| 0 <= j < i ==> pairs[j].0 != key,
    ensures
        first_query_value(pairs, key) == first_query_value(pairs.skip(i), key),
    decreases i,
{
    if i > 0 {
        lemma_first_query_value(pairs.drop_first(), key, i - 1);
        assert(pairs.drop_first().skip(i - 1) =~= pairs.skip(i));
    } else {
        assert(pairs.skip(0) =~= pairs);
    }
}

/// The value of the first pair named `key`.
pub fn first_value(pairs: &Vec<(String, String)>, key: &str) -> (r: Option<String>)
    ensures
        match r {
            Some(v) => first_query_value(pair_views(pairs@), key@) == Some(v@),
            None => first_query_value(pair_views(pairs@), key@) is None,
        },
{
    let key_owned = key.to_owned();
    let mut i: usize = 0;
    while i < pairs.len()
        invariant
            i <= pairs@.len(),
            key_owned@ == key@,
            forall|j: int| 0 <= j < i ==> pair_views(pairs@)[j].0 != key@,
        decreases pairs@.len() - i,
    {
        if pairs[i].0 == key_owned {
            proof {
                lemma_first_query_value(pair_views(pairs@), key@, i as int);
            }
            return Some(pairs[i].1.clone());
        }
        i = i + 1;
    }
    proof {
        lemma_first_query_value(pair_views(pairs@), key@, i as int);
    }
    None
}

/// The value of the first query pair of the URL `url` named `key`.
pub fn query_value(url: &str, key: &str) -> (r: Option<String>)
    requires
        parsed_url(url@) is Some,
    ensures
        match r {
            Some(v) => first_query_value(url_query_pairs(url@), key@) == Some(v@),
            None => first_query_value(url_query_pairs(url@), key@) is None,
        },
{
    let pairs = url_pairs(url);
    first_value(&pairs, key)
}

} // verus!
