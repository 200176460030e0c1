use crate::modules::text::byte_len;
use crate::modules::types::text_views;
use vstd::prelude::*;

verus! {

/// The absolute link that `reference` denotes when it is read against the
/// absolute link `base`, in the serialization of the `url` crate; `None`
/// where `base` is no absolute link or `reference` cannot be resolved
/// against it.
pub uninterp spec fn url_join(base: Seq<char>, reference: Seq<char>) -> Option<Seq<char>>;

/// The serialization that the `url` crate gives the absolute link `link`;
/// `None` where `link` is no absolute link.
pub uninterp spec fn url_parse(link: Seq<char>) -> Option<Seq<char>>;

/// The link `link`, which is a serialization of the `url` crate, with the
/// pair `name=value` added at the end of its query in form encoding, in
/// the serialization of that crate.
pub uninterp spec fn url_with_pair(link: Seq<char>, name: Seq<char>, value: Seq<char>) -> Option<
    Seq<char>,
>;

/// The most bytes that a serialized link may have: the `url` crate indexes
/// it with 32-bit offsets.
pub const LINK_BYTES_MAX: usize = 0xffff_ffff;

/// `link` is a serialization of the `url` crate: parsed, it is written as
/// it stands.
pub open spec fn parses_to_itself(link: Seq<char>) -> bool {
    url_parse(link) == Some(link)
}

/// The link `link` with the pair added still fits its offsets: form
/// encoding writes at most three bytes for each byte of `name` and of
/// `value`, and two separators go between.
pub open spec fn pair_fits(link: Seq<char>, name: Seq<char>, value: Seq<char>) -> bool {
    byte_len(link) + 3 * (byte_len(name) + byte_len(value)) + 2 <= LINK_BYTES_MAX
}

/// The link `link` with the pair `name=value` added to its query; `None`
/// where `link` is no absolute link, where its serialization is not
/// parsed to itself, or where the link with the pair would be too long.
pub open spec fn with_pair(link: Seq<char>, name: Seq<char>, value: Seq<char>) -> Option<
    Seq<char>,
> {
    match url_parse(link) {
        Some(parsed) => if parses_to_itself(parsed) && pair_fits(parsed, name, value) {
            url_with_pair(parsed, name, value)
        } else {
            None
        },
        None => None,
    }
}

/// `link` with one pair added for each of `values` in order, all under
/// `name`; `None` as soon as one step gives `None`.
pub open spec fn with_pairs(link: Option<Seq<char>>, name: Seq<char>, values: Seq<Seq<char>>)
    -> Option<Seq<char>>
    decreases values.len(),
{
    if values.len() == 0 {
        link
    } else {
        match with_pairs(link, name, values.drop_last()) {
            Some(so_far) => with_pair(so_far, name, values.last()),
            None => None,
        }
    }
}

/// The view of an optional string.
pub open spec fn option_view(text: Option<String>) -> Option<Seq<char>> {
    match text {
        Some(t) => Some(t@),
        None => None,
    }
}

/// Parses `base` with `Url::parse`, resolves `reference` against it with
/// `Url::join` and returns the serialization of what comes out, `None` where
/// either call reports an error. The contract gives that result a name and
/// claims nothing else about it.
#[verifier::external_body]
pub(crate) fn join(base: &str, reference: &str) -> (link: Option<String>)
    ensures
        option_view(link) == url_join(base@, reference@),
{
    match url::Url::parse(base) {
        Ok(parsed) => match parsed.join(reference) {
            Ok(joined) => Some(String::from(joined)),
            Err(_) => None,
        },
        Err(_) => None,
    }
}

/// Parses `link` with `Url::parse` and returns the serialization of what
/// comes out, `None` where the parser reports an error. The contract gives
/// that result a name and claims nothing else about it.
#[verifier::external_body]
fn parse(link: &str) -> (parsed: Option<String>)
    ensures
        option_view(parsed) == url_parse(link@),
{
    match url::Url::parse(link) {
        Ok(parsed) => Some(String::from(parsed)),
        Err(_) => None,
    }
}

/// Parses `link` with `Url::parse`, adds the pair with
/// `Url::query_pairs_mut` and `append_pair`, and returns the serialization
/// of what comes out. The contract gives that result a name and claims
/// nothing else about it. It asks for a link that the parser writes as it
/// stands, so that the parsed link has the length of `link`, and for
/// lengths with which the link with the pair fits 32-bit offsets: the
/// crate stops the program where an offset does not fit.
#[verifier::external_body]
fn append_pair(link: &str, name: &str, value: &str) -> (longer: Option<String>)
    requires
        parses_to_itself(link@),
        pair_fits(link@, name@, value@),
    ensures
        option_view(longer) == url_with_pair(link@, name@, value@),
{
    match url::Url::parse(link) {
        Ok(mut parsed) => {
            parsed.query_pairs_mut().append_pair(name, value);
            Some(String::from(parsed))
        },
        Err(_) => None,
    }
}

/// Whether `link` with the pair `name=value` added still fits its offsets.
pub fn fits_with_pair(link: &str, name: &str, value: &str) -> (fits: bool)
    ensures
        fits == pair_fits(link@, name@, value@),
{
    let link_len: usize = link.as_bytes().len();
    let name_len: usize = name.as_bytes().len();
    let value_len: usize = value.as_bytes().len();
    if link_len > LINK_BYTES_MAX - 2 {
        return false;
    }
    let room: usize = (LINK_BYTES_MAX - 2 - link_len) / 3;
    name_len <= room && value_len <= room - name_len
}

/// `link` with the pair `name=value` added to its query.
pub fn add_pair(link: &str, name: &str, value: &str) -> (longer: Option<String>)
    ensures
        option_view(longer) == with_pair(link@, name@, value@),
{
    let parsed = match parse(link) {
        Some(parsed) => parsed,
        None => {
            return None;
        },
    };
    let stable = match parse(parsed.as_str()) {
        Some(again) => again == parsed,
        None => false,
    };
    if stable && fits_with_pair(parsed.as_str(), name, value) {
        append_pair(parsed.as_str(), name, value)
    } else {
        None
    }
}

/// `link` with one pair added for each of `values` in order, all under
/// `name`.
pub fn add_pairs(link: Option<String>, name: &str, values: &Vec<String>) -> (longer: Option<String>)
    ensures
        option_view(longer) == with_pairs(
            option_view(link),
            name@,
            text_views(values@),
        ),
{
    let ghost all = text_views(values@);
    let ghost start = option_view(link);
    let mut longer = link;
    let mut i: usize = 0;
    assert(all.take(0) =~= Seq::empty());
    while i < values.len()
        invariant
            i <= values.len(),
            all == text_views(values@),
            option_view(longer) == with_pairs(start, name@, all.take(i as int)),
        decreases values.len() - i,
    {
        assert(all.take(i + 1).drop_last() =~= all.take(i as int));
        assert(all.take(i + 1).last() == values@[i as int]@);
        longer = match longer {
            Some(so_far) => add_pair(so_far.as_str(), name, values[i].as_str()),
            None => None,
        };
        i += 1;
    }
    assert(all.take(values.len() as int) =~= all);
    longer
}

} // verus!
