use crate::modules::text::byte_len;
use vstd::prelude::*;

verus! {

/// For each element of the HTML document `page` that the CSS selector
/// `selector` matches, the value of its attribute `name` (`None` where the
/// element has no such attribute), as the `scraper` crate finds them and
/// in the order in which it yields them: that of the document, as far as
/// the parser keeps it. `None` where `selector` is no valid selector.
pub uninterp spec fn selected_attrs(page: Seq<char>, selector: Seq<char>, name: Seq<char>)
    -> Option<Seq<Option<Seq<char>>>>;

/// The views of a sequence of optional strings, in order.
pub open spec fn attr_views(values: Seq<Option<String>>) -> Seq<Option<Seq<char>>> {
    values.map_values(
        |value: Option<String>|
            match value {
                Some(text) => Some(text@),
                None => None,
            },
    )
}

/// The view of what a selection gave.
pub open spec fn selection_view(found: Option<Vec<Option<String>>>) -> Option<
    Seq<Option<Seq<char>>>,
> {
    match found {
        Some(values) => Some(attr_views(values@)),
        None => None,
    }
}

/// The most bytes that a page or a selector may have to be read: one less
/// than 2^29, so that four times as many stay below 2^31.
pub const MARKUP_BYTES_MAX: usize = 0x1fff_ffff;

/// `page` and `selector` are short enough to be read.
pub open spec fn readable(page: Seq<char>, selector: Seq<char>) -> bool {
    byte_len(page) <= MARKUP_BYTES_MAX && byte_len(selector) <= MARKUP_BYTES_MAX
}

/// Parses `selector` with `Selector::parse` and `page` with
/// `Html::parse_document`, walks the matches of `Html::select` and reads
/// from each the attribute `name` with `Element::attr`. The contract gives
/// the result a name and claims nothing else about it. It bounds the
/// lengths because the parser of pages keeps every piece of text in a
/// buffer whose capacity it rounds up to a power of two within 32 bits,
/// and stops the program where a piece passes 2^31 bytes, while a piece
/// can take three times the bytes that it was read from (a NUL byte is
/// kept as U+FFFD), and because the tokenizer of selectors counts lines in
/// 32 bits. The attribute's name goes into an interned string, which has
/// no such limit.
#[verifier::external_body]
pub(crate) fn select_attrs(page: &str, selector: &str, name: &str) -> (found: Option<
    Vec<Option<String>>,
>)
    requires
        readable(page@, selector@),
    ensures
        selection_view(found) == selected_attrs(page@, selector@, name@),
{
    match scraper::Selector::parse(selector) {
        Ok(parsed) => Some(
            scraper::Html::parse_document(page)
                .select(&parsed)
                .map(|element| element.value().attr(name).map(String::from))
                .collect(),
        ),
        Err(_) => None,
    }
}

} // verus!
