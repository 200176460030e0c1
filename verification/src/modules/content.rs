use crate::modules::types::{content_views, Content, ContentView};
use vstd::prelude::*;
use vstd::string::StringExecFns;

verus! {

/// The character that writes the digit `d`.
pub open spec fn digit_char(d: nat) -> char
    recommends
        d < 10,
{
    seq!['0', '1', '2', '3', '4', '5', '6', '7', '8', '9'][d as int]
}

/// `n` in decimal, most significant digit first, without leading zeros.
pub open spec fn decimal(n: nat) -> Seq<char>
    decreases n,
{
    if n < 10 {
        seq![digit_char(n)]
    } else {
        decimal(n / 10).push(digit_char(n % 10))
    }
}

/// `count` times the character `'0'`.
pub open spec fn zeros(count: nat) -> Seq<char> {
    Seq::new(count, |i: int| '0')
}

/// `n` in decimal, filled up with zeros on the left to `width` characters.
/// A number that is longer than `width` is written in full.
pub open spec fn padded(n: nat, width: nat) -> Seq<char> {
    if decimal(n).len() >= width {
        decimal(n)
    } else {
        zeros((width - decimal(n).len()) as nat) + decimal(n)
    }
}

/// The search string of an item: prefix and title, then both counters with
/// their labels, each counter padded to the item's width, then the postfix.
pub open spec fn query_text(c: ContentView) -> Seq<char> {
    c.prefix + c.title + seq![' '] + c.first_prefix + padded(c.first, c.digits) + seq![' ']
        + c.second_prefix + padded(c.second, c.digits) + c.postfix
}

/// The item that follows `c` within the same season.
pub open spec fn next_episode(c: ContentView) -> ContentView {
    ContentView { second: c.second + 1, ..c }
}

/// The item that opens the season after that of `c`.
pub open spec fn next_season(c: ContentView) -> ContentView {
    ContentView { first: c.first + 1, second: 1, ..c }
}

/// The candidates that are tried for `c`, in the order in which they are
/// tried: the next episode, then the next season.
pub open spec fn candidates(c: ContentView) -> Seq<ContentView> {
    seq![next_episode(c), next_season(c)]
}

/// Both counters of `c` can still be counted up.
pub open spec fn has_successors(c: ContentView) -> bool {
    c.first < u32::MAX && c.second < u32::MAX
}

/// A padded number is at least as wide as asked for, exactly that wide
/// when the number is not longer than the width, and always ends with the
/// number written in full.
pub proof fn lemma_padded_width(n: nat, width: nat)
    ensures
        padded(n, width).len() >= width,
        decimal(n).len() <= width ==> padded(n, width).len() == width,
        decimal(n).len() >= width ==> padded(n, width) == decimal(n),
        padded(n, width).len() >= decimal(n).len(),
        padded(n, width).subrange(
            padded(n, width).len() - decimal(n).len(),
            padded(n, width).len() as int,
        ) == decimal(n),
        forall|i: int|
            0 <= i < padded(n, width).len() - decimal(n).len() ==> padded(n, width)[i] == '0',
{
    let p = padded(n, width);
    let d = decimal(n);
    assert(p.subrange(p.len() - d.len(), p.len() as int) =~= d);
}

/// The search string of any item holds both counters padded: each is
/// written at least as wide as the item's width, and exactly that wide
/// when the number has no more digits than the width.
pub proof fn lemma_query_counters_padded(c: ContentView)
    ensures
        query_text(c) == c.prefix + c.title + seq![' '] + c.first_prefix + padded(
            c.first,
            c.digits,
        ) + seq![' '] + c.second_prefix + padded(c.second, c.digits) + c.postfix,
        padded(c.first, c.digits).len() >= c.digits,
        padded(c.second, c.digits).len() >= c.digits,
        decimal(c.first).len() <= c.digits ==> padded(c.first, c.digits).len() == c.digits,
        decimal(c.second).len() <= c.digits ==> padded(c.second, c.digits).len() == c.digits,
        query_text(c).len() == c.prefix.len() + c.title.len() + c.first_prefix.len()
            + c.second_prefix.len() + c.postfix.len() + padded(c.first, c.digits).len() + padded(
            c.second,
            c.digits,
        ).len() + 2,
{
    lemma_padded_width(c.first, c.digits);
    lemma_padded_width(c.second, c.digits);
}

/// The number of digits of a `u32` is between one and ten.
pub proof fn lemma_decimal_len(n: nat)
    ensures
        decimal(n).len() >= 1,
        n <= u32::MAX ==> decimal(n).len() <= 10,
    decreases n,
{
    if n >= 10 {
        lemma_decimal_len(n / 10);
        if n <= u32::MAX {
            reveal_with_fuel(decimal, 11);
        }
    }
}

/// Items that can be turned into a search string.
pub trait Searchable {
    /// The search string of this item.
    spec fn query(&self) -> Seq<char>;

    /// Writes the search string of this item.
    fn to_query(&self) -> (query: String)
        ensures
            query@ == self.query(),
    ;
}

/// Items for which the next installments can be named.
pub trait Predictable {
    /// Whether the successors of this item can be represented.
    spec fn predictable(&self) -> bool;

    /// The successors of this item, in the order in which they are tried.
    spec fn predictions(&self) -> Seq<ContentView>;

    /// Names the successors of this item, in the order in which they are
    /// tried.
    fn predict_new_content(&self) -> (next: Vec<Content>)
        requires
            self.predictable(),
        ensures
            content_views(next@) == self.predictions(),
            next@.len() == self.predictions().len(),
            forall|i: int| 0 <= i < next@.len() ==> (#[trigger] next@[i])@ == self.predictions()[i],
    ;
}

/// The text that writes one decimal digit.
fn digit_text(d: u32) -> (text: &'static str)
    requires
        d < 10,
    ensures
        text@ == seq![digit_char(d as nat)],
{
    proof {
        reveal_strlit("0");
        reveal_strlit("1");
        reveal_strlit("2");
        reveal_strlit("3");
        reveal_strlit("4");
        reveal_strlit("5");
        reveal_strlit("6");
        reveal_strlit("7");
        reveal_strlit("8");
        reveal_strlit("9");
    }
    let text = if d == 0 {
        "0"
    } else if d == 1 {
        "1"
    } else if d == 2 {
        "2"
    } else if d == 3 {
        "3"
    } else if d == 4 {
        "4"
    } else if d == 5 {
        "5"
    } else if d == 6 {
        "6"
    } else if d == 7 {
        "7"
    } else if d == 8 {
        "8"
    } else {
        "9"
    };
    assert(text@ =~= seq![digit_char(d as nat)]);
    text
}

/// The number of digits that `n` is written with.
fn decimal_len(n: u32) -> (len: usize)
    ensures
        len == decimal(n as nat).len(),
        1 <= len <= 10,
    decreases n,
{
    proof {
        lemma_decimal_len(n as nat);
    }
    if n < 10 {
        1
    } else {
        decimal_len(n / 10) + 1
    }
}

/// Writes `n` in decimal at the end of `out`.
fn push_decimal(out: &mut String, n: u32)
    ensures
        final(out)@ == old(out)@ + decimal(n as nat),
    decreases n,
{
    if n >= 10 {
        push_decimal(out, n / 10);
    }
    out.append(digit_text(n % 10));
    assert(out@ =~= old(out)@ + decimal(n as nat));
}

/// Writes `n` at the end of `out`, filled up with zeros to `width`
/// characters.
fn push_padded(out: &mut String, n: u32, width: usize)
    ensures
        final(out)@ == old(out)@ + padded(n as nat, width as nat),
{
    let len = decimal_len(n);
    let mut written: usize = len;
    proof {
        reveal_strlit("0");
    }
    while written < width
        invariant
            len == decimal(n as nat).len(),
            len <= written,
            written <= width || written == len,
            out@ == old(out)@ + zeros((written - len) as nat),
            "0"@ == seq!['0'],
        decreases width - written,
    {
        out.append("0");
        written += 1;
        assert(out@ =~= old(out)@ + zeros((written - len) as nat));
    }
    push_decimal(out, n);
    assert(out@ =~= old(out)@ + padded(n as nat, width as nat));
}

impl Content {
    /// An item with the given naming template and counters.
    pub fn new(
        prefix: &str,
        title: &str,
        first_prefix: &str,
        first: u32,
        second_prefix: &str,
        second: u32,
        digits: usize,
        postfix: &str,
    ) -> (content: Self)
        ensures
            content@ == (ContentView {
                prefix: prefix@,
                title: title@,
                first_prefix: first_prefix@,
                first: first as nat,
                second_prefix: second_prefix@,
                second: second as nat,
                digits: digits as nat,
                postfix: postfix@,
            }),
    {
        Content {
            prefix: String::from_str(prefix),
            title: String::from_str(title),
            first_prefix: String::from_str(first_prefix),
            first,
            second_prefix: String::from_str(second_prefix),
            second,
            digits,
            postfix: String::from_str(postfix),
        }
    }
}

impl Searchable for Content {
    open spec fn query(&self) -> Seq<char> {
        query_text(self@)
    }

    fn to_query(&self) -> (query: String) {
        proof {
            reveal_strlit(" ");
        }
        let mut query = String::new();
        query.append(self.prefix.as_str());
        query.append(self.title.as_str());
        query.append(" ");
        query.append(self.first_prefix.as_str());
        push_padded(&mut query, self.first, self.digits);
        query.append(" ");
        query.append(self.second_prefix.as_str());
        push_padded(&mut query, self.second, self.digits);
        query.append(self.postfix.as_str());
        assert(" "@ =~= seq![' ']);
        assert(query@ =~= query_text(self@));
        query
    }
}

impl Predictable for Content {
    open spec fn predictable(&self) -> bool {
        has_successors(self@)
    }

    open spec fn predictions(&self) -> Seq<ContentView> {
        candidates(self@)
    }

    fn predict_new_content(&self) -> (next: Vec<Content>) {
        let mut episode = self.clone();
        let mut season = self.clone();
        episode.second = episode.second + 1;
        season.second = 1;
        season.first = season.first + 1;
        let next = vec![episode, season];
        assert(content_views(next@) =~= candidates(self@));
        assert(next@[0]@ == candidates(self@)[0]);
        assert(next@[1]@ == candidates(self@)[1]);
        next
    }
}

} // verus!
