use vstd::prelude::*;

verus! {

/// Why reading a listing page failed.
#[derive(Clone, Copy, Debug, PartialEq, Eq, Structural)]
pub enum ScrapeError {
    /// The HTML library refused one of the CSS selectors.
    InvalidSelector,
    /// A page-index attribute is present but is not an 8-bit integer.
    BadPageIndex,
}

/// Whether `scraper::Selector::parse` accepts `text`.
pub uninterp spec fn selector_parses(text: Seq<char>) -> bool;

/// For each element of the parsed document `html` that the selector `scope`
/// matches, in document order: attribute `attr` of its first descendant that
/// the selector `inner` matches, if there is such a descendant with that attribute.
pub uninterp spec fn first_attrs(
    html: Seq<char>,
    scope: Seq<char>,
    inner: Seq<char>,
    attr: Seq<char>,
) -> Seq<Option<Seq<char>>>;

/// Relies on `scraper::Selector::parse` (for `scope` and `inner`),
/// `scraper::Html::parse_document`, `Html::select`, `ElementRef::select` and
/// `ElementRef::attr`: the document is parsed, the elements that `scope`
/// matches are walked in order, and for each the attribute `attr` of the first
/// element under it that `inner` matches is read.
#[verifier::external_body]
fn select_first_attrs(html: &str, scope: &str, inner: &str, attr: &str) -> (r: Option<Vec<Option<String>>>)
    ensures
        match r {
            Some(found) => selector_parses(scope@) && selector_parses(inner@) && found.deep_view()
                == first_attrs(html@, scope@, inner@, attr@),
            None => !(selector_parses(scope@) && selector_parses(inner@)),
        },
{
    match (scraper::Selector::parse(scope), scraper::Selector::parse(inner)) {
        (Ok(outer), Ok(first)) => {
            let doc = scraper::Html::parse_document(html);
            let found = doc.select(&outer).map(
                |item| item.select(&first).next().and_then(|a| a.attr(attr)).map(str::to_owned),
            ).collect();
            Some(found)
        },
        _ => None,
    }
}

/// Whether `c` is an ASCII decimal digit.
pub open spec fn is_digit(c: char) -> bool {
    48 <= (c as u32) && (c as u32) <= 57
}

/// Value of a sequence of decimal digits.
pub open spec fn digits_value(s: Seq<char>) -> int
    decreases s.len(),
{
    if s.len() == 0 {
        0
    } else {
        digits_value(s.drop_last()) * 10 + ((s.last() as u32) - 48)
    }
}

/// Whether `s` is one or more decimal digits.
pub open spec fn all_digits(s: Seq<char>) -> bool {
    s.len() > 0 && forall|i: int| 0 <= i < s.len() ==> is_digit(#[trigger] s[i])
}

/// Value of an optional `+` or `-` sign followed by decimal digits, and
/// nothing else.
pub open spec fn decimal_value(s: Seq<char>) -> Option<int> {
    if s.len() > 0 && s[0] == '-' && all_digits(s.drop_first()) {
        Some(-digits_value(s.drop_first()))
    } else if s.len() > 0 && s[0] == '+' && all_digits(s.drop_first()) {
        Some(digits_value(s.drop_first()))
    } else if all_digits(s) {
        Some(digits_value(s))
    } else {
        None
    }
}

/// Value of `s` read as an 8-bit signed integer, if it is one.
pub open spec fn i8_value(s: Seq<char>) -> Option<int> {
    match decimal_value(s) {
        Some(v) => if -128 <= v <= 127 {
            Some(v)
        } else {
            None
        },
        None => None,
    }
}

/// Relies on `str::parse::<i8>`: an optional sign and decimal digits in range,
/// nothing else, are accepted.
#[verifier::external_body]
fn parse_i8(s: &str) -> (r: Option<i8>)
    ensures
        match r {
            Some(v) => i8_value(s@) == Some(v as int),
            None => i8_value(s@) is None,
        },
{
    s.parse::<i8>().ok()
}

/// Whether some page index is present but unreadable.
pub open spec fn index_fault(attrs: Seq<Option<Seq<char>>>) -> bool {
    exists|i: int|
        0 <= i < attrs.len() && #[trigger] attrs[i] is Some && i8_value(attrs[i]->Some_0) is None
}

/// Whether `m` is the largest page index of `attrs`, or 0 when there is none
/// above 0.
pub open spec fn is_page_max(attrs: Seq<Option<Seq<char>>>, m: int) -> bool {
    &&& m >= 0
    &&& forall|i: int|
        0 <= i < attrs.len() && #[trigger] attrs[i] is Some && i8_value(attrs[i]->Some_0) is Some
            ==> i8_value(attrs[i]->Some_0)->Some_0 <= m
    &&& (m == 0 || exists|i: int|
        0 <= i < attrs.len() && #[trigger] attrs[i] is Some && i8_value(attrs[i]->Some_0) == Some(
            m,
        ))
}

/// What the page count of a list of page-index attributes is: an error when
/// one is unreadable, else the largest index, or 0.
pub open spec fn page_count_outcome(attrs: Seq<Option<Seq<char>>>, r: Result<i8, ScrapeError>) -> bool {
    if index_fault(attrs) {
        r == Err::<i8, ScrapeError>(ScrapeError::BadPageIndex)
    } else {
        r is Ok && is_page_max(attrs, r->Ok_0 as int)
    }
}

/// The page count of a list of page-index attributes (absent ones are skipped).
pub fn max_page_index(attrs: &Vec<Option<String>>) -> (r: Result<i8, ScrapeError>)
    ensures
        page_count_outcome(attrs.deep_view(), r),
{
    let ghost a = attrs.deep_view();
    let mut max: i8 = 0;
    let mut i: usize = 0;
    while i < attrs.len()
        invariant
            i <= attrs.len(),
            a == attrs.deep_view(),
            a.len() == attrs.len(),
            forall|j: int| 0 <= j < i && #[trigger] a[j] is Some ==> i8_value(a[j]->Some_0) is Some,
            max >= 0,
            forall|j: int|
                0 <= j < i && #[trigger] a[j] is Some && i8_value(a[j]->Some_0) is Some
                    ==> i8_value(a[j]->Some_0)->Some_0 <= max,
            max == 0 || exists|j: int|
                0 <= j < i && #[trigger] a[j] is Some && i8_value(a[j]->Some_0) == Some(max as int),
        decreases attrs.len() - i,
    {
        match &attrs[i] {
            Some(t) => {
                assert(a[i as int] == Some(t@));
                match parse_i8(t.as_str()) {
                    Some(v) => {
                        if v > max {
                            max = v;
                        }
                    },
                    None => {
                        assert(a[i as int] is Some && i8_value(a[i as int]->Some_0) is None);
                        return Err(ScrapeError::BadPageIndex);
                    },
                }
            },
            None => {
                assert(a[i as int] is None);
            },
        }
        i = i + 1;
    }
    Ok(max)
}

/// Whether the selectors of the pagination controls are accepted.
pub open spec fn pagination_selectors_parse() -> bool {
    selector_parses("ul.pages>li"@) && selector_parses("a"@)
}

/// The page-index attribute of each pagination item of `html`.
pub open spec fn pagination_attrs(html: Seq<char>) -> Seq<Option<Seq<char>>> {
    first_attrs(html, "ul.pages>li"@, "a"@, "data-page-index"@)
}

/// The highest pagination index of a listing page, or 0 when it has none.
pub fn get_page_count(html: &str) -> (r: Result<i8, ScrapeError>)
    ensures
        !pagination_selectors_parse() ==> r == Err::<i8, ScrapeError>(ScrapeError::InvalidSelector),
        pagination_selectors_parse() ==> page_count_outcome(pagination_attrs(html@), r),
{
    match select_first_attrs(html, "ul.pages>li", "a", "data-page-index") {
        Some(attrs) => max_page_index(&attrs),
        None => Err(ScrapeError::InvalidSelector),
    }
}

/// The line of one listing: the site's origin, the link (nothing when it is
/// missing), and a line break.
pub open spec fn listing_line(link: Option<Seq<char>>) -> Seq<char> {
    "https://www.immobilier.ch"@ + match link {
        Some(l) => l,
        None => Seq::empty(),
    } + seq!['\n']
}

/// The lines of all listings, in order.
pub open spec fn listing_text(links: Seq<Option<Seq<char>>>) -> Seq<char>
    decreases links.len(),
{
    if links.len() == 0 {
        Seq::empty()
    } else {
        listing_text(links.drop_last()) + listing_line(links.last())
    }
}

/// The absolute URLs of a list of listing links, one per line.
pub fn listing_urls(links: &Vec<Option<String>>) -> (r: String)
    ensures
        r@ == listing_text(links.deep_view()),
{
    let ghost a = links.deep_view();
    let mut out = String::new();
    let mut i: usize = 0;
    while i < links.len()
        invariant
            i <= links.len(),
            a == links.deep_view(),
            out@ == listing_text(a.take(i as int)),
        decreases links.len() - i,
    {
        let ghost before = out@;
        out.append("https://www.immobilier.ch");
        match &links[i] {
            Some(l) => out.append(l.as_str()),
            None => {},
        }
        out.append("\n");
        proof {
            reveal_strlit("\n");
            let t = a.take(i as int + 1);
            assert(t.drop_last() =~= a.take(i as int));
            assert(t.last() == a[i as int]);
        }
        assert(out@ =~= listing_text(a.take(i as int + 1)));
        i = i + 1;
    }
    assert(a.take(i as int) =~= a);
    out
}

/// Whether the selectors of the listing containers are accepted.
pub open spec fn listing_selectors_parse() -> bool {
    selector_parses("div.filter-item"@) && selector_parses("a"@)
}

/// The link of each listing container of `html`.
pub open spec fn listing_links(html: Seq<char>) -> Seq<Option<Seq<char>>> {
    first_attrs(html, "div.filter-item"@, "a"@, "href"@)
}

/// The absolute URL of each listing of a page, one per line.
pub fn get_listing_urls(html: &str) -> (r: Result<String, ScrapeError>)
    ensures
        !listing_selectors_parse() ==> r is Err && r->Err_0 == ScrapeError::InvalidSelector,
        listing_selectors_parse() ==> r is Ok && r->Ok_0@ == listing_text(listing_links(html@)),
{
    match select_first_attrs(html, "div.filter-item", "a", "href") {
        Some(links) => Ok(listing_urls(&links)),
        None => Err(ScrapeError::InvalidSelector),
    }
}

/// Number of line breaks in `s`.
pub open spec fn line_breaks(s: Seq<char>) -> nat
    decreases s.len(),
{
    if s.len() == 0 {
        0
    } else {
        line_breaks(s.drop_last()) + if s.last() == '\n' {
            1nat
        } else {
            0nat
        }
    }
}

proof fn lemma_line_breaks_concat(a: Seq<char>, b: Seq<char>)
    ensures
        line_breaks(a + b) == line_breaks(a) + line_breaks(b),
    decreases b.len(),
{
    if b.len() > 0 {
        lemma_line_breaks_concat(a, b.drop_last());
        assert((a + b).drop_last() =~= a + b.drop_last());
    } else {
        assert(a + b =~= a);
    }
}

proof fn lemma_no_line_breaks(s: Seq<char>)
    requires
        forall|i: int| 0 <= i < s.len() ==> s[i] != '\n',
    ensures
        line_breaks(s) == 0,
    decreases s.len(),
{
    if s.len() > 0 {
        lemma_no_line_breaks(s.drop_last());
    }
}

/// Each listing takes exactly one line: where no link holds a line break, the
/// text of `n` listings holds exactly `n` line breaks, and each line is the
/// site's origin followed by the listing's link.
pub proof fn lemma_one_line_per_listing(links: Seq<Option<Seq<char>>>)
    requires
        forall|i: int, j: int|
            0 <= i < links.len() && links[i] is Some && 0 <= j < links[i]->Some_0.len()
                ==> #[trigger] links[i]->Some_0[j] != '\n',
    ensures
        line_breaks(listing_text(links)) == links.len(),
    decreases links.len(),
{
    if links.len() > 0 {
        let last = links.last();
        lemma_one_line_per_listing(links.drop_last());
        let origin = "https://www.immobilier.ch"@;
        reveal_strlit("https://www.immobilier.ch");
        let link = match last {
            Some(l) => l,
            None => Seq::empty(),
        };
        assert(links[links.len() - 1] == last);
        lemma_no_line_breaks(origin + link);
        lemma_line_breaks_concat(origin + link, seq!['\n']);
        assert(line_breaks(seq!['\n']) == 1) by {
            let nl = seq!['\n'];
            assert(nl.len() == 1 && nl.last() == '\n');
            assert(nl.drop_last() =~= Seq::<char>::empty());
            assert(line_breaks(nl.drop_last()) == 0);
        }
        lemma_line_breaks_concat(listing_text(links.drop_last()), listing_line(last));
    }
}

} // verus!
