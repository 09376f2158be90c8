use vstd::prelude::*;
use crate::text::{int_text, nat_text, digit_char, push_char, push_int, push_nat};

verus! {

/// A number of rooms, counted in tenths of a room (`45` is 4.5 rooms).
#[derive(Clone, Copy, Debug, PartialEq, Eq, Structural)]
pub struct RoomCount {
    pub tenths: u32,
}

/// The constraints of a property search. A range bound of zero means
/// "no bound"; the keyword list `[""]` means "no keywords".
#[derive(Debug)]
pub struct FilterParams {
    pub rent_range: (i32, i32),
    pub room_range: (RoomCount, RoomCount),
    pub surface_range: (i32, i32),
    pub area: String,
    pub keywords: Vec<String>,
    pub new_listings_only: bool,
}

/// Text of a room count: whole rooms, then `.` and the tenth unless it is zero.
pub open spec fn room_text(r: RoomCount) -> Seq<char> {
    let whole = nat_text((r.tenths / 10) as nat);
    if r.tenths % 10 == 0 {
        whole
    } else {
        whole + seq!['.', digit_char((r.tenths % 10) as nat)]
    }
}

/// `key` followed by `value` when the bound is set, nothing otherwise.
pub open spec fn bound_param(key: Seq<char>, value: Seq<char>, set: bool) -> Seq<char> {
    if set {
        key + value
    } else {
        Seq::empty()
    }
}

/// The keywords joined by `;`, with no trailing separator.
pub open spec fn joined(ks: Seq<Seq<char>>) -> Seq<char>
    decreases ks.len(),
{
    if ks.len() == 0 {
        Seq::empty()
    } else if ks.len() == 1 {
        ks[0]
    } else {
        joined(ks.drop_last()) + seq![';'] + ks.last()
    }
}

/// Whether the keyword list is the "unset" marker `[""]`.
pub open spec fn keywords_unset(ks: Seq<Seq<char>>) -> bool {
    ks.len() == 1 && ks[0].len() == 0
}

/// The keyword fragment: `&k=` and the joined keywords, or nothing when unset.
pub open spec fn keywords_param(ks: Seq<Seq<char>>) -> Seq<char> {
    if keywords_unset(ks) {
        Seq::empty()
    } else {
        "&k="@ + joined(ks)
    }
}

/// Everything of the search URL that comes before the new-listings flag.
pub open spec fn url_body(p: FilterParams) -> Seq<char> {
    "https://www.immobilier.ch/en/rent/apartment/"@ + p.area@ + "/page-1?t=rent&c=1&p=s126"@
        + bound_param("&pn="@, int_text(p.rent_range.0 as int), p.rent_range.0 != 0)
        + bound_param("&px="@, int_text(p.rent_range.1 as int), p.rent_range.1 != 0)
        + bound_param("&nrn="@, room_text(p.room_range.0), p.room_range.0.tenths != 0)
        + bound_param("&nrx="@, room_text(p.room_range.1), p.room_range.1.tenths != 0)
        + bound_param("&sn="@, int_text(p.surface_range.0 as int), p.surface_range.0 != 0)
        + bound_param("&sx="@, int_text(p.surface_range.1 as int), p.surface_range.1 != 0)
        + keywords_param(p.keywords.deep_view())
}

/// The new-listings flag, always present.
pub open spec fn new_listings_param(on: bool) -> Seq<char> {
    if on {
        "&nb=true"@
    } else {
        "&nb=false"@
    }
}

/// The search URL for a set of filters.
pub open spec fn search_url(p: FilterParams) -> Seq<char> {
    url_body(p) + new_listings_param(p.new_listings_only)
}

impl Default for FilterParams {
    fn default() -> (r: FilterParams)
        ensures
            r.rent_range == (0i32, 0i32),
            r.room_range == (RoomCount { tenths: 0 }, RoomCount { tenths: 0 }),
            r.surface_range == (0i32, 0i32),
            r.area@ == "zurich"@,
            r.keywords.deep_view() == seq![""@],
            !r.new_listings_only,
    {
        let kws = vec![String::from_str("")];
        assert(kws.deep_view() =~= seq![""@]);
        FilterParams {
            rent_range: (0, 0),
            room_range: (RoomCount { tenths: 0 }, RoomCount { tenths: 0 }),
            surface_range: (0, 0),
            area: String::from_str("zurich"),
            keywords: kws,
            new_listings_only: false,
        }
    }
}

fn push_room_count(s: &mut String, r: RoomCount)
    ensures
        final(s)@ == old(s)@ + room_text(r),
{
    push_nat(s, r.tenths / 10);
    if r.tenths % 10 != 0 {
        push_char(s, '.');
        push_char(s, crate::text::digit(r.tenths % 10));
        assert(final(s)@ =~= old(s)@ + room_text(r));
    }
}

fn push_int_param(s: &mut String, key: &str, v: i32)
    ensures
        final(s)@ == old(s)@ + bound_param(key@, int_text(v as int), v != 0),
{
    if v != 0 {
        s.append(key);
        push_int(s, v);
        assert(final(s)@ =~= old(s)@ + bound_param(key@, int_text(v as int), v != 0));
    } else {
        assert(final(s)@ =~= old(s)@ + bound_param(key@, int_text(v as int), v != 0));
    }
}

fn push_room_param(s: &mut String, key: &str, r: RoomCount)
    ensures
        final(s)@ == old(s)@ + bound_param(key@, room_text(r), r.tenths != 0),
{
    if r.tenths != 0 {
        s.append(key);
        push_room_count(s, r);
        assert(final(s)@ =~= old(s)@ + bound_param(key@, room_text(r), r.tenths != 0));
    } else {
        assert(final(s)@ =~= old(s)@ + bound_param(key@, room_text(r), r.tenths != 0));
    }
}

fn push_keywords(s: &mut String, keywords: &Vec<String>)
    ensures
        final(s)@ == old(s)@ + keywords_param(keywords.deep_view()),
{
    let ghost ks = keywords.deep_view();
    if keywords.len() == 1 && keywords[0].as_str().unicode_len() == 0 {
        assert(final(s)@ =~= old(s)@ + keywords_param(ks));
        return;
    }
    s.append("&k=");
    let ghost start = s@;
    let mut i: usize = 0;
    while i < keywords.len()
        invariant
            i <= keywords.len(),
            ks == keywords.deep_view(),
            s@ == start + joined(ks.take(i as int)),
        decreases keywords.len() - i,
    {
        if i > 0 {
            s.append(";");
        }
        s.append(keywords[i].as_str());
        proof {
            let t = ks.take(i as int + 1);
            assert(t.drop_last() =~= ks.take(i as int));
            assert(t.last() == ks[i as int]);
            reveal_strlit(";");
        }
        assert(s@ =~= start + joined(ks.take(i as int + 1)));
        i = i + 1;
    }
    assert(ks.take(i as int) =~= ks);
    assert(final(s)@ =~= old(s)@ + keywords_param(ks));
}

/// Builds the search URL for `params`. The result depends on the filters alone.
pub fn build_search_url(params: &FilterParams) -> (r: String)
    ensures
        r@ == search_url(*params),
{
    let mut url = String::from_str("https://www.immobilier.ch/en/rent/apartment/");
    url.append(params.area.as_str());
    url.append("/page-1?t=rent&c=1&p=s126");
    push_int_param(&mut url, "&pn=", params.rent_range.0);
    push_int_param(&mut url, "&px=", params.rent_range.1);
    push_room_param(&mut url, "&nrn=", params.room_range.0);
    push_room_param(&mut url, "&nrx=", params.room_range.1);
    push_int_param(&mut url, "&sn=", params.surface_range.0);
    push_int_param(&mut url, "&sx=", params.surface_range.1);
    push_keywords(&mut url, &params.keywords);
    if params.new_listings_only {
        url.append("&nb=true");
    } else {
        url.append("&nb=false");
    }
    assert(url@ =~= search_url(*params));
    url
}

/// Whether `p` and `q` hold the same filters, the new-listings flag aside.
pub open spec fn same_filters_but_flag(p: FilterParams, q: FilterParams) -> bool {
    &&& p.rent_range == q.rent_range
    &&& p.room_range == q.room_range
    &&& p.surface_range == q.surface_range
    &&& p.area@ == q.area@
    &&& p.keywords.deep_view() == q.keywords.deep_view()
}

/// Whether `p` and `q` hold the same filters.
pub open spec fn same_filters(p: FilterParams, q: FilterParams) -> bool {
    same_filters_but_flag(p, q) && p.new_listings_only == q.new_listings_only
}

/// The URL is a function of the filters alone: equal filters give equal URLs,
/// so building the URL twice from the same filters gives the same text.
pub proof fn lemma_same_filters_same_url(p: FilterParams, q: FilterParams)
    requires
        same_filters(p, q),
    ensures
        search_url(p) == search_url(q),
{
}

/// Asking for new listings only changes the flag at the end of the URL from
/// `&nb=false` to `&nb=true`, and nothing else.
pub proof fn lemma_new_listings_flag(p: FilterParams, q: FilterParams)
    requires
        same_filters_but_flag(p, q),
        !p.new_listings_only,
        q.new_listings_only,
    ensures
        exists|body: Seq<char>|
            search_url(p) == body + "&nb=false"@ && search_url(q) == body + "&nb=true"@,
{
    assert(url_body(p) == url_body(q));
    assert(search_url(p) == url_body(p) + "&nb=false"@ && search_url(q) == url_body(p)
        + "&nb=true"@);
}

} // verus!
