//! The ship catalogue: vehicle identifiers extracted from the anchor
//! links of the per-country index pages. Fetching the pages is I/O and
//! lives outside the library; parsing the markup and matching the link
//! pattern lean on outside crates through named results.

use vstd::prelude::*;

verus! {

/// The href attributes of the anchor elements of an HTML page, in
/// document order: a function of the page text alone, named but not
/// restated here.
pub uninterp spec fn hrefs_of(page: Seq<u8>) -> Seq<Seq<u8>>;

/// The vehicle identifiers captured from one href by the fixed link
/// pattern (a word ending in digits after the vehicles path): a
/// function of the href alone.
pub uninterp spec fn vehicle_ids_of(href: Seq<u8>) -> Seq<Seq<u8>>;

/// Relies on scraper's HTML parser: parses the page and hands back the
/// href attribute of each anchor element, in document order.
#[verifier::external_body]
fn anchor_hrefs(page: &Vec<u8>) -> (r: Vec<Vec<u8>>)
    ensures
        r@.map_values(|h: Vec<u8>| h@) == hrefs_of(page@),
{
    let text = String::from_utf8_lossy(page.as_slice()).into_owned();
    let document = scraper::Html::parse_document(&text);
    let selector = scraper::Selector::parse("a").unwrap();
    let mut out = Vec::new();
    for element in document.select(&selector) {
        if let Some(href) = element.value().attr("href") {
            out.push(href.as_bytes().to_vec());
        }
    }
    out
}

/// Relies on regex's bytes engine: the first capture group of each
/// non-overlapping match of the vehicles-path pattern, left to right.
#[verifier::external_body]
fn vehicle_ids(href: &Vec<u8>) -> (r: Vec<Vec<u8>>)
    ensures
        r@.map_values(|v: Vec<u8>| v@) == vehicle_ids_of(href@),
{
    let re = regex::bytes::Regex::new(r"/games/worldofwarships/vehicles/(\w+\d+)").unwrap();
    let mut out = Vec::new();
    for capture in re.captures_iter(href.as_slice()) {
        out.push(capture[1].to_vec());
    }
    out
}

/// The identifiers of the hrefs from index `i` on, in order.
pub open spec fn ids_from_s(hs: Seq<Seq<u8>>, i: int) -> Seq<Seq<u8>>
    decreases hs.len() - i,
{
    if i < 0 || i >= hs.len() {
        Seq::empty()
    } else {
        vehicle_ids_of(hs[i]) + ids_from_s(hs, i + 1)
    }
}

/// All vehicle identifiers of one index page, in document order.
pub open spec fn page_ids_s(page: Seq<u8>) -> Seq<Seq<u8>> {
    ids_from_s(hrefs_of(page), 0)
}

/// The identifiers of the pages from index `i` on, in order.
pub open spec fn pages_ids_s(ps: Seq<Seq<u8>>, i: int) -> Seq<Seq<u8>>
    decreases ps.len() - i,
{
    if i < 0 || i >= ps.len() {
        Seq::empty()
    } else {
        page_ids_s(ps[i]) + pages_ids_s(ps, i + 1)
    }
}

/// The vehicle identifiers of one country's index page.
pub fn get_country_ships(page: &Vec<u8>) -> (r: Vec<Vec<u8>>)
    ensures
        r@.map_values(|v: Vec<u8>| v@) == page_ids_s(page@),
{
    let hrefs = anchor_hrefs(page);
    let mut out: Vec<Vec<u8>> = Vec::new();
    let mut i: usize = 0;
    while i < hrefs.len()
        invariant
            i <= hrefs.len(),
            hrefs@.map_values(|h: Vec<u8>| h@) == hrefs_of(page@),
            out@.map_values(|v: Vec<u8>| v@) + ids_from_s(hrefs_of(page@), i as int) == page_ids_s(
                page@,
            ),
        decreases hrefs.len() - i,
    {
        let ids = vehicle_ids(&hrefs[i]);
        let ghost before = out@.map_values(|v: Vec<u8>| v@);
        let mut j: usize = 0;
        while j < ids.len()
            invariant
                j <= ids.len(),
                ids@.map_values(|v: Vec<u8>| v@) == vehicle_ids_of(hrefs@.map_values(
                    |h: Vec<u8>| h@,
                )[i as int]),
                i < hrefs.len(),
                out@.map_values(|v: Vec<u8>| v@) =~= before + ids@.map_values(
                    |v: Vec<u8>| v@,
                ).subrange(0, j as int),
            decreases ids.len() - j,
        {
            let id = ids[j].clone();
            assert(id@ == ids@.map_values(|v: Vec<u8>| v@)[j as int]);
            let ghost prev = out@.map_values(|v: Vec<u8>| v@);
            out.push(id);
            assert(out@.map_values(|v: Vec<u8>| v@) =~= prev.push(
                ids@.map_values(|v: Vec<u8>| v@)[j as int],
            ));
            assert(prev.push(ids@.map_values(|v: Vec<u8>| v@)[j as int]) =~= before
                + ids@.map_values(|v: Vec<u8>| v@).subrange(0, j as int + 1));
            j = j + 1;
        }
        assert(out@.map_values(|v: Vec<u8>| v@) =~= before + vehicle_ids_of(
            hrefs_of(page@)[i as int],
        ));
        i = i + 1;
        assert(before + vehicle_ids_of(hrefs_of(page@)[i - 1]) + ids_from_s(
            hrefs_of(page@),
            i as int,
        ) =~= before + ids_from_s(hrefs_of(page@), i - 1));
    }
    assert(out@.map_values(|v: Vec<u8>| v@) =~= page_ids_s(page@));
    out
}

/// All vehicle identifiers found on the given index pages, in order:
/// one page per country, fetched by the caller.
pub fn get_ship_list(pages: &Vec<Vec<u8>>) -> (r: Vec<Vec<u8>>)
    ensures
        r@.map_values(|v: Vec<u8>| v@) == pages_ids_s(pages@.map_values(|p: Vec<u8>| p@), 0),
{
    let ghost ps = pages@.map_values(|p: Vec<u8>| p@);
    let mut out: Vec<Vec<u8>> = Vec::new();
    let mut i: usize = 0;
    while i < pages.len()
        invariant
            i <= pages.len(),
            ps == pages@.map_values(|p: Vec<u8>| p@),
            out@.map_values(|v: Vec<u8>| v@) + pages_ids_s(ps, i as int) == pages_ids_s(ps, 0),
        decreases pages.len() - i,
    {
        let ids = get_country_ships(&pages[i]);
        let ghost before = out@.map_values(|v: Vec<u8>| v@);
        let mut j: usize = 0;
        while j < ids.len()
            invariant
                j <= ids.len(),
                i < pages.len(),
                ps == pages@.map_values(|p: Vec<u8>| p@),
                ids@.map_values(|v: Vec<u8>| v@) == page_ids_s(ps[i as int]),
                out@.map_values(|v: Vec<u8>| v@) =~= before + ids@.map_values(
                    |v: Vec<u8>| v@,
                ).subrange(0, j as int),
            decreases ids.len() - j,
        {
            let id = ids[j].clone();
            assert(id@ == ids@.map_values(|v: Vec<u8>| v@)[j as int]);
            let ghost prev = out@.map_values(|v: Vec<u8>| v@);
            out.push(id);
            assert(out@.map_values(|v: Vec<u8>| v@) =~= prev.push(
                ids@.map_values(|v: Vec<u8>| v@)[j as int],
            ));
            assert(prev.push(ids@.map_values(|v: Vec<u8>| v@)[j as int]) =~= before
                + ids@.map_values(|v: Vec<u8>| v@).subrange(0, j as int + 1));
            j = j + 1;
        }
        assert(out@.map_values(|v: Vec<u8>| v@) =~= before + page_ids_s(ps[i as int]));
        i = i + 1;
        assert(before + page_ids_s(ps[i - 1]) + pages_ids_s(ps, i as int) =~= before + pages_ids_s(
            ps,
            i - 1,
        ));
    }
    assert(out@.map_values(|v: Vec<u8>| v@) =~= pages_ids_s(ps, 0));
    out
}

/// The country index pages the catalogue is built from.
pub fn countries() -> (r: Vec<&'static str>)
    ensures
        r@.len() == 11,
        r@[0]@ == "japan"@,
        r@[1]@ == "usa"@,
        r@[2]@ == "germany"@,
        r@[3]@ == "ussr"@,
        r@[4]@ == "uk"@,
        r@[5]@ == "panasia"@,
        r@[6]@ == "france"@,
        r@[7]@ == "commonwealth"@,
        r@[8]@ == "italy"@,
        r@[9]@ == "pan_america"@,
        r@[10]@ == "europe"@,
{
    let mut out: Vec<&'static str> = Vec::new();
    out.push("japan");
    out.push("usa");
    out.push("germany");
    out.push("ussr");
    out.push("uk");
    out.push("panasia");
    out.push("france");
    out.push("commonwealth");
    out.push("italy");
    out.push("pan_america");
    out.push("europe");
    out
}

} // verus!
