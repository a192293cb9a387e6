//! The category lister: from the portal's landing markup, the vertical
//! menu's links give the available categories, each with its visible name
//! and the opaque scope token taken from the link's query string. A link
//! without the expected target or scope parameter aborts the run.

use vstd::prelude::*;

use crate::markup::{query_pairs, query_pairs_of, select_links, selected_links};
use crate::question::StructureError;
use crate::text::str_eq;

verus! {

/// Selector of the category links on the landing page.
pub open spec fn sel_sections() -> Seq<char> {
    "#VerticalMenuPanel > ul > li > a"@
}

fn sel_sections_str() -> (r: &'static str)
    ensures
        r@ == sel_sections(),
{
    "#VerticalMenuPanel > ul > li > a"
}

/// The site root against which a link's target is resolved.
pub open spec fn base_url() -> Seq<char> {
    "https://etesty2.mdcr.cz"@
}

fn base_url_str() -> (r: &'static str)
    ensures
        r@ == base_url(),
{
    "https://etesty2.mdcr.cz"
}

/// The query parameter that carries a category's scope token.
pub open spec fn scope_key() -> Seq<char> {
    "basketScope"@
}

fn scope_key_str() -> (r: &'static str)
    ensures
        r@ == scope_key(),
{
    "basketScope"
}

/// One category of the portal: its displayed name and the opaque scope
/// token that filters the listing endpoint.
#[derive(Debug, Clone, PartialEq, Eq)]
pub struct Section {
    pub name: String,
    pub section_id: String,
}

/// Mathematical model of a category.
pub struct SectionV {
    pub name: Seq<char>,
    pub section_id: Seq<char>,
}

impl View for Section {
    type V = SectionV;

    open spec fn view(&self) -> SectionV {
        SectionV { name: self.name@, section_id: self.section_id@ }
    }
}

impl DeepView for Section {
    type V = SectionV;

    open spec fn deep_view(&self) -> SectionV {
        self.view()
    }
}

/// The value of the first query pair with key `key`, from index `i` on.
pub open spec fn pair_value_from(pairs: Seq<(Seq<char>, Seq<char>)>, key: Seq<char>, i: int) -> Option<
    Seq<char>,
>
    decreases pairs.len() - i,
{
    if i < 0 || i >= pairs.len() {
        None
    } else if pairs[i].0 == key {
        Some(pairs[i].1)
    } else {
        pair_value_from(pairs, key, i + 1)
    }
}

/// The value of the first query pair with key `key`.
pub open spec fn pair_value(pairs: Seq<(Seq<char>, Seq<char>)>, key: Seq<char>) -> Option<
    Seq<char>,
> {
    pair_value_from(pairs, key, 0)
}

/// One category link turned into a category: the anchor's text is the
/// name and the scope token comes out of the query string of its target,
/// resolved against the site root.
pub open spec fn anchor_parse(href: Option<Seq<char>>, text: Seq<char>) -> Result<
    SectionV,
    StructureError,
> {
    match href {
        Option::None => Err(StructureError::HrefMissing),
        Option::Some(h) => match query_pairs_of(base_url() + h) {
            Option::None => Err(StructureError::SectionUrlInvalid),
            Option::Some(pairs) => match pair_value(pairs, scope_key()) {
                Option::None => Err(StructureError::ScopeMissing),
                Option::Some(scope) => Ok(SectionV { name: text, section_id: scope }),
            },
        },
    }
}

/// The categories of the landing page from link index `i` on, or the
/// first structural failure among them.
pub open spec fn sections_parse_from(
    anchors: Seq<(Option<Seq<char>>, Seq<char>)>,
    i: int,
) -> Result<Seq<SectionV>, StructureError>
    decreases anchors.len() - i,
{
    if i < 0 || i >= anchors.len() {
        Ok(Seq::empty())
    } else {
        match anchor_parse(anchors[i].0, anchors[i].1) {
            Err(e) => Err(e),
            Ok(s) => match sections_parse_from(anchors, i + 1) {
                Err(e) => Err(e),
                Ok(rest) => Ok(seq![s] + rest),
            },
        }
    }
}

/// What the landing page lists: every category of the vertical menu, in
/// page order, or the first structural failure.
pub open spec fn sections_parse(landing: Seq<char>) -> Result<Seq<SectionV>, StructureError> {
    sections_parse_from(selected_links(landing, sel_sections(), "href"@), 0)
}

/// The value of the first query pair whose key is `key`.
fn find_pair_value(pairs: &Vec<(String, String)>, key: &str) -> (r: Option<String>)
    ensures
        r.deep_view() == pair_value(pairs.deep_view(), key@),
{
    let ghost pv = pairs.deep_view();
    let n = pairs.len();
    let mut j: usize = 0;
    #[verifier::loop_isolation(false)]
    while j < n
        invariant
            n == pv.len(),
            pv == pairs.deep_view(),
            j <= n,
            pair_value(pv, key@) == pair_value_from(pv, key@, j as int),
        decreases n - j,
    {
        proof {
            assert(pv[j as int] == pairs[j as int].deep_view());
        }
        if str_eq(pairs[j].0.as_str(), key) {
            return Some(pairs[j].1.clone());
        }
        j = j + 1;
    }
    None
}

/// List the categories of the landing page, in page order. Fails with the
/// first link whose target or scope parameter is missing or unreadable.
pub fn list_sections(landing: &str) -> (r: Result<Vec<Section>, StructureError>)
    ensures
        match r {
            Ok(secs) => sections_parse(landing@) == Ok::<_, StructureError>(secs.deep_view()),
            Err(e) => sections_parse(landing@) == Err::<Seq<SectionV>, _>(e),
        },
{
    let anchors = select_links(landing, sel_sections_str(), "href");
    let ghost avs = anchors.deep_view();
    let mut secs: Vec<Section> = Vec::new();
    let mut i: usize = 0;
    #[verifier::loop_isolation(false)]
    while i < anchors.len()
        invariant
            avs == anchors.deep_view(),
            avs == selected_links(landing@, sel_sections(), "href"@),
            i <= anchors.len() == avs.len(),
            secs.deep_view().len() == i,
            sections_parse(landing@) == (match sections_parse_from(avs, i as int) {
                Ok(rest) => Ok::<_, StructureError>(secs.deep_view() + rest),
                Err(e) => Err(e),
            }),
        decreases anchors.len() - i,
    {
        proof {
            assert(avs[i as int] == anchors[i as int].deep_view());
        }
        match &anchors[i].0 {
            Option::None => {
                return Err(StructureError::HrefMissing);
            },
            Option::Some(h) => {
                let mut target = base_url_str().to_owned();
                target.append(h.as_str());
                match query_pairs(target.as_str()) {
                    Option::None => {
                        return Err(StructureError::SectionUrlInvalid);
                    },
                    Option::Some(pairs) => {
                        match find_pair_value(&pairs, scope_key_str()) {
                            Option::None => {
                                return Err(StructureError::ScopeMissing);
                            },
                            Option::Some(scope) => {
                                let sec = Section {
                                    name: anchors[i].1.clone(),
                                    section_id: scope,
                                };
                                let ghost before = secs.deep_view();
                                secs.push(sec);
                                proof {
                                    assert(anchor_parse(avs[i as int].0, avs[i as int].1)
                                        == Ok::<_, StructureError>(sec@));
                                    assert(secs.deep_view() =~= before + seq![sec@]);
                                    match sections_parse_from(avs, i + 1) {
                                        Ok(rest) => {
                                            assert(before + (seq![sec@] + rest)
                                                =~= secs.deep_view() + rest);
                                        },
                                        Err(e) => {},
                                    }
                                }
                                i = i + 1;
                            },
                        }
                    },
                }
            },
        }
    }
    proof {
        assert(sections_parse_from(avs, i as int) == Ok::<_, StructureError>(
            Seq::<SectionV>::empty(),
        ));
        assert(secs.deep_view() + Seq::<SectionV>::empty() =~= secs.deep_view());
    }
    Ok(secs)
}

} // verus!
