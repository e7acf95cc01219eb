//! The crawl engine: page extraction under the base-domain link policy and
//! the orchestration of one crawl invocation over the visited registry.
//!
//! Fetching is I/O and stays with the caller: the orchestrator here takes
//! each fetch's outcome as a value (the page text, or nothing for a failed
//! fetch) and decides everything else — which URLs are claimed, which pages
//! the result holds, and in what order.

use vstd::prelude::*;

use crate::html::{anchor_hrefs, article_text_of, first_article_text, first_h1_text, h1_text_of,
    hrefs_of};
use crate::registry::VisitedRegistry;
use crate::text::{clean_text, normalized};
use crate::urls::{encode_component, encoded, host_of, is_valid_url, join_of, parse_ok,
    resolve_href, url_host};

verus! {

/// One extracted documentation page.
pub struct DocPage {
    /// The page heading, whitespace-normalized.
    pub title: String,
    /// The text of the page's primary content block, whitespace-normalized.
    pub content: String,
    /// The URL the page was fetched from.
    pub url: String,
    /// The outbound links of the page that resolve into the crawl domain,
    /// in document order, not deduplicated.
    pub related_links: Vec<String>,
}

/// The mathematical value of a [`DocPage`].
#[verifier::ext_equal]
pub struct DocPageView {
    pub title: Seq<char>,
    pub content: Seq<char>,
    pub url: Seq<char>,
    pub related_links: Seq<Seq<char>>,
}

impl View for DocPage {
    type V = DocPageView;

    open spec fn view(&self) -> DocPageView {
        DocPageView {
            title: self.title@,
            content: self.content@,
            url: self.url@,
            related_links: self.related_links.deep_view(),
        }
    }
}

impl DeepView for DocPage {
    type V = DocPageView;

    open spec fn deep_view(&self) -> DocPageView {
        self.view()
    }
}

/// Crawl configuration, fixed at orchestrator construction.
#[derive(Clone, Copy, PartialEq, Eq, Structural)]
pub struct CrawlerConfig {
    /// Retained for callers; retries are bounded by the elapsed-time budget
    /// below, not by an attempt count.
    pub max_retries: u32,
    /// The most fetches in flight at once during a fan-out.
    pub concurrency: usize,
    /// Per-request budget in milliseconds: the request timeout and the
    /// retry schedule's give-up ceiling.
    pub timeout_ms: u64,
}

/// Why a crawl invocation failed.
#[derive(Clone, Copy, Debug, PartialEq, Eq, Structural)]
pub enum CrawlError {
    /// The seed page could not be retrieved.
    FetchFailed,
    /// The seed URL does not parse as an absolute URL.
    InvalidUrl,
}

impl CrawlError {
    /// A short description of the failure.
    pub fn message(&self) -> (r: &'static str)
        ensures
            *self is FetchFailed ==> r@ == "failed to fetch the seed page"@,
            *self is InvalidUrl ==> r@ == "the seed URL is not a valid absolute URL"@,
    {
        match self {
            CrawlError::FetchFailed => "failed to fetch the seed page",
            CrawlError::InvalidUrl => "the seed URL is not a valid absolute URL",
        }
    }
}

/// The host every related link must have.
pub open spec fn crawl_domain() -> Seq<char> {
    "developer.apple.com"@
}

/// The text of an optional extraction result: a missing element degrades
/// to the empty text, never to an error.
pub open spec fn opt_text(o: Option<Seq<char>>) -> Seq<char> {
    match o {
        Some(s) => s,
        None => Seq::empty(),
    }
}

/// The in-domain resolutions of `hrefs[i..]` against `base`, in order:
/// each href that resolves to an absolute URL whose host is the crawl
/// domain contributes that URL; the rest contribute nothing.
pub open spec fn links_from(hrefs: Seq<Seq<char>>, base: Seq<char>, i: int) -> Seq<Seq<char>>
    decreases hrefs.len() - i,
{
    if i < 0 || i >= hrefs.len() {
        Seq::empty()
    } else {
        let rest = links_from(hrefs, base, i + 1);
        match join_of(base, hrefs[i]) {
            Some(u) => if host_of(u) == Some(crawl_domain()) {
                seq![u] + rest
            } else {
                rest
            },
            None => rest,
        }
    }
}

/// The related links a page with anchors `hrefs` contributes, resolved
/// against `base`.
pub open spec fn in_domain_links(hrefs: Seq<Seq<char>>, base: Seq<char>) -> Seq<Seq<char>> {
    links_from(hrefs, base, 0)
}

/// The record extracted from the page text `html` fetched at `url`.
pub open spec fn page_of(html: Seq<char>, url: Seq<char>) -> DocPageView {
    DocPageView {
        title: normalized(opt_text(h1_text_of(html))),
        content: normalized(opt_text(article_text_of(html))),
        url: url,
        related_links: in_domain_links(hrefs_of(html), url),
    }
}

/// Every link a page contributes has the crawl domain as its host.
pub proof fn lemma_links_in_domain(hrefs: Seq<Seq<char>>, base: Seq<char>, i: int)
    ensures
        forall|m: int|
            0 <= m < links_from(hrefs, base, i).len() ==> host_of(
                #[trigger] links_from(hrefs, base, i)[m],
            ) == Some(crawl_domain()),
    decreases hrefs.len() - i,
{
    if 0 <= i < hrefs.len() {
        lemma_links_in_domain(hrefs, base, i + 1);
    }
}

/// A link whose resolved host is not the crawl domain never appears in a
/// page's related links.
pub proof fn lemma_no_foreign_link(html: Seq<char>, url: Seq<char>, link: Seq<char>)
    requires
        host_of(link) != Some(crawl_domain()),
    ensures
        !page_of(html, url).related_links.contains(link),
{
    lemma_links_in_domain(hrefs_of(html), url, 0);
    if page_of(html, url).related_links.contains(link) {
        let m = choose|m: int|
            0 <= m < page_of(html, url).related_links.len() && page_of(
                html,
                url,
            ).related_links[m] == link;
    }
}

/// Extract a page record from the page text `html` fetched at `url`: the
/// normalized first heading, the normalized first article text, and the
/// in-domain outbound links in document order. Missing elements degrade to
/// empty values; only a source URL that does not parse is an error.
pub fn extract_page(html: &str, url: &str) -> (r: Result<DocPage, CrawlError>)
    ensures
        r is Ok <==> is_valid_url(url@),
        r is Err ==> r->Err_0 == CrawlError::InvalidUrl,
        r is Ok ==> r->Ok_0@ == page_of(html@, url@),
{
    if !parse_ok(url) {
        return Err(CrawlError::InvalidUrl);
    }
    let title = match first_h1_text(html) {
        Some(t) => clean_text(t.as_str()),
        None => String::new(),
    };
    let content = match first_article_text(html) {
        Some(t) => clean_text(t.as_str()),
        None => String::new(),
    };
    assert(normalized(Seq::<char>::empty()) =~= Seq::<char>::empty());
    let hrefs = anchor_hrefs(html);
    let domain = String::from_str("developer.apple.com");
    let mut links: Vec<String> = Vec::new();
    let n = hrefs.len();
    let mut i: usize = 0;
    while i < n
        invariant
            n == hrefs.deep_view().len(),
            i <= n,
            domain@ == crawl_domain(),
            in_domain_links(hrefs.deep_view(), url@) == links.deep_view() + links_from(
                hrefs.deep_view(),
                url@,
                i as int,
            ),
        decreases n - i,
    {
        let ghost links0 = links.deep_view();
        match resolve_href(url, hrefs[i].as_str()) {
            Some(joined) => {
                match url_host(joined.as_str()) {
                    Some(h) => {
                        if h.eq(&domain) {
                            assert(host_of(joined@) == Some(crawl_domain()));
                            links.push(joined);
                            assert(links.deep_view() =~= links0.push(
                                links_from(hrefs.deep_view(), url@, i as int)[0],
                            ));
                            assert(links0.push(links_from(hrefs.deep_view(), url@, i as int)[0])
                                + links_from(hrefs.deep_view(), url@, i as int + 1) =~= links0
                                + links_from(hrefs.deep_view(), url@, i as int));
                        } else {
                            assert(host_of(joined@) != Some(crawl_domain()));
                        }
                    },
                    None => {
                        assert(host_of(joined@) is None);
                    },
                }
            },
            None => {},
        }
        i = i + 1;
    }
    assert(links.deep_view() =~= in_domain_links(hrefs.deep_view(), url@));
    let page = DocPage { title, content, url: url.to_owned(), related_links: links };
    assert(page@ =~= page_of(html@, url@));
    Ok(page)
}

/// The links of `links[i..]` whose claims are granted when each is claimed
/// once, in order, against the claimed-set `s`: a link already in `s`, or
/// seen earlier in the run, is skipped.
pub open spec fn fanout_claimed(s: Set<Seq<char>>, links: Seq<Seq<char>>, i: int) -> Seq<Seq<char>>
    decreases links.len() - i,
{
    if i < 0 || i >= links.len() {
        Seq::empty()
    } else if s.contains(links[i]) {
        fanout_claimed(s, links, i + 1)
    } else {
        seq![links[i]] + fanout_claimed(s.insert(links[i]), links, i + 1)
    }
}

/// The pages the fan-out contributes: for each claimed link, in order, the
/// page extracted from its fetched text. A link whose fetch failed (no
/// text) or whose extraction failed contributes nothing.
pub open spec fn descendant_pages(
    claimed: Seq<Seq<char>>,
    htmls: Seq<Option<Seq<char>>>,
    i: int,
) -> Seq<DocPageView>
    decreases claimed.len() - i,
{
    if i < 0 || i >= claimed.len() {
        Seq::empty()
    } else {
        let rest = descendant_pages(claimed, htmls, i + 1);
        if 0 <= i < htmls.len() && htmls[i] is Some && is_valid_url(claimed[i]) {
            seq![page_of(htmls[i]->0, claimed[i])] + rest
        } else {
            rest
        }
    }
}

/// What one crawl invocation yields and how it moves the claimed-set:
/// `pre` and `post` are the visited registry before and after, `seed_html`
/// the seed fetch's outcome, `link_htmls` the fan-out fetches' outcomes in
/// claim order, and `r` the invocation's result.
pub open spec fn crawl_post(
    pre: Set<Seq<char>>,
    post: Set<Seq<char>>,
    url: Seq<char>,
    recursive: bool,
    seed_html: Option<Seq<char>>,
    link_htmls: Seq<Option<Seq<char>>>,
    r: Result<Seq<DocPageView>, CrawlError>,
) -> bool {
    if pre.contains(url) {
        // Idempotent re-entry: the seed was already claimed this session.
        &&& post == pre
        &&& r is Ok
        &&& r->Ok_0 == Seq::<DocPageView>::empty()
    } else if seed_html is None {
        // The seed is load-bearing: a failed seed fetch fails the crawl.
        &&& post == pre.insert(url)
        &&& r == Result::<Seq<DocPageView>, CrawlError>::Err(CrawlError::FetchFailed)
    } else if !is_valid_url(url) {
        &&& post == pre.insert(url)
        &&& r == Result::<Seq<DocPageView>, CrawlError>::Err(CrawlError::InvalidUrl)
    } else {
        let seed = page_of(seed_html->0, url);
        if !recursive {
            &&& post == pre.insert(url)
            &&& r is Ok
            &&& r->Ok_0 == seq![seed]
        } else {
            let claimed = fanout_claimed(pre.insert(url), seed.related_links, 0);
            &&& post == pre.insert(url).union(seed.related_links.to_set())
            &&& r is Ok
            &&& r->Ok_0 == seq![seed] + descendant_pages(claimed, link_htmls, 0)
        }
    }
}

/// The crawl orchestrator: the configuration and the visited registry of
/// one crawl session.
pub struct Crawler {
    pub config: CrawlerConfig,
    pub visited: VisitedRegistry,
}

impl Crawler {
    /// A crawler with the given configuration and nothing visited.
    pub fn new(config: CrawlerConfig) -> (r: Self)
        ensures
            r.config == config,
            r.visited@ == Set::<Seq<char>>::empty(),
    {
        Crawler { config, visited: VisitedRegistry::new() }
    }

    /// Claim every link of a fan-out batch, in order, and return the links
    /// whose claims were granted: the candidates the fan-out will fetch.
    /// All candidates are enumerated before any fetch begins; the
    /// concurrency limit only throttles the fetches.
    pub fn plan_fanout(&mut self, links: &Vec<String>) -> (r: Vec<String>)
        ensures
            r.deep_view() == fanout_claimed(old(self).visited@, links.deep_view(), 0),
            final(self).visited@ == old(self).visited@.union(links.deep_view().to_set()),
            final(self).config == old(self).config,
    {
        let mut claimed: Vec<String> = Vec::new();
        let n = links.len();
        let mut i: usize = 0;
        while i < n
            invariant
                n == links.deep_view().len(),
                i <= n,
                self.config == old(self).config,
                self.visited@ == old(self).visited@.union(
                    links.deep_view().take(i as int).to_set(),
                ),
                fanout_claimed(old(self).visited@, links.deep_view(), 0) == claimed.deep_view()
                    + fanout_claimed(self.visited@, links.deep_view(), i as int),
            decreases n - i,
        {
            let ghost pre_set = self.visited@;
            let ghost c0 = claimed.deep_view();
            let granted = self.visited.try_claim(&links[i]);
            if granted {
                claimed.push(links[i].clone());
            }
            proof {
                let dv = links.deep_view();
                let l = dv[i as int];
                assert(dv.take(i as int + 1) =~= dv.take(i as int).push(l));
                dv.take(i as int).lemma_push_to_set_commute(l);
                assert(self.visited@ =~= old(self).visited@.union(
                    dv.take(i as int + 1).to_set(),
                ));
                if granted {
                    assert(claimed.deep_view() =~= c0.push(l));
                    assert(c0.push(l) + fanout_claimed(pre_set.insert(l), dv, i as int + 1) =~= c0
                        + fanout_claimed(pre_set, dv, i as int));
                } else {
                    assert(pre_set.insert(l) =~= pre_set);
                }
            }
            i = i + 1;
        }
        proof {
            assert(links.deep_view().take(n as int) =~= links.deep_view());
            assert(claimed.deep_view() + fanout_claimed(self.visited@, links.deep_view(), n as int)
                =~= claimed.deep_view());
        }
        claimed
    }

    /// One crawl invocation, its fetches' outcomes given as values: claim
    /// the seed (an already-claimed seed yields the empty result), extract
    /// the seed page from its text, and, if recursive, claim each of its
    /// related links and extract a page from each claimed link's text. The
    /// seed page always comes first; a failed seed fetch fails the
    /// invocation, a failed link fetch only loses that link's page.
    ///
    /// The fan-out goes exactly one level deep: a claimed link's own links
    /// appear in its record but are not followed further. Every claim still
    /// goes through the session's registry, so repeated invocations never
    /// fetch a page twice.
    pub fn crawl_url(
        &mut self,
        url: &str,
        recursive: bool,
        seed_html: Option<&String>,
        link_htmls: &Vec<Option<String>>,
    ) -> (r: Result<Vec<DocPage>, CrawlError>)
        ensures
            final(self).config == old(self).config,
            crawl_post(
                old(self).visited@,
                final(self).visited@,
                url@,
                recursive,
                seed_html.deep_view(),
                link_htmls.deep_view(),
                res_view(r),
            ),
    {
        let owned_url = url.to_owned();
        let granted = self.visited.try_claim(&owned_url);
        if !granted {
            let empty: Vec<DocPage> = Vec::new();
            proof {
                assert(self.visited@ =~= old(self).visited@);
                assert(empty.deep_view() =~= Seq::<DocPageView>::empty());
            }
            return Ok(empty);
        }
        let html = match seed_html {
            None => {
                return Err(CrawlError::FetchFailed);
            },
            Some(h) => h,
        };
        let seed_page = match extract_page(html.as_str(), url) {
            Err(e) => {
                return Err(e);
            },
            Ok(p) => p,
        };
        let mut pages: Vec<DocPage> = Vec::new();
        if !recursive {
            pages.push(seed_page);
            proof {
                assert(pages.deep_view() =~= seq![page_of(html@, url@)]);
            }
            return Ok(pages);
        }
        let claimed = self.plan_fanout(&seed_page.related_links);
        let ghost claimed_dv = claimed.deep_view();
        let ghost htmls_dv = link_htmls.deep_view();
        let ghost seed_v = page_of(html@, url@);
        let ghost vis_after = self.visited@;
        pages.push(seed_page);
        proof {
            assert(pages.deep_view() =~= seq![seed_v]);
        }
        let n = claimed.len();
        let mut i: usize = 0;
        while i < n
            invariant
                n == claimed_dv.len(),
                i <= n,
                claimed_dv == claimed.deep_view(),
                htmls_dv == link_htmls.deep_view(),
                self.config == old(self).config,
                self.visited@ == vis_after,
                pages.deep_view() + descendant_pages(claimed_dv, htmls_dv, i as int) == seq![
                    seed_v,
                ] + descendant_pages(claimed_dv, htmls_dv, 0),
            decreases n - i,
        {
            let ghost p0 = pages.deep_view();
            if i < link_htmls.len() {
                match &link_htmls[i] {
                    Some(h) => {
                        match extract_page(h.as_str(), claimed[i].as_str()) {
                            Ok(p) => {
                                pages.push(p);
                                proof {
                                    assert(pages.deep_view() =~= p0.push(
                                        page_of(htmls_dv[i as int]->0, claimed_dv[i as int]),
                                    ));
                                    assert(p0.push(page_of(htmls_dv[i as int]->0, claimed_dv[i as int]))
                                        + descendant_pages(claimed_dv, htmls_dv, i as int + 1) =~= p0
                                        + descendant_pages(claimed_dv, htmls_dv, i as int));
                                }
                            },
                            Err(_) => {},
                        }
                    },
                    None => {},
                }
            }
            i = i + 1;
        }
        proof {
            assert(descendant_pages(claimed_dv, htmls_dv, n as int)
                =~= Seq::<DocPageView>::empty());
            assert(pages.deep_view() =~= seq![seed_v] + descendant_pages(claimed_dv, htmls_dv, 0));
        }
        Ok(pages)
    }
}

/// The mathematical value of a crawl result.
pub open spec fn res_view(r: Result<Vec<DocPage>, CrawlError>) -> Result<Seq<DocPageView>, CrawlError> {
    match r {
        Ok(v) => Ok(v.deep_view()),
        Err(e) => Err(e),
    }
}

/// The search-results URL for a keyword: the domain's search endpoint with
/// the keyword percent-encoded as the query.
pub open spec fn search_url_of(keyword: Seq<char>) -> Seq<char> {
    "https://developer.apple.com/search/index.php?q="@ + encoded(keyword)
}

/// Build the search-results URL for a keyword.
pub fn search_url(keyword: &str) -> (r: String)
    ensures
        r@ == search_url_of(keyword@),
{
    let mut u = String::from_str("https://developer.apple.com/search/index.php?q=");
    let e = encode_component(keyword);
    u.append(e.as_str());
    u
}

impl Crawler {
    /// Crawl the search-results page for a keyword: exactly a crawl of the
    /// keyword's search URL.
    pub fn search_and_crawl(
        &mut self,
        keyword: &str,
        recursive: bool,
        seed_html: Option<&String>,
        link_htmls: &Vec<Option<String>>,
    ) -> (r: Result<Vec<DocPage>, CrawlError>)
        ensures
            final(self).config == old(self).config,
            crawl_post(
                old(self).visited@,
                final(self).visited@,
                search_url_of(keyword@),
                recursive,
                seed_html.deep_view(),
                link_htmls.deep_view(),
                res_view(r),
            ),
    {
        let url = search_url(keyword);
        self.crawl_url(url.as_str(), recursive, seed_html, link_htmls)
    }
}

/// The fan-out never grants one candidate twice: the claimed links are
/// distinct, drawn from the candidates, and none was claimed before.
pub proof fn lemma_fanout_claimed_props(s: Set<Seq<char>>, links: Seq<Seq<char>>, i: int)
    ensures
        fanout_claimed(s, links, i).no_duplicates(),
        forall|m: int|
            0 <= m < fanout_claimed(s, links, i).len() ==> links.contains(
                #[trigger] fanout_claimed(s, links, i)[m],
            ) && !s.contains(fanout_claimed(s, links, i)[m]),
    decreases links.len() - i,
{
    if i < 0 || i >= links.len() {
    } else if s.contains(links[i]) {
        lemma_fanout_claimed_props(s, links, i + 1);
    } else {
        let l = links[i];
        let rest = fanout_claimed(s.insert(l), links, i + 1);
        let whole = fanout_claimed(s, links, i);
        lemma_fanout_claimed_props(s.insert(l), links, i + 1);
        assert(links[i] == l && 0 <= i < links.len());
        assert(links.contains(l));
        assert(whole[0] == l);
        assert(forall|m: int| 0 <= m < rest.len() ==> whole[m + 1] == rest[m]);
        assert forall|m: int, k: int|
            0 <= m < k < whole.len() implies whole[m] != whole[k] by {
            if m == 0 {
                assert(whole[k] == rest[k - 1]);
                assert(!s.insert(l).contains(rest[k - 1]));
            } else {
                assert(whole[m] == rest[m - 1] && whole[k] == rest[k - 1]);
            }
        }
    }
}

/// At most one page per claimed link comes out of a fan-out.
proof fn lemma_descendants_len(claimed: Seq<Seq<char>>, htmls: Seq<Option<Seq<char>>>, i: int)
    requires
        0 <= i <= claimed.len(),
    ensures
        descendant_pages(claimed, htmls, i).len() <= claimed.len() - i,
    decreases claimed.len() - i,
{
    if 0 <= i < claimed.len() {
        lemma_descendants_len(claimed, htmls, i + 1);
    }
}

/// A recursive crawl only ever fetches in-domain links: every link the
/// fan-out claims comes from the seed page's related links, and every one
/// of those has the crawl domain as its host. A link whose resolved host
/// is not the crawl domain is never fetched.
pub proof fn lemma_fetched_links_in_domain(
    visited: Set<Seq<char>>,
    html: Seq<char>,
    url: Seq<char>,
)
    ensures
        forall|m: int|
            0 <= m < fanout_claimed(visited, page_of(html, url).related_links, 0).len()
                ==> host_of(
                #[trigger] fanout_claimed(visited, page_of(html, url).related_links, 0)[m],
            ) == Some(crawl_domain()),
{
    let links = page_of(html, url).related_links;
    let claimed = fanout_claimed(visited, links, 0);
    lemma_fanout_claimed_props(visited, links, 0);
    lemma_links_in_domain(hrefs_of(html), url, 0);
    assert forall|m: int| 0 <= m < claimed.len() implies host_of(claimed[m]) == Some(
        crawl_domain(),
    ) by {
        assert(links.contains(claimed[m]));
        let k = choose|k: int| 0 <= k < links.len() && links[k] == claimed[m];
        assert(host_of(links[k]) == Some(crawl_domain()));
    }
}

/// A non-recursive crawl yields at most one page: the seed page exactly
/// when the seed was not already claimed this session.
pub proof fn lemma_nonrecursive_crawl(
    pre: Set<Seq<char>>,
    post: Set<Seq<char>>,
    url: Seq<char>,
    seed_html: Option<Seq<char>>,
    link_htmls: Seq<Option<Seq<char>>>,
    r: Result<Seq<DocPageView>, CrawlError>,
)
    requires
        crawl_post(pre, post, url, false, seed_html, link_htmls, r),
        r is Ok,
    ensures
        r->Ok_0.len() <= 1,
        r->Ok_0.len() == 1 <==> !pre.contains(url),
        r->Ok_0.len() == 1 ==> r->Ok_0[0] == page_of(seed_html->0, url),
{
}

/// A successful recursive crawl places the seed page first and yields at
/// most one page more than the seed page has distinct related links.
pub proof fn lemma_recursive_crawl_shape(
    pre: Set<Seq<char>>,
    post: Set<Seq<char>>,
    url: Seq<char>,
    seed_html: Option<Seq<char>>,
    link_htmls: Seq<Option<Seq<char>>>,
    r: Result<Seq<DocPageView>, CrawlError>,
)
    requires
        crawl_post(pre, post, url, true, seed_html, link_htmls, r),
        !pre.contains(url),
        seed_html is Some,
        is_valid_url(url),
    ensures
        r is Ok,
        r->Ok_0.len() >= 1,
        r->Ok_0[0] == page_of(seed_html->0, url),
        r->Ok_0.len() <= 1 + page_of(seed_html->0, url).related_links.to_set().len(),
{
    let seed = page_of(seed_html->0, url);
    let claimed = fanout_claimed(pre.insert(url), seed.related_links, 0);
    lemma_fanout_claimed_props(pre.insert(url), seed.related_links, 0);
    lemma_descendants_len(claimed, link_htmls, 0);
    claimed.unique_seq_to_set();
    assert(claimed.to_set().subset_of(seed.related_links.to_set())) by {
        assert forall|x: Seq<char>| claimed.to_set().contains(x) implies seed.related_links.to_set().contains(x) by {
            let m = choose|m: int| 0 <= m < claimed.len() && claimed[m] == x;
            assert(seed.related_links.contains(x));
        }
    }
    vstd::seq_lib::seq_to_set_is_finite(seed.related_links);
    vstd::set_lib::lemma_len_subset(claimed.to_set(), seed.related_links.to_set());
}

} // verus!
