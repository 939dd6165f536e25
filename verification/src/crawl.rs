//! The crawl orchestrator as a state machine: each step takes one event
//! (a completed delay, a fetched page, a storage acknowledgement) and
//! yields the one action to perform next. The driver performs the action
//! and feeds the outcome back.
//!
//! The contract ties every decision to the fetched markup through
//! `dom_of`: the listing's unrestricted story links become the pending
//! queue, the story id is parsed from the resolved link, the insert
//! carries exactly the page's info and metadata, and the emitted chapters
//! are the chapter bodies' texts in document order.
//!
//! Politeness is a contract, not a habit: a fetch is requested only as the
//! immediate response to a completed delay, and every requested delay lies
//! in the fixed range. The ghost counters make the global form provable:
//! in any run, no more fetches than sleeps are ever requested.

use vstd::prelude::*;

use crate::errors::CrawlError;
use crate::extract::{
    chapter_nodes, entry_is_restricted, entry_story_link, find_download_url, fixed_selectors_ok,
    get_story_info, get_story_meta, listing_entries, next_page_url, sel_of, spec_download_href,
    spec_entry_link, spec_entry_restricted, spec_has_name, spec_info_matches, spec_listing_links,
    spec_meta_matches, spec_next_link, CHAPTERS_SELECTOR, LIST_SELECTOR,
};
use crate::models::{Info, Meta};
use crate::page::{dom_of, spec_text_of, Page, PageNode};
use crate::pipeline::ChapterLine;
use crate::strings::seq_views;
use crate::url::{
    parse_url, rebuild_url, spec_resolve, spec_story_id, spec_url_matches, spec_url_opt_view,
    spec_url_text, story_id_from_path, UrlParts,
};

verus! {

/// What the driver reports to the machine.
pub enum CrawlEvent {
    /// Begin the crawl.
    Start,
    /// The requested delay has elapsed.
    Slept,
    /// The requested fetch returned this markup.
    Fetched(String),
    /// The story transaction is open.
    TxnReady,
    /// Whether the story already exists in storage.
    ExistsResult(bool),
    /// The story row was inserted.
    Inserted,
    /// The chapter record was queued.
    ChapterSent,
    /// The story transaction committed.
    Committed,
}

/// What the machine asks the driver to do next.
pub enum CrawlAction {
    /// Pause this many seconds before anything else.
    Sleep(u64),
    /// Fetch this absolute URL.
    Fetch(String),
    /// Open a storage transaction for this story id.
    BeginTxn(usize),
    /// Ask storage whether the story exists, inside the transaction.
    CheckExists(usize),
    /// Insert the story row, inside the transaction.
    InsertStory(usize, Info, Meta),
    /// Queue one chapter record for indexing.
    EmitChapter(ChapterLine),
    /// Commit the story's transaction.
    CommitStory(usize),
    /// The crawl is complete.
    Done,
    /// The crawl failed; roll back any open transaction and stop.
    Fail(CrawlError),
}

/// Where the machine stands.
#[derive(Debug, Clone, Copy, PartialEq, Eq, Structural)]
pub enum CrawlPhase {
    Idle,
    PageSleeping,
    PageFetching,
    TxnOpening,
    ExistsChecking,
    StorySleeping,
    StoryFetching,
    DownloadSleeping,
    DownloadFetching,
    Inserting,
    Emitting,
    Committing,
    Terminated,
    Failed,
}

/// The story being worked on.
pub struct StoryJob {
    pub id: usize,
    pub url: UrlParts,
    pub download_url: Option<UrlParts>,
    pub chapters: Vec<ChapterLine>,
    pub next_chapter: usize,
}

pub struct Crawler {
    pub phase: CrawlPhase,
    pub base: UrlParts,
    pub page_url: UrlParts,
    /// 1-based index of the page being crawled.
    pub page_index: usize,
    /// Story links of the current page, adult flag appended, in order.
    pub pending: Vec<String>,
    /// Cursor into `pending`.
    pub next_story: usize,
    pub next_page: Option<UrlParts>,
    pub story: Option<StoryJob>,
    /// How many fetches have been requested.
    pub fetches: Ghost<int>,
    /// How many delays have been requested.
    pub sleeps: Ghost<int>,
}

impl Crawler {
    /// The machine is waiting for a delay to elapse.
    pub open spec fn sleeping(self) -> bool {
        self.phase is PageSleeping || self.phase is StorySleeping
            || self.phase is DownloadSleeping
    }

    /// The chapters of the current story are dense and correctly keyed.
    pub open spec fn story_ok(self) -> bool {
        match self.story {
            Some(j) => {
                &&& j.next_chapter <= j.chapters@.len()
                &&& forall|k: int|
                    0 <= k < j.chapters@.len() ==> (#[trigger] j.chapters@[k]).story_id == j.id
                        && j.chapters@[k].chapter_id == k
            },
            None => true,
        }
    }

    /// What failing requires of the state: the part of the invariant that
    /// holds even mid-transition.
    pub open spec fn core_inv(self) -> bool {
        &&& self.next_story <= self.pending@.len()
        &&& self.story_ok()
        &&& self.fetches@ >= 0
        &&& self.fetches@ <= self.sleeps@ <= self.fetches@ + 1
    }

    /// The machine's invariant. The counter clauses carry the politeness
    /// law: a delay is requested before each fetch, so fetches never
    /// outnumber sleeps.
    pub open spec fn inv(self) -> bool {
        &&& self.next_story <= self.pending@.len()
        &&& self.story_ok()
        &&& self.fetches@ >= 0
        &&& if self.sleeping() {
            self.sleeps@ == self.fetches@ + 1
        } else if self.phase is Failed {
            self.fetches@ <= self.sleeps@ <= self.fetches@ + 1
        } else {
            self.sleeps@ == self.fetches@
        }
        &&& ((self.phase is TxnOpening || self.phase is ExistsChecking
            || self.phase is StorySleeping || self.phase is StoryFetching
            || self.phase is DownloadSleeping || self.phase is DownloadFetching
            || self.phase is Inserting || self.phase is Emitting) ==> self.story is Some)
        &&& (self.phase is DownloadSleeping ==> self.story->Some_0.download_url is Some)
        &&& (self.phase is Emitting ==> self.story is Some && self.story->Some_0.next_chapter
            >= 1)
    }

    /// Action accounting: the ghost counters track exactly the sleeps and
    /// fetches requested, and a requested delay is in the politeness range.
    pub open spec fn action_ok(pre: Crawler, post: Crawler, a: CrawlAction) -> bool {
        &&& post.fetches@ == pre.fetches@ + (if a matches CrawlAction::Fetch(_) {
            1int
        } else {
            0int
        })
        &&& post.sleeps@ == pre.sleeps@ + (if a matches CrawlAction::Sleep(_) {
            1int
        } else {
            0int
        })
        &&& (a matches CrawlAction::Sleep(d) ==> 3 <= d < 8)
        &&& (a matches CrawlAction::Fetch(_) ==> pre.sleeping())
        &&& (a matches CrawlAction::Fail(_) ==> post.phase is Failed)
        &&& (a matches CrawlAction::Done ==> post.phase is Terminated
            && post.next_page is None && post.next_story == post.pending@.len())
        &&& (a matches CrawlAction::EmitChapter(c) ==> (pre.phase is Inserting
            || pre.phase is Emitting) && (post.story matches Some(j) && c.story_id == j.id
            && c.chapter_id + 1 == j.next_chapter && j.chapters@[c.chapter_id as int] == c))
    }

    /// The crawl bookkeeping a step leaves untouched.
    pub open spec fn same_work(a: Crawler, b: Crawler) -> bool {
        &&& a.base == b.base
        &&& a.page_url == b.page_url
        &&& a.page_index == b.page_index
        &&& a.pending == b.pending
        &&& a.next_story == b.next_story
        &&& a.next_page == b.next_page
        &&& a.story == b.story
    }

    /// The URL a completed delay leads the machine to fetch: the current
    /// listing page, the current story's page, or its download page.
    pub open spec fn spec_fetch_target(pre: Crawler) -> Seq<char> {
        if pre.phase is PageSleeping {
            spec_url_text(pre.page_url)
        } else if pre.phase is StorySleeping {
            spec_url_text(pre.story->Some_0.url)
        } else {
            spec_url_text(pre.story->Some_0.download_url->Some_0)
        }
    }

    /// `chs` are exactly the chapter records of the download page: one per
    /// chapter body, dense, 0-based, in document order, each content the
    /// body's text.
    pub open spec fn spec_chapters_match(
        nodes: Seq<PageNode>,
        roots: Seq<usize>,
        id: usize,
        chs: Seq<ChapterLine>,
    ) -> bool {
        let els = crate::engine::spec_find(nodes, sel_of(CHAPTERS_SELECTOR), roots);
        &&& chs.len() == els.len()
        &&& forall|k: int|
            0 <= k < els.len() ==> (#[trigger] chs[k]).story_id == id && chs[k].chapter_id == k
                && chs[k].chapter_content@ == spec_text_of(nodes, els[k] as int)
    }

    /// What moving on after a commit (or a fresh listing) yields: the next
    /// pending link is resolved against the base and its id parsed, and the
    /// next story begins; with no link left, the next page is taken or the
    /// crawl is done. A link that does not resolve to an id is fatal.
    pub open spec fn spec_advanced(
        base: UrlParts,
        pending: Seq<Seq<char>>,
        at: int,
        nextp: Option<(Seq<char>, Seq<char>, Seq<char>)>,
        post: Crawler,
        a: CrawlAction,
    ) -> bool {
        if at < pending.len() {
            match spec_resolve(base, pending[at]) {
                Some(r) => match spec_story_id(r.2) {
                    Some(id) => {
                        &&& (a matches CrawlAction::BeginTxn(id2) && id2 as int == id)
                        &&& (post.story matches Some(j) && j.id as int == id && spec_url_matches(
                            j.url,
                            r,
                        ) && j.chapters@.len() == 0 && j.next_chapter == 0
                            && j.download_url is None)
                        &&& post.next_story == at + 1
                        &&& seq_views(post.pending@) == pending
                        &&& spec_url_opt_view(post.next_page) == nextp
                        &&& post.phase is TxnOpening
                    },
                    None => a matches CrawlAction::Fail(_),
                },
                None => a matches CrawlAction::Fail(_),
            }
        } else {
            match nextp {
                Some(n) => a matches CrawlAction::Sleep(_) && spec_url_matches(post.page_url, n)
                    && post.next_page is None && post.phase is PageSleeping,
                None => a matches CrawlAction::Done,
            }
        }
    }

    /// What handling a fetched listing yields: the pending queue becomes
    /// the unrestricted entries' links, the next-page link is resolved, and
    /// the first story (or the page advance) begins; an entry without a
    /// link, or a next link that does not resolve, is fatal.
    pub open spec fn listing_step_ok(
        pre: Crawler,
        post: Crawler,
        markup: Seq<char>,
        a: CrawlAction,
    ) -> bool {
        let nodes = dom_of(markup).0;
        let roots = dom_of(markup).1;
        let entries = crate::engine::spec_find(nodes, sel_of(LIST_SELECTOR), roots);
        let links = spec_listing_links(nodes, entries, 0);
        let next = spec_next_link(nodes, roots);
        let nextp = match next {
            Some(l) => spec_resolve(pre.base, l),
            None => None,
        };
        let next_ok = match next {
            Some(l) => spec_resolve(pre.base, l) is Some,
            None => true,
        };
        if fixed_selectors_ok() {
            if links is Some && next_ok {
                &&& seq_views(post.pending@) == links->Some_0
                &&& Self::spec_advanced(pre.base, links->Some_0, 0, nextp, post, a)
            } else {
                a matches CrawlAction::Fail(_)
            }
        } else {
            true
        }
    }

    /// What handling a fetched story page yields: the download link is
    /// taken and resolved against the base, and the download delay begins;
    /// a page without a resolvable download link is fatal.
    pub open spec fn story_step_ok(
        pre: Crawler,
        post: Crawler,
        markup: Seq<char>,
        a: CrawlAction,
    ) -> bool {
        let nodes = dom_of(markup).0;
        let roots = dom_of(markup).1;
        if fixed_selectors_ok() {
            match spec_download_href(nodes, roots) {
                Some(h) => match spec_resolve(pre.base, h) {
                    Some(r) => {
                        &&& a matches CrawlAction::Sleep(_)
                        &&& post.phase is DownloadSleeping
                        &&& (post.story matches Some(j) && j.id == pre.story->Some_0.id && j.url
                            == pre.story->Some_0.url && (j.download_url matches Some(u)
                            && spec_url_matches(u, r)))
                    },
                    None => a matches CrawlAction::Fail(_),
                },
                None => a matches CrawlAction::Fail(_),
            }
        } else {
            true
        }
    }

    /// What handling a fetched download page yields: the insert is asked
    /// for with exactly the page's info and metadata, and the stored
    /// chapters are the chapter bodies' texts; a page without a story name
    /// is fatal.
    pub open spec fn download_step_ok(
        pre: Crawler,
        post: Crawler,
        markup: Seq<char>,
        a: CrawlAction,
    ) -> bool {
        let nodes = dom_of(markup).0;
        let roots = dom_of(markup).1;
        if fixed_selectors_ok() {
            if spec_has_name(nodes, roots) {
                &&& (a matches CrawlAction::InsertStory(id, info, meta) && id
                    == pre.story->Some_0.id && spec_info_matches(nodes, roots, info)
                    && spec_meta_matches(nodes, roots, meta))
                &&& post.phase is Inserting
                &&& (post.story matches Some(j) && j.id == pre.story->Some_0.id
                    && Self::spec_chapters_match(nodes, roots, j.id, j.chapters@)
                    && j.next_chapter == 0)
            } else {
                a matches CrawlAction::Fail(_)
            }
        } else {
            true
        }
    }

    /// What a completed insert yields: the first chapter is emitted, or a
    /// story without chapters commits at once.
    pub open spec fn inserted_step_ok(pre: Crawler, post: Crawler, a: CrawlAction) -> bool {
        let j = pre.story->Some_0;
        if j.chapters@.len() == 0 {
            &&& (a matches CrawlAction::CommitStory(id) && id == j.id)
            &&& post.story is None
            &&& post.phase is Committing
        } else {
            &&& (a matches CrawlAction::EmitChapter(c) && c == j.chapters@[0])
            &&& (post.story matches Some(j2) && j2.id == j.id && j2.chapters == j.chapters
                && j2.next_chapter == 1)
            &&& post.phase is Emitting
        }
    }

    /// What a queued chapter yields: the next chapter in order, or, after
    /// the last one, the story's commit.
    pub open spec fn emitting_step_ok(pre: Crawler, post: Crawler, a: CrawlAction) -> bool {
        let j = pre.story->Some_0;
        if j.next_chapter < j.chapters@.len() {
            &&& (a matches CrawlAction::EmitChapter(c) && c == j.chapters@[j.next_chapter as int])
            &&& (post.story matches Some(j2) && j2.id == j.id && j2.chapters == j.chapters
                && j2.next_chapter == j.next_chapter + 1)
            &&& post.phase is Emitting
        } else {
            &&& (a matches CrawlAction::CommitStory(id) && id == j.id)
            &&& post.story is None
            &&& post.phase is Committing
        }
    }

    /// A fresh machine, aimed at the first listing page.
    pub fn new(start: UrlParts) -> (r: Crawler)
        ensures
            r.inv(),
            r.phase is Idle,
            r.base == start,
            r.page_url == start,
            r.fetches@ == 0,
            r.sleeps@ == 0,
    {
        let base = UrlParts {
            scheme: start.scheme.clone(),
            authority: start.authority.clone(),
            path_and_query: start.path_and_query.clone(),
        };
        Crawler {
            phase: CrawlPhase::Idle,
            base,
            page_url: start,
            page_index: 1,
            pending: Vec::new(),
            next_story: 0,
            next_page: None,
            story: None,
            fetches: Ghost(0int),
            sleeps: Ghost(0int),
        }
    }

    /// Relies on rand's `random_range` to draw a uniform delay within the
    /// politeness window of 3 to 8 seconds.
    #[verifier::external_body]
    fn draw_delay_secs() -> (r: u64)
        ensures
            3 <= r < 8,
    {
        rand::random_range(3..8)
    }

    /// Fails the crawl.
    fn fail(&mut self, e: CrawlError) -> (a: CrawlAction)
        requires
            old(self).core_inv(),
        ensures
            final(self).inv(),
            Self::action_ok(*old(self), *final(self), a),
            a matches CrawlAction::Fail(e2) && e2 == e,
            *final(self) == (Crawler { phase: CrawlPhase::Failed, ..*old(self) }),
    {
        self.phase = CrawlPhase::Failed;
        CrawlAction::Fail(e)
    }

    /// Starts the next pending story, advances to the next page, or ends
    /// the crawl, per `spec_advanced`.
    fn advance(&mut self) -> (a: CrawlAction)
        requires
            old(self).inv(),
            !old(self).sleeping(),
            !(old(self).phase is Failed),
            old(self).sleeps@ == old(self).fetches@,
        ensures
            final(self).inv(),
            Self::action_ok(*old(self), *final(self), a),
            !(a matches CrawlAction::Fetch(_)),
            !(a matches CrawlAction::EmitChapter(_)),
            Self::spec_advanced(
                old(self).base,
                seq_views(old(self).pending@),
                old(self).next_story as int,
                spec_url_opt_view(old(self).next_page),
                *final(self),
                a,
            ),
            final(self).base == old(self).base,
            final(self).pending == old(self).pending,
    {
        let ghost links = seq_views(old(self).pending@);
        if self.next_story < self.pending.len() {
            let at = self.next_story;
            let href = self.pending[at].clone();
            proof {
                assert(href@ == links[at as int]);
            }
            self.next_story = at + 1;
            let parts = match parse_url(href.as_str()) {
                Some(p) => p,
                None => {
                    return self.fail(CrawlError::BadUrl { url: href });
                },
            };
            let resolved = match rebuild_url(&self.base, &parts) {
                Ok(u) => u,
                Err(e) => {
                    return self.fail(e);
                },
            };
            let id = match story_id_from_path(resolved.path_and_query.as_str()) {
                Ok(id) => id,
                Err(e) => {
                    return self.fail(e);
                },
            };
            self.story = Some(
                StoryJob {
                    id,
                    url: resolved,
                    download_url: None,
                    chapters: Vec::new(),
                    next_chapter: 0,
                },
            );
            self.phase = CrawlPhase::TxnOpening;
            CrawlAction::BeginTxn(id)
        } else {
            let mut next: Option<UrlParts> = None;
            core::mem::swap(&mut next, &mut self.next_page);
            match next {
                Some(u) => {
                    self.page_url = u;
                    if self.page_index < usize::MAX {
                        self.page_index = self.page_index + 1;
                    }
                    self.phase = CrawlPhase::PageSleeping;
                    let d = Self::draw_delay_secs();
                    self.sleeps = Ghost(self.sleeps@ + 1);
                    CrawlAction::Sleep(d)
                },
                None => {
                    self.phase = CrawlPhase::Terminated;
                    CrawlAction::Done
                },
            }
        }
    }

    /// Handles a fetched listing page, per `listing_step_ok`.
    fn on_page_fetched(&mut self, markup: String) -> (a: CrawlAction)
        requires
            old(self).inv(),
            old(self).phase is PageFetching,
        ensures
            final(self).inv(),
            Self::action_ok(*old(self), *final(self), a),
            !(a matches CrawlAction::Fetch(_)),
            !(a matches CrawlAction::EmitChapter(_)),
            Self::listing_step_ok(*old(self), *final(self), markup@, a),
            final(self).base == old(self).base,
    {
        let page = Page::parse(markup.as_str());
        let ghost nodes = page.nodes@;
        let ghost roots = page.roots@;
        let page_text = self.page_url.to_text();
        let entries = match listing_entries(&page) {
            Ok(els) => els,
            Err(e) => {
                return self.fail(e);
            },
        };
        let ghost eviews = entries@;
        let mut links: Vec<String> = Vec::new();
        let n = entries.len();
        let mut i: usize = 0;
        proof {
            assert(seq_views(links@) + spec_listing_links(nodes, eviews, 0)->Some_0
                =~~= spec_listing_links(nodes, eviews, 0)->Some_0);
        }
        while i < n
            invariant
                0 <= i <= n,
                page.wf(),
                nodes == page.nodes@,
                roots == page.roots@,
                n == eviews.len(),
                entries@ == eviews,
                (nodes, roots) == dom_of(markup@),
                crate::selector::spec_selector(crate::extract::LIST_SELECTOR@) is Some,
                eviews == crate::engine::spec_find(nodes, sel_of(LIST_SELECTOR), roots),
                crate::engine::in_bounds(eviews, nodes.len() as int),
                *self == *old(self),
                self.inv(),
                self.phase is PageFetching,
                match spec_listing_links(nodes, eviews, i as int) {
                    Some(rest) => spec_listing_links(nodes, eviews, 0) == Some(
                        seq_views(links@) + rest,
                    ),
                    None => spec_listing_links(nodes, eviews, 0) is None,
                },
            decreases n - i,
        {
            let entry = entries[i];
            let restricted = match entry_is_restricted(&page, entry) {
                Ok(b) => b,
                Err(e) => {
                    return self.fail(e);
                },
            };
            if !restricted {
                match entry_story_link(&page, entry, &page_text) {
                    Ok(link) => {
                        proof {
                            assert(spec_entry_link(nodes, eviews[i as int]) == Some(link@));
                            assert(seq_views(links@.push(link)) =~~= seq_views(links@) + seq![
                                link@,
                            ]);
                            if spec_listing_links(nodes, eviews, i + 1) is Some {
                                assert(seq_views(links@) + (seq![link@] + spec_listing_links(
                                    nodes,
                                    eviews,
                                    i + 1,
                                )->Some_0) =~~= (seq_views(links@) + seq![link@])
                                    + spec_listing_links(nodes, eviews, i + 1)->Some_0);
                            }
                        }
                        links.push(link);
                    },
                    Err(e) => {
                        proof {
                            if fixed_selectors_ok() {
                                assert(spec_entry_link(nodes, eviews[i as int]) is None);
                                assert(!spec_entry_restricted(nodes, eviews[i as int]));
                                assert(spec_listing_links(nodes, eviews, i as int) is None);
                                assert(spec_listing_links(nodes, eviews, 0) is None);
                            }
                        }
                        return self.fail(e);
                    },
                }
            }
            i = i + 1;
        }
        proof {
            assert(spec_listing_links(nodes, eviews, n as int) == Some(Seq::<Seq<char>>::empty()));
            assert(seq_views(links@) + Seq::<Seq<char>>::empty() =~~= seq_views(links@));
            assert(spec_listing_links(nodes, eviews, 0) == Some(seq_views(links@)));
        }
        let next = match next_page_url(&page) {
            Ok(n) => n,
            Err(e) => {
                return self.fail(e);
            },
        };
        match next {
            Some(href) => {
                proof {
                    assert(spec_next_link(nodes, roots) == Some(href@));
                }
                let parts = match parse_url(href.as_str()) {
                    Some(p) => p,
                    None => {
                        return self.fail(CrawlError::BadUrl { url: href });
                    },
                };
                let u = match rebuild_url(&self.base, &parts) {
                    Ok(u) => u,
                    Err(e) => {
                        return self.fail(e);
                    },
                };
                proof {
                    assert(spec_resolve(self.base, href@) == Some(
                        (u.scheme@, u.authority@, u.path_and_query@),
                    ));
                }
                self.next_page = Some(u);
            },
            None => {
                proof {
                    assert(spec_next_link(nodes, roots) is None);
                }
                self.next_page = None;
            },
        }
        self.pending = links;
        self.next_story = 0;
        self.story = None;
        proof {
            assert(seq_views(self.pending@) == spec_listing_links(nodes, eviews, 0)->Some_0);
            assert(spec_url_opt_view(self.next_page) == (match spec_next_link(nodes, roots) {
                Some(l) => spec_resolve(old(self).base, l),
                None => None,
            }));
        }
        let a = self.advance();
        proof {
            if !(a matches CrawlAction::BeginTxn(_)) {
                assert(seq_views(self.pending@) == spec_listing_links(nodes, eviews, 0)->Some_0);
            }
        }
        a
    }

    /// Handles a fetched story page, per `story_step_ok`.
    fn on_story_fetched(&mut self, markup: String) -> (a: CrawlAction)
        requires
            old(self).inv(),
            old(self).phase is StoryFetching,
            old(self).story is Some,
        ensures
            final(self).inv(),
            Self::action_ok(*old(self), *final(self), a),
            !(a matches CrawlAction::Fetch(_)),
            !(a matches CrawlAction::EmitChapter(_)),
            Self::story_step_ok(*old(self), *final(self), markup@, a),
            final(self).base == old(self).base,
    {
        let page = Page::parse(markup.as_str());
        let ghost nodes = page.nodes@;
        let ghost roots = page.roots@;
        let mut job: Option<StoryJob> = None;
        core::mem::swap(&mut job, &mut self.story);
        match job {
            Some(mut j) => {
                let url_text = j.url.to_text();
                let href = match find_download_url(&page, &url_text, &markup) {
                    Ok(h) => h,
                    Err(e) => {
                        return self.fail(e);
                    },
                };
                proof {
                    assert(spec_download_href(nodes, roots) == Some(href@));
                }
                let parts = match parse_url(href.as_str()) {
                    Some(p) => p,
                    None => {
                        return self.fail(CrawlError::BadUrl { url: href });
                    },
                };
                let resolved = match rebuild_url(&self.base, &parts) {
                    Ok(u) => u,
                    Err(e) => {
                        return self.fail(e);
                    },
                };
                proof {
                    assert(spec_resolve(self.base, href@) == Some(
                        (resolved.scheme@, resolved.authority@, resolved.path_and_query@),
                    ));
                }
                j.download_url = Some(resolved);
                self.story = Some(j);
                self.phase = CrawlPhase::DownloadSleeping;
                let d = Self::draw_delay_secs();
                self.sleeps = Ghost(self.sleeps@ + 1);
                CrawlAction::Sleep(d)
            },
            None => self.fail(CrawlError::Protocol),
        }
    }

    /// Handles a fetched download page, per `download_step_ok`.
    fn on_download_fetched(&mut self, markup: String) -> (a: CrawlAction)
        requires
            old(self).inv(),
            old(self).phase is DownloadFetching,
            old(self).story is Some,
        ensures
            final(self).inv(),
            Self::action_ok(*old(self), *final(self), a),
            !(a matches CrawlAction::Fetch(_)),
            !(a matches CrawlAction::EmitChapter(_)),
            Self::download_step_ok(*old(self), *final(self), markup@, a),
            final(self).base == old(self).base,
    {
        let page = Page::parse(markup.as_str());
        let ghost nodes = page.nodes@;
        let ghost roots = page.roots@;
        let mut job: Option<StoryJob> = None;
        core::mem::swap(&mut job, &mut self.story);
        match job {
            Some(mut j) => {
                let url_text = j.url.to_text();
                let info = match get_story_info(&page, &url_text) {
                    Ok(i) => i,
                    Err(e) => {
                        return self.fail(e);
                    },
                };
                let meta = get_story_meta(&page);
                let els = match chapter_nodes(&page) {
                    Ok(els) => els,
                    Err(e) => {
                        return self.fail(e);
                    },
                };
                let ghost chviews = els@;
                let mut chapters: Vec<ChapterLine> = Vec::new();
                let n = els.len();
                let mut k: usize = 0;
                while k < n
                    invariant
                        0 <= k <= n,
                        page.wf(),
                        nodes == page.nodes@,
                        n == chviews.len(),
                        els@ == chviews,
                        crate::engine::in_bounds(chviews, nodes.len() as int),
                        chapters@.len() == k,
                        forall|t: int|
                            0 <= t < k ==> (#[trigger] chapters@[t]).story_id == j.id
                                && chapters@[t].chapter_id == t
                                && chapters@[t].chapter_content@ == spec_text_of(
                                nodes,
                                chviews[t] as int,
                            ),
                    decreases n - k,
                {
                    let content = page.text(els[k]);
                    chapters.push(
                        ChapterLine { story_id: j.id, chapter_id: k, chapter_content: content },
                    );
                    k = k + 1;
                }
                proof {
                    assert(spec_info_matches(nodes, roots, info));
                    if fixed_selectors_ok() {
                        assert(spec_meta_matches(nodes, roots, meta));
                    }
                    assert(Self::spec_chapters_match(nodes, roots, j.id, chapters@));
                }
                j.chapters = chapters;
                j.next_chapter = 0;
                let id = j.id;
                self.story = Some(j);
                self.phase = CrawlPhase::Inserting;
                CrawlAction::InsertStory(id, info, meta)
            },
            None => self.fail(CrawlError::Protocol),
        }
    }

    /// One step of the crawl: takes the event the driver observed and
    /// yields the next action.
    ///
    /// The politeness contract is in `action_ok` and the Slept clause: a
    /// `Fetch` is only ever the response to `Slept`, and targets exactly
    /// the URL the state calls for. An existing story is committed
    /// untouched: on `ExistsResult(true)` the action is the commit itself,
    /// with no insert and no chapter emission in between. The `Fetched`
    /// clauses tie the pending links, the next page, the story id, the
    /// inserted info and metadata, and the emitted chapters to the fetched
    /// markup through `dom_of`.
    pub fn step(&mut self, event: CrawlEvent) -> (a: CrawlAction)
        requires
            old(self).inv(),
        ensures
            final(self).inv(),
            Self::action_ok(*old(self), *final(self), a),
            final(self).base == old(self).base,
            a matches CrawlAction::Fetch(_) ==> event is Slept,
            old(self).phase is Idle && event is Start ==> (a matches CrawlAction::Sleep(_))
                && final(self).phase is PageSleeping && Self::same_work(
                *old(self),
                *final(self),
            ),
            old(self).sleeping() && event is Slept ==> (a matches CrawlAction::Fetch(u) && u@
                == Self::spec_fetch_target(*old(self))) && Self::same_work(
                *old(self),
                *final(self),
            ) && (old(self).phase is PageSleeping ==> final(self).phase is PageFetching)
                && (old(self).phase is StorySleeping ==> final(self).phase is StoryFetching)
                && (old(self).phase is DownloadSleeping
                ==> final(self).phase is DownloadFetching),
            old(self).phase is TxnOpening && event is TxnReady ==> (
            a matches CrawlAction::CheckExists(id) && id == old(self).story->Some_0.id)
                && Self::same_work(*old(self), *final(self))
                && final(self).phase is ExistsChecking,
            event matches CrawlEvent::ExistsResult(b) ==> (
            old(self).phase is ExistsChecking ==> (if b {
                (a matches CrawlAction::CommitStory(id) && id == old(self).story->Some_0.id)
                    && final(self).story is None && final(self).phase is Committing
            } else {
                (a matches CrawlAction::Sleep(_)) && Self::same_work(*old(self), *final(self))
                    && final(self).phase is StorySleeping
            })),
            event matches CrawlEvent::Fetched(markup) ==> (old(self).phase is PageFetching
                ==> Self::listing_step_ok(*old(self), *final(self), markup@, a)) && (old(
                self,
            ).phase is StoryFetching ==> Self::story_step_ok(
                *old(self),
                *final(self),
                markup@,
                a,
            )) && (old(self).phase is DownloadFetching ==> Self::download_step_ok(
                *old(self),
                *final(self),
                markup@,
                a,
            )),
            old(self).phase is Inserting && event is Inserted ==> Self::inserted_step_ok(
                *old(self),
                *final(self),
                a,
            ),
            old(self).phase is Emitting && event is ChapterSent ==> Self::emitting_step_ok(
                *old(self),
                *final(self),
                a,
            ),
            old(self).phase is Committing && event is Committed ==> Self::spec_advanced(
                old(self).base,
                seq_views(old(self).pending@),
                old(self).next_story as int,
                spec_url_opt_view(old(self).next_page),
                *final(self),
                a,
            ),
    {
        match event {
            CrawlEvent::Start => {
                if let CrawlPhase::Idle = self.phase {
                    self.phase = CrawlPhase::PageSleeping;
                    let d = Self::draw_delay_secs();
                    self.sleeps = Ghost(self.sleeps@ + 1);
                    CrawlAction::Sleep(d)
                } else {
                    self.fail(CrawlError::Protocol)
                }
            },
            CrawlEvent::Slept => {
                match self.phase {
                    CrawlPhase::PageSleeping => {
                        self.phase = CrawlPhase::PageFetching;
                        self.fetches = Ghost(self.fetches@ + 1);
                        CrawlAction::Fetch(self.page_url.to_text())
                    },
                    CrawlPhase::StorySleeping => {
                        let url = match &self.story {
                            Some(j) => j.url.to_text(),
                            None => {
                                return self.fail(CrawlError::Protocol);
                            },
                        };
                        self.phase = CrawlPhase::StoryFetching;
                        self.fetches = Ghost(self.fetches@ + 1);
                        CrawlAction::Fetch(url)
                    },
                    CrawlPhase::DownloadSleeping => {
                        let url = match &self.story {
                            Some(j) => match &j.download_url {
                                Some(u) => u.to_text(),
                                None => {
                                    return self.fail(CrawlError::Protocol);
                                },
                            },
                            None => {
                                return self.fail(CrawlError::Protocol);
                            },
                        };
                        self.phase = CrawlPhase::DownloadFetching;
                        self.fetches = Ghost(self.fetches@ + 1);
                        CrawlAction::Fetch(url)
                    },
                    _ => self.fail(CrawlError::Protocol),
                }
            },
            CrawlEvent::Fetched(markup) => {
                match self.phase {
                    CrawlPhase::PageFetching => self.on_page_fetched(markup),
                    CrawlPhase::StoryFetching => {
                        if self.story.is_some() {
                            self.on_story_fetched(markup)
                        } else {
                            self.fail(CrawlError::Protocol)
                        }
                    },
                    CrawlPhase::DownloadFetching => {
                        if self.story.is_some() {
                            self.on_download_fetched(markup)
                        } else {
                            self.fail(CrawlError::Protocol)
                        }
                    },
                    _ => self.fail(CrawlError::Protocol),
                }
            },
            CrawlEvent::TxnReady => {
                if let CrawlPhase::TxnOpening = self.phase {
                    match &self.story {
                        Some(j) => {
                            let id = j.id;
                            self.phase = CrawlPhase::ExistsChecking;
                            CrawlAction::CheckExists(id)
                        },
                        None => self.fail(CrawlError::Protocol),
                    }
                } else {
                    self.fail(CrawlError::Protocol)
                }
            },
            CrawlEvent::ExistsResult(exists) => {
                if let CrawlPhase::ExistsChecking = self.phase {
                    match &self.story {
                        Some(j) => {
                            let id = j.id;
                            if exists {
                                self.story = None;
                                self.phase = CrawlPhase::Committing;
                                CrawlAction::CommitStory(id)
                            } else {
                                self.phase = CrawlPhase::StorySleeping;
                                let d = Self::draw_delay_secs();
                                self.sleeps = Ghost(self.sleeps@ + 1);
                                CrawlAction::Sleep(d)
                            }
                        },
                        None => self.fail(CrawlError::Protocol),
                    }
                } else {
                    self.fail(CrawlError::Protocol)
                }
            },
            CrawlEvent::Inserted => {
                if let CrawlPhase::Inserting = self.phase {
                    let mut job: Option<StoryJob> = None;
                    core::mem::swap(&mut job, &mut self.story);
                    match job {
                        Some(mut j) => {
                            if j.chapters.len() == 0 {
                                let id = j.id;
                                self.story = None;
                                self.phase = CrawlPhase::Committing;
                                CrawlAction::CommitStory(id)
                            } else {
                                let c = ChapterLine {
                                    story_id: j.chapters[0].story_id,
                                    chapter_id: j.chapters[0].chapter_id,
                                    chapter_content: j.chapters[0].chapter_content.clone(),
                                };
                                j.next_chapter = 1;
                                self.story = Some(j);
                                self.phase = CrawlPhase::Emitting;
                                CrawlAction::EmitChapter(c)
                            }
                        },
                        None => self.fail(CrawlError::Protocol),
                    }
                } else {
                    self.fail(CrawlError::Protocol)
                }
            },
            CrawlEvent::ChapterSent => {
                if let CrawlPhase::Emitting = self.phase {
                    let mut job: Option<StoryJob> = None;
                    core::mem::swap(&mut job, &mut self.story);
                    match job {
                        Some(mut j) => {
                            if j.next_chapter < j.chapters.len() {
                                let k = j.next_chapter;
                                let c = ChapterLine {
                                    story_id: j.chapters[k].story_id,
                                    chapter_id: j.chapters[k].chapter_id,
                                    chapter_content: j.chapters[k].chapter_content.clone(),
                                };
                                j.next_chapter = j.next_chapter + 1;
                                self.story = Some(j);
                                CrawlAction::EmitChapter(c)
                            } else {
                                let id = j.id;
                                self.story = None;
                                self.phase = CrawlPhase::Committing;
                                CrawlAction::CommitStory(id)
                            }
                        },
                        None => self.fail(CrawlError::Protocol),
                    }
                } else {
                    self.fail(CrawlError::Protocol)
                }
            },
            CrawlEvent::Committed => {
                if let CrawlPhase::Committing = self.phase {
                    self.story = None;
                    self.advance()
                } else {
                    self.fail(CrawlError::Protocol)
                }
            },
        }
    }

    /// Law: in any sequence of steps from a fresh machine, fetches never
    /// outnumber completed delays; the crawl asks for a delay before every
    /// fetch.
    pub proof fn lemma_politeness(c: Crawler)
        requires
            c.inv(),
        ensures
            c.fetches@ <= c.sleeps@,
    {
    }
}

} // verus!
