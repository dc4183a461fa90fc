//! The decisions of downloading and caching a Google Font, as a state machine.
//!
//! The caller performs each action (file system and network work) and hands
//! back what came of it as an event; the loader decides what to do next.
use vstd::prelude::*;

use crate::fonts::{
    cached_font_file_name, cached_font_name, extract_font_urls, font_urls, is_font_extension_spec,
    lemma_cached_name_is_font_file,
    google_css_url, google_fonts_css_url, sanitize_name, sanitized,
};
use crate::path::{final_dot_at, join, path_extension, path_join};
use crate::text::{decimal, string_views};

verus! {

/// What the loader waits for.
#[derive(PartialEq, Eq, Structural, Clone, Copy, Debug)]
pub enum LoadStage {
    /// The result of loading the fonts found in the cache directory.
    AwaitCache,
    /// The downloaded stylesheet.
    AwaitCss,
    /// Whether the cache directory could be created.
    AwaitCacheDir,
    /// Whether the current font was downloaded and loaded.
    AwaitFont,
    /// Nothing: the loader has finished.
    Done,
}

/// How loading a Google Font ended.
#[derive(PartialEq, Eq, Structural, Clone, Copy, Debug)]
pub enum GoogleFontOutcome {
    /// No data directory is known, so nothing was done.
    NoDataDir,
    /// At least one cached font file loaded.
    LoadedFromCache,
    /// The stylesheet could not be fetched or read.
    CssUnavailable,
    /// The stylesheet names no font file.
    NoFontUrls,
    /// The cache directory could not be created.
    CacheDirFailed,
    /// This many downloaded fonts loaded.
    Downloaded { count: usize },
    /// No downloaded font loaded.
    NoneLoaded,
}

/// What the caller is to do next.
#[derive(Debug, Clone, PartialEq, Eq)]
pub enum GoogleFontAction {
    /// If `family_dir` is a directory, load each font file in it
    /// (see `is_font_file`), and report whether one loaded.
    ScanCache { family_dir: String },
    /// Download the stylesheet at `url` as text.
    FetchCss { url: String },
    /// Create `family_dir` and its parents.
    CreateCacheDir { family_dir: String },
    /// Download the font at `url`; if that succeeds, write it to `file_path`
    /// and load it. Report whether it loaded.
    FetchFont { url: String, file_path: String },
    /// Stop.
    Finish { outcome: GoogleFontOutcome },
}

/// What came of the last action.
#[derive(Debug, Clone, PartialEq, Eq)]
pub enum GoogleFontEvent {
    CacheScanned { loaded_any: bool },
    CssFetched { css: Option<String> },
    CacheDirCreated { ok: bool },
    FontHandled { loaded: bool },
}

/// Model of an action.
pub enum ActionView {
    ScanCache(Seq<char>),
    FetchCss(Seq<char>),
    CreateCacheDir(Seq<char>),
    FetchFont(Seq<char>, Seq<char>),
    Finish(GoogleFontOutcome),
}

/// Model of an event.
pub enum EventView {
    CacheScanned(bool),
    CssFetched(Option<Seq<char>>),
    CacheDirCreated(bool),
    FontHandled(bool),
}

/// Model of the loader.
pub struct LoaderView {
    pub family: Seq<char>,
    pub family_dir: Seq<char>,
    pub urls: Seq<Seq<char>>,
    pub next: nat,
    pub loaded: nat,
    pub stage: LoadStage,
}

impl View for GoogleFontAction {
    type V = ActionView;

    open spec fn view(&self) -> ActionView {
        match self {
            GoogleFontAction::ScanCache { family_dir } => ActionView::ScanCache(family_dir@),
            GoogleFontAction::FetchCss { url } => ActionView::FetchCss(url@),
            GoogleFontAction::CreateCacheDir { family_dir } => ActionView::CreateCacheDir(
                family_dir@,
            ),
            GoogleFontAction::FetchFont { url, file_path } => ActionView::FetchFont(
                url@,
                file_path@,
            ),
            GoogleFontAction::Finish { outcome } => ActionView::Finish(*outcome),
        }
    }
}

impl View for GoogleFontEvent {
    type V = EventView;

    open spec fn view(&self) -> EventView {
        match self {
            GoogleFontEvent::CacheScanned { loaded_any } => EventView::CacheScanned(*loaded_any),
            GoogleFontEvent::CssFetched { css } => EventView::CssFetched(
                match css {
                    Some(c) => Some(c@),
                    None => None,
                },
            ),
            GoogleFontEvent::CacheDirCreated { ok } => EventView::CacheDirCreated(*ok),
            GoogleFontEvent::FontHandled { loaded } => EventView::FontHandled(*loaded),
        }
    }
}

/// The state of loading one Google Font family.
pub struct GoogleFontLoader {
    family: String,
    family_dir: String,
    urls: Vec<String>,
    next: usize,
    loaded: usize,
    stage: LoadStage,
}

impl View for GoogleFontLoader {
    type V = LoaderView;

    closed spec fn view(&self) -> LoaderView {
        LoaderView {
            family: self.family@,
            family_dir: self.family_dir@,
            urls: string_views(self.urls@),
            next: self.next as nat,
            loaded: self.loaded as nat,
            stage: self.stage,
        }
    }
}

// ---------------------------------------------------------------------------
// The transition function.
// ---------------------------------------------------------------------------

/// A loader's counters are consistent: the fonts handled are among the URLs,
/// the fonts loaded among those handled, and while a font is awaited its URL exists.
pub open spec fn loader_wf(s: LoaderView) -> bool {
    &&& s.next <= s.urls.len()
    &&& s.loaded <= s.next
    &&& s.stage == LoadStage::AwaitFont ==> s.next < s.urls.len()
    &&& s.stage == LoadStage::AwaitCacheDir ==> s.urls.len() > 0
    &&& (s.stage == LoadStage::AwaitCache || s.stage == LoadStage::AwaitCss || s.stage
        == LoadStage::AwaitCacheDir) ==> s.next == 0 && s.loaded == 0
}

/// The directory where a family's fonts are cached: `{data_dir}/takumi/fonts/{family}`,
/// with the family name sanitized.
pub open spec fn family_cache_dir(data_dir: Seq<char>, family: Seq<char>) -> Seq<char> {
    path_join(path_join(path_join(data_dir, "takumi"@), "fonts"@), sanitized(family))
}

/// Where the `i`-th downloaded font is stored.
pub open spec fn font_path(s: LoaderView, i: nat) -> Seq<char> {
    path_join(s.family_dir, cached_font_name(i, s.urls[i as int]))
}

/// The event answers the action the loader is waiting on.
pub open spec fn awaits(s: LoaderView, e: EventView) -> bool {
    match e {
        EventView::CacheScanned(_) => s.stage == LoadStage::AwaitCache,
        EventView::CssFetched(_) => s.stage == LoadStage::AwaitCss,
        EventView::CacheDirCreated(_) => s.stage == LoadStage::AwaitCacheDir,
        EventView::FontHandled(_) => s.stage == LoadStage::AwaitFont,
    }
}

/// The loader at its start, and the first action.
pub open spec fn start_spec(family: Seq<char>, data_dir: Option<Seq<char>>) -> (
    LoaderView,
    ActionView,
) {
    match data_dir {
        None => (
            LoaderView {
                family,
                family_dir: seq![],
                urls: seq![],
                next: 0,
                loaded: 0,
                stage: LoadStage::Done,
            },
            ActionView::Finish(GoogleFontOutcome::NoDataDir),
        ),
        Some(d) => {
            let dir = family_cache_dir(d, family);
            (
                LoaderView {
                    family,
                    family_dir: dir,
                    urls: seq![],
                    next: 0,
                    loaded: 0,
                    stage: LoadStage::AwaitCache,
                },
                ActionView::ScanCache(dir),
            )
        },
    }
}

/// The loader after a finished action, and the next action.
pub open spec fn step_spec(s: LoaderView, e: EventView) -> (LoaderView, ActionView) {
    let done = LoaderView { stage: LoadStage::Done, ..s };
    match e {
        EventView::CacheScanned(loaded_any) => if loaded_any {
            (done, ActionView::Finish(GoogleFontOutcome::LoadedFromCache))
        } else {
            (
                LoaderView { stage: LoadStage::AwaitCss, ..s },
                ActionView::FetchCss(google_css_url(s.family)),
            )
        },
        EventView::CssFetched(css) => match css {
            None => (done, ActionView::Finish(GoogleFontOutcome::CssUnavailable)),
            Some(text) => {
                let urls = font_urls(text);
                if urls.len() == 0 {
                    (
                        LoaderView { urls, ..done },
                        ActionView::Finish(GoogleFontOutcome::NoFontUrls),
                    )
                } else {
                    (
                        LoaderView { urls, next: 0, loaded: 0, stage: LoadStage::AwaitCacheDir, ..s },
                        ActionView::CreateCacheDir(s.family_dir),
                    )
                }
            },
        },
        EventView::CacheDirCreated(ok) => if ok {
            let t = LoaderView { next: 0, loaded: 0, stage: LoadStage::AwaitFont, ..s };
            (t, ActionView::FetchFont(s.urls[0], font_path(t, 0)))
        } else {
            (done, ActionView::Finish(GoogleFontOutcome::CacheDirFailed))
        },
        EventView::FontHandled(ok) => {
            let loaded = if ok {
                s.loaded + 1
            } else {
                s.loaded
            };
            let next = s.next + 1;
            if next < s.urls.len() {
                let t = LoaderView { next, loaded, ..s };
                (t, ActionView::FetchFont(s.urls[next as int], font_path(t, next)))
            } else {
                (
                    LoaderView { next, loaded, stage: LoadStage::Done, ..s },
                    ActionView::Finish(
                        if loaded > 0 {
                            GoogleFontOutcome::Downloaded { count: loaded as usize }
                        } else {
                            GoogleFontOutcome::NoneLoaded
                        },
                    ),
                )
            }
        },
    }
}

// ---------------------------------------------------------------------------
// Laws.
// ---------------------------------------------------------------------------

/// How far along loading is: the stage, and within downloading the URLs left.
pub open spec fn stage_rank(stage: LoadStage) -> nat {
    match stage {
        LoadStage::AwaitCache => 4,
        LoadStage::AwaitCss => 3,
        LoadStage::AwaitCacheDir => 2,
        LoadStage::AwaitFont => 1,
        LoadStage::Done => 0,
    }
}

/// Every answered action keeps the loader consistent, and moves it either to
/// a later stage or, while downloading, to one font URL fewer to go; so the
/// loop that drives the loader ends.
pub proof fn lemma_step_progress(s: LoaderView, e: EventView)
    requires
        loader_wf(s),
        awaits(s, e),
    ensures
        loader_wf(step_spec(s, e).0),
        stage_rank(step_spec(s, e).0.stage) < stage_rank(s.stage) || (step_spec(s, e).0.stage
            == s.stage && s.stage == LoadStage::AwaitFont && step_spec(s, e).0.urls == s.urls
            && step_spec(s, e).0.urls.len() - step_spec(s, e).0.next < s.urls.len() - s.next),
{
}

/// The fonts are downloaded in the order of the stylesheet, each once: after
/// the cache directory is made the first URL is fetched, and each handled font
/// is followed by the next URL, stored as `{index}.{ext}` in the family directory.
pub proof fn lemma_fonts_in_order(s: LoaderView, e: EventView)
    requires
        loader_wf(s),
        awaits(s, e),
        step_spec(s, e).1 is FetchFont,
    ensures
        ({
            let (t, a) = step_spec(s, e);
            let i = if s.stage == LoadStage::AwaitFont {
                s.next + 1
            } else {
                0
            };
            &&& t.next == i
            &&& a == ActionView::FetchFont(t.urls[i as int], font_path(t, i))
        }),
{
}

/// The cache is written where it is read: a loader started for a family and
/// data directory first scans `family_cache_dir` of them, keeps that directory
/// through every step, and stores each downloaded font there, under the name
/// `{i}.{ext}` of its index in the stylesheet.
pub proof fn lemma_writes_where_scanned(
    family: Seq<char>,
    data_dir: Seq<char>,
    s: LoaderView,
    e: EventView,
)
    requires
        loader_wf(s),
        awaits(s, e),
        s.family_dir == family_cache_dir(data_dir, family),
    ensures
        start_spec(family, Some(data_dir)).1 == ActionView::ScanCache(
            family_cache_dir(data_dir, family),
        ),
        start_spec(family, Some(data_dir)).0.family_dir == family_cache_dir(data_dir, family),
        step_spec(s, e).0.family_dir == s.family_dir,
        step_spec(s, e).1 matches ActionView::FetchFont(_, p) ==> {
            let t = step_spec(s, e).0;
            p == path_join(
                family_cache_dir(data_dir, family),
                cached_font_name(t.next, t.urls[t.next as int]),
            )
        },
{
    if step_spec(s, e).1 is FetchFont {
        lemma_fonts_in_order(s, e);
    }
}

/// A reported download count is positive and at most the number of font URLs.
pub proof fn lemma_download_count(s: LoaderView, e: EventView)
    requires
        loader_wf(s),
        awaits(s, e),
        s.urls.len() <= usize::MAX,
        step_spec(s, e).1 matches ActionView::Finish(GoogleFontOutcome::Downloaded { count }),
    ensures
        step_spec(s, e).1 matches ActionView::Finish(GoogleFontOutcome::Downloaded { count })
            && 0 < count <= s.urls.len(),
{
}

// ---------------------------------------------------------------------------
// The loader.
// ---------------------------------------------------------------------------

impl GoogleFontLoader {
    #[verifier::type_invariant]
    spec fn inv(self) -> bool {
        loader_wf(self@)
    }

    /// Starts loading the family `family`; `data_dir` is the user's data directory, if known.
    pub fn start(family: &str, data_dir: Option<&str>) -> (r: (GoogleFontLoader, GoogleFontAction))
        ensures
            (r.0@, r.1@) == start_spec(
                family@,
                match data_dir {
                    Some(d) => Some(d@),
                    None => None,
                },
            ),
    {
        let fam = String::from_str(family);
        let empty: Vec<String> = Vec::new();
        assert(string_views(empty@) =~= seq![]);
        match data_dir {
            None => (
                GoogleFontLoader {
                    family: fam,
                    family_dir: String::new(),
                    urls: empty,
                    next: 0,
                    loaded: 0,
                    stage: LoadStage::Done,
                },
                GoogleFontAction::Finish { outcome: GoogleFontOutcome::NoDataDir },
            ),
            Some(d) => {
                let base = join(d, "takumi");
                let cache = join(base.as_str(), "fonts");
                let name = sanitize_name(family);
                let dir = join(cache.as_str(), name.as_str());
                let action = GoogleFontAction::ScanCache { family_dir: dir.clone() };
                let loader = GoogleFontLoader {
                    family: fam,
                    family_dir: dir,
                    urls: empty,
                    next: 0,
                    loaded: 0,
                    stage: LoadStage::AwaitCache,
                };
                (loader, action)
            },
        }
    }

    /// The stage the loader is in.
    pub fn stage(&self) -> (r: LoadStage)
        ensures
            r == self@.stage,
    {
        self.stage
    }

    /// The request to fetch and store the `i`-th font.
    fn font_request(&self, i: usize) -> (r: GoogleFontAction)
        requires
            i < self.urls@.len(),
        ensures
            r@ == ActionView::FetchFont(self@.urls[i as int], font_path(self@, i as nat)),
            is_font_extension_spec(path_extension(font_path(self@, i as nat))),
    {
        let url = self.urls[i].clone();
        let name = cached_font_file_name(i, url.as_str());
        let file_path = join(self.family_dir.as_str(), name.as_str());
        proof {
            lemma_cached_name_is_font_file(i as nat, url@);
            assert(final_dot_at(name@, decimal(i as nat).len() as int));
        }
        GoogleFontAction::FetchFont { url, file_path }
    }

    /// Takes what came of the last action and returns the next one.
    pub fn step(&mut self, event: GoogleFontEvent) -> (r: GoogleFontAction)
        requires
            awaits(old(self)@, event@),
        ensures
            (final(self)@, r@) == step_spec(old(self)@, event@),
            r@ matches ActionView::FetchFont(_, path) ==> is_font_extension_spec(
                path_extension(path),
            ),
    {
        proof {
            use_type_invariant(&*self);
        }
        match event {
            GoogleFontEvent::CacheScanned { loaded_any } => {
                if loaded_any {
                    self.stage = LoadStage::Done;
                    GoogleFontAction::Finish { outcome: GoogleFontOutcome::LoadedFromCache }
                } else {
                    self.stage = LoadStage::AwaitCss;
                    GoogleFontAction::FetchCss { url: google_fonts_css_url(self.family.as_str()) }
                }
            },
            GoogleFontEvent::CssFetched { css } => {
                match css {
                    None => {
                        self.stage = LoadStage::Done;
                        GoogleFontAction::Finish { outcome: GoogleFontOutcome::CssUnavailable }
                    },
                    Some(text) => {
                        let urls = extract_font_urls(text.as_str());
                        if urls.len() == 0 {
                            self.urls = urls;
                            self.stage = LoadStage::Done;
                            GoogleFontAction::Finish { outcome: GoogleFontOutcome::NoFontUrls }
                        } else {
                            self.urls = urls;
                            self.stage = LoadStage::AwaitCacheDir;
                            GoogleFontAction::CreateCacheDir { family_dir: self.family_dir.clone() }
                        }
                    },
                }
            },
            GoogleFontEvent::CacheDirCreated { ok } => {
                if ok {
                    self.stage = LoadStage::AwaitFont;
                    self.font_request(0)
                } else {
                    self.stage = LoadStage::Done;
                    GoogleFontAction::Finish { outcome: GoogleFontOutcome::CacheDirFailed }
                }
            },
            GoogleFontEvent::FontHandled { loaded } => {
                let n = self.urls.len();
                let count = if loaded {
                    self.loaded + 1
                } else {
                    self.loaded
                };
                let next = self.next + 1;
                if next < n {
                    self.next = next;
                    self.loaded = count;
                    self.font_request(next)
                } else {
                    self.stage = LoadStage::Done;
                    self.next = next;
                    self.loaded = count;
                    if count > 0 {
                        GoogleFontAction::Finish {
                            outcome: GoogleFontOutcome::Downloaded { count },
                        }
                    } else {
                        GoogleFontAction::Finish { outcome: GoogleFontOutcome::NoneLoaded }
                    }
                }
            },
        }
    }
}

} // verus!
