//! Charts, notices, AIP documents and workspaces.
use vstd::prelude::*;
use crate::airac::{cycle_on, nats_airac_part_text, sia_airac_date_text, sia_cycle_name_text, AiracCycle};
use crate::calendar::CalendarDate;
use crate::text::{
    chars_of, clone_opt_string, clone_strings, has_prefix, has_prefix_of, opt_string_view,
    push_all, push_str, string_of, strings_view, trim_end_char, trim_end_char_of,
    trim_start_char, trim_start_char_of,
};

verus! {

/// Provider a chart was found at.
#[derive(Debug, Clone, Copy, PartialEq, Eq, Structural)]
pub enum ChartSource {
    Sia,
    Atlas,
    SofiaVac,
    SupAip,
    Uk,
}

/// Provider of an AIP text document.
#[derive(Debug, Clone, Copy, PartialEq, Eq, Structural)]
pub enum AipDocSource {
    Sia,
    Uk,
}

/// Kind of chart.
#[derive(Debug, Clone, Copy, PartialEq, Eq, Hash, Structural)]
pub enum ChartCategory {
    Aerodrome,
    Parking,
    Ground,
    Sid,
    Star,
    Iac,
    Vac,
    Vlc,
    Tem,
    SupAip,
    Other,
}

/// Display label of a category.
pub open spec fn category_label(c: ChartCategory) -> Seq<char> {
    match c {
        ChartCategory::Aerodrome => "Aerodrome"@,
        ChartCategory::Parking => "Parking"@,
        ChartCategory::Ground => "Ground"@,
        ChartCategory::Sid => "SID"@,
        ChartCategory::Star => "STAR"@,
        ChartCategory::Iac => "IAC"@,
        ChartCategory::Vac => "VAC"@,
        ChartCategory::Vlc => "VLC"@,
        ChartCategory::Tem => "TEM"@,
        ChartCategory::SupAip => "SupAIP"@,
        ChartCategory::Other => "Other"@,
    }
}

/// Position of a category in chart listings.
pub open spec fn category_rank(c: ChartCategory) -> u8 {
    match c {
        ChartCategory::Aerodrome => 0,
        ChartCategory::Parking => 1,
        ChartCategory::Ground => 2,
        ChartCategory::Sid => 3,
        ChartCategory::Star => 4,
        ChartCategory::Iac => 5,
        ChartCategory::Vac => 6,
        ChartCategory::Vlc => 7,
        ChartCategory::Tem => 8,
        ChartCategory::SupAip => 9,
        ChartCategory::Other => 10,
    }
}

impl ChartCategory {
    /// Display label.
    pub fn label(&self) -> (r: &'static str)
        ensures
            r@ == category_label(*self),
    {
        match self {
            ChartCategory::Aerodrome => "Aerodrome",
            ChartCategory::Parking => "Parking",
            ChartCategory::Ground => "Ground",
            ChartCategory::Sid => "SID",
            ChartCategory::Star => "STAR",
            ChartCategory::Iac => "IAC",
            ChartCategory::Vac => "VAC",
            ChartCategory::Vlc => "VLC",
            ChartCategory::Tem => "TEM",
            ChartCategory::SupAip => "SupAIP",
            ChartCategory::Other => "Other",
        }
    }

    /// Position in chart listings.
    pub fn sort_order(&self) -> (r: u8)
        ensures
            r == category_rank(*self),
    {
        match self {
            ChartCategory::Aerodrome => 0,
            ChartCategory::Parking => 1,
            ChartCategory::Ground => 2,
            ChartCategory::Sid => 3,
            ChartCategory::Star => 4,
            ChartCategory::Iac => 5,
            ChartCategory::Vac => 6,
            ChartCategory::Vlc => 7,
            ChartCategory::Tem => 8,
            ChartCategory::SupAip => 9,
            ChartCategory::Other => 10,
        }
    }
}

/// Distinct categories have distinct listing positions.
pub proof fn law_sort_order_is_injective(a: ChartCategory, b: ChartCategory)
    ensures
        category_rank(a) == category_rank(b) <==> a == b,
{
}

/// The categories in the order charts are listed: aerodrome, parking and ground charts,
/// SIDs, STARs, approach charts, visual approach and landing charts, TEM, SUP AIP, others.
pub open spec fn listing_order() -> Seq<ChartCategory> {
    seq![
        ChartCategory::Aerodrome,
        ChartCategory::Parking,
        ChartCategory::Ground,
        ChartCategory::Sid,
        ChartCategory::Star,
        ChartCategory::Iac,
        ChartCategory::Vac,
        ChartCategory::Vlc,
        ChartCategory::Tem,
        ChartCategory::SupAip,
        ChartCategory::Other,
    ]
}

/// Charts are listed by category in the fixed order of [`listing_order`]: the listing
/// position of each category is its place in that order, which names every category once.
/// So SIDs come before STARs, and STARs before approach charts.
pub proof fn law_sort_order_follows_listing_order(i: int, c: ChartCategory)
    requires
        0 <= i < 11,
    ensures
        category_rank(listing_order()[i]) == i,
        listing_order().contains(c),
        category_rank(ChartCategory::Sid) < category_rank(ChartCategory::Star) < category_rank(ChartCategory::Iac),
{
    let o = listing_order();
    assert(o[category_rank(c) as int] == c);
}

/// A chart of an aerodrome.
#[derive(Debug, Clone, PartialEq)]
pub struct Chart {
    pub id: String,
    pub source: ChartSource,
    pub category: ChartCategory,
    pub subtitle: String,
    pub filename: String,
    /// Provider-relative path used to rebuild a valid URL for any AIRAC cycle.
    pub provider_relative_url: String,
    /// Provider-relative paths of the instruction sheets that belong to this chart, in order.
    pub linked_provider_relative_urls: Vec<String>,
    /// AIRAC code associated with this chart when it was discovered (ex: 2603).
    pub airac_code: String,
    pub page: Option<String>,
    pub tags: Vec<String>,
    pub runways: Vec<String>,
    pub custom_title: Option<String>,
}

/// The contents of a chart, as values.
pub struct ChartView {
    pub id: Seq<char>,
    pub source: ChartSource,
    pub category: ChartCategory,
    pub subtitle: Seq<char>,
    pub filename: Seq<char>,
    pub provider_relative_url: Seq<char>,
    pub linked_provider_relative_urls: Seq<Seq<char>>,
    pub airac_code: Seq<char>,
    pub page: Option<Seq<char>>,
    pub tags: Seq<Seq<char>>,
    pub runways: Seq<Seq<char>>,
    pub custom_title: Option<Seq<char>>,
}

impl View for Chart {
    type V = ChartView;

    open spec fn view(&self) -> ChartView {
        ChartView {
            id: self.id@,
            source: self.source,
            category: self.category,
            subtitle: self.subtitle@,
            filename: self.filename@,
            provider_relative_url: self.provider_relative_url@,
            linked_provider_relative_urls: strings_view(self.linked_provider_relative_urls@),
            airac_code: self.airac_code@,
            page: opt_string_view(self.page),
            tags: strings_view(self.tags@),
            runways: strings_view(self.runways@),
            custom_title: opt_string_view(self.custom_title),
        }
    }
}

/// Title shown for a chart: its custom title, else its subtitle, else its category label.
pub open spec fn chart_display_title(c: ChartView) -> Seq<char> {
    match c.custom_title {
        Some(t) => t,
        None => if c.subtitle.len() == 0 { category_label(c.category) } else { c.subtitle },
    }
}

/// Base URL of a chart provider's publication for the cycle starting on `d`.
pub open spec fn chart_provider_base(source: ChartSource, d: CalendarDate) -> Seq<char> {
    match source {
        ChartSource::Sia | ChartSource::Atlas => "https://www.sia.aviation-civile.gouv.fr/media/dvd/"@
            + sia_cycle_name_text(d) + "/FRANCE/"@ + sia_airac_date_text(d) + "/html/eAIP"@,
        ChartSource::SofiaVac => "https://www.sia.aviation-civile.gouv.fr/media/dvd/"@
            + sia_cycle_name_text(d) + "/Atlas-VAC/PDF_AIPparSSection/VAC/AD"@,
        ChartSource::Uk => "https://www.aurora.nats.co.uk/htmlAIP/Publications/"@
            + nats_airac_part_text(d) + "/html/eAIP"@,
        ChartSource::SupAip => "https://www.sia.aviation-civile.gouv.fr"@,
    }
}

/// Base URL of an AIP document provider's publication for the cycle starting on `d`.
pub open spec fn doc_provider_base(source: AipDocSource, d: CalendarDate) -> Seq<char> {
    match source {
        AipDocSource::Sia => "https://www.sia.aviation-civile.gouv.fr/media/dvd/"@
            + sia_cycle_name_text(d) + "/FRANCE/"@ + sia_airac_date_text(d) + "/html/eAIP"@,
        AipDocSource::Uk => "https://www.aurora.nats.co.uk/htmlAIP/Publications/"@
            + nats_airac_part_text(d) + "/html/eAIP"@,
    }
}

/// Whether a path is already an absolute HTTP(S) URL.
pub open spec fn is_absolute_http(rel: Seq<char>) -> bool {
    has_prefix(rel, "http://"@) || has_prefix(rel, "https://"@)
}

/// URL of a provider-relative path under `base`: the path itself when it is already an
/// absolute HTTP(S) URL, else `base` and the path joined by a single `/`.
pub open spec fn resolve_url(base: Seq<char>, rel: Seq<char>) -> Seq<char> {
    if is_absolute_http(rel) {
        rel
    } else {
        trim_end_char(base, '/') + seq!['/'] + trim_start_char(rel, '/')
    }
}

fn is_absolute_http_of(rel: &Vec<char>) -> (r: bool)
    ensures
        r == is_absolute_http(rel@),
{
    let a = chars_of("http://");
    let b = chars_of("https://");
    has_prefix_of(rel, &a) || has_prefix_of(rel, &b)
}

/// Joins a provider base and a provider-relative path.
fn resolve_url_of(base: &Vec<char>, rel: &str) -> (r: String)
    ensures
        r@ == resolve_url(base@, rel@),
{
    let relv = chars_of(rel);
    if is_absolute_http_of(&relv) {
        return string_of(&relv);
    }
    let mut v = trim_end_char_of(base, '/');
    v.push('/');
    let t = trim_start_char_of(&relv, '/');
    push_all(&mut v, &t);
    string_of(&v)
}

/// Base address of the SIA eAIP for a cycle.
pub fn eaip_base_url(airac: &AiracCycle) -> (r: Vec<char>)
    requires
        airac.start_date.is_valid(),
    ensures
        r@ == "https://www.sia.aviation-civile.gouv.fr/media/dvd/"@
            + sia_cycle_name_text(airac.start_date) + "/FRANCE/"@
            + sia_airac_date_text(airac.start_date) + "/html/eAIP"@,
{
    let mut v: Vec<char> = Vec::new();
    push_str(&mut v, "https://www.sia.aviation-civile.gouv.fr/media/dvd/");
    let n = airac.sia_cycle_name();
    push_str(&mut v, n.as_str());
    push_str(&mut v, "/FRANCE/");
    let d = airac.sia_airac_date();
    push_str(&mut v, d.as_str());
    push_str(&mut v, "/html/eAIP");
    v
}

/// Base address of the UK NATS eAIP for a cycle.
pub fn nats_base_of(airac: &AiracCycle) -> (r: Vec<char>)
    requires
        airac.start_date.is_valid(),
    ensures
        r@ == "https://www.aurora.nats.co.uk/htmlAIP/Publications/"@
            + nats_airac_part_text(airac.start_date) + "/html/eAIP"@,
{
    let mut v: Vec<char> = Vec::new();
    push_str(&mut v, "https://www.aurora.nats.co.uk/htmlAIP/Publications/");
    let n = airac.nats_airac_part();
    push_str(&mut v, n.as_str());
    push_str(&mut v, "/html/eAIP");
    v
}

impl Chart {
    /// A copy of this chart.
    pub fn duplicate(&self) -> (r: Chart)
        ensures
            r@ == self@,
    {
        Chart {
            id: self.id.clone(),
            source: self.source,
            category: self.category,
            subtitle: self.subtitle.clone(),
            filename: self.filename.clone(),
            provider_relative_url: self.provider_relative_url.clone(),
            linked_provider_relative_urls: clone_strings(&self.linked_provider_relative_urls),
            airac_code: self.airac_code.clone(),
            page: clone_opt_string(&self.page),
            tags: clone_strings(&self.tags),
            runways: clone_strings(&self.runways),
            custom_title: clone_opt_string(&self.custom_title),
        }
    }

    /// Title shown for this chart.
    pub fn display_title(&self) -> (r: &str)
        ensures
            r@ == chart_display_title(self@),
    {
        match &self.custom_title {
            Some(t) => t.as_str(),
            None => {
                if self.subtitle.as_str().is_empty() {
                    self.category.label()
                } else {
                    self.subtitle.as_str()
                }
            },
        }
    }

    /// Base URL of this chart's provider for `airac`.
    fn provider_base_for_airac(&self, airac: &AiracCycle) -> (r: Vec<char>)
        requires
            airac.start_date.is_valid(),
        ensures
            r@ == chart_provider_base(self.source, airac.start_date),
    {
        match self.source {
            ChartSource::Sia | ChartSource::Atlas => eaip_base_url(airac),
            ChartSource::SofiaVac => {
                let mut v: Vec<char> = Vec::new();
                push_str(&mut v, "https://www.sia.aviation-civile.gouv.fr/media/dvd/");
                let n = airac.sia_cycle_name();
                push_str(&mut v, n.as_str());
                push_str(&mut v, "/Atlas-VAC/PDF_AIPparSSection/VAC/AD");
                v
            },
            ChartSource::Uk => nats_base_of(airac),
            ChartSource::SupAip => chars_of("https://www.sia.aviation-civile.gouv.fr"),
        }
    }

    /// The effective URL of this chart for a target AIRAC cycle.
    pub fn url_for_airac(&self, airac: &AiracCycle) -> (r: String)
        requires
            airac.start_date.is_valid(),
        ensures
            r@ == resolve_url(
                chart_provider_base(self.source, airac.start_date),
                self.provider_relative_url@,
            ),
    {
        let base = self.provider_base_for_airac(airac);
        resolve_url_of(&base, self.provider_relative_url.as_str())
    }

    /// The effective URL of this chart in cycle `c`, when there is a cycle.
    pub open spec fn url_in_cycle(self, c: Option<AiracCycle>) -> Option<Seq<char>> {
        match c {
            Some(c) => Some(resolve_url(chart_provider_base(self.source, c.start_date), self.provider_relative_url@)),
            None => None,
        }
    }

    /// The effective URL of this chart for the cycle in effect today, or `None` when today's
    /// cycle runs past the representable dates. Which day today is comes from the clock.
    pub fn runtime_url(&self) -> (r: Option<String>)
        ensures
            exists|today: CalendarDate, c: Option<AiracCycle>| #[trigger] cycle_on(today, c)
                && opt_string_view(r) == self.url_in_cycle(c),
    {
        let c = AiracCycle::current();
        let ghost today = choose|today: CalendarDate| #[trigger] cycle_on(today, c);
        let r = match &c {
            Some(cy) => Some(self.url_for_airac(cy)),
            None => None,
        };
        assert(cycle_on(today, c) && opt_string_view(r) == self.url_in_cycle(c));
        r
    }

    /// The effective URLs of this chart's document and of its linked sheets, in order, for a
    /// target AIRAC cycle.
    pub fn urls_for_airac(&self, airac: &AiracCycle) -> (r: Vec<String>)
        requires
            airac.start_date.is_valid(),
        ensures
            strings_view(r@) == seq![self@.provider_relative_url].add(self@.linked_provider_relative_urls).map_values(
                |rel: Seq<char>| resolve_url(chart_provider_base(self.source, airac.start_date), rel),
            ),
    {
        let base = self.provider_base_for_airac(airac);
        let ghost rels = seq![self@.provider_relative_url].add(self@.linked_provider_relative_urls);
        let ghost f = |rel: Seq<char>| resolve_url(chart_provider_base(self.source, airac.start_date), rel);
        let mut out: Vec<String> = Vec::new();
        out.push(resolve_url_of(&base, self.provider_relative_url.as_str()));
        assert(strings_view(out@) =~= rels.take(1).map_values(f));
        let mut i: usize = 0;
        while i < self.linked_provider_relative_urls.len()
            invariant
                i <= self.linked_provider_relative_urls.len(),
                base@ == chart_provider_base(self.source, airac.start_date),
                rels == seq![self@.provider_relative_url].add(self@.linked_provider_relative_urls),
                f == (|rel: Seq<char>| resolve_url(chart_provider_base(self.source, airac.start_date), rel)),
                strings_view(out@) == rels.take(i + 1).map_values(f),
            decreases self.linked_provider_relative_urls.len() - i,
        {
            let ghost before = strings_view(out@);
            let u = resolve_url_of(&base, self.linked_provider_relative_urls[i].as_str());
            out.push(u);
            assert(rels[i + 1] == self.linked_provider_relative_urls@[i as int]@);
            assert(strings_view(out@) =~= before.push(f(rels[i + 1])));
            assert(rels.take(i + 2).map_values(f) =~= rels.take(i + 1).map_values(f).push(f(rels[i + 1])));
            i = i + 1;
        }
        assert(rels.take(i + 1) =~= rels);
        out
    }

    /// The effective URLs of this chart's document and of its linked sheets, in order, in
    /// cycle `c`, when there is a cycle.
    pub open spec fn urls_in_cycle(self, c: Option<AiracCycle>) -> Option<Seq<Seq<char>>> {
        match c {
            Some(c) => Some(seq![self@.provider_relative_url].add(self@.linked_provider_relative_urls).map_values(
                |rel: Seq<char>| resolve_url(chart_provider_base(self.source, c.start_date), rel),
            )),
            None => None,
        }
    }

    /// The effective URLs of this chart's document and of its linked sheets for the cycle in
    /// effect today, or `None` when today's cycle runs past the representable dates. Which day
    /// today is comes from the clock.
    pub fn runtime_urls(&self) -> (r: Option<Vec<String>>)
        ensures
            exists|today: CalendarDate, c: Option<AiracCycle>| #[trigger] cycle_on(today, c)
                && (match r {
                    Some(v) => self.urls_in_cycle(c) == Some(strings_view(v@)),
                    None => self.urls_in_cycle(c) is None,
                }),
    {
        let c = AiracCycle::current();
        let ghost today = choose|today: CalendarDate| #[trigger] cycle_on(today, c);
        let r = match &c {
            Some(cy) => Some(self.urls_for_airac(cy)),
            None => None,
        };
        assert(cycle_on(today, c) && (match r {
            Some(v) => self.urls_in_cycle(c) == Some(strings_view(v@)),
            None => self.urls_in_cycle(c) is None,
        }));
        r
    }
}

/// Source of a notice.
#[derive(Debug, Clone, Copy, PartialEq, Eq, Structural)]
pub enum NoticeSource {
    Sofia,
}

/// A NOTAM.
#[derive(Debug, Clone, PartialEq)]
pub struct Notice {
    pub id: String,
    pub icao: String,
    pub source: NoticeSource,
    pub identifier: String,
    pub notice_type: String,
    pub valid_from: Option<String>,
    pub valid_to: Option<String>,
    pub content: String,
    pub category: Option<String>,
}

/// A saved working folder: airports, charts, tab state and notes.
#[derive(Debug, Clone, PartialEq)]
pub struct Workspace {
    pub id: String,
    pub name: String,
    /// Airports covered by this workspace (ex: ["LFPG", "LFPB"]).
    pub airports: Vec<String>,
    /// Selected charts, each with its airport.
    pub chart_refs: Vec<WorkspaceChart>,
    /// Ids of the open tabs, in order.
    pub open_tabs: Vec<String>,
    /// Index of the active tab.
    pub active_tab_index: Option<usize>,
    /// Persisted non-chart tabs (AIP documents and ATIS).
    pub extra_tabs: Vec<ExtraTab>,
    /// Briefing notes.
    pub notes: Option<String>,
    /// Whether the notes panel is pinned.
    pub notes_pinned: Option<bool>,
    /// Width of the notes panel, in pixels.
    pub notes_panel_width: Option<i32>,
    pub created_at: String,
    pub updated_at: String,
}

/// A non-chart tab (AIP document or ATIS) persisted in a workspace.
#[derive(Debug, Clone, PartialEq)]
pub enum ExtraTab {
    Atis { icao: String },
    AipDoc { doc: AipDocument },
}

/// A chart of a workspace, with its airport.
#[derive(Debug, Clone, PartialEq)]
pub struct WorkspaceChart {
    pub airport: String,
    pub chart: Chart,
}

/// The AIP text document of an aerodrome.
#[derive(Debug, Clone, PartialEq)]
pub struct AipDocument {
    pub id: String,
    pub icao: String,
    pub source: AipDocSource,
    pub provider_relative_url: String,
    pub airac_code: String,
}

/// Title of an AIP document of aerodrome `icao`.
pub open spec fn aip_doc_title(icao: Seq<char>, source: AipDocSource) -> Seq<char> {
    match source {
        AipDocSource::Sia => "AIP "@ + icao + " (SIA)"@,
        AipDocSource::Uk => "AIP "@ + icao + " (NATS)"@,
    }
}

impl AipDocument {
    /// A copy of this document reference.
    pub fn duplicate(&self) -> (r: AipDocument)
        ensures
            r == *self,
    {
        AipDocument {
            id: self.id.clone(),
            icao: self.icao.clone(),
            source: self.source,
            provider_relative_url: self.provider_relative_url.clone(),
            airac_code: self.airac_code.clone(),
        }
    }

    /// Title, e.g. `AIP LFPG (SIA)`.
    pub fn title(&self) -> (r: String)
        ensures
            r@ == aip_doc_title(self.icao@, self.source),
    {
        let mut v: Vec<char> = Vec::new();
        push_str(&mut v, "AIP ");
        push_str(&mut v, self.icao.as_str());
        match self.source {
            AipDocSource::Sia => push_str(&mut v, " (SIA)"),
            AipDocSource::Uk => push_str(&mut v, " (NATS)"),
        }
        string_of(&v)
    }

    /// The effective URL of this document for a target AIRAC cycle.
    pub fn url_for_airac(&self, airac: &AiracCycle) -> (r: String)
        requires
            airac.start_date.is_valid(),
        ensures
            r@ == resolve_url(
                doc_provider_base(self.source, airac.start_date),
                self.provider_relative_url@,
            ),
    {
        let base = match self.source {
            AipDocSource::Sia => eaip_base_url(airac),
            AipDocSource::Uk => nats_base_of(airac),
        };
        resolve_url_of(&base, self.provider_relative_url.as_str())
    }

    /// The effective URL of this document in cycle `c`, when there is a cycle.
    pub open spec fn url_in_cycle(self, c: Option<AiracCycle>) -> Option<Seq<char>> {
        match c {
            Some(c) => Some(resolve_url(doc_provider_base(self.source, c.start_date), self.provider_relative_url@)),
            None => None,
        }
    }

    /// The effective URL of this document for the cycle in effect today, or `None` when
    /// today's cycle runs past the representable dates. Which day today is comes from the
    /// clock.
    pub fn runtime_url(&self) -> (r: Option<String>)
        ensures
            exists|today: CalendarDate, c: Option<AiracCycle>| #[trigger] cycle_on(today, c)
                && opt_string_view(r) == self.url_in_cycle(c),
    {
        let c = AiracCycle::current();
        let ghost today = choose|today: CalendarDate| #[trigger] cycle_on(today, c);
        let r = match &c {
            Some(cy) => Some(self.url_for_airac(cy)),
            None => None,
        };
        assert(cycle_on(today, c) && opt_string_view(r) == self.url_in_cycle(c));
        r
    }
}

} // verus!
