//! Tabs, theme preference and the application state that the tab logic works on.
use vstd::prelude::*;
use std::collections::HashMap;
use crate::calendar::local_hour;
use crate::i18n::AppLanguage;
use crate::models::{aip_doc_title, chart_display_title, AipDocument, Chart, ChartView, Notice, Workspace};
use crate::text::{push_str, string_of};

verus! {

/// A rendered PDF page as a base64 PNG data URL.
#[derive(Debug, Clone, PartialEq)]
pub struct RenderedPage {
    /// `data:image/png;base64,...`
    pub data_url: String,
    /// 0-based page index.
    pub index: usize,
}

/// State of a PDF rendering.
#[derive(Debug, Clone, PartialEq)]
pub enum PdfState {
    Loading,
    Partial(Vec<RenderedPage>),
    Rendered(Vec<RenderedPage>),
    Error(String),
}

/// Which mode the nano sidebar is showing.
#[derive(Debug, Clone, Copy, PartialEq, Eq, Structural)]
pub enum SidebarMode {
    Airports,
    Workspaces,
    Settings,
    Help,
}

/// Theme behavior selected by the user.
#[derive(Debug, Clone, Copy, PartialEq, Eq, Structural)]
pub enum ThemeMode {
    Light,
    Dark,
    AutoTime,
    AutoSystem,
}

/// Content of an open tab.
#[derive(Debug, Clone, PartialEq)]
pub enum TabContent {
    /// A PDF chart.
    Chart { chart: Chart, airport: String },
    /// A textual AIP HTML document.
    AipDoc { doc: AipDocument },
    /// ATIS / METAR / TAF of an aerodrome.
    Atis { icao: String },
    /// Workspace notes editor.
    Notes,
}

/// An open tab.
#[derive(Debug, Clone, PartialEq)]
pub struct Tab {
    pub id: String,
    pub content: TabContent,
}

/// Well-known tab id of the notes tab.
pub const NOTES_TAB_ID: &'static str = "__notes__";

/// The contents of a tab, as values.
pub enum TabContentView {
    Chart { chart: ChartView, airport: Seq<char> },
    AipDoc { doc: AipDocument },
    Atis { icao: Seq<char> },
    Notes,
}

/// A tab, as values.
pub struct TabView {
    pub id: Seq<char>,
    pub content: TabContentView,
}

impl View for Tab {
    type V = TabView;

    open spec fn view(&self) -> TabView {
        TabView {
            id: self.id@,
            content: match self.content {
                TabContent::Chart { chart, airport } => TabContentView::Chart {
                    chart: chart@,
                    airport: airport@,
                },
                TabContent::AipDoc { doc } => TabContentView::AipDoc { doc },
                TabContent::Atis { icao } => TabContentView::Atis { icao: icao@ },
                TabContent::Notes => TabContentView::Notes,
            },
        }
    }
}

/// Id of the ATIS tab of aerodrome `icao`.
pub open spec fn atis_tab_id(icao: Seq<char>) -> Seq<char> {
    "atis_"@ + icao
}

/// The chart tab of `chart` at `airport`, as values.
pub open spec fn chart_tab_view(chart: ChartView, airport: Seq<char>) -> TabView {
    TabView { id: chart.id, content: TabContentView::Chart { chart, airport } }
}

/// The notes tab, as values.
pub open spec fn notes_tab_view() -> TabView {
    TabView { id: "__notes__"@, content: TabContentView::Notes }
}

/// The AIP document tab of `doc`, as values.
pub open spec fn aip_tab_view(doc: AipDocument) -> TabView {
    TabView { id: doc.id@, content: TabContentView::AipDoc { doc } }
}

/// The ATIS tab of aerodrome `icao`, as values.
pub open spec fn atis_tab_view(icao: Seq<char>) -> TabView {
    TabView { id: atis_tab_id(icao), content: TabContentView::Atis { icao } }
}

/// Whether a tab is the notes tab.
pub open spec fn is_notes_tab(t: TabView) -> bool {
    t.content is Notes
}

/// Title shown in the tab bar.
pub open spec fn tab_title(t: TabView) -> Seq<char> {
    match t.content {
        TabContentView::Chart { chart, .. } => chart_display_title(chart),
        TabContentView::AipDoc { doc } => aip_doc_title(doc.icao@, doc.source),
        TabContentView::Atis { icao } => "ATIS "@ + icao,
        TabContentView::Notes => "Notes"@,
    }
}

/// Chart id of a chart tab.
pub open spec fn tab_chart_id(t: TabView) -> Option<Seq<char>> {
    match t.content {
        TabContentView::Chart { chart, .. } => Some(chart.id),
        _ => None,
    }
}

impl Tab {
    /// The chart tab of `chart` at `airport`.
    pub fn chart(chart: Chart, airport: String) -> (r: Tab)
        ensures
            r@ == chart_tab_view(chart@, airport@),
    {
        Tab { id: chart.id.clone(), content: TabContent::Chart { chart, airport } }
    }

    /// The notes tab.
    pub fn notes() -> (r: Tab)
        ensures
            r@ == notes_tab_view(),
    {
        let mut v: Vec<char> = Vec::new();
        push_str(&mut v, NOTES_TAB_ID);
        Tab { id: string_of(&v), content: TabContent::Notes }
    }

    /// The AIP document tab of `doc`.
    pub fn aip_doc(doc: AipDocument) -> (r: Tab)
        ensures
            r@ == aip_tab_view(doc),
    {
        Tab { id: doc.id.clone(), content: TabContent::AipDoc { doc } }
    }

    /// The ATIS tab of aerodrome `icao`.
    pub fn atis(icao: String) -> (r: Tab)
        ensures
            r@ == atis_tab_view(icao@),
    {
        let mut v: Vec<char> = Vec::new();
        push_str(&mut v, "atis_");
        push_str(&mut v, icao.as_str());
        Tab { id: string_of(&v), content: TabContent::Atis { icao } }
    }

    /// A copy of this tab.
    pub fn duplicate(&self) -> (r: Tab)
        ensures
            r@ == self@,
    {
        let content = match &self.content {
            TabContent::Chart { chart, airport } => TabContent::Chart {
                chart: chart.duplicate(),
                airport: airport.clone(),
            },
            TabContent::AipDoc { doc } => TabContent::AipDoc { doc: doc.duplicate() },
            TabContent::Atis { icao } => TabContent::Atis { icao: icao.clone() },
            TabContent::Notes => TabContent::Notes,
        };
        Tab { id: self.id.clone(), content }
    }

    /// Whether this is the notes tab.
    pub fn is_notes(&self) -> (r: bool)
        ensures
            r == is_notes_tab(self@),
    {
        match self.content {
            TabContent::Notes => true,
            _ => false,
        }
    }

    /// Title shown in the tab bar.
    pub fn title(&self) -> (r: String)
        ensures
            r@ == tab_title(self@),
    {
        match &self.content {
            TabContent::Chart { chart, .. } => {
                let mut v: Vec<char> = Vec::new();
                push_str(&mut v, chart.display_title());
                string_of(&v)
            },
            TabContent::AipDoc { doc } => doc.title(),
            TabContent::Atis { icao } => {
                let mut v: Vec<char> = Vec::new();
                push_str(&mut v, "ATIS ");
                push_str(&mut v, icao.as_str());
                string_of(&v)
            },
            TabContent::Notes => {
                let mut v: Vec<char> = Vec::new();
                push_str(&mut v, "Notes");
                string_of(&v)
            },
        }
    }

    /// The chart id if this is a chart tab.
    pub fn chart_id(&self) -> (r: Option<&str>)
        ensures
            match r {
                Some(s) => tab_chart_id(self@) == Some(s@),
                None => tab_chart_id(self@) is None,
            },
    {
        match &self.content {
            TabContent::Chart { chart, .. } => Some(chart.id.as_str()),
            TabContent::AipDoc { .. } => None,
            TabContent::Atis { .. } => None,
            TabContent::Notes => None,
        }
    }
}

/// Global application state.
#[derive(Debug, Clone)]
pub struct AppState {
    /// Current sidebar mode.
    pub sidebar_mode: SidebarMode,
    /// Whether the navigator panel is visible.
    pub nav_open: bool,
    /// Current ICAO search.
    pub search_icao: String,
    /// Whether a search is in progress.
    pub loading: bool,
    /// Search error message.
    pub error: Option<String>,
    /// Charts from the last search.
    pub charts: Vec<Chart>,
    /// Notices from the last search.
    pub notices: Vec<Notice>,
    /// Airport AIP textual document.
    pub aip_doc: Option<AipDocument>,
    /// Open tabs.
    pub tabs: Vec<Tab>,
    /// Index of the active tab.
    pub active_tab: Option<usize>,
    /// Saved workspaces.
    pub workspaces: Vec<Workspace>,
    /// Currently loaded workspace id.
    pub active_workspace_id: Option<String>,
    /// PDF download cache (chart id to rendering state).
    pub pdf_cache: HashMap<String, PdfState>,
    /// Per-workspace zoom level (chart id to zoom percent).
    pub chart_zoom: HashMap<String, u32>,
    /// Whether notes are pinned as a side panel.
    pub notes_pinned: bool,
    /// Quick chart switcher overlay visibility.
    pub quick_switcher_open: bool,
    /// Quick chart switcher query.
    pub quick_switcher_query: String,
    /// Whether this state is rendered in a popout window.
    pub is_popout: bool,
    /// Whether the main window should sync tabs after a popout closes.
    pub popout_sync_pending: bool,
    /// Whether night mode is enabled for charts.
    pub night_mode: bool,
    /// Current theme mode preference.
    pub theme_mode: ThemeMode,
    /// Current UI language.
    pub language: AppLanguage,
}

impl Default for AppState {
    fn default() -> (r: Self)
        ensures
            r.sidebar_mode == SidebarMode::Airports,
            r.nav_open,
            r.search_icao@.len() == 0,
            !r.loading,
            r.error is None,
            r.charts@.len() == 0,
            r.notices@.len() == 0,
            r.aip_doc is None,
            r.tabs@.len() == 0,
            r.active_tab is None,
            r.workspaces@.len() == 0,
            r.active_workspace_id is None,
            r.pdf_cache@.len() == 0,
            r.chart_zoom@.len() == 0,
            !r.notes_pinned,
            !r.quick_switcher_open,
            r.quick_switcher_query@.len() == 0,
            !r.is_popout,
            !r.popout_sync_pending,
            !r.night_mode,
            r.theme_mode == ThemeMode::AutoTime,
            r.language == AppLanguage::Fr,
    {
        AppState {
            sidebar_mode: SidebarMode::Airports,
            nav_open: true,
            search_icao: String::new(),
            loading: false,
            error: None,
            charts: Vec::new(),
            notices: Vec::new(),
            aip_doc: None,
            tabs: Vec::new(),
            active_tab: None,
            workspaces: Vec::new(),
            active_workspace_id: None,
            pdf_cache: HashMap::new(),
            chart_zoom: HashMap::new(),
            notes_pinned: false,
            quick_switcher_open: false,
            quick_switcher_query: String::new(),
            is_popout: false,
            popout_sync_pending: false,
            night_mode: false,
            theme_mode: ThemeMode::AutoTime,
            language: AppLanguage::Fr,
        }
    }
}

/// What the operating system reports of its theme.
#[derive(Debug, Clone, Copy, PartialEq, Eq, Structural)]
pub enum SystemTheme {
    Dark,
    Light,
    Unspecified,
}

/// The system theme (`dark_light::detect`), its variants told apart one for one; a detection
/// error is read as `Unspecified`. Nothing is claimed of which one comes back: it depends on
/// the desktop environment.
#[verifier::external_body]
fn system_theme() -> SystemTheme {
    match dark_light::detect() {
        Ok(dark_light::Mode::Dark) => SystemTheme::Dark,
        Ok(dark_light::Mode::Light) => SystemTheme::Light,
        Ok(dark_light::Mode::Unspecified) => SystemTheme::Unspecified,
        Err(_) => SystemTheme::Unspecified,
    }
}

/// Whether `hour` of the local clock falls at night (from 20:00 to 06:59).
pub open spec fn is_night_hour(hour: int) -> bool {
    hour >= 20 || hour < 7
}

/// Night mode for a theme mode, given the local hour and the system theme.
pub open spec fn night_mode_for(mode: ThemeMode, hour: int, system: SystemTheme) -> bool {
    match mode {
        ThemeMode::Light => false,
        ThemeMode::Dark => true,
        ThemeMode::AutoTime => is_night_hour(hour),
        ThemeMode::AutoSystem => match system {
            SystemTheme::Dark => true,
            SystemTheme::Light => false,
            SystemTheme::Unspecified => is_night_hour(hour),
        },
    }
}

/// Whether `r` is the night mode of `mode` for some hour of the day and some system theme.
pub open spec fn night_mode_possible(mode: ThemeMode, r: bool) -> bool {
    exists|h: int, s: SystemTheme| 0 <= h < 24 && r == night_mode_for(mode, h, s)
}

/// Night mode for a theme mode, given the local hour and the system theme.
pub fn night_mode_with(mode: ThemeMode, hour: u32, system: SystemTheme) -> (r: bool)
    ensures
        r == night_mode_for(mode, hour as int, system),
{
    let night_hour = hour >= 20 || hour < 7;
    match mode {
        ThemeMode::Light => false,
        ThemeMode::Dark => true,
        ThemeMode::AutoTime => night_hour,
        ThemeMode::AutoSystem => match system {
            SystemTheme::Dark => true,
            SystemTheme::Light => false,
            SystemTheme::Unspecified => night_hour,
        },
    }
}

/// Whether charts are shown in night mode under `mode`, reading the local clock and the
/// system theme where the mode follows them.
pub fn resolve_night_mode(mode: ThemeMode) -> (r: bool)
    ensures
        night_mode_possible(mode, r),
        mode == ThemeMode::Light ==> !r,
        mode == ThemeMode::Dark ==> r,
{
    match mode {
        ThemeMode::Light => {
            assert(!night_mode_for(mode, 0, SystemTheme::Light));
            false
        },
        ThemeMode::Dark => {
            assert(night_mode_for(mode, 0, SystemTheme::Light));
            true
        },
        ThemeMode::AutoTime => {
            let h = local_hour();
            let r = night_mode_with(mode, h, SystemTheme::Unspecified);
            assert(r == night_mode_for(mode, h as int, SystemTheme::Unspecified));
            r
        },
        ThemeMode::AutoSystem => {
            let s = system_theme();
            let h = local_hour();
            let r = night_mode_with(mode, h, s);
            assert(r == night_mode_for(mode, h as int, s));
            r
        },
    }
}

/// The theme mode preference of the running application; unset until first read or set.
#[derive(Debug, Clone, Copy, PartialEq, Eq)]
pub struct ThemeModeSetting {
    pub mode: Option<ThemeMode>,
}

impl ThemeModeSetting {
    /// An unset preference.
    pub fn new() -> (r: ThemeModeSetting)
        ensures
            r.mode is None,
    {
        ThemeModeSetting { mode: None }
    }
}

/// Reading the theme mode: the mode set, else `AutoTime`, which then stays set.
pub open spec fn theme_read(s: ThemeModeSetting) -> (ThemeMode, ThemeModeSetting) {
    match s.mode {
        Some(m) => (m, s),
        None => (ThemeMode::AutoTime, ThemeModeSetting { mode: Some(ThemeMode::AutoTime) }),
    }
}

/// The preference after the theme mode is set to `m`.
pub open spec fn theme_after_set(s: ThemeModeSetting, m: ThemeMode) -> ThemeModeSetting {
    ThemeModeSetting { mode: Some(m) }
}

/// The theme mode; an unset preference becomes `AutoTime` and stays so.
pub fn get_theme_mode(setting: &mut ThemeModeSetting) -> (r: ThemeMode)
    ensures
        (r, *final(setting)) == theme_read(*old(setting)),
{
    match setting.mode {
        Some(mode) => mode,
        None => {
            let mode = ThemeMode::AutoTime;
            setting.mode = Some(mode);
            mode
        },
    }
}

/// Sets the theme mode.
pub fn set_theme_mode(setting: &mut ThemeModeSetting, mode: ThemeMode)
    ensures
        *final(setting) == theme_after_set(*old(setting), mode),
{
    setting.mode = Some(mode);
}

/// Night mode under the current theme mode.
pub fn get_night_mode(setting: &mut ThemeModeSetting) -> (r: bool)
    ensures
        *final(setting) == theme_read(*old(setting)).1,
        night_mode_possible(theme_read(*old(setting)).0, r),
        theme_read(*old(setting)).0 == ThemeMode::Light ==> !r,
        theme_read(*old(setting)).0 == ThemeMode::Dark ==> r,
{
    let mode = get_theme_mode(setting);
    resolve_night_mode(mode)
}

/// A theme mode that was set is the one read back, and reading it changes nothing.
pub proof fn law_theme_mode_read_gives_back_write(s: ThemeModeSetting, m: ThemeMode)
    ensures
        theme_read(theme_after_set(s, m)) == (m, theme_after_set(s, m)),
{
}

/// Once read, the theme mode stays what the first read gave.
pub proof fn law_theme_mode_read_is_stable(s: ThemeModeSetting)
    ensures
        theme_read(theme_read(s).1) == theme_read(s),
{
}

/// The stored value of a theme mode.
pub open spec fn theme_value(m: ThemeMode) -> Seq<char> {
    match m {
        ThemeMode::Light => "light"@,
        ThemeMode::Dark => "dark"@,
        ThemeMode::AutoTime => "auto_time"@,
        ThemeMode::AutoSystem => "auto_system"@,
    }
}

/// The theme mode a stored value names; `None` for any other value.
pub open spec fn theme_of_value(v: Seq<char>) -> Option<ThemeMode> {
    if v == "light"@ {
        Some(ThemeMode::Light)
    } else if v == "dark"@ {
        Some(ThemeMode::Dark)
    } else if v == "auto_time"@ {
        Some(ThemeMode::AutoTime)
    } else if v == "auto_system"@ {
        Some(ThemeMode::AutoSystem)
    } else {
        None
    }
}

/// The stored value of a theme mode.
pub fn theme_mode_setting_value(mode: ThemeMode) -> (r: &'static str)
    ensures
        r@ == theme_value(mode),
{
    match mode {
        ThemeMode::Light => "light",
        ThemeMode::Dark => "dark",
        ThemeMode::AutoTime => "auto_time",
        ThemeMode::AutoSystem => "auto_system",
    }
}

/// The theme mode a stored value names.
pub fn parse_theme_mode_setting(value: &str) -> (r: Option<ThemeMode>)
    ensures
        r == theme_of_value(value@),
{
    if crate::text::same_text(value, "light") {
        Some(ThemeMode::Light)
    } else if crate::text::same_text(value, "dark") {
        Some(ThemeMode::Dark)
    } else if crate::text::same_text(value, "auto_time") {
        Some(ThemeMode::AutoTime)
    } else if crate::text::same_text(value, "auto_system") {
        Some(ThemeMode::AutoSystem)
    } else {
        None
    }
}

/// A stored theme mode reads back as the mode stored.
pub proof fn law_theme_value_round_trip(m: ThemeMode)
    ensures
        theme_of_value(theme_value(m)) == Some(m),
{
    reveal_strlit("light");
    reveal_strlit("dark");
    reveal_strlit("auto_time");
    reveal_strlit("auto_system");
    assert("light"@ != "dark"@) by { assert("light"@[0] != "dark"@[0]); }
    assert("light"@ != "auto_time"@) by { assert("light"@[0] != "auto_time"@[0]); }
    assert("light"@ != "auto_system"@) by { assert("light"@[0] != "auto_system"@[0]); }
    assert("dark"@ != "auto_time"@) by { assert("dark"@[0] != "auto_time"@[0]); }
    assert("dark"@ != "auto_system"@) by { assert("dark"@[0] != "auto_system"@[0]); }
    assert("auto_time"@ != "auto_system"@) by { assert("auto_time"@.len() != "auto_system"@.len()); }
}

} // verus!
