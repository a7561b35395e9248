//! The terminal dashboard's state, and how it reacts to results and key presses.
use crate::models::{DriveInfo, TuxPayload};
use crate::smart::opt_text;
use crate::text::{decimal, push_decimal, push_str, string_texts};
use vstd::prelude::*;

verus! {

broadcast use vstd::string::group_string_axioms;

#[verifier::external_type_specification]
#[verifier::external_body]
pub struct ExInstant(std::time::Instant);

/// What the dashboard shows and whether work is under way.
pub struct App {
    pub payload: Option<TuxPayload>,
    pub analysis: Option<String>,
    pub status: String,
    pub diagnostics: Vec<String>,
    pub is_loading: bool,
    pub is_analyzing: bool,
    pub last_refresh: Option<std::time::Instant>,
}

/// What the dashboard asks its runner to do after a key press.
#[derive(Debug, Clone, Copy, PartialEq, Eq, Structural)]
pub enum UiAction {
    /// Nothing to start.
    Nothing,
    /// Leave the dashboard.
    Quit,
    /// Collect a fresh payload.
    Refresh,
    /// Analyze the payload on display.
    Analyze,
}

pub const KEYS_HELP: &'static str = "Keys: [r] refresh  [a] analyze  [q] quit";

pub const BACKEND_NOTE: &'static str = "The dashboard renders the shared backend payload; no UI-side hardware logic is used.";

impl App {
    /// The dashboard before its first payload arrives: loading, with the key help.
    pub fn new() -> (r: Self)
        ensures
            r.payload is None,
            r.analysis is None,
            r.status@ == "Starting TuxTests terminal dashboard..."@,
            r.diagnostics@.len() == 2,
            r.diagnostics@[0]@ == KEYS_HELP@,
            r.diagnostics@[1]@ == BACKEND_NOTE@,
            r.is_loading,
            !r.is_analyzing,
            r.last_refresh is None,
    {
        App {
            payload: None,
            analysis: None,
            status: "Starting TuxTests terminal dashboard...".to_string(),
            diagnostics: vec![KEYS_HELP.to_string(), BACKEND_NOTE.to_string()],
            is_loading: true,
            is_analyzing: false,
            last_refresh: None,
        }
    }

    /// Shows a freshly collected payload, collected at `now`.
    pub fn set_payload(&mut self, payload: TuxPayload, now: std::time::Instant)
        ensures
            final(self).status@ == "Loaded payload with "@ + crate::text::decimal(
                payload.drives@.len() as nat,
            ) + " drives. Press [a] to run AI analysis."@,
            final(self).last_refresh == Some(now),
            final(self).payload == Some(payload),
            !final(self).is_loading,
            final(self).analysis == old(self).analysis,
            final(self).diagnostics == old(self).diagnostics,
            final(self).is_analyzing == old(self).is_analyzing,
    {
        let mut status = "Loaded payload with ".to_string();
        push_decimal(&mut status, payload.drives.len() as u64);
        push_str(&mut status, " drives. Press [a] to run AI analysis.");
        self.status = status;
        self.last_refresh = Some(now);
        self.payload = Some(payload);
        self.is_loading = false;
    }

    /// Shows the outcome of an analysis: its Markdown, or its error among the diagnostics.
    pub fn set_analysis(&mut self, result: Result<String, String>)
        ensures
            !final(self).is_analyzing,
            final(self).payload == old(self).payload,
            final(self).is_loading == old(self).is_loading,
            final(self).last_refresh == old(self).last_refresh,
            match result {
                Ok(markdown) => final(self).status@ == "AI analysis completed."@
                    && final(self).analysis == Some(markdown) && final(self).diagnostics
                    == old(self).diagnostics,
                Err(err) => final(self).status@ == "AI analysis failed."@ && final(self).analysis == old(self).analysis && final(self).diagnostics@ == old(self).diagnostics@.push(err),
            },
    {
        self.is_analyzing = false;
        match result {
            Ok(markdown) => {
                self.status = "AI analysis completed.".to_string();
                self.analysis = Some(markdown);
            },
            Err(err) => {
                self.status = "AI analysis failed.".to_string();
                self.diagnostics.push(err);
            },
        }
    }

    /// Reacts to a key: `q` quits; `r` starts a refresh unless one runs; `a` starts an
    /// analysis of the payload on display unless one runs (or notes that there is no
    /// payload yet).
    pub fn handle_key(&mut self, key: char) -> (r: UiAction)
        ensures
            final(self).payload == old(self).payload,
            final(self).analysis == old(self).analysis,
            final(self).last_refresh == old(self).last_refresh,
            key == 'q' ==> r == UiAction::Quit && *final(self) == *old(self),
            key == 'r' ==> if !old(self).is_loading {
                r == UiAction::Refresh && final(self).is_loading && final(self).status@
                    == "Refreshing hardware payload..."@ && final(self).diagnostics
                    == old(self).diagnostics && final(self).is_analyzing == old(self).is_analyzing
            } else {
                r == UiAction::Nothing && *final(self) == *old(self)
            },
            key == 'a' ==> if old(self).is_analyzing {
                r == UiAction::Nothing && *final(self) == *old(self)
            } else if old(self).payload is Some {
                r == UiAction::Analyze && final(self).is_analyzing && final(self).status@
                    == "Running AI analysis..."@ && final(self).diagnostics == old(self).diagnostics && final(self).is_loading == old(self).is_loading
            } else {
                r == UiAction::Nothing && final(self).status == old(self).status
                    && final(self).diagnostics@ == old(self).diagnostics@.push(
                    final(self).diagnostics@.last(),
                ) && final(self).diagnostics@.last()@
                    == "Cannot analyze yet: no payload has been collected."@
                    && final(self).is_loading == old(self).is_loading
                    && final(self).is_analyzing == old(self).is_analyzing
            },
            key != 'q' && key != 'r' && key != 'a' ==> r == UiAction::Nothing && *final(self)
                == *old(self),
    {
        if key == 'q' {
            UiAction::Quit
        } else if key == 'r' {
            if !self.is_loading {
                self.status = "Refreshing hardware payload...".to_string();
                self.is_loading = true;
                UiAction::Refresh
            } else {
                UiAction::Nothing
            }
        } else if key == 'a' {
            if !self.is_analyzing {
                if self.payload.is_some() {
                    self.status = "Running AI analysis...".to_string();
                    self.is_analyzing = true;
                    UiAction::Analyze
                } else {
                    self.diagnostics.push(
                        "Cannot analyze yet: no payload has been collected.".to_string(),
                    );
                    UiAction::Nothing
                }
            } else {
                UiAction::Nothing
            }
        } else {
            UiAction::Nothing
        }
    }
}

// ---------------------------------------------------------------------------
// What the panels show
// ---------------------------------------------------------------------------
/// The title of the header panel.
pub open spec fn header_title_text(payload: Option<TuxPayload>) -> Seq<char> {
    match payload {
        Some(p) => "TuxTests TUI | "@ + p.system.hostname@ + " | "@ + decimal(
            p.drives@.len() as nat,
        ) + " drives"@,
        None => "TuxTests TUI | loading..."@,
    }
}

/// A text, or `Unknown` without one.
pub open spec fn or_unknown(o: Option<Seq<char>>) -> Seq<char> {
    match o {
        Some(s) => s,
        None => "Unknown"@,
    }
}

/// The labelled lines of the system summary panel.
pub open spec fn summary_line_texts(p: TuxPayload, os_name: Option<Seq<char>>) -> Seq<
    (Seq<char>, Seq<char>),
> {
    seq![
        ("OS: "@, or_unknown(os_name)),
        ("Kernel: "@, p.system.kernel_version@),
        ("CPU: "@, p.system.cpu@),
        ("RAM: "@, decimal(p.system.ram_gb as nat) + " GB"@),
        ("ASPM Policy: "@, or_unknown(opt_text(p.system.pcie_aspm_policy))),
    ]
}

/// The cells of a drive's row in the drives table.
pub open spec fn drive_row_texts(d: DriveInfo) -> Seq<Seq<char>> {
    seq![
        d.name@,
        d.drive_type@,
        d.connection@,
        decimal(d.capacity_gb as nat) + " GB"@,
        decimal(d.usage_percent as nat) + "%"@,
        if d.health_ok {
            "OK"@
        } else {
            "WARN"@
        },
    ]
}

/// The main text of the analysis panel.
pub open spec fn analysis_text_of(is_analyzing: bool, analysis: Option<String>) -> Seq<char> {
    if is_analyzing {
        "AI analysis in progress..."@
    } else {
        match analysis {
            Some(a) => a@,
            None => "No analysis yet. Press [a] to analyze or [r] to refresh."@,
        }
    }
}

/// Where the last (at most three) diagnostics start.
pub open spec fn recent_start(n: nat) -> int {
    if n > 3 {
        n - 3
    } else {
        0
    }
}

pub open spec fn pair_texts(v: Seq<(String, String)>) -> Seq<(Seq<char>, Seq<char>)> {
    v.map_values(|x: (String, String)| (x.0@, x.1@))
}

pub open spec fn row_texts(rows: Seq<Vec<String>>) -> Seq<Seq<Seq<char>>> {
    rows.map_values(|r: Vec<String>| string_texts(r@))
}

fn labelled(label: &str, value: String) -> (r: (String, String))
    ensures
        r.0@ == label@,
        r.1@ == value@,
{
    (label.to_string(), value)
}

fn text_or_unknown(o: &Option<String>) -> (r: String)
    ensures
        r@ == or_unknown(opt_text(*o)),
{
    match o {
        Some(s) => s.clone(),
        None => "Unknown".to_string(),
    }
}

fn number_with(n: u64, unit: &str) -> (r: String)
    ensures
        r@ == decimal(n as nat) + unit@,
{
    let mut s = String::new();
    push_decimal(&mut s, n);
    push_str(&mut s, unit);
    s
}

fn drive_row(d: &DriveInfo) -> (r: Vec<String>)
    ensures
        string_texts(r@) == drive_row_texts(*d),
{
    let health = if d.health_ok {
        "OK".to_string()
    } else {
        "WARN".to_string()
    };
    let r = vec![
        d.name.clone(),
        d.drive_type.clone(),
        d.connection.clone(),
        number_with(d.capacity_gb, " GB"),
        number_with(d.usage_percent as u64, "%"),
        health,
    ];
    assert(string_texts(r@) =~= drive_row_texts(*d));
    r
}

impl App {
    /// The title of the header panel: the host and its drive count once a payload is on
    /// display.
    pub fn header_title(&self) -> (r: String)
        ensures
            r@ == header_title_text(self.payload),
    {
        match &self.payload {
            Some(p) => {
                let mut s = "TuxTests TUI | ".to_string();
                push_str(&mut s, p.system.hostname.as_str());
                push_str(&mut s, " | ");
                push_decimal(&mut s, p.drives.len() as u64);
                push_str(&mut s, " drives");
                s
            },
            None => "TuxTests TUI | loading...".to_string(),
        }
    }

    /// The labelled lines of the system summary panel, once a payload is on display;
    /// `os_name` is the payload's `PRETTY_NAME` entry of os-release.
    pub fn summary_lines(&self, os_name: Option<String>) -> (r: Option<Vec<(String, String)>>)
        ensures
            match self.payload {
                Some(p) => r matches Some(v) && pair_texts(v@) == summary_line_texts(
                    p,
                    opt_text(os_name),
                ),
                None => r is None,
            },
    {
        match &self.payload {
            Some(p) => {
                let lines = vec![
                    labelled("OS: ", text_or_unknown(&os_name)),
                    labelled("Kernel: ", p.system.kernel_version.clone()),
                    labelled("CPU: ", p.system.cpu.clone()),
                    labelled("RAM: ", number_with(p.system.ram_gb, " GB")),
                    labelled("ASPM Policy: ", text_or_unknown(&p.system.pcie_aspm_policy)),
                ];
                assert(pair_texts(lines@) =~= summary_line_texts(*p, opt_text(os_name)));
                Some(lines)
            },
            None => None,
        }
    }

    /// The rows of the drives table: name, type, connection, size, use and health.
    pub fn drive_rows(&self) -> (r: Vec<Vec<String>>)
        ensures
            match self.payload {
                Some(p) => row_texts(r@) == p.drives@.map_values(|d: DriveInfo| drive_row_texts(d)),
                None => r@.len() == 0,
            },
    {
        let mut rows: Vec<Vec<String>> = Vec::new();
        match &self.payload {
            Some(p) => {
                let mut i: usize = 0;
                while i < p.drives.len()
                    invariant
                        i <= p.drives.len(),
                        row_texts(rows@) == p.drives@.take(i as int).map_values(
                            |d: DriveInfo| drive_row_texts(d),
                        ),
                    decreases p.drives.len() - i,
                {
                    let row = drive_row(&p.drives[i]);
                    let ghost before = rows@;
                    let ghost cells = string_texts(row@);
                    rows.push(row);
                    assert(row_texts(rows@) =~= row_texts(before).push(cells));
                    assert(p.drives@.take(i + 1) =~= p.drives@.take(i as int).push(
                        p.drives@[i as int],
                    ));
                    assert(row_texts(rows@) =~= p.drives@.take(i + 1).map_values(
                        |d: DriveInfo| drive_row_texts(d),
                    ));
                    i = i + 1;
                }
                assert(p.drives@.take(p.drives.len() as int) =~= p.drives@);
            },
            None => {},
        }
        rows
    }

    /// The analysis panel: its main text, then the last (at most three) diagnostics, each
    /// as a list item.
    pub fn analysis_lines(&self) -> (r: (String, Vec<String>))
        ensures
            r.0@ == analysis_text_of(self.is_analyzing, self.analysis),
            r.1@.len() == self.diagnostics@.len() - recent_start(self.diagnostics@.len()),
            forall|i: int|
                0 <= i < r.1@.len() ==> (#[trigger] r.1@[i])@ == "- "@ + self.diagnostics@[recent_start(
                    self.diagnostics@.len(),
                ) + i]@,
    {
        let text = if self.is_analyzing {
            "AI analysis in progress...".to_string()
        } else {
            match &self.analysis {
                Some(a) => a.clone(),
                None => "No analysis yet. Press [a] to analyze or [r] to refresh.".to_string(),
            }
        };
        let n = self.diagnostics.len();
        let start: usize = if n > 3 {
            n - 3
        } else {
            0
        };
        let mut recent: Vec<String> = Vec::new();
        let mut i: usize = start;
        while i < n
            invariant
                start <= i <= n,
                n == self.diagnostics@.len(),
                start == recent_start(n as nat),
                recent@.len() == i - start,
                forall|j: int|
                    0 <= j < recent@.len() ==> (#[trigger] recent@[j])@ == "- "@
                        + self.diagnostics@[start + j]@,
            decreases n - i,
        {
            let mut line = "- ".to_string();
            push_str(&mut line, self.diagnostics[i].as_str());
            recent.push(line);
            i = i + 1;
        }
        (text, recent)
    }
}

} // verus!
