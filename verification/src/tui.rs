//! The flight deck: what its four quadrants (tenants, namespaces, reconcile
//! logs, chaos panel) and its header show. Drawing them is left to the
//! terminal.

use crate::store::{is_record_listing, record_views, Store, TenantPhase, TenantRecord, TenantRecordView};
use crate::text::{decimal, decimal_count, decimal_text, has_char, has_text, left_justified, left_justify, occurs_in, texts};
use vstd::prelude::*;

verus! {

/// How long the screen waits for a key before it is drawn anew, in
/// milliseconds.
pub const TICK_MILLIS: u64 = 250;

/// `s` if it fits into `max_width` characters; otherwise as much of it as
/// leaves room for an ellipsis.
pub open spec fn truncated(s: Seq<char>, max_width: int) -> Seq<char> {
    if s.len() <= max_width {
        s
    } else if max_width <= 0 {
        "…"@
    } else {
        s.subrange(0, max_width - 1) + "…"@
    }
}

/// Shortens a line to a number of characters, whatever their encoded length.
pub fn truncate_display(s: &str, max_width: usize) -> (r: String)
    ensures
        r@ == truncated(s@, max_width as int),
{
    let n: usize = s.unicode_len();
    if n <= max_width {
        return s.to_owned();
    }
    if max_width == 0 {
        return "…".to_owned();
    }
    s.substring_char(0, max_width - 1).to_owned().concat("…")
}

/// A shortened line fits into its width, ends in an ellipsis where something
/// was cut, and is otherwise the line itself. A line never fits into no
/// width at all.
pub proof fn law_truncation_fits(s: Seq<char>, max_width: int)
    requires
        max_width >= 1,
    ensures
        truncated(s, max_width).len() <= max_width,
        s.len() <= max_width ==> truncated(s, max_width) == s,
        s.len() > max_width ==> {
            let t = truncated(s, max_width);
            &&& t.len() == max_width
            &&& t.last() == '…'
            &&& t.drop_last() == s.subrange(0, max_width - 1)
        },
        truncated(truncated(s, max_width), max_width) == truncated(s, max_width),
{
    reveal_strlit("…");
    if s.len() > max_width {
        assert(truncated(s, max_width).drop_last() =~= s.subrange(0, max_width - 1));
    }
}

#[derive(Clone, Copy, Debug, PartialEq, Eq, Structural)]
pub enum Color {
    Green,
    Red,
    Magenta,
    Yellow,
    Cyan,
    Gray,
    DarkGray,
}

/// How a piece of text looks. Without a foreground it keeps the terminal's.
#[derive(Clone, Copy, Debug, PartialEq, Eq)]
pub struct Style {
    pub fg: Option<Color>,
    pub bold: bool,
}

/// Text of one colour.
pub open spec fn coloured(color: Color) -> Style {
    Style { fg: Some(color), bold: false }
}

/// Text as the terminal shows it.
pub open spec fn plain() -> Style {
    Style { fg: None, bold: false }
}

/// The look of a log line, by the first mark that is found in it.
pub open spec fn line_style(line: Seq<char>) -> Style {
    if line.contains('✓') {
        coloured(Color::Green)
    } else if line.contains('✗') || occurs_in("DEGRADED"@, line) {
        coloured(Color::Red)
    } else if line.contains('💥') {
        Style { fg: Some(Color::Magenta), bold: true }
    } else if line.contains('⚠') {
        coloured(Color::Yellow)
    } else if line.contains('⟳') {
        coloured(Color::Cyan)
    } else {
        coloured(Color::Gray)
    }
}

/// Picks the look of a log line.
pub fn colorise(line: &str) -> (r: Style)
    ensures
        r == line_style(line@),
{
    if has_char(line, '✓') {
        Style { fg: Some(Color::Green), bold: false }
    } else if has_char(line, '✗') || has_text(line, "DEGRADED") {
        Style { fg: Some(Color::Red), bold: false }
    } else if has_char(line, '💥') {
        Style { fg: Some(Color::Magenta), bold: true }
    } else if has_char(line, '⚠') {
        Style { fg: Some(Color::Yellow), bold: false }
    } else if has_char(line, '⟳') {
        Style { fg: Some(Color::Cyan), bold: false }
    } else {
        Style { fg: Some(Color::Gray), bold: false }
    }
}

/// A piece of text with its look.
#[derive(Debug)]
pub struct Span {
    pub text: String,
    pub style: Style,
}

pub struct SpanView {
    pub text: Seq<char>,
    pub style: Style,
}

impl View for Span {
    type V = SpanView;

    open spec fn view(&self) -> SpanView {
        SpanView { text: self.text@, style: self.style }
    }
}

/// The views of a line of spans.
pub open spec fn span_views(v: Seq<Span>) -> Seq<SpanView> {
    v.map_values(|s: Span| s@)
}

/// The views of a list of lines.
pub open spec fn line_views(v: Seq<Vec<Span>>) -> Seq<Seq<SpanView>> {
    v.map_values(|l: Vec<Span>| span_views(l@))
}

/// The look of a tenant's phase.
pub open spec fn phase_style(phase: TenantPhase) -> Style {
    match phase {
        TenantPhase::Ready => coloured(Color::Green),
        TenantPhase::Degraded => coloured(Color::Red),
        TenantPhase::Provisioning => coloured(Color::Yellow),
        TenantPhase::Terminating => coloured(Color::DarkGray),
    }
}

fn style_of_phase(phase: TenantPhase) -> (r: Style)
    ensures
        r == phase_style(phase),
{
    let color = match phase {
        TenantPhase::Ready => Color::Green,
        TenantPhase::Degraded => Color::Red,
        TenantPhase::Provisioning => Color::Yellow,
        TenantPhase::Terminating => Color::DarkGray,
    };
    Style { fg: Some(color), bold: false }
}

/// A tenant's line in the tenant list.
pub open spec fn tenant_line(t: TenantRecordView) -> Seq<SpanView> {
    seq![
        SpanView { text: "  "@ + left_justified(t.tenant_id, 16), style: plain() },
        SpanView { text: left_justified(t.phase.name(), 12), style: phase_style(t.phase) },
        SpanView {
            text: "tier="@ + left_justified(t.tier, 10) + " rps="@ + left_justified(
                decimal_text(t.rps as int),
                6,
            ) + " reconciles="@ + decimal_text(t.reconcile_count as int),
            style: plain(),
        },
    ]
}

fn show_tenant(t: &TenantRecord) -> (r: Vec<Span>)
    ensures
        span_views(r@) == tenant_line(t@),
{
    let details = "tier=".to_owned().concat(left_justify(t.tier.as_str(), 10).as_str()).concat(" rps=").concat(
        left_justify(decimal(t.rps as i64).as_str(), 6).as_str(),
    ).concat(" reconciles=").concat(decimal(t.reconcile_count).as_str());
    let r = vec![
        Span {
            text: "  ".to_owned().concat(left_justify(t.tenant_id.as_str(), 16).as_str()),
            style: Style { fg: None, bold: false },
        },
        Span { text: left_justify(t.phase.as_str(), 12), style: style_of_phase(t.phase) },
        Span { text: details, style: Style { fg: None, bold: false } },
    ];
    assert(span_views(r@) =~= tenant_line(t@));
    r
}

/// The lines of the tenant list.
pub open spec fn tenant_lines(tenants: Seq<TenantRecordView>) -> Seq<Seq<SpanView>> {
    if tenants.len() == 0 {
        seq![
            seq![
                SpanView { text: "  (no tenants yet — POST /api/v1/tenants)"@, style: plain() },
            ],
        ]
    } else {
        tenants.map_values(|t: TenantRecordView| tenant_line(t))
    }
}

/// A tenant's line in the namespace matrix.
pub open spec fn namespace_line(t: TenantRecordView) -> Seq<char> {
    "  ns/"@ + left_justified(t.namespace, 20) + " proxy="@ + t.proxy_pod_name
}

/// The lines of the namespace matrix.
pub open spec fn namespace_lines(tenants: Seq<TenantRecordView>) -> Seq<Seq<char>> {
    if tenants.len() == 0 {
        seq!["  (namespaces appear once a tenant reconciles)"@]
    } else {
        tenants.map_values(|t: TenantRecordView| namespace_line(t))
    }
}

/// The lines of the chaos panel: how to cause chaos, and where each tenant
/// stands.
pub open spec fn chaos_lines(tenants: Seq<TenantRecordView>) -> Seq<Seq<char>> {
    seq!["  curl -X POST /api/v1/tenants/<id>/chaos/kill-proxy"@, ""@] + tenants.map_values(
        |t: TenantRecordView| "  "@ + t.tenant_id + " → "@ + t.phase.name(),
    )
}

/// The header of the screen, whose mark alternates with every refresh.
pub open spec fn header_line(tick: int, version: Seq<char>, tenants: int) -> Seq<char> {
    let pulse = if tick % 2 == 0 {
        "◆"@
    } else {
        "◇"@
    };
    "  "@ + pulse + "  VANGUARD FLIGHT DECK  •  Control Plane "@ + version + "  •  "@ + decimal_text(tenants)
        + " tenants active"@
}

/// `n`, or zero if it is negative.
pub open spec fn at_least_zero(n: int) -> int {
    if n < 0 {
        0
    } else {
        n
    }
}

/// The log lines that fit into a bordered panel: the latest, oldest first,
/// each shortened to the width and coloured by its full text.
pub open spec fn log_lines(logs: Seq<Seq<char>>, width: int, height: int) -> Seq<SpanView> {
    let rows = at_least_zero(height - 2);
    let columns = if width - 4 < 1 {
        1
    } else {
        width - 4
    };
    let first = at_least_zero(logs.len() - rows);
    logs.subrange(first, logs.len() as int).map_values(
        |l: Seq<char>| SpanView { text: truncated(l, columns), style: line_style(l) },
    )
}

/// What the screen shows.
#[derive(Debug)]
pub struct App {
    pub version: String,
    pub tenants: Vec<TenantRecord>,
    pub logs: Vec<String>,
    pub tick: u64,
}

pub struct AppView {
    pub version: Seq<char>,
    pub tenants: Seq<TenantRecordView>,
    pub logs: Seq<Seq<char>>,
    pub tick: u64,
}

impl View for App {
    type V = AppView;

    open spec fn view(&self) -> AppView {
        AppView {
            version: self.version@,
            tenants: record_views(self.tenants@),
            logs: texts(self.logs@),
            tick: self.tick,
        }
    }
}

impl App {
    /// A screen that shows nothing yet.
    pub fn new(version: &str) -> (r: App)
        ensures
            r@.version == version@,
            r@.tenants == Seq::<TenantRecordView>::empty(),
            r@.logs == Seq::<Seq<char>>::empty(),
            r@.tick == 0,
    {
        let r = App { version: version.to_owned(), tenants: Vec::new(), logs: Vec::new(), tick: 0 };
        assert(r@.tenants =~= Seq::<TenantRecordView>::empty());
        assert(r@.logs =~= Seq::<Seq<char>>::empty());
        r
    }

    /// Takes over what the store holds.
    pub fn refresh(&mut self, store: &Store)
        requires
            old(self)@.tick < u64::MAX,
        ensures
            is_record_listing(final(self)@.tenants, store@.tenants),
            final(self)@.logs == store@.logs,
            final(self)@.tick == old(self)@.tick + 1,
            final(self)@.version == old(self)@.version,
    {
        self.tenants = store.list_tenants();
        self.logs = store.logs();
        self.tick = self.tick + 1;
    }

    /// The header's text.
    pub fn header(&self) -> (r: String)
        ensures
            r@ == header_line(self@.tick as int, self@.version, self@.tenants.len() as int),
    {
        let pulse = if self.tick % 2 == 0 {
            "◆"
        } else {
            "◇"
        };
        let count = decimal_count(self.tenants.len());
        "  ".to_owned().concat(pulse).concat("  VANGUARD FLIGHT DECK  •  Control Plane ").concat(
            self.version.as_str(),
        ).concat("  •  ").concat(count.as_str()).concat(" tenants active")
    }

    /// The lines of the tenant list.
    pub fn tenant_rows(&self) -> (r: Vec<Vec<Span>>)
        ensures
            line_views(r@) == tenant_lines(self@.tenants),
    {
        let mut out: Vec<Vec<Span>> = Vec::new();
        if self.tenants.len() == 0 {
            let line = vec![
                Span {
                    text: "  (no tenants yet — POST /api/v1/tenants)".to_owned(),
                    style: Style { fg: None, bold: false },
                },
            ];
            assert(span_views(line@) =~= tenant_lines(self@.tenants)[0]);
            out.push(line);
            assert(line_views(out@) =~= tenant_lines(self@.tenants));
            return out;
        }
        let mut i: usize = 0;
        while i < self.tenants.len()
            invariant
                i <= self.tenants@.len(),
                out@.len() == i,
                forall|j: int| 0 <= j < i ==> span_views((#[trigger] out@[j])@) == tenant_line(self.tenants@[j]@),
            decreases self.tenants@.len() - i,
        {
            out.push(show_tenant(&self.tenants[i]));
            i = i + 1;
        }
        assert(line_views(out@) =~= tenant_lines(self@.tenants));
        out
    }

    /// The lines of the namespace matrix.
    pub fn namespace_rows(&self) -> (r: Vec<String>)
        ensures
            texts(r@) == namespace_lines(self@.tenants),
    {
        let mut out: Vec<String> = Vec::new();
        if self.tenants.len() == 0 {
            out.push("  (namespaces appear once a tenant reconciles)".to_owned());
            assert(texts(out@) =~= namespace_lines(self@.tenants));
            return out;
        }
        let mut i: usize = 0;
        while i < self.tenants.len()
            invariant
                i <= self.tenants@.len(),
                out@.len() == i,
                forall|j: int| 0 <= j < i ==> (#[trigger] out@[j])@ == namespace_line(self.tenants@[j]@),
            decreases self.tenants@.len() - i,
        {
            let t = &self.tenants[i];
            let line = "  ns/".to_owned().concat(left_justify(t.namespace.as_str(), 20).as_str()).concat(
                " proxy=",
            ).concat(t.proxy_pod_name.as_str());
            out.push(line);
            i = i + 1;
        }
        assert(texts(out@) =~= namespace_lines(self@.tenants));
        out
    }

    /// The lines of the chaos panel.
    pub fn chaos_rows(&self) -> (r: Vec<String>)
        ensures
            texts(r@) == chaos_lines(self@.tenants),
    {
        let mut out = vec!["  curl -X POST /api/v1/tenants/<id>/chaos/kill-proxy".to_owned(), "".to_owned()];
        let mut i: usize = 0;
        while i < self.tenants.len()
            invariant
                i <= self.tenants@.len(),
                out@.len() == i + 2,
                out@[0]@ == "  curl -X POST /api/v1/tenants/<id>/chaos/kill-proxy"@,
                out@[1]@ == ""@,
                forall|j: int|
                    2 <= j < i + 2 ==> (#[trigger] out@[j])@ == "  "@ + self.tenants@[j - 2]@.tenant_id + " → "@
                        + self.tenants@[j - 2]@.phase.name(),
            decreases self.tenants@.len() - i,
        {
            let t = &self.tenants[i];
            let line = "  ".to_owned().concat(t.tenant_id.as_str()).concat(" → ").concat(t.phase.as_str());
            out.push(line);
            i = i + 1;
        }
        assert(texts(out@) =~= chaos_lines(self@.tenants));
        out
    }

    /// The log lines for a bordered panel of the given size.
    pub fn log_rows(&self, width: u16, height: u16) -> (r: Vec<Span>)
        ensures
            span_views(r@) == log_lines(self@.logs, width as int, height as int),
    {
        let n: usize = self.logs.len();
        let rows: usize = if height > 2 {
            (height - 2) as usize
        } else {
            0
        };
        let columns: usize = if width > 5 {
            (width - 4) as usize
        } else {
            1
        };
        let first: usize = if n > rows {
            n - rows
        } else {
            0
        };
        let mut out: Vec<Span> = Vec::new();
        let mut i: usize = first;
        while i < n
            invariant
                first <= i <= n,
                n == self.logs@.len(),
                out@.len() == i - first,
                forall|j: int|
                    0 <= j < i - first ==> (#[trigger] out@[j])@ == (SpanView {
                        text: truncated(self.logs@[first + j]@, columns as int),
                        style: line_style(self.logs@[first + j]@),
                    }),
            decreases n - i,
        {
            let line = self.logs[i].as_str();
            out.push(Span { text: truncate_display(line, columns), style: colorise(line) });
            i = i + 1;
        }
        assert(span_views(out@) =~= log_lines(self@.logs, width as int, height as int));
        out
    }
}

/// Whether a key ends the screen: `q`, or `c` with the control key held.
pub open spec fn ends_screen(key: char, control: bool) -> bool {
    key == 'q' || (key == 'c' && control)
}

/// Tells whether a key ends the screen.
pub fn is_quit_key(key: char, control: bool) -> (r: bool)
    ensures
        r == (key == 'q' || (key == 'c' && control)),
        r == ends_screen(key, control),
{
    key == 'q' || (key == 'c' && control)
}

// ─── Laws ─────────────────────────────────────────────────────────────────────

/// A line that has no room at all is an ellipsis, unless it is empty.
pub proof fn law_no_room_leaves_an_ellipsis(s: Seq<char>)
    ensures
        s.len() > 0 ==> truncated(s, 0) == "…"@,
        s.len() == 0 ==> truncated(s, 0).len() == 0,
{
}

/// A phase is green when the tenant is ready, red when it is degraded, yellow
/// while it is provisioned and dark gray while it goes, and never bold.
pub proof fn law_phases_have_their_colours(phase: TenantPhase)
    ensures
        phase == TenantPhase::Ready ==> phase_style(phase).fg == Some(Color::Green),
        phase == TenantPhase::Degraded ==> phase_style(phase).fg == Some(Color::Red),
        phase == TenantPhase::Provisioning ==> phase_style(phase).fg == Some(Color::Yellow),
        phase == TenantPhase::Terminating ==> phase_style(phase).fg == Some(Color::DarkGray),
        !phase_style(phase).bold,
{
}

/// A log line is coloured by its first mark in the order success, failure,
/// chaos, warning, work; a line with none of them is gray. Chaos alone is
/// bold.
pub proof fn law_marks_colour_their_lines(line: Seq<char>)
    ensures
        ({
            let good = line.contains('✓');
            let bad = line.contains('✗') || exists|i: int|
                0 <= i <= line.len() - 8 && #[trigger] line.subrange(i, i + 8) == "DEGRADED"@;
            let chaos = line.contains('💥');
            let warning = line.contains('⚠');
            let work = line.contains('⟳');
            let style = line_style(line);
            &&& good ==> style.fg == Some(Color::Green)
            &&& !good && bad ==> style.fg == Some(Color::Red)
            &&& !good && !bad && chaos ==> style.fg == Some(Color::Magenta)
            &&& !good && !bad && !chaos && warning ==> style.fg == Some(Color::Yellow)
            &&& !good && !bad && !chaos && !warning && work ==> style.fg == Some(Color::Cyan)
            &&& !good && !bad && !chaos && !warning && !work ==> style.fg == Some(Color::Gray)
            &&& style.bold <==> !good && !bad && chaos
        }),
{
    reveal_strlit("DEGRADED");
    assert("DEGRADED"@.len() == 8);
    if occurs_in("DEGRADED"@, line) {
        let i = choose|i: int|
            0 <= i <= line.len() - "DEGRADED"@.len() && #[trigger] line.subrange(i, i + "DEGRADED"@.len())
                == "DEGRADED"@;
        assert(line.subrange(i, i + 8) == "DEGRADED"@);
    }
    if exists|i: int| 0 <= i <= line.len() - 8 && #[trigger] line.subrange(i, i + 8) == "DEGRADED"@ {
        let i = choose|i: int| 0 <= i <= line.len() - 8 && #[trigger] line.subrange(i, i + 8) == "DEGRADED"@;
        assert(line.subrange(i, i + "DEGRADED"@.len()) == "DEGRADED"@);
    }
}

/// A tenant's line shows its identifier, its phase in the phase's colour, its
/// tier, its rate and how often it was reconciled, each in its column.
pub proof fn law_tenant_line_shows_the_record(t: TenantRecordView)
    ensures
        ({
            let line = tenant_line(t);
            &&& line.len() == 3
            &&& line[0].text == "  "@ + left_justified(t.tenant_id, 16)
            &&& line[0].style.fg is None && !line[0].style.bold
            &&& t.phase == TenantPhase::Ready ==> line[1].text == left_justified("Ready"@, 12)
            &&& t.phase == TenantPhase::Degraded ==> line[1].text == left_justified("Degraded"@, 12)
            &&& t.phase == TenantPhase::Provisioning ==> line[1].text == left_justified("Provisioning"@, 12)
            &&& t.phase == TenantPhase::Terminating ==> line[1].text == left_justified("Terminating"@, 12)
            &&& line[1].style == phase_style(t.phase)
            &&& line[2].text == "tier="@ + left_justified(t.tier, 10) + " rps="@ + left_justified(
                decimal_text(t.rps as int),
                6,
            ) + " reconciles="@ + decimal_text(t.reconcile_count as int)
            &&& line[2].style.fg is None && !line[2].style.bold
        }),
{
}

/// Each tenant has one line in each panel, in the order of the records; a
/// panel without tenants says how to get one.
pub proof fn law_panels_show_each_tenant_once(tenants: Seq<TenantRecordView>, i: int)
    ensures
        tenants.len() == 0 ==> {
            &&& tenant_lines(tenants).len() == 1
            &&& tenant_lines(tenants)[0].len() == 1
            &&& tenant_lines(tenants)[0][0].text == "  (no tenants yet — POST /api/v1/tenants)"@
            &&& namespace_lines(tenants) == seq!["  (namespaces appear once a tenant reconciles)"@]
        },
        tenants.len() > 0 ==> tenant_lines(tenants).len() == tenants.len(),
        tenants.len() > 0 ==> namespace_lines(tenants).len() == tenants.len(),
        chaos_lines(tenants).len() == tenants.len() + 2,
        chaos_lines(tenants)[0] == "  curl -X POST /api/v1/tenants/<id>/chaos/kill-proxy"@,
        chaos_lines(tenants)[1].len() == 0,
        0 <= i < tenants.len() ==> {
            let t = tenants[i];
            &&& tenant_lines(tenants)[i] == tenant_line(t)
            &&& namespace_lines(tenants)[i] == "  ns/"@ + left_justified(t.namespace, 20) + " proxy="@
                + t.proxy_pod_name
            &&& t.phase == TenantPhase::Ready ==> chaos_lines(tenants)[i + 2] == "  "@ + t.tenant_id + " → "@
                + "Ready"@
            &&& t.phase == TenantPhase::Degraded ==> chaos_lines(tenants)[i + 2] == "  "@ + t.tenant_id + " → "@
                + "Degraded"@
            &&& t.phase == TenantPhase::Provisioning ==> chaos_lines(tenants)[i + 2] == "  "@ + t.tenant_id
                + " → "@ + "Provisioning"@
            &&& t.phase == TenantPhase::Terminating ==> chaos_lines(tenants)[i + 2] == "  "@ + t.tenant_id
                + " → "@ + "Terminating"@
        },
{
    reveal_strlit("");
}

/// The header names the version and counts the tenants, and its mark changes
/// with every refresh.
pub proof fn law_header_counts_and_pulses(tick: int, version: Seq<char>, tenants: int)
    ensures
        ({
            let rest = "  VANGUARD FLIGHT DECK  •  Control Plane "@ + version + "  •  "@ + decimal_text(tenants)
                + " tenants active"@;
            &&& tick % 2 == 0 ==> header_line(tick, version, tenants) == "  ◆"@ + rest
            &&& tick % 2 == 1 ==> header_line(tick, version, tenants) == "  ◇"@ + rest
        }),
        header_line(tick, version, tenants)[2] != header_line(tick + 1, version, tenants)[2],
{
    reveal_strlit("  ");
    reveal_strlit("◆");
    reveal_strlit("◇");
    reveal_strlit("  ◆");
    reveal_strlit("  ◇");
    let rest = "  VANGUARD FLIGHT DECK  •  Control Plane "@ + version + "  •  "@ + decimal_text(tenants)
        + " tenants active"@;
    assert("  "@ + "◆"@ =~= "  ◆"@);
    assert("  "@ + "◇"@ =~= "  ◇"@);
    assert forall|n: int| header_line(n, version, tenants) == (if n % 2 == 0 { "  ◆"@ } else { "  ◇"@ }) + rest by {
        assert(header_line(n, version, tenants) =~= (if n % 2 == 0 { "  ◆"@ } else { "  ◇"@ }) + rest);
    }
    assert(tick % 2 == 0 <==> (tick + 1) % 2 == 1);
}

/// A panel shows as many of the latest log lines as fit between its borders,
/// oldest first, each shortened to four columns less than the panel has, and
/// coloured by its full text.
pub proof fn law_panel_shows_the_latest_lines(logs: Seq<Seq<char>>, width: int, height: int, i: int)
    ensures
        ({
            let shown = log_lines(logs, width, height);
            let line = logs[logs.len() - shown.len() + i];
            &&& shown.len() <= logs.len()
            &&& height >= 2 && logs.len() >= height - 2 ==> shown.len() == height - 2
            &&& height >= 2 && logs.len() < height - 2 ==> shown.len() == logs.len()
            &&& height < 2 ==> shown.len() == 0
            &&& 0 <= i < shown.len() && width >= 5 ==> shown[i].text == truncated(line, width - 4)
            &&& 0 <= i < shown.len() && width < 5 ==> shown[i].text == truncated(line, 1)
            &&& 0 <= i < shown.len() ==> shown[i].style == line_style(line)
        }),
{
}

/// What a contract says of the screen is what its own fields hold.
pub proof fn law_screen_is_read_field_by_field(app: App, span: Span, i: int)
    ensures
        app@.version == app.version@,
        app@.tick == app.tick,
        app@.tenants.len() == app.tenants@.len(),
        0 <= i < app.tenants@.len() ==> app@.tenants[i] == app.tenants@[i]@,
        app@.logs.len() == app.logs@.len(),
        0 <= i < app.logs@.len() ==> app@.logs[i] == app.logs@[i]@,
        span@.text == span.text@,
        span@.style == span.style,
{
}

/// `q` ends the screen with and without the control key, `c` with it, and
/// nothing else does.
pub proof fn law_only_q_and_control_c_quit(key: char, control: bool)
    ensures
        ends_screen('q', control),
        ends_screen('c', true),
        !ends_screen('c', false),
        key != 'q' && key != 'c' ==> !ends_screen(key, control),
{
}

/// Lines are read span by span, in order.
pub proof fn law_lines_are_read_in_order(lines: Seq<Vec<Span>>, i: int, j: int)
    ensures
        line_views(lines).len() == lines.len(),
        0 <= i < lines.len() ==> line_views(lines)[i].len() == lines[i]@.len(),
        0 <= i < lines.len() && 0 <= j < lines[i]@.len() ==> line_views(lines)[i][j] == lines[i]@[j]@,
{
}

} // verus!
