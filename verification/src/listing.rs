//! Tables of agents and of models.

use vstd::prelude::*;
use crate::json;
use crate::numbers;
use crate::numbers::{signed_text, wide_text};
use crate::store::AgentRow;
use crate::text::{same, text3, to_chars};
use crate::words;
use crate::words::join;

verus! {

/// A row of a table.
#[derive(Debug, PartialEq, Eq)]
pub struct TextRow {
    pub cells: Vec<String>,
}

/// The cells of each row.
pub open spec fn row_views(v: Seq<TextRow>) -> Seq<Seq<Seq<char>>> {
    Seq::new(v.len(), |i: int| words::views(v[i].cells@))
}

/// Where a reader of terminal text stands.
#[derive(Clone, Copy, PartialEq, Eq, Structural)]
pub enum Scan {
    /// Outside of escape sequences.
    Plain,
    /// Behind an escape character.
    Escape,
    /// In an escape sequence that sets a style, behind its bracket.
    Style,
}

/// Where a reader stands behind one more character. A style sequence ends with `m`, and no sequence
/// goes beyond its line.
pub open spec fn scan_step(state: Scan, c: char) -> Scan {
    if c == '\n' {
        Scan::Plain
    } else {
        match state {
            Scan::Plain => if c == '\u{1b}' {
                Scan::Escape
            } else {
                Scan::Plain
            },
            Scan::Escape => if c == '[' {
                Scan::Style
            } else {
                Scan::Plain
            },
            Scan::Style => if c == 'm' {
                Scan::Plain
            } else {
                Scan::Style
            },
        }
    }
}

/// Where a reader stands behind the first `k` characters of a cell.
pub open spec fn scanned(cell: Seq<char>, k: int) -> Scan
    decreases k,
{
    if k <= 0 {
        Scan::Plain
    } else {
        scan_step(scanned(cell, k - 1), cell[k - 1])
    }
}

/// A cell whose width is sure to be measured: what stands in its style sequences is ASCII.
pub open spec fn measurable(cell: Seq<char>) -> bool {
    forall|i: int|
        0 <= i < cell.len() && scanned(cell, i) == Scan::Style ==> #[trigger] cell[i] < '\u{80}'
}

/// All cells of a table are measurable.
pub open spec fn all_measurable(rows: Seq<Seq<Seq<char>>>) -> bool {
    forall|i: int, j: int|
        0 <= i < rows.len() && 0 <= j < rows[i].len() ==> measurable(#[trigger] rows[i][j])
}

/// The text of a table whose first row holds the titles.
pub uninterp spec fn table_of(rows: Seq<Seq<Seq<char>>>) -> Seq<char>;

/// `prettytable::Table` with the format `FORMAT_NO_BORDER_LINE_SEPARATOR`, the first row as titles
/// and the others below, as text. It depends on the cells alone. Each line of a cell is measured by
/// itself, and the characters of its style sequences are taken off its width, each as one column;
/// of ASCII characters that is their width at most.
#[verifier::external_body]
pub(crate) fn table_text(rows: &[TextRow]) -> (r: String)
    requires
        rows@.len() > 0,
        all_measurable(row_views(rows@)),
    ensures
        r@ == table_of(row_views(rows@)),
{
    let mut rows = rows.iter().map(|row| {
        prettytable::Row::new(row.cells.iter().map(|c| prettytable::Cell::new(c)).collect())
    });
    let mut table = prettytable::Table::new();
    table.set_format(*prettytable::format::consts::FORMAT_NO_BORDER_LINE_SEPARATOR);
    table.set_titles(rows.next().unwrap_or_default());
    table.extend(rows);
    table.to_string()
}

fn next_scan(state: Scan, c: char) -> (r: Scan)
    ensures
        r == scan_step(state, c),
{
    if c == '\n' {
        return Scan::Plain;
    }
    match state {
        Scan::Plain => if c == '\u{1b}' {
            Scan::Escape
        } else {
            Scan::Plain
        },
        Scan::Escape => if c == '[' {
            Scan::Style
        } else {
            Scan::Plain
        },
        Scan::Style => if c == 'm' {
            Scan::Plain
        } else {
            Scan::Style
        },
    }
}

fn cell_is_measurable(cell: &str) -> (r: bool)
    ensures
        r == measurable(cell@),
{
    let c = to_chars(cell);
    let mut state = Scan::Plain;
    let mut i: usize = 0;
    while i < c.len()
        invariant
            i <= c@.len(),
            c@ == cell@,
            state == scanned(cell@, i as int),
            forall|j: int|
                0 <= j < i && scanned(cell@, j) == Scan::Style ==> #[trigger] cell@[j] < '\u{80}',
        decreases c@.len() - i,
    {
        if state == Scan::Style && c[i] >= '\u{80}' {
            assert(!(cell@[i as int] < '\u{80}'));
            return false;
        }
        state = next_scan(state, c[i]);
        i += 1;
    }
    true
}

fn rows_are_measurable(rows: &[TextRow]) -> (r: bool)
    ensures
        r == all_measurable(row_views(rows@)),
{
    let ghost v = row_views(rows@);
    let mut i: usize = 0;
    while i < rows.len()
        invariant
            i <= rows@.len(),
            v == row_views(rows@),
            forall|a: int, b: int|
                0 <= a < i && 0 <= b < v[a].len() ==> measurable(#[trigger] v[a][b]),
        decreases rows@.len() - i,
    {
        let cells = &rows[i].cells;
        assert(v[i as int] == words::views(cells@));
        let mut j: usize = 0;
        while j < cells.len()
            invariant
                i < rows@.len(),
                j <= cells@.len(),
                v == row_views(rows@),
                v[i as int] == words::views(cells@),
                forall|b: int| 0 <= b < j ==> measurable(#[trigger] v[i as int][b]),
            decreases cells@.len() - j,
        {
            assert(v[i as int][j as int] == cells@[j as int]@);
            if !cell_is_measurable(cells[j].as_str()) {
                assert(!measurable(v[i as int][j as int]));
                return false;
            }
            j += 1;
        }
        i += 1;
    }
    true
}

/// A table, or nothing where a cell cannot be measured for sure. The first row holds the titles.
pub fn format_table(rows: &[TextRow]) -> (r: Option<String>)
    requires
        rows@.len() > 0,
    ensures
        json::opt_view(r) == (if all_measurable(row_views(rows@)) {
            Some(table_of(row_views(rows@)))
        } else {
            None
        }),
{
    if rows_are_measurable(rows) {
        Some(table_text(rows))
    } else {
        None
    }
}

fn row4(a: String, b: String, c: String, d: String) -> (r: TextRow)
    ensures
        words::views(r.cells@) == seq![a@, b@, c@, d@],
{
    let r = TextRow { cells: vec![a, b, c, d] };
    assert(words::views(r.cells@) =~= seq![a@, b@, c@, d@]);
    r
}

// ---------------------------------------------------------------------------
// Agents
// ---------------------------------------------------------------------------

/// The form of a stored time.
pub const STORED_TIME: &'static str = "%Y-%m-%d %H:%M:%S";

/// How many whole seconds a time that is given as a text lies back, as `chrono` reads it.
pub uninterp spec fn elapsed_of(now_ms: i64, time: Seq<char>, format: Seq<char>) -> Option<i64>;

/// `chrono::NaiveDateTime::parse_from_str`, and `signed_duration_since` it with `num_seconds`: how
/// many whole seconds it lies back. Nothing where the text is no such time, or where `now_ms` is
/// beyond the times that there are. It depends on the arguments alone.
#[verifier::external_body]
pub(crate) fn elapsed(now_ms: i64, time: &str, format: &str) -> (r: Option<i64>)
    ensures
        r == elapsed_of(now_ms, time@, format@),
{
    let now = chrono::DateTime::from_timestamp_millis(now_ms)?.naive_utc();
    let then = chrono::NaiveDateTime::parse_from_str(time, format).ok()?;
    Some(now.signed_duration_since(then).num_seconds())
}

/// How an agent is marked, given how many seconds ago its session gave a sign of life.
pub open spec fn activity(
    name: Seq<char>,
    active: Seq<char>,
    has_session: bool,
    elapsed: Option<i64>,
) -> Seq<char> {
    if name == active {
        "* (this session)"@
    } else if has_session && (elapsed matches Some(s) && s < 10) {
        "* (other session)"@
    } else {
        ""@
    }
}

/// How an agent is marked, given how many seconds ago its session gave a sign of life.
pub fn activity_mark(name: &str, active: &str, has_session: bool, elapsed: Option<i64>) -> (r:
    &'static str)
    ensures
        r@ == activity(name@, active@, has_session, elapsed),
{
    let recent = match elapsed {
        Some(s) => s < 10,
        None => false,
    };
    if same(name, active) {
        "* (this session)"
    } else if has_session && recent {
        "* (other session)"
    } else {
        ""
    }
}

/// How long ago the session of an agent gave a sign of life.
pub open spec fn since_heartbeat(agent: AgentRow, now_ms: i64) -> Option<i64> {
    match agent.heartbeat_at {
        Some(h) => elapsed_of(now_ms, h@, STORED_TIME@),
        None => None,
    }
}

/// The row of an agent.
pub open spec fn agent_row(agent: AgentRow, count: i64, active: Seq<char>, now_ms: i64) -> Seq<
    Seq<char>,
> {
    seq![
        agent.name@,
        agent.description@,
        numbers::decimal_int(count as int),
        activity(
            agent.name@,
            active,
            agent.session_id is Some,
            since_heartbeat(agent, now_ms),
        ),
    ]
}

/// The rows of all agents, under the titles.
pub open spec fn agent_rows(
    agents: Seq<AgentRow>,
    counts: Seq<i64>,
    active: Seq<char>,
    now_ms: i64,
) -> Seq<Seq<Seq<char>>> {
    seq![seq!["Name"@, "Description"@, "Messages"@, "Active"@]] + Seq::new(
        agents.len(),
        |i: int| agent_row(agents[i], counts[i], active, now_ms),
    )
}

/// The rows of the table of agents, under the titles. `counts` holds the number of messages of each
/// agent.
pub fn list_agent_rows(agents: &[AgentRow], counts: &[i64], active: &str, now_ms: i64) -> (r: Vec<
    TextRow,
>)
    requires
        counts@.len() == agents@.len(),
    ensures
        row_views(r@) == agent_rows(agents@, counts@, active@, now_ms),
{
    let mut rows: Vec<TextRow> = Vec::new();
    rows.push(
        row4(
            "Name".to_owned(),
            "Description".to_owned(),
            "Messages".to_owned(),
            "Active".to_owned(),
        ),
    );
    let ghost all = agent_rows(agents@, counts@, active@, now_ms);
    let mut i: usize = 0;
    assert(row_views(rows@) =~= all.take(1));
    while i < agents.len()
        invariant
            i <= agents@.len(),
            counts@.len() == agents@.len(),
            all == agent_rows(agents@, counts@, active@, now_ms),
            row_views(rows@) == all.take(i + 1),
        decreases agents@.len() - i,
    {
        let since = match &agents[i].heartbeat_at {
            Some(h) => elapsed(now_ms, h.as_str(), STORED_TIME),
            None => None,
        };
        let mark = activity_mark(
            agents[i].name.as_str(),
            active,
            agents[i].session_id.is_some(),
            since,
        );
        let row = row4(
            agents[i].name.clone(),
            agents[i].description.clone(),
            signed_text(counts[i]),
            mark.to_owned(),
        );
        assert(words::views(row.cells@) == agent_row(
            agents@[i as int],
            counts@[i as int],
            active@,
            now_ms,
        ));
        let ghost before = row_views(rows@);
        rows.push(row);
        proof {
            assert(row_views(rows@) =~= before.push(words::views(row.cells@)));
            assert(all[i + 1] == agent_row(agents@[i as int], counts@[i as int], active@, now_ms));
            assert(all.take(i + 2) =~= all.take(i + 1).push(all[i + 1]));
        }
        i += 1;
    }
    assert(all.take(all.len() as int) =~= all);
    rows
}

/// What is printed of the agents.
pub open spec fn agents_listing(
    agents: Seq<AgentRow>,
    counts: Seq<i64>,
    active: Seq<char>,
    now_ms: i64,
) -> Option<Seq<char>> {
    let rows = agent_rows(agents, counts, active, now_ms);
    if agents.len() == 0 {
        Some("No agents."@)
    } else if all_measurable(rows) {
        Some(table_of(rows))
    } else {
        None
    }
}

/// What is printed of the agents: a table, or that there are none. Nothing where a cell cannot be
/// measured for sure.
pub fn list_agents(agents: &[AgentRow], counts: &[i64], active: &str, now_ms: i64) -> (r: Option<
    String,
>)
    requires
        counts@.len() == agents@.len(),
    ensures
        json::opt_view(r) == agents_listing(agents@, counts@, active@, now_ms),
{
    if agents.len() == 0 {
        Some("No agents.".to_owned())
    } else {
        let rows = list_agent_rows(agents, counts, active, now_ms);
        assert(row_views(rows@).len() == rows@.len());
        format_table(rows.as_slice())
    }
}

// ---------------------------------------------------------------------------
// Models
// ---------------------------------------------------------------------------

/// What a model costs, as texts.
pub struct ModelPricing {
    pub prompt: String,
    pub completion: String,
}

/// A model that an endpoint offers.
pub struct ModelInfo {
    pub id: String,
    pub name: Option<String>,
    pub context_length: Option<u64>,
    pub pricing: Option<ModelPricing>,
    pub supported_parameters: Option<Vec<String>>,
}

/// The prices of a model as they are shown: with six digits behind the point where the price is a
/// number.
pub struct ShownPrices {
    pub prompt: Option<String>,
    pub completion: Option<String>,
}

/// The prices of a model as the endpoint gives them.
pub open spec fn given_prices(m: ModelInfo) -> (Seq<char>, Seq<char>) {
    match m.pricing {
        Some(p) => (p.prompt@, p.completion@),
        None => ("N/A"@, "N/A"@),
    }
}

/// The price as it is shown, or else as it was given.
pub open spec fn shown_price(shown: Option<String>, given: Seq<char>) -> Seq<char> {
    match shown {
        Some(s) => s@,
        None => given,
    }
}

/// The row of a model.
pub open spec fn model_row(m: ModelInfo, shown: ShownPrices) -> Seq<Seq<char>> {
    seq![
        m.id@,
        name_or_empty(m),
        numbers::decimal(length_or_zero(m)),
        shown_price(shown.prompt, given_prices(m).0),
        shown_price(shown.completion, given_prices(m).1),
        joined_parameters(m),
    ]
}

/// The name of a model, which may be empty.
pub open spec fn name_or_empty(m: ModelInfo) -> Seq<char> {
    match m.name {
        Some(n) => n@,
        None => ""@,
    }
}

/// The context length of a model; zero where it is not known.
pub open spec fn length_or_zero(m: ModelInfo) -> nat {
    match m.context_length {
        Some(n) => n as nat,
        None => 0,
    }
}

/// The parameters that a model supports.
pub open spec fn joined_parameters(m: ModelInfo) -> Seq<char> {
    match m.supported_parameters {
        Some(p) => words::joined(words::views(p@), ","@),
        None => words::joined(Seq::empty(), ","@),
    }
}

fn price_text(shown: &Option<String>, given: &str) -> (r: String)
    ensures
        r@ == shown_price(*shown, given@),
{
    match shown {
        Some(s) => s.clone(),
        None => given.to_owned(),
    }
}

/// The row of a model. `shown` holds the prices that are numbers, in the form in which they are
/// shown.
pub fn list_model_row(m: &ModelInfo, shown: &ShownPrices) -> (r: TextRow)
    ensures
        words::views(r.cells@) == model_row(*m, *shown),
{
    let name = match &m.name {
        Some(n) => n.clone(),
        None => "".to_owned(),
    };
    let length: u64 = match m.context_length {
        Some(n) => n,
        None => 0,
    };
    let (prompt, completion) = match &m.pricing {
        Some(p) => (
            price_text(&shown.prompt, p.prompt.as_str()),
            price_text(&shown.completion, p.completion.as_str()),
        ),
        None => (price_text(&shown.prompt, "N/A"), price_text(&shown.completion, "N/A")),
    };
    let none: Vec<String> = Vec::new();
    assert(words::views(none@) =~= Seq::<Seq<char>>::empty());
    let parameters = match &m.supported_parameters {
        Some(p) => join(p.as_slice(), ","),
        None => join(none.as_slice(), ","),
    };
    let r = TextRow {
        cells: vec![
            m.id.clone(),
            name,
            wide_text(length as u128),
            prompt,
            completion,
            parameters,
        ],
    };
    assert(words::views(r.cells@) =~= model_row(*m, *shown));
    r
}

/// The titles of the table of models.
pub fn model_titles() -> (r: TextRow)
    ensures
        words::views(r.cells@) == seq![
            "ID"@,
            "Name"@,
            "Context Length"@,
            "Prompt_USD/1M"@,
            "Compl_USD/1M"@,
            "Supported Parameters"@,
        ],
{
    let r = TextRow {
        cells: vec![
            "ID".to_owned(),
            "Name".to_owned(),
            "Context Length".to_owned(),
            "Prompt_USD/1M".to_owned(),
            "Compl_USD/1M".to_owned(),
            "Supported Parameters".to_owned(),
        ],
    };
    assert(words::views(r.cells@) =~= seq![
        "ID"@,
        "Name"@,
        "Context Length"@,
        "Prompt_USD/1M"@,
        "Compl_USD/1M"@,
        "Supported Parameters"@,
    ]);
    r
}

/// The line above the table of models.
pub fn models_heading(custom_endpoint: bool) -> (r: String)
    ensures
        r@ == "Available models from "@ + (if custom_endpoint {
            "custom endpoint"@
        } else {
            "default endpoint"@
        }) + ":"@,
{
    let source: &str = if custom_endpoint {
        "custom endpoint"
    } else {
        "default endpoint"
    };
    text3("Available models from ", source, ":")
}

/// The agent of this session is marked as such, whoever else has it. One that another session has
/// is marked while that session gave a sign of life less than ten seconds ago; no other is.
pub proof fn activity_is_marked(
    name: Seq<char>,
    active: Seq<char>,
    has_session: bool,
    elapsed: Option<i64>,
)
    ensures
        ({
            let mark = activity(name, active, has_session, elapsed);
            let recent = elapsed is Some && elapsed->0 < 10;
            &&& mark == "* (this session)"@ <==> name == active
            &&& mark == "* (other session)"@ <==> name != active && has_session && recent
            &&& mark.len() == 0 <==> name != active && !(has_session && recent)
        }),
{
    reveal_strlit("* (this session)");
    reveal_strlit("* (other session)");
    reveal_strlit("");
    assert("* (this session)"@.len() == 16 && "* (other session)"@.len() == 17);
}

} // verus!
