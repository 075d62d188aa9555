use vstd::prelude::*;

use crate::application::MtrApplication;
use crate::clock::CivilTime;
use crate::double::Double;
use crate::hop::HopStatistic;
use crate::layout::{frame_areas, is_frame_layout, Extent, FrameAreas, ScreenArea};
use crate::text::{decimal, decimal_text};

verus! {

/// The top line of the screen.
#[derive(Debug)]
pub struct HeaderLine {
    pub title: String,
    pub time: String,
}

/// The line that explains the keys.
#[derive(Debug)]
pub struct GuideLine {
    pub text: String,
    /// Whether the line stands out.
    pub highlighted: bool,
}

/// A value in the table.
#[derive(Clone, Copy, Debug, PartialEq, Eq, Structural)]
pub enum StatisticCell {
    /// There is no value.
    Dash,
    /// A plain number.
    Count { count: u32 },
    /// A percentage, shown with one decimal.
    Percentage { value: Double },
    /// A time in milliseconds, shown with one decimal.
    Milliseconds { value: Double },
}

/// A row of the table.
#[derive(Debug)]
pub struct StatisticsRow {
    pub host: String,
    pub loss: StatisticCell,
    pub sent: StatisticCell,
    pub last: StatisticCell,
    pub average: StatisticCell,
    pub best: StatisticCell,
    pub worst: StatisticCell,
    pub deviation: StatisticCell,
}

/// Everything on the screen.
#[derive(Debug)]
pub struct FrameContents {
    /// Where the parts stand.
    pub areas: FrameAreas,
    pub header: HeaderLine,
    pub guide: GuideLine,
    pub rows: Vec<StatisticsRow>,
}

/// A time that may be missing.
pub open spec fn milliseconds_cell(value: Option<Double>) -> StatisticCell {
    match value {
        Some(value) => StatisticCell::Milliseconds { value },
        None => StatisticCell::Dash,
    }
}

/// How a hop is called: by its address, with its name behind it where that says
/// more, or by question marks while nobody answered.
pub open spec fn display_name(hop: HopStatistic, names: Map<u32, String>) -> Seq<char> {
    match hop.ip_address {
        None => "???"@,
        Some(ip_address) => if names.contains_key(ip_address.bits) && names[ip_address.bits]@
            != ip_address.dotted() {
            ip_address.dotted() + " ("@ + names[ip_address.bits]@ + ")"@
        } else {
            ip_address.dotted()
        },
    }
}

/// Whether a row shows what is known of a hop: nothing while nobody answered,
/// and otherwise its statistics.
pub open spec fn shows_hop<P: Fn(u32, u32) -> Double, D: Fn(Double, u32) -> Double>(
    row: StatisticsRow,
    hop: HopStatistic,
    names: Map<u32, String>,
    percentage: P,
    deviation: D,
) -> bool {
    &&& row.host@ == decimal(hop.ttl as nat) + ". "@ + display_name(hop, names)
    &&& if hop.ip_address is None {
        &&& row.loss is Dash && row.sent is Dash && row.last is Dash && row.average is Dash
        &&& row.best is Dash && row.worst is Dash && row.deviation is Dash
    } else {
        &&& row.loss matches StatisticCell::Percentage { value } && hop.is_loss(percentage, value)
        &&& row.sent == (StatisticCell::Count { count: hop.packets_sent })
        &&& row.last == milliseconds_cell(hop.last_latency_ms)
        &&& row.average == milliseconds_cell(hop.average())
        &&& row.best == milliseconds_cell(hop.best_latency_ms)
        &&& row.worst == milliseconds_cell(hop.worst_latency_ms)
        &&& hop.packets_received < 2 ==> row.deviation is Dash
        &&& hop.packets_received >= 2 ==> (row.deviation matches StatisticCell::Milliseconds {
            value,
        } && hop.is_deviation(deviation, value))
    }
}

/// After a restart the row of a hop with an address shows the same host, no
/// probes, no loss and no times.
pub proof fn law_restarted_hop_shows_no_results<
    P: Fn(u32, u32) -> Double,
    D: Fn(Double, u32) -> Double,
>(row: StatisticsRow, hop: HopStatistic, names: Map<u32, String>, percentage: P, deviation: D)
    requires
        hop.ip_address is Some,
        shows_hop(
            row,
            HopStatistic::fresh(hop.ttl, hop.ip_address),
            names,
            percentage,
            deviation,
        ),
    ensures
        row.host@ == decimal(hop.ttl as nat) + ". "@ + display_name(hop, names),
        row.loss == (StatisticCell::Percentage { value: Double { bits: 0 } }),
        row.sent == (StatisticCell::Count { count: 0 }),
        row.last is Dash && row.average is Dash && row.best is Dash && row.worst is Dash
            && row.deviation is Dash,
{
}

/// A time that may be missing.
fn milliseconds(value: Option<Double>) -> (cell: StatisticCell)
    ensures
        cell == milliseconds_cell(value),
{
    match value {
        Some(value) => StatisticCell::Milliseconds { value },
        None => StatisticCell::Dash,
    }
}

/// Whether a text shows a value, where `one_decimal` writes a number with one
/// decimal.
pub open spec fn shows_value<F: Fn(Double) -> String>(
    cell: StatisticCell,
    one_decimal: F,
    text: String,
) -> bool {
    match cell {
        StatisticCell::Dash => text@ == "-"@,
        StatisticCell::Count { count } => text@ == decimal(count as nat),
        StatisticCell::Percentage { value } => exists|number: String| #[trigger]
            call_ensures(one_decimal, (value,), number) && text@ == number@ + "%"@,
        StatisticCell::Milliseconds { value } => call_ensures(one_decimal, (value,), text),
    }
}

impl StatisticCell {
    /// Writes the value, where `one_decimal` writes a number with one decimal.
    pub fn to_text<F: Fn(Double) -> String>(self, one_decimal: &F) -> (text: String)
        requires
            forall|value: Double| #[trigger] call_requires(*one_decimal, (value,)),
        ensures
            shows_value(self, *one_decimal, text),
            match self {
                StatisticCell::Dash => text@ == "-"@,
                StatisticCell::Count { count } => text@ == decimal(count as nat),
                StatisticCell::Percentage { value } => exists|number: String| #[trigger]
                    call_ensures(*one_decimal, (value,), number) && text@ == number@ + "%"@,
                StatisticCell::Milliseconds { value } => call_ensures(
                    *one_decimal,
                    (value,),
                    text,
                ),
            },
    {
        match self {
            StatisticCell::Dash => {
                let mut text = String::new();
                text.append("-");
                text
            },
            StatisticCell::Count { count } => decimal_text(count),
            StatisticCell::Percentage { value } => {
                let number: String = one_decimal(value);
                let mut text = String::new();
                text.append(number.as_str());
                text.append("%");
                text
            },
            StatisticCell::Milliseconds { value } => one_decimal(value),
        }
    }
}

/// The titles of the table's columns.
pub fn column_titles() -> (titles: [&'static str; 8])
    ensures
        titles@[0]@ == "Host"@,
        titles@[1]@ == "Loss%"@,
        titles@[2]@ == "Snt"@,
        titles@[3]@ == "Last"@,
        titles@[4]@ == "Avg"@,
        titles@[5]@ == "Best"@,
        titles@[6]@ == "Wrst"@,
        titles@[7]@ == "StDev"@,
{
    ["Host", "Loss%", "Snt", "Last", "Avg", "Best", "Wrst", "StDev"]
}

/// The widths of the table's columns: a wide one for the host, and the others
/// alike.
pub fn column_widths() -> (widths: [Extent; 8])
    ensures
        widths@ == seq![
            Extent::Share { percent: 45 },
            Extent::Share { percent: 7 },
            Extent::Share { percent: 7 },
            Extent::Share { percent: 7 },
            Extent::Share { percent: 7 },
            Extent::Share { percent: 7 },
            Extent::Share { percent: 7 },
            Extent::Share { percent: 7 },
        ],
{
    let narrow = Extent::Share { percent: 7 };
    [Extent::Share { percent: 45 }, narrow, narrow, narrow, narrow, narrow, narrow, narrow]
}

impl MtrApplication {
    /// Whether a line tells the target and the given time.
    pub open spec fn is_header(&self, line: HeaderLine, now: CivilTime) -> bool {
        &&& line.title@ == " My Traceroute (mtr) to "@ + self.hostname() + " ("@
            + self.target().dotted() + ")"@
        &&& line.time@ == now.timestamp()
    }

    /// Whether a line explains the keys, and says so and stands out when probing
    /// is paused.
    pub open spec fn is_guide(&self, line: GuideLine) -> bool {
        &&& line.highlighted == self.paused()
        &&& line.text@ == (if self.paused() {
            " Keys: [p] pause/resume"@ + " [PAUSED]"@ + "   [r] restart statistics   [q] quit"@
        } else {
            " Keys: [p] pause/resume"@ + "   [r] restart statistics   [q] quit"@
        })
    }

    /// Whether rows show the hops, one each, in the order of the route.
    pub open spec fn is_table<P: Fn(u32, u32) -> Double, D: Fn(Double, u32) -> Double>(
        &self,
        rows: Seq<StatisticsRow>,
        percentage: P,
        deviation: D,
    ) -> bool {
        &&& rows.len() == self.ordered_hops().len()
        &&& forall|i: int|
            0 <= i < rows.len() ==> shows_hop(
                #[trigger] rows[i],
                self.ordered_hops()[i],
                self.route().names,
                percentage,
                deviation,
            )
    }

    /// How a hop is called on the screen.
    fn hop_name(&self, hop: &HopStatistic) -> (name: String)
        ensures
            name@ == display_name(*hop, self.route().names),
    {
        match hop.ip_address {
            None => {
                let mut name = String::new();
                name.append("???");
                name
            },
            Some(ip_address) => {
                let mut name = ip_address.to_text();
                if let Some(hostname) = self.known_hostname(ip_address) {
                    if *hostname != name {
                        name.append(" (");
                        name.append(hostname.as_str());
                        name.append(")");
                    }
                }
                name
            },
        }
    }

    /// Writes the top line: the target, and the given time.
    pub fn render_header(&self, now: CivilTime) -> (header: Option<HeaderLine>)
        ensures
            header is Some <==> now.exists_on_calendar(),
            header matches Some(line) ==> self.is_header(line, now),
    {
        let mut title = String::new();
        title.append(" My Traceroute (mtr) to ");
        title.append(self.target_hostname());
        title.append(" (");
        title.append(self.target_ip().to_text().as_str());
        title.append(")");
        match now.to_text() {
            Some(time) => Some(HeaderLine { title, time }),
            None => None,
        }
    }

    /// Writes the line that explains the keys, and says when probing is paused.
    pub fn render_guide(&self) -> (guide: GuideLine)
        ensures
            self.is_guide(guide),
    {
        let mut text = String::new();
        text.append(" Keys: [p] pause/resume");
        if self.is_paused() {
            text.append(" [PAUSED]");
        }
        text.append("   [r] restart statistics   [q] quit");
        GuideLine { text, highlighted: self.is_paused() }
    }

    /// Fills the row of a hop.
    fn render_row<P: Fn(u32, u32) -> Double, D: Fn(Double, u32) -> Double>(
        &self,
        hop: &HopStatistic,
        percentage: &P,
        deviation: &D,
    ) -> (row: StatisticsRow)
        requires
            forall|lost: u32, sent: u32| #[trigger] call_requires(*percentage, (lost, sent)),
            forall|m2: Double, freedom: u32| #[trigger] call_requires(*deviation, (m2, freedom)),
        ensures
            shows_hop(row, *hop, self.route().names, *percentage, *deviation),
    {
        let mut host = decimal_text(hop.ttl as u32);
        host.append(". ");
        host.append(self.hop_name(hop).as_str());
        if hop.ip_address.is_none() {
            return StatisticsRow {
                host,
                loss: StatisticCell::Dash,
                sent: StatisticCell::Dash,
                last: StatisticCell::Dash,
                average: StatisticCell::Dash,
                best: StatisticCell::Dash,
                worst: StatisticCell::Dash,
                deviation: StatisticCell::Dash,
            };
        }
        StatisticsRow {
            host,
            loss: StatisticCell::Percentage { value: hop.packet_loss_percentage(percentage) },
            sent: StatisticCell::Count { count: hop.packets_sent },
            last: milliseconds(hop.last_latency_ms),
            average: milliseconds(hop.average_latency_ms()),
            best: milliseconds(hop.best_latency_ms),
            worst: milliseconds(hop.worst_latency_ms),
            deviation: milliseconds(hop.standard_deviation(deviation)),
        }
    }

    /// Fills the table: a row for each hop, in the order of the route.
    pub fn render_statistics_table<P: Fn(u32, u32) -> Double, D: Fn(Double, u32) -> Double>(
        &self,
        percentage: &P,
        deviation: &D,
    ) -> (rows: Vec<StatisticsRow>)
        requires
            forall|lost: u32, sent: u32| #[trigger] call_requires(*percentage, (lost, sent)),
            forall|m2: Double, freedom: u32| #[trigger] call_requires(*deviation, (m2, freedom)),
        ensures
            self.is_table(rows@, *percentage, *deviation),
    {
        let hops: &[HopStatistic] = self.hops();
        let mut rows: Vec<StatisticsRow> = Vec::new();
        let mut i: usize = 0;
        while i < hops.len()
            invariant
                i <= hops@.len(),
                hops@ == self.ordered_hops(),
                rows@.len() == i,
                forall|lost: u32, sent: u32| #[trigger] call_requires(*percentage, (lost, sent)),
                forall|m2: Double, freedom: u32| #[trigger] call_requires(*deviation, (m2, freedom)),
                forall|k: int|
                    0 <= k < i ==> shows_hop(
                        #[trigger] rows@[k],
                        hops@[k],
                        self.route().names,
                        *percentage,
                        *deviation,
                    ),
            decreases hops@.len() - i,
        {
            rows.push(self.render_row(&hops[i], percentage, deviation));
            i = i + 1;
        }
        rows
    }

    /// Fills the screen, at the given time, and says where its parts stand.
    pub fn render_frame<P: Fn(u32, u32) -> Double, D: Fn(Double, u32) -> Double>(
        &self,
        screen: ScreenArea,
        now: CivilTime,
        percentage: &P,
        deviation: &D,
    ) -> (frame: Option<FrameContents>)
        requires
            forall|lost: u32, sent: u32| #[trigger] call_requires(*percentage, (lost, sent)),
            forall|m2: Double, freedom: u32| #[trigger] call_requires(*deviation, (m2, freedom)),
        ensures
            frame is Some <==> now.exists_on_calendar(),
            frame matches Some(contents) ==> {
                &&& is_frame_layout(contents.areas, screen)
                &&& self.is_header(contents.header, now)
                &&& self.is_guide(contents.guide)
                &&& self.is_table(contents.rows@, *percentage, *deviation)
            },
    {
        let header: HeaderLine = match self.render_header(now) {
            Some(header) => header,
            None => return None,
        };
        Some(
            FrameContents {
                areas: frame_areas(screen),
                header,
                guide: self.render_guide(),
                rows: self.render_statistics_table(percentage, deviation),
            },
        )
    }
}

} // verus!
