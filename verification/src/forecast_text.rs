//! Text of `nami forecast`: the historical-pattern points with their
//! confidence, or why there are none (never a fabricated zero).

use vstd::prelude::*;

use crate::confidence::{level_label, level_name};
use crate::instant::{valid_duration, valid_instant};
use crate::region::{region_code, Region};
use crate::run_report::{dur_text, push_dur};
use crate::scheduler::ForecastPoint;
use crate::status::{pad_left, pad_right, push_pad_left, push_pad_right};
use crate::text::{decimal, decimal_string, push_decimal, push_str};
use crate::timefmt::{instant_rfc3339, rfc3339};
use vstd::string::StringExecFns;

verus! {

/// One point's numbers as text, rendered by the caller: the intensity
/// with no decimals, and the 1σ interval `[lo, hi]` when there is one.
#[derive(Debug)]
pub struct PointFigures {
    /// Mean intensity, no decimals.
    pub intensity: String,
    /// `[lo, hi]`, no decimals.
    pub interval: Option<String>,
}

/// The column header of the point table.
pub open spec fn table_header() -> Seq<char> {
    pad_right("hour (UTC)"@, 20) + "  "@ + pad_left("gCO2/kWh"@, 9) + "  "@ + pad_left("conf"@, 8)
        + "  "@ + pad_left("samples"@, 7) + "  "@ + "1σ interval gCO2/kWh"@ + "\n"@
}

/// One row of the point table.
pub open spec fn point_row(p: ForecastPoint, f: PointFigures) -> Seq<char> {
    pad_right(instant_rfc3339(p.at), 20) + "  "@ + pad_left(f.intensity@, 9) + "  "@ + pad_left(
        level_name(p.confidence.level),
        8,
    ) + "  "@ + pad_left(decimal(p.confidence.sample_count as nat), 7) + "  "@ + (
    match f.interval {
        Some(t) => t@,
        None => "—"@,
    }) + "\n"@
}

/// The rows for the first `k` points.
pub open spec fn point_rows(ps: Seq<ForecastPoint>, fs: Seq<PointFigures>, k: int) -> Seq<char>
    decreases k,
{
    if k <= 0 {
        Seq::empty()
    } else {
        point_rows(ps, fs, k - 1) + point_row(ps[k - 1], fs[k - 1])
    }
}

/// The whole `nami forecast` output.
pub open spec fn forecast_text(
    region: Region,
    weeks: nat,
    horizon: int,
    has_history: bool,
    ps: Seq<ForecastPoint>,
    fs: Seq<PointFigures>,
) -> Seq<char> {
    let code = region_code(region);
    if ps.len() == 0 {
        (if has_history {
            "No hours in the next "@ + dur_text(horizon) + " have matching samples in the last "@
                + decimal(weeks) + " weeks for "@ + code + ".\n"@
        } else {
            "No cached history for "@ + code + " — run: nami refresh --region "@ + code + "\n"@
        }) + "No forecast produced (refuse-to-estimate, not a fabricated zero).\n"@
    } else {
        "nami forecast — region "@ + code + " — "@ + decimal(ps.len()) + " point(s) over the next "@
            + dur_text(horizon) + "\n"@
            + "Basis: historical-pattern forecast (mean of matching hour-of-day / day-of-week / month samples, last "@
            + decimal(weeks) + " weeks).\n"@
            + "Estimated AVERAGE carbon intensity (gCO2/kWh), not marginal emissions. Cache-only basis caps confidence at Low.\n\n"@
            + table_header() + point_rows(ps, fs, ps.len() as int) + "\n"@ + "Methodology: "@
            + ps[0].methodology@ + "\n"@
            + "Hours with no matching samples are omitted, never invented.\n"@
    }
}

fn header() -> (s: String)
    ensures
        s@ == table_header(),
{
    let mut s = String::new();
    push_pad_right(&mut s, "hour (UTC)", 20);
    push_str(&mut s, "  ");
    push_pad_left(&mut s, "gCO2/kWh", 9);
    push_str(&mut s, "  ");
    push_pad_left(&mut s, "conf", 8);
    push_str(&mut s, "  ");
    push_pad_left(&mut s, "samples", 7);
    push_str(&mut s, "  ");
    push_str(&mut s, "1σ interval gCO2/kWh");
    push_str(&mut s, "\n");
    assert(s@ =~= table_header());
    s
}

fn row(p: &ForecastPoint, f: &PointFigures) -> (s: String)
    requires
        valid_instant(p.at as int),
    ensures
        s@ == point_row(*p, *f),
{
    let mut s = String::new();
    push_pad_right(&mut s, rfc3339(p.at).as_str(), 20);
    push_str(&mut s, "  ");
    push_pad_left(&mut s, f.intensity.as_str(), 9);
    push_str(&mut s, "  ");
    push_pad_left(&mut s, level_label(p.confidence.level), 8);
    push_str(&mut s, "  ");
    push_pad_left(&mut s, decimal_string(p.confidence.sample_count as u128).as_str(), 7);
    push_str(&mut s, "  ");
    match &f.interval {
        Some(t) => push_str(&mut s, t.as_str()),
        None => push_str(&mut s, "—"),
    }
    push_str(&mut s, "\n");
    assert(s@ =~= point_row(*p, *f));
    s
}

/// Render the forecast points for `region` over the next `horizon`
/// (nanoseconds) from the last `weeks` weeks; `figures` holds each
/// point's numbers as text.
pub fn render(
    region: Region,
    weeks: u32,
    horizon: i128,
    has_history: bool,
    points: &Vec<ForecastPoint>,
    figures: &Vec<PointFigures>,
) -> (s: String)
    requires
        valid_duration(horizon as int),
        figures@.len() == points@.len(),
        forall|k: int| 0 <= k < points@.len() ==> valid_instant(#[trigger] points@[k].at as int),
    ensures
        s@ == forecast_text(region, weeks as nat, horizon as int, has_history, points@, figures@),
{
    let code = region.as_code();
    if points.len() == 0 {
        let mut s = String::new();
        if has_history {
            push_str(&mut s, "No hours in the next ");
            push_dur(&mut s, horizon);
            push_str(&mut s, " have matching samples in the last ");
            push_decimal(&mut s, weeks as u128);
            push_str(&mut s, " weeks for ");
            push_str(&mut s, code);
            push_str(&mut s, ".\n");
        } else {
            push_str(&mut s, "No cached history for ");
            push_str(&mut s, code);
            push_str(&mut s, " — run: nami refresh --region ");
            push_str(&mut s, code);
            push_str(&mut s, "\n");
        }
        push_str(&mut s, "No forecast produced (refuse-to-estimate, not a fabricated zero).\n");
        assert(s@ =~= forecast_text(region, weeks as nat, horizon as int, has_history, points@, figures@));
        return s;
    }
    let mut rows = String::new();
    let mut k: usize = 0;
    while k < points.len()
        invariant
            k <= points@.len(),
            figures@.len() == points@.len(),
            forall|j: int| 0 <= j < points@.len() ==> valid_instant(#[trigger] points@[j].at as int),
            rows@ == point_rows(points@, figures@, k as int),
        decreases points@.len() - k,
    {
        push_str(&mut rows, row(&points[k], &figures[k]).as_str());
        k = k + 1;
    }
    let mut s = String::from_str("nami forecast — region ");
    push_str(&mut s, code);
    push_str(&mut s, " — ");
    push_decimal(&mut s, points.len() as u128);
    push_str(&mut s, " point(s) over the next ");
    push_dur(&mut s, horizon);
    push_str(&mut s, "\n");
    push_str(
        &mut s,
        "Basis: historical-pattern forecast (mean of matching hour-of-day / day-of-week / month samples, last ",
    );
    push_decimal(&mut s, weeks as u128);
    push_str(&mut s, " weeks).\n");
    push_str(
        &mut s,
        "Estimated AVERAGE carbon intensity (gCO2/kWh), not marginal emissions. Cache-only basis caps confidence at Low.\n\n",
    );
    push_str(&mut s, header().as_str());
    push_str(&mut s, rows.as_str());
    push_str(&mut s, "\n");
    push_str(&mut s, "Methodology: ");
    push_str(&mut s, points[0].methodology.as_str());
    push_str(&mut s, "\n");
    push_str(&mut s, "Hours with no matching samples are omitted, never invented.\n");
    s
}

} // verus!
