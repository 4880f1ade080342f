//! Statistics over the log of model requests.
use vstd::prelude::*;

verus! {

/// The stretch of time that statistics cover.
#[derive(Debug, Clone, Copy, PartialEq, Eq, Structural)]
pub enum StatsRange {
    Hour,
    Day,
    Week,
    Month,
}

impl Default for StatsRange {
    fn default() -> (r: StatsRange)
        ensures
            r == StatsRange::Week,
    {
        StatsRange::Week
    }
}

/// A request for statistics.
#[derive(Debug)]
pub struct StatsQuery {
    pub range: Option<StatsRange>,
}

/// How often a model was asked.
#[derive(Debug)]
pub struct ModelStats {
    pub model_name: String,
    pub requests: i64,
}

/// The statistics by minute.
pub const SQL_DAILY_HOUR: &'static str = "SELECT strftime('%H:%M', created_at, 'localtime')        AS day,
            COUNT(*)                                          AS requests,
            COALESCE(SUM(input_tokens),      0)               AS input_tokens,
            COALESCE(SUM(output_tokens),     0)               AS output_tokens,
            COALESCE(SUM(cache_read_tokens), 0)               AS cache_read_tokens,
            AVG(duration_ms)                                  AS avg_duration_ms
     FROM llm_requests
     WHERE created_at >= datetime('now', ?)
     GROUP BY strftime('%H:%M', created_at, 'localtime')
     ORDER BY day ASC";

/// The statistics by hour.
pub const SQL_DAILY_HOUR_BUCKET: &'static str = "SELECT strftime('%m-%d %H:00', created_at, 'localtime')  AS day,
            COUNT(*)                                          AS requests,
            COALESCE(SUM(input_tokens),      0)               AS input_tokens,
            COALESCE(SUM(output_tokens),     0)               AS output_tokens,
            COALESCE(SUM(cache_read_tokens), 0)               AS cache_read_tokens,
            AVG(duration_ms)                                  AS avg_duration_ms
     FROM llm_requests
     WHERE created_at >= datetime('now', ?)
     GROUP BY strftime('%m-%d %H:00', created_at, 'localtime')
     ORDER BY day ASC";

/// The statistics by day.
pub const SQL_DAILY_DATE: &'static str = "SELECT DATE(created_at, 'localtime')                     AS day,
            COUNT(*)                                          AS requests,
            COALESCE(SUM(input_tokens),      0)               AS input_tokens,
            COALESCE(SUM(output_tokens),     0)               AS output_tokens,
            COALESCE(SUM(cache_read_tokens), 0)               AS cache_read_tokens,
            AVG(duration_ms)                                  AS avg_duration_ms
     FROM llm_requests
     WHERE created_at >= datetime('now', ?)
     GROUP BY DATE(created_at, 'localtime')
     ORDER BY day ASC";

/// The models that were asked most.
pub const SQL_MODELS: &'static str = "SELECT model_name, COUNT(*) AS requests
     FROM llm_requests
     WHERE created_at >= datetime('now', ?)
     GROUP BY model_name
     ORDER BY requests DESC
     LIMIT 6";

/// The range that a request asks for: the last week where it does not say.
pub open spec fn range_of(q: StatsQuery) -> StatsRange {
    match q.range {
        Some(r) => r,
        None => StatsRange::Week,
    }
}

/// The time window of a request, and the query by which its statistics are
/// gathered.
pub fn llm_stats(q: &StatsQuery) -> (r: (&'static str, &'static str))
    ensures
        match range_of(*q) {
            StatsRange::Hour => r.0@ == "-60 minutes"@ && r.1@ == SQL_DAILY_HOUR@,
            StatsRange::Day => r.0@ == "-24 hours"@ && r.1@ == SQL_DAILY_HOUR_BUCKET@,
            StatsRange::Week => r.0@ == "-7 days"@ && r.1@ == SQL_DAILY_DATE@,
            StatsRange::Month => r.0@ == "-30 days"@ && r.1@ == SQL_DAILY_DATE@,
        },
{
    let range: StatsRange = match q.range {
        Some(r) => r,
        None => StatsRange::default(),
    };
    match range {
        StatsRange::Hour => ("-60 minutes", SQL_DAILY_HOUR),
        StatsRange::Day => ("-24 hours", SQL_DAILY_HOUR_BUCKET),
        StatsRange::Week => ("-7 days", SQL_DAILY_DATE),
        StatsRange::Month => ("-30 days", SQL_DAILY_DATE),
    }
}

/// How far back the figures go: an hour, a day, a week or thirty days; a week
/// where nothing is said.
pub proof fn law_ranges(q: &StatsQuery, r: (&'static str, &'static str))
    requires
        call_ensures(llm_stats, (q,), r),
    ensures
        q.range is None || q.range == Some(StatsRange::Week) ==> r.0@ == "-7 days"@ && r.1@
            == SQL_DAILY_DATE@,
        q.range == Some(StatsRange::Hour) ==> r.0@ == "-60 minutes"@ && r.1@ == SQL_DAILY_HOUR@,
        q.range == Some(StatsRange::Day) ==> r.0@ == "-24 hours"@ && r.1@
            == SQL_DAILY_HOUR_BUCKET@,
        q.range == Some(StatsRange::Month) ==> r.0@ == "-30 days"@ && r.1@ == SQL_DAILY_DATE@,
{
}

} // verus!
