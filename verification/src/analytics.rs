//! The statements and addresses of the analytics query service.

use crate::sql::format_sql_number;
use crate::text::decimal;
use vstd::prelude::*;

verus! {

/// Name of the dataset that the pages write to.
pub const DATASET: &'static str = "showcase_analytics";

/// The credentials of the analytics query service.
#[derive(Debug, PartialEq, Eq)]
pub struct AnalyticsEngineSql {
    account_id: String,
    api_token: String,
}

impl AnalyticsEngineSql {
    /// The account whose datasets are queried.
    pub closed spec fn account_id(&self) -> Seq<char> {
        self.account_id@
    }

    /// The token that authorises the queries.
    pub closed spec fn api_token(&self) -> Seq<char> {
        self.api_token@
    }

    /// A client for this account.
    pub fn new(account_id: String, api_token: String) -> (client: AnalyticsEngineSql)
        ensures
            client.account_id() == account_id@,
            client.api_token() == api_token@,
    {
        AnalyticsEngineSql { account_id, api_token }
    }

    /// The address that queries are posted to.
    pub fn endpoint(&self) -> (url: String)
        ensures
            url@ == "https://api.cloudflare.com/client/v4/accounts/"@ + self.account_id()
                + "/analytics_engine/sql"@,
    {
        let url = String::from_str("https://api.cloudflare.com/client/v4/accounts/");
        let url = url.concat(self.account_id.as_str());
        url.concat("/analytics_engine/sql")
    }

    /// The value of the authorisation header of a query.
    pub fn authorization(&self) -> (value: String)
        ensures
            value@ == "Bearer "@ + self.api_token(),
    {
        String::from_str("Bearer ").concat(self.api_token.as_str())
    }
}

/// The condition that limits a query to the last `days` days.
pub open spec fn since(days: u32) -> Seq<char> {
    " AND timestamp > NOW() - INTERVAL '"@ + decimal(days as nat) + "' DAY"@
}

/// A query for one weighted average over the events called `event`.
pub open spec fn average_query(column: Seq<char>, dataset: Seq<char>, event: Seq<char>, days: u32) -> Seq<
    char,
> {
    "SELECT SUM(_sample_interval * double1) / SUM(_sample_interval) as "@ + column + " FROM "@
        + dataset + " WHERE blob1 = '"@ + event + "'"@ + since(days)
}

/// The condition that limits a query to the last `days` days.
fn since_sql(days: u32) -> (sql: String)
    ensures
        sql@ == since(days),
{
    let sql = String::from_str(" AND timestamp > NOW() - INTERVAL '");
    let sql = sql.concat(format_sql_number(days as i64).as_str());
    sql.concat("' DAY")
}

/// A query for one weighted average over the events called `event`.
fn average_sql(column: &str, dataset: &str, event: &str, days: u32) -> (sql: String)
    ensures
        sql@ == average_query(column@, dataset@, event@, days),
{
    let sql = String::from_str("SELECT SUM(_sample_interval * double1) / SUM(_sample_interval) as ");
    let sql = sql.concat(column);
    let sql = sql.concat(" FROM ");
    let sql = sql.concat(dataset);
    let sql = sql.concat(" WHERE blob1 = '");
    let sql = sql.concat(event);
    let sql = sql.concat("'");
    let sql = sql.concat(since_sql(days).as_str());
    assert(sql@ =~= average_query(column@, dataset@, event@, days));
    sql
}

/// The query for the average page load time.
pub fn avg_page_load_time_sql(dataset: &str, days: u32) -> (sql: String)
    ensures
        sql@ == average_query("avg_load_time"@, dataset@, "page_view"@, days),
{
    average_sql("avg_load_time", dataset, "page_view", days)
}

/// The query for the average time on a page.
pub fn avg_time_on_page_sql(dataset: &str, days: u32) -> (sql: String)
    ensures
        sql@ == average_query("avg_time_seconds"@, dataset@, "time_on_page"@, days),
{
    average_sql("avg_time_seconds", dataset, "time_on_page", days)
}

/// The query for the number of page views.
pub fn page_view_count_sql(dataset: &str, days: u32) -> (sql: String)
    ensures
        sql@ == "SELECT COUNT(*) as view_count FROM "@ + dataset@ + " WHERE blob1 = 'page_view'"@
            + since(days),
{
    let sql = String::from_str("SELECT COUNT(*) as view_count FROM ");
    let sql = sql.concat(dataset);
    let sql = sql.concat(" WHERE blob1 = 'page_view'");
    let sql = sql.concat(since_sql(days).as_str());
    assert(sql@ =~= "SELECT COUNT(*) as view_count FROM "@ + dataset@
        + " WHERE blob1 = 'page_view'"@ + since(days));
    sql
}

} // verus!
