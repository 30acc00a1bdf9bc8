use cloudflare_showcase::routes::{
    parse_metrics_query, parse_u32, period_days, query_limit, query_param, route, ApiProfile,
    Method, MetricsQuery, SqliteRoute, DEFAULT_LIMIT,
};

const FULL: ApiProfile = ApiProfile { bulk_insert: true, export_file: true };
const PLAIN: ApiProfile = ApiProfile { bulk_insert: false, export_file: false };

fn chars(text: &str) -> Vec<char> {
    text.chars().collect()
}

#[test]
fn endpoints_are_routed() {
    assert_eq!(route(Method::Post, "/sqlite/api/message", "", FULL), SqliteRoute::AddMessage);
    assert_eq!(
        route(Method::Get, "/sqlite/api/messages", "limit=5", FULL),
        SqliteRoute::RecentMessages { limit: 5 }
    );
    assert_eq!(
        route(Method::Get, "/sqlite/api/user/u1", "", FULL),
        SqliteRoute::UserMessages { user_id: "u1".to_string() }
    );
    assert_eq!(route(Method::Delete, "/sqlite/api/messages", "", FULL), SqliteRoute::DeleteMessages);
    assert_eq!(route(Method::Delete, "/sqlite/api/old", "", FULL), SqliteRoute::DeleteOld);
    assert_eq!(route(Method::Post, "/sqlite/api/bulk-insert", "", FULL), SqliteRoute::BulkInsert);
    assert_eq!(route(Method::Get, "/sqlite/api/stats", "", FULL), SqliteRoute::Stats);
    assert_eq!(route(Method::Get, "/sqlite/api/export", "", FULL), SqliteRoute::Export);
    assert_eq!(route(Method::Get, "/sqlite/api/export-file", "", FULL), SqliteRoute::ExportFile);
    assert_eq!(route(Method::Get, "/sqlite/api/sql-test", "", FULL), SqliteRoute::SqlTest);
}

#[test]
fn path_counts_without_the_prefix() {
    assert_eq!(route(Method::Get, "/stats", "", FULL), SqliteRoute::Stats);
    assert_eq!(route(Method::Get, "/sqlite/api", "", FULL), SqliteRoute::NotFound);
    assert_eq!(route(Method::Get, "/sqlite/api/sqlite/api/stats", "", FULL), SqliteRoute::NotFound);
}

#[test]
fn unknown_requests_are_not_found() {
    assert_eq!(route(Method::Get, "/sqlite/api/message", "", FULL), SqliteRoute::NotFound);
    assert_eq!(route(Method::Post, "/sqlite/api/messages", "", FULL), SqliteRoute::NotFound);
    assert_eq!(route(Method::Delete, "/sqlite/api/stats", "", FULL), SqliteRoute::NotFound);
    assert_eq!(route(Method::Other, "/sqlite/api/stats", "", FULL), SqliteRoute::NotFound);
    assert_eq!(route(Method::Get, "/sqlite/api/Stats", "", FULL), SqliteRoute::NotFound);
    assert_eq!(route(Method::Get, "", "", FULL), SqliteRoute::NotFound);
    assert_eq!(route(Method::Get, "/sqlite/api/user", "", FULL), SqliteRoute::NotFound);
}

#[test]
fn optional_endpoints_follow_the_profile() {
    assert_eq!(route(Method::Post, "/sqlite/api/bulk-insert", "", PLAIN), SqliteRoute::NotFound);
    assert_eq!(route(Method::Get, "/sqlite/api/export-file", "", PLAIN), SqliteRoute::NotFound);
    assert_eq!(route(Method::Get, "/sqlite/api/export", "", PLAIN), SqliteRoute::Export);
}

#[test]
fn user_id_is_what_follows_the_prefix() {
    let user = |path: &str| route(Method::Get, path, "", PLAIN);
    assert_eq!(user("/user/"), SqliteRoute::UserMessages { user_id: String::new() });
    assert_eq!(user("/user/a/b"), SqliteRoute::UserMessages { user_id: "a/b".to_string() });
    assert_eq!(user("/user//user/x"), SqliteRoute::UserMessages { user_id: "x".to_string() });
    assert_eq!(user("/user//user"), SqliteRoute::UserMessages { user_id: "/user".to_string() });
}

#[test]
fn limit_defaults_to_fifty() {
    assert_eq!(DEFAULT_LIMIT, 50);
    assert_eq!(query_limit(""), 50);
    assert_eq!(query_limit("limit"), 50);
    assert_eq!(query_limit("limit="), 50);
    assert_eq!(query_limit("limit=abc"), 50);
    assert_eq!(query_limit("limit=-1"), 50);
    assert_eq!(query_limit("limit=4294967296"), 50);
    assert_eq!(query_limit("Limit=7"), 50);
    assert_eq!(query_limit("other=7"), 50);
}

#[test]
fn limit_is_read_from_the_query() {
    assert_eq!(query_limit("limit=7"), 7);
    assert_eq!(query_limit("limit=0"), 0);
    assert_eq!(query_limit("limit=+12"), 12);
    assert_eq!(query_limit("limit=007"), 7);
    assert_eq!(query_limit("limit=4294967295"), u32::MAX);
    assert_eq!(query_limit("a=1&limit=3&b=2"), 3);
    assert_eq!(query_limit("limit=3&limit=9"), 9);
    assert_eq!(query_limit("&&limit=3&"), 3);
    assert_eq!(query_limit("limit=3=4"), 3);
    assert_eq!(query_limit("limit=9&limit=x"), 50);
}

#[test]
fn numbers_of_32_bits_are_parsed() {
    assert_eq!(parse_u32(&chars("0")), Some(0));
    assert_eq!(parse_u32(&chars("+0")), Some(0));
    assert_eq!(parse_u32(&chars("123")), Some(123));
    assert_eq!(parse_u32(&chars("4294967295")), Some(u32::MAX));
    assert_eq!(parse_u32(&chars("00000000004294967295")), Some(u32::MAX));
    assert_eq!(parse_u32(&chars("4294967296")), None);
    assert_eq!(parse_u32(&chars("99999999999999999999999999")), None);
    assert_eq!(parse_u32(&chars("")), None);
    assert_eq!(parse_u32(&chars("+")), None);
    assert_eq!(parse_u32(&chars("-1")), None);
    assert_eq!(parse_u32(&chars("++1")), None);
    assert_eq!(parse_u32(&chars("1+")), None);
    assert_eq!(parse_u32(&chars("1 ")), None);
    assert_eq!(parse_u32(&chars("12a")), None);
    assert_eq!(parse_u32(&chars("\u{663}")), None);
}

#[test]
fn numbers_agree_with_the_standard_library() {
    for text in ["0", "+5", "17", "4294967295", "4294967296", "", "+", "-0", "1e3", " 1", "0x1"] {
        assert_eq!(parse_u32(&chars(text)), text.parse::<u32>().ok());
    }
}

#[test]
fn parameter_value_ends_at_a_second_equals_sign_or_not() {
    assert_eq!(query_param("a=b=c", "a", false), Some(chars("b")));
    assert_eq!(query_param("a=b=c", "a", true), Some(chars("b=c")));
    assert_eq!(query_param("a", "a", false), None);
    assert_eq!(query_param("a", "a", true), None);
    assert_eq!(query_param("=v", "", false), Some(chars("v")));
    assert_eq!(query_param("a=", "a", true), Some(chars("")));
    assert_eq!(query_param("a=1&a=2", "a", true), Some(chars("2")));
    assert_eq!(query_param("", "a", true), None);
}

#[test]
fn metrics_query_has_defaults() {
    assert_eq!(
        parse_metrics_query(""),
        MetricsQuery { period: "7d".to_string(), metric: "all".to_string() }
    );
    assert_eq!(
        parse_metrics_query("period=24h&metric=pageViews"),
        MetricsQuery { period: "24h".to_string(), metric: "pageViews".to_string() }
    );
    assert_eq!(
        parse_metrics_query("metric=a&x=y&metric=b=c"),
        MetricsQuery { period: "7d".to_string(), metric: "b=c".to_string() }
    );
}

#[test]
fn periods_cover_days() {
    assert_eq!(period_days("24h"), 1);
    assert_eq!(period_days("7d"), 7);
    assert_eq!(period_days("30d"), 30);
    assert_eq!(period_days("1y"), 7);
    assert_eq!(period_days(""), 7);
    assert_eq!(period_days("24H"), 7);
}
