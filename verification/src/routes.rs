//! Routing of the message store API and the reading of query strings.

use crate::text::{
    chars_start_with, find_char, first_index_of, from_chars, slice_chars, split_chars, split_on,
    starts_with, to_chars,
};
use vstd::prelude::*;

verus! {

/// The request methods that the API tells apart.
#[derive(Debug, PartialEq, Eq, Clone, Copy)]
pub enum Method {
    Get,
    Post,
    Delete,
    Other,
}

/// Which optional endpoints an instance of the API offers.
#[derive(Debug, PartialEq, Eq, Clone, Copy)]
pub struct ApiProfile {
    /// Whether several messages can be stored in one request.
    pub bulk_insert: bool,
    /// Whether the database can be exported as a file.
    pub export_file: bool,
}

/// What a request to the API asks for.
#[derive(Debug, PartialEq, Eq)]
pub enum SqliteRoute {
    AddMessage,
    RecentMessages { limit: u32 },
    UserMessages { user_id: String },
    DeleteMessages,
    DeleteOld,
    BulkInsert,
    Stats,
    Export,
    ExportFile,
    SqlTest,
    NotFound,
}

/// Mathematical content of a `SqliteRoute`.
pub enum SqliteRouteModel {
    AddMessage,
    RecentMessages { limit: u32 },
    UserMessages { user_id: Seq<char> },
    DeleteMessages,
    DeleteOld,
    BulkInsert,
    Stats,
    Export,
    ExportFile,
    SqlTest,
    NotFound,
}

impl DeepView for SqliteRoute {
    type V = SqliteRouteModel;

    open spec fn deep_view(&self) -> SqliteRouteModel {
        match self {
            SqliteRoute::AddMessage => SqliteRouteModel::AddMessage,
            SqliteRoute::RecentMessages { limit } => SqliteRouteModel::RecentMessages {
                limit: *limit,
            },
            SqliteRoute::UserMessages { user_id } => SqliteRouteModel::UserMessages {
                user_id: user_id@,
            },
            SqliteRoute::DeleteMessages => SqliteRouteModel::DeleteMessages,
            SqliteRoute::DeleteOld => SqliteRouteModel::DeleteOld,
            SqliteRoute::BulkInsert => SqliteRouteModel::BulkInsert,
            SqliteRoute::Stats => SqliteRouteModel::Stats,
            SqliteRoute::Export => SqliteRouteModel::Export,
            SqliteRoute::ExportFile => SqliteRouteModel::ExportFile,
            SqliteRoute::SqlTest => SqliteRouteModel::SqlTest,
            SqliteRoute::NotFound => SqliteRouteModel::NotFound,
        }
    }
}

impl View for SqliteRoute {
    type V = SqliteRouteModel;

    open spec fn view(&self) -> SqliteRouteModel {
        self.deep_view()
    }
}

/// Number of recent messages that a request without a usable limit gets.
pub const DEFAULT_LIMIT: u32 = 50;

/// The path below the API: the path without a leading `/sqlite/api`.
pub open spec fn api_path(path: Seq<char>) -> Seq<char> {
    if starts_with(path, "/sqlite/api"@) {
        path.skip("/sqlite/api"@.len() as int)
    } else {
        path
    }
}

/// `s` without any number of leading copies of `prefix`.
pub open spec fn strip_repeated(s: Seq<char>, prefix: Seq<char>) -> Seq<char>
    decreases s.len(),
{
    if prefix.len() > 0 && starts_with(s, prefix) {
        strip_repeated(s.skip(prefix.len() as int), prefix)
    } else {
        s
    }
}

/// The value of the first `n` characters of `s` read as decimal digits.
pub open spec fn digits_value(s: Seq<char>, n: nat) -> nat
    recommends
        n <= s.len(),
    decreases n,
{
    if n == 0 {
        0
    } else {
        digits_value(s, (n - 1) as nat) * 10 + (s[n - 1] as u32 - 0x30) as nat
    }
}

/// Every character of `s` is a decimal digit.
pub open spec fn all_digits(s: Seq<char>) -> bool {
    forall|i: int| 0 <= i < s.len() ==> 0x30 <= (#[trigger] s[i]) as u32 <= 0x39
}

/// The number that the digits `body` spell: at least one digit, and no
/// more than 32 bits.
pub open spec fn digits_u32(body: Seq<char>) -> Option<u32> {
    if body.len() > 0 && all_digits(body) && digits_value(body, body.len()) <= u32::MAX {
        Some(digits_value(body, body.len()) as u32)
    } else {
        None
    }
}

/// The number that `s` spells: decimal digits, at least one, behind an
/// optional plus sign, and no more than 32 bits.
pub open spec fn parsed_u32(s: Seq<char>) -> Option<u32> {
    if s.len() > 0 && s[0] == '+' {
        digits_u32(s.skip(1))
    } else {
        digits_u32(s)
    }
}

/// Key and value of a parameter as the message routes read it: the texts
/// before and behind the first equals sign, the value ending at a second
/// one. An empty parameter, and one without equals sign, has neither.
pub open spec fn pair_of(piece: Seq<char>) -> Option<(Seq<char>, Seq<char>)> {
    let parts = split_on(piece, '=');
    if piece.len() > 0 && parts.len() >= 2 {
        Some((parts[0], parts[1]))
    } else {
        None
    }
}

/// Key and value of a parameter as the metrics route reads it: the texts
/// before and behind the first equals sign.
pub open spec fn pair_once(piece: Seq<char>) -> Option<(Seq<char>, Seq<char>)> {
    let k = first_index_of(piece, '=');
    if 0 <= k < piece.len() {
        Some((piece.take(k), piece.skip(k + 1)))
    } else {
        None
    }
}

/// Key and value of a parameter, read in one of the two ways.
pub open spec fn pair_by(piece: Seq<char>, once: bool) -> Option<(Seq<char>, Seq<char>)> {
    if once {
        pair_once(piece)
    } else {
        pair_of(piece)
    }
}

/// The value of the last of the first `n` parameters that has this key.
pub open spec fn last_value(pieces: Seq<Seq<char>>, n: nat, key: Seq<char>, once: bool) -> Option<
    Seq<char>,
>
    recommends
        n <= pieces.len(),
    decreases n,
{
    if n == 0 {
        None
    } else {
        match pair_by(pieces[n - 1], once) {
            Some((k, v)) if k == key => Some(v),
            _ => last_value(pieces, (n - 1) as nat, key, once),
        }
    }
}

/// The value of the parameter `key` in a query string: parameters are
/// separated by `&`, and the last one with the key counts.
pub open spec fn param_value(query: Seq<char>, key: Seq<char>, once: bool) -> Option<Seq<char>> {
    let pieces = split_on(query, '&');
    last_value(pieces, pieces.len(), key, once)
}

/// The limit that a query string asks for; the default where it names
/// none, or one that is no number of 32 bits.
pub open spec fn limit_of(query: Seq<char>) -> u32 {
    match param_value(query, "limit"@, false) {
        Some(v) => match parsed_u32(v) {
            Some(n) => n,
            None => DEFAULT_LIMIT,
        },
        None => DEFAULT_LIMIT,
    }
}

/// What a request asks for.
pub open spec fn route_of(
    method: Method,
    path: Seq<char>,
    query: Seq<char>,
    profile: ApiProfile,
) -> SqliteRouteModel {
    let p = api_path(path);
    match method {
        Method::Post => if p == "/message"@ {
            SqliteRouteModel::AddMessage
        } else if p == "/bulk-insert"@ && profile.bulk_insert {
            SqliteRouteModel::BulkInsert
        } else {
            SqliteRouteModel::NotFound
        },
        Method::Get => if p == "/messages"@ {
            SqliteRouteModel::RecentMessages { limit: limit_of(query) }
        } else if starts_with(p, "/user/"@) {
            SqliteRouteModel::UserMessages { user_id: strip_repeated(p, "/user/"@) }
        } else if p == "/stats"@ {
            SqliteRouteModel::Stats
        } else if p == "/export"@ {
            SqliteRouteModel::Export
        } else if p == "/export-file"@ && profile.export_file {
            SqliteRouteModel::ExportFile
        } else if p == "/sql-test"@ {
            SqliteRouteModel::SqlTest
        } else {
            SqliteRouteModel::NotFound
        },
        Method::Delete => if p == "/messages"@ {
            SqliteRouteModel::DeleteMessages
        } else if p == "/old"@ {
            SqliteRouteModel::DeleteOld
        } else {
            SqliteRouteModel::NotFound
        },
        Method::Other => SqliteRouteModel::NotFound,
    }
}

/// A longer run of digits is worth at least as much.
pub proof fn lemma_digits_value_monotonic(s: Seq<char>, a: nat, b: nat)
    requires
        a <= b <= s.len(),
        all_digits(s),
    ensures
        digits_value(s, a) <= digits_value(s, b),
    decreases b,
{
    if a < b {
        lemma_digits_value_monotonic(s, a, (b - 1) as nat);
        assert(0x30 <= s[b - 1] as u32 <= 0x39);
    }
}

/// Reads a number of 32 bits: decimal digits behind an optional plus sign.
pub fn parse_u32(text: &Vec<char>) -> (value: Option<u32>)
    ensures
        value == parsed_u32(text@),
{
    let from: usize = if text.len() > 0 && text[0] == '+' {
        1
    } else {
        0
    };
    let ghost body = text@.skip(from as int);
    assert(text@.skip(0) =~= text@);
    assert(parsed_u32(text@) == digits_u32(body));
    if from >= text.len() {
        return None;
    }
    let mut total: u64 = 0;
    let mut i: usize = from;
    while i < text.len()
        invariant
            from <= i <= text.len(),
            body == text@.skip(from as int),
            parsed_u32(text@) == digits_u32(body),
            forall|j: int| 0 <= j < i - from ==> 0x30 <= (#[trigger] body[j]) as u32 <= 0x39,
            total == digits_value(body, (i - from) as nat),
            total <= u32::MAX,
        decreases text.len() - i,
    {
        let c = text[i];
        assert(body[i - from] == c);
        let u: u32 = c as u32;
        if u < 0x30 || u > 0x39 {
            assert(!all_digits(body));
            return None;
        }
        total = total * 10 + (u - 0x30) as u64;
        if total > 0xFFFF_FFFF {
            proof {
                let ghost n = (i + 1 - from) as nat;
                if all_digits(body) {
                    lemma_digits_value_monotonic(body, n, body.len());
                }
            }
            return None;
        }
        i = i + 1;
    }
    Some(total as u32)
}

/// `v` from position `from` on, as a string.
fn tail_string(v: &Vec<char>, from: usize) -> (s: String)
    requires
        from <= v.len(),
    ensures
        s@ == v@.skip(from as int),
{
    let s = from_chars(v, from, v.len());
    assert(v@.subrange(from as int, v.len() as int) =~= v@.skip(from as int));
    s
}

/// Whether two character vectors hold the same text.
fn same_chars(a: &Vec<char>, b: &Vec<char>) -> (same: bool)
    ensures
        same == (a@ == b@),
{
    if a.len() != b.len() {
        return false;
    }
    let mut i: usize = 0;
    while i < a.len()
        invariant
            i <= a.len() == b.len(),
            forall|j: int| 0 <= j < i ==> a[j] == b[j],
        decreases a.len() - i,
    {
        if a[i] != b[i] {
            return false;
        }
        i = i + 1;
    }
    assert(a@ =~= b@);
    true
}

/// Key and value of one parameter, read in one of the two ways.
fn read_pair(piece: &Vec<char>, once: bool) -> (pair: Option<(Vec<char>, Vec<char>)>)
    ensures
        pair is Some <==> pair_by(piece@, once) is Some,
        pair matches Some((k, v)) ==> pair_by(piece@, once) == Some((k@, v@)),
{
    if once {
        let k = find_char(piece, 0, '=');
        assert(piece@.skip(0) =~= piece@);
        if k < piece.len() {
            let key = slice_chars(piece, 0, k);
            let value = slice_chars(piece, k + 1, piece.len());
            assert(piece@.subrange(0, k as int) =~= piece@.take(k as int));
            assert(piece@.subrange(k + 1, piece.len() as int) =~= piece@.skip(k + 1));
            Some((key, value))
        } else {
            None
        }
    } else {
        let mut parts = split_chars(piece, '=');
        if piece.len() > 0 && parts.len() >= 2 {
            let value = parts.swap_remove(1);
            let key = parts.swap_remove(0);
            Some((key, value))
        } else {
            None
        }
    }
}

/// The value of the parameter `key` in a query string.
pub fn query_param(query: &str, key: &str, once: bool) -> (value: Option<Vec<char>>)
    ensures
        value is Some <==> param_value(query@, key@, once) is Some,
        value matches Some(v) ==> param_value(query@, key@, once) == Some(v@),
{
    let chars = to_chars(query);
    let wanted = to_chars(key);
    let pieces = split_chars(&chars, '&');
    let ghost all = split_on(query@, '&');
    let mut found: Option<Vec<char>> = None;
    let mut i: usize = 0;
    while i < pieces.len()
        invariant
            i <= pieces.len(),
            wanted@ == key@,
            all == split_on(query@, '&'),
            pieces.len() == all.len(),
            forall|j: int| 0 <= j < pieces.len() ==> (#[trigger] pieces[j])@ == all[j],
            found is Some <==> last_value(all, i as nat, key@, once) is Some,
            found matches Some(v) ==> last_value(all, i as nat, key@, once) == Some(v@),
        decreases pieces.len() - i,
    {
        assert(pieces[i as int]@ == all[i as int]);
        match read_pair(&pieces[i], once) {
            Some((k, v)) => {
                if same_chars(&k, &wanted) {
                    found = Some(v);
                }
            },
            None => {},
        }
        i = i + 1;
    }
    found
}

/// The limit that a query string asks for.
pub fn query_limit(query: &str) -> (limit: u32)
    ensures
        limit == limit_of(query@),
{
    match query_param(query, "limit", false) {
        Some(v) => match parse_u32(&v) {
            Some(n) => n,
            None => DEFAULT_LIMIT,
        },
        None => DEFAULT_LIMIT,
    }
}

/// Position behind any number of leading copies of `prefix`.
fn skip_repeated(v: &Vec<char>, prefix: &Vec<char>) -> (from: usize)
    ensures
        from <= v.len(),
        v@.skip(from as int) == strip_repeated(v@, prefix@),
{
    let mut from: usize = 0;
    assert(v@.skip(0) =~= v@);
    if prefix.len() == 0 {
        return 0;
    }
    while chars_start_with(v, from, prefix)
        invariant
            from <= v.len(),
            prefix.len() > 0,
            strip_repeated(v@, prefix@) == strip_repeated(v@.skip(from as int), prefix@),
        decreases v.len() - from,
    {
        assert(v@.skip(from as int).skip(prefix.len() as int) =~= v@.skip(from + prefix.len()));
        from = from + prefix.len();
    }
    from
}

/// Decides what a request to the API asks for.
///
/// The path counts without a leading `/sqlite/api`. A request that matches
/// no endpoint, or an endpoint that the profile does not offer, is not
/// found.
pub fn route(method: Method, path: &str, query: &str, profile: ApiProfile) -> (found: SqliteRoute)
    ensures
        found@ == route_of(method, path@, query@, profile),
{
    let chars = to_chars(path);
    let prefix = to_chars("/sqlite/api");
    assert(chars@.skip(0) =~= chars@);
    let from: usize = if chars_start_with(&chars, 0, &prefix) {
        prefix.len()
    } else {
        0
    };
    let p = slice_chars(&chars, from, chars.len());
    assert(chars@.subrange(from as int, chars.len() as int) =~= chars@.skip(from as int));
    assert(p@ == api_path(path@));
    assert(p@.skip(0) =~= p@);
    match method {
        Method::Post => {
            if same_chars(&p, &to_chars("/message")) {
                SqliteRoute::AddMessage
            } else if same_chars(&p, &to_chars("/bulk-insert")) && profile.bulk_insert {
                SqliteRoute::BulkInsert
            } else {
                SqliteRoute::NotFound
            }
        },
        Method::Get => {
            let user = to_chars("/user/");
            if same_chars(&p, &to_chars("/messages")) {
                SqliteRoute::RecentMessages { limit: query_limit(query) }
            } else if chars_start_with(&p, 0, &user) {
                let start = skip_repeated(&p, &user);
                SqliteRoute::UserMessages { user_id: tail_string(&p, start) }
            } else if same_chars(&p, &to_chars("/stats")) {
                SqliteRoute::Stats
            } else if same_chars(&p, &to_chars("/export")) {
                SqliteRoute::Export
            } else if same_chars(&p, &to_chars("/export-file")) && profile.export_file {
                SqliteRoute::ExportFile
            } else if same_chars(&p, &to_chars("/sql-test")) {
                SqliteRoute::SqlTest
            } else {
                SqliteRoute::NotFound
            }
        },
        Method::Delete => {
            if same_chars(&p, &to_chars("/messages")) {
                SqliteRoute::DeleteMessages
            } else if same_chars(&p, &to_chars("/old")) {
                SqliteRoute::DeleteOld
            } else {
                SqliteRoute::NotFound
            }
        },
        Method::Other => SqliteRoute::NotFound,
    }
}

/// The parameters of a metrics request.
#[derive(Debug, PartialEq, Eq)]
pub struct MetricsQuery {
    pub period: String,
    pub metric: String,
}

/// The period of a metrics request; seven days where it names none.
pub open spec fn period_of(query: Seq<char>) -> Seq<char> {
    match param_value(query, "period"@, true) {
        Some(v) => v,
        None => "7d"@,
    }
}

/// The metric of a metrics request; all metrics where it names none.
pub open spec fn metric_of(query: Seq<char>) -> Seq<char> {
    match param_value(query, "metric"@, true) {
        Some(v) => v,
        None => "all"@,
    }
}

/// Reads the period and the metric off the query string of a metrics
/// request.
pub fn parse_metrics_query(query: &str) -> (parsed: MetricsQuery)
    ensures
        parsed.period@ == period_of(query@),
        parsed.metric@ == metric_of(query@),
{
    let period = match query_param(query, "period", true) {
        Some(v) => {
            assert(v@.skip(0) =~= v@);
            tail_string(&v, 0)
        },
        None => String::from_str("7d"),
    };
    let metric = match query_param(query, "metric", true) {
        Some(v) => {
            assert(v@.skip(0) =~= v@);
            tail_string(&v, 0)
        },
        None => String::from_str("all"),
    };
    MetricsQuery { period, metric }
}

/// Days that a period covers: one for `24h`, thirty for `30d`, and seven
/// for `7d` and for every other text.
pub open spec fn days_of(period: Seq<char>) -> u32 {
    if period == "24h"@ {
        1
    } else if period == "30d"@ {
        30
    } else {
        7
    }
}

/// Days that a period covers.
pub fn period_days(period: &str) -> (days: u32)
    ensures
        days == days_of(period@),
{
    let chars = to_chars(period);
    if same_chars(&chars, &to_chars("24h")) {
        1
    } else if same_chars(&chars, &to_chars("30d")) {
        30
    } else {
        7
    }
}

} // verus!
