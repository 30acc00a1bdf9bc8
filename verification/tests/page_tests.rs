use cloudflare_showcase::analytics::{
    avg_page_load_time_sql, avg_time_on_page_sql, page_view_count_sql, AnalyticsEngineSql, DATASET,
};
use cloudflare_showcase::page::{BaseTemplate, TurnstileResponse, ValidationState};
use cloudflare_showcase::template::{
    BaseTemplate as Layout, ClockTemplate, DefaultBaseTemplate, VERSION,
};

#[test]
fn default_layout_has_the_default_texts() {
    let layout = DefaultBaseTemplate::default();
    assert_eq!(layout.title(), "Cloudflare Showcase");
    assert_eq!(layout.page_title(), "Welcome");
    assert_eq!(layout.current_year(), "2024");
    assert_eq!(layout.version(), VERSION);
    assert_eq!(VERSION, "0.1.0");
}

#[test]
fn layout_hands_out_its_fields() {
    let layout = DefaultBaseTemplate {
        title: "t".to_string(),
        page_title: "p".to_string(),
        current_year: "y".to_string(),
        version: "v".to_string(),
    };
    assert_eq!(layout.title(), "t");
    assert_eq!(layout.page_title(), "p");
    assert_eq!(layout.current_year(), "y");
    assert_eq!(layout.version(), "v");
}

#[test]
fn clock_holds_the_time() {
    assert_eq!(ClockTemplate { utc: 1_700_000_000_000 }.utc, 1_700_000_000_000);
}

#[test]
fn default_state_is_not_validated() {
    let state = ValidationState::default();
    assert!(!state.is_validated);
    assert_eq!(state.validation_message, "");
}

#[test]
fn state_follows_the_cookie() {
    assert_eq!(
        ValidationState::from_cookie(false, None),
        ValidationState {
            is_validated: false,
            validation_message: "Cookie header not found".to_string()
        }
    );
    assert_eq!(
        ValidationState::from_cookie(false, Some("true".to_string())),
        ValidationState {
            is_validated: false,
            validation_message: "Cookie header not found".to_string()
        }
    );
    assert_eq!(
        ValidationState::from_cookie(true, None),
        ValidationState { is_validated: false, validation_message: "Invalid Turnstile".to_string() }
    );
    assert_eq!(
        ValidationState::from_cookie(true, Some("true".to_string())),
        ValidationState { is_validated: true, validation_message: "true".to_string() }
    );
}

#[test]
fn frame_of_a_page() {
    let state = ValidationState { is_validated: true, validation_message: "true".to_string() };
    let base = BaseTemplate::new("key".to_string(), &state, "Home", "Welcome");
    assert_eq!(
        base,
        BaseTemplate {
            title: "Home".to_string(),
            page_title: "Welcome".to_string(),
            site_key: "key".to_string(),
            current_year: "2024".to_string(),
            version: VERSION.to_string(),
            is_validated: true,
            validation_message: "true".to_string(),
        }
    );
}

#[test]
fn verification_answer_holds_its_fields() {
    let answer = TurnstileResponse { success: false, error_codes: Some(vec!["bad".to_string()]) };
    assert!(!answer.success);
    assert_eq!(answer.error_codes, Some(vec!["bad".to_string()]));
}

#[test]
fn analytics_client_addresses_its_account() {
    let client = AnalyticsEngineSql::new("acct".to_string(), "secret".to_string());
    assert_eq!(
        client.endpoint(),
        "https://api.cloudflare.com/client/v4/accounts/acct/analytics_engine/sql"
    );
    assert_eq!(client.authorization(), "Bearer secret");
}

#[test]
fn analytics_queries() {
    assert_eq!(DATASET, "showcase_analytics");
    assert_eq!(
        avg_page_load_time_sql(DATASET, 7),
        "SELECT SUM(_sample_interval * double1) / SUM(_sample_interval) as avg_load_time FROM \
         showcase_analytics WHERE blob1 = 'page_view' AND timestamp > NOW() - INTERVAL '7' DAY"
    );
    assert_eq!(
        avg_time_on_page_sql("d", 30),
        "SELECT SUM(_sample_interval * double1) / SUM(_sample_interval) as avg_time_seconds FROM \
         d WHERE blob1 = 'time_on_page' AND timestamp > NOW() - INTERVAL '30' DAY"
    );
    assert_eq!(
        page_view_count_sql("d", 1),
        "SELECT COUNT(*) as view_count FROM d WHERE blob1 = 'page_view' AND timestamp > NOW() - \
         INTERVAL '1' DAY"
    );
}
