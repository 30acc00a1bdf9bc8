//! What every page shows: titles, the year and the version.

use vstd::prelude::*;

verus! {

/// Version of this crate, as pages show it.
pub const VERSION: &'static str = "0.1.0";

/// The values that the base layout of a page needs.
pub trait BaseTemplate {
    fn title(&self) -> &str;

    fn page_title(&self) -> &str;

    fn current_year(&self) -> &str;

    fn version(&self) -> &str;
}

/// The base layout with its default texts.
#[derive(Debug, PartialEq, Eq)]
pub struct DefaultBaseTemplate {
    pub title: String,
    pub page_title: String,
    pub current_year: String,
    pub version: String,
}

impl Default for DefaultBaseTemplate {
    fn default() -> (template: DefaultBaseTemplate)
        ensures
            template.title@ == "Cloudflare Showcase"@,
            template.page_title@ == "Welcome"@,
            template.current_year@ == "2024"@,
            template.version@ == VERSION@,
    {
        DefaultBaseTemplate {
            title: String::from_str("Cloudflare Showcase"),
            page_title: String::from_str("Welcome"),
            current_year: String::from_str("2024"),
            version: String::from_str(VERSION),
        }
    }
}

impl BaseTemplate for DefaultBaseTemplate {
    fn title(&self) -> (text: &str)
        ensures
            text@ == self.title@,
    {
        self.title.as_str()
    }

    fn page_title(&self) -> (text: &str)
        ensures
            text@ == self.page_title@,
    {
        self.page_title.as_str()
    }

    fn current_year(&self) -> (text: &str)
        ensures
            text@ == self.current_year@,
    {
        self.current_year.as_str()
    }

    fn version(&self) -> (text: &str)
        ensures
            text@ == self.version@,
    {
        self.version.as_str()
    }
}

/// The clock component: the time it shows, in milliseconds.
#[derive(Debug, PartialEq, Eq, Clone, Copy)]
pub struct ClockTemplate {
    pub utc: u64,
}

} // verus!
