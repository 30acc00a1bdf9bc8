//! Scripture lookups: recognising a reference in free text, naming the
//! passage to the lookup service, and presenting what it returns.

use crate::text::{
    decimal, format_decimal, from_chars, same_text, split_chars, split_on, to_chars, trim_bounds,
    trimmed,
};
use vstd::prelude::*;

verus! {

/// Address of the lookup service.
pub const SCRIPTURE_BASE_URL: &'static str = "https://scripture.egw.workers.dev";

/// The pattern of a reference: a book, a chapter, a verse, and optionally a
/// last verse and a translation.
pub const SCRIPTURE_BIBLE_REGEX: &'static str =
    r"(\d?\s?(?:[1-3]\s)?[a-z][a-z]+(?:\sof\s[a-z]+)?)\s?(\d+):(\d+)(?:-(\d+))?(?:\s?([a-z0-9]+))?";

/// A passage as the lookup service returns it.
#[derive(Debug, PartialEq, Eq)]
pub struct ScriptureResponse {
    pub initial_reference: String,
    pub resolved_reference: String,
    pub translation: String,
    pub scripture: String,
    pub previous_verse: String,
    pub next_verse: String,
    pub content_type: String,
    pub partner_key: String,
}

impl ScriptureResponse {
    /// The passage as one line: the reference, the translation in
    /// parentheses, a dash, and the text.
    pub open spec fn spec_formatted(&self) -> Seq<char> {
        self.resolved_reference@ + seq![' ', '('] + self.translation@ + seq![')', ' ', '-', ' ']
            + self.scripture@
    }

    /// The passage as one line, such as `John 3:16 (LSB) - For God so...`.
    pub fn formatted(&self) -> (text: String)
        ensures
            text@ == self.spec_formatted(),
    {
        proof {
            reveal_strlit(" (");
            reveal_strlit(") - ");
        }
        let text = self.resolved_reference.clone();
        let text = text.concat(" (");
        let text = text.concat(self.translation.as_str());
        let text = text.concat(") - ");
        let text = text.concat(self.scripture.as_str());
        assert(text@ =~= self.spec_formatted());
        text
    }
}

/// Why a lookup fails before or after the call to the service.
#[derive(Debug, PartialEq, Eq, Clone, Copy)]
pub enum ScriptureError {
    /// The pattern of a reference does not compile.
    Pattern,
    /// The text holds no reference.
    InvalidReference,
    /// The service answered with an empty body.
    EmptyResponse,
}

impl ScriptureError {
    /// The message that goes with the error.
    pub fn message(&self) -> (text: &'static str)
        ensures
            text@ == match self {
                ScriptureError::Pattern => "Error compiling regex"@,
                ScriptureError::InvalidReference => "Invalid scripture reference"@,
                ScriptureError::EmptyResponse => "Empty response from scripture service"@,
            },
    {
        match self {
            ScriptureError::Pattern => "Error compiling regex",
            ScriptureError::InvalidReference => "Invalid scripture reference",
            ScriptureError::EmptyResponse => "Empty response from scripture service",
        }
    }
}

#[verifier::external_type_specification]
#[verifier::external_body]
pub struct ExRegexError(regex::Error);

/// How a pattern is matched.
#[derive(Debug, PartialEq, Eq, Clone, Copy)]
pub struct MatchOptions {
    /// Whether letters match without regard to their case.
    pub case_insensitive: bool,
    /// Whether the pattern matches characters rather than bytes.
    pub unicode: bool,
    /// Whether a dot matches a line break too.
    pub dot_matches_new_line: bool,
}

/// The capture groups of the first match of `pattern` in `text` under
/// these options: what the `regex` crate finds. The outer `None` stands for
/// a pattern that does not compile, the inner for a text without a match.
/// Group zero is the whole match; a group that took no part is `None`.
pub uninterp spec fn regex_captures(
    pattern: Seq<char>,
    options: MatchOptions,
    text: Seq<char>,
) -> Option<Option<Seq<Option<Seq<char>>>>>;

/// Matches `pattern` against `text` and hands out the capture groups.
/// Trusted: builds the expression with `regex::RegexBuilder` under the
/// given options and calls `regex::Regex::captures`; each group is copied
/// out as text. Compiling and matching depend on the pattern, the options
/// and the text alone.
#[verifier::external_body]
fn capture_groups(pattern: &str, options: MatchOptions, text: &str) -> (groups: Result<
    Option<Vec<Option<String>>>,
    regex::Error,
>)
    ensures
        match groups {
            Ok(found) => regex_captures(pattern@, options, text@) == Some(found.deep_view()),
            Err(_) => regex_captures(pattern@, options, text@) is None,
        },
{
    let regex = regex::RegexBuilder::new(pattern)
        .case_insensitive(options.case_insensitive)
        .unicode(options.unicode)
        .dot_matches_new_line(options.dot_matches_new_line)
        .build()?;
    Ok(
        regex.captures(text).map(
            |caps| caps.iter().map(|group| group.map(|m| m.as_str().to_string())).collect(),
        ),
    )
}

/// How a reference is matched: in any case of the letters, by characters,
/// within one line.
pub open spec fn reference_options() -> MatchOptions {
    MatchOptions { case_insensitive: true, unicode: true, dot_matches_new_line: false }
}

/// A reference to a passage.
#[derive(Debug, PartialEq, Eq)]
pub struct ScriptureReference {
    pub book: String,
    pub chapter: String,
    pub verse_start: String,
    pub verse_end: String,
    pub translation: String,
}

/// Mathematical content of a `ScriptureReference`.
pub struct ReferenceModel {
    pub book: Seq<char>,
    pub chapter: Seq<char>,
    pub verse_start: Seq<char>,
    pub verse_end: Seq<char>,
    pub translation: Seq<char>,
}

impl DeepView for ScriptureReference {
    type V = ReferenceModel;

    open spec fn deep_view(&self) -> ReferenceModel {
        ReferenceModel {
            book: self.book@,
            chapter: self.chapter@,
            verse_start: self.verse_start@,
            verse_end: self.verse_end@,
            translation: self.translation@,
        }
    }
}

impl View for ScriptureReference {
    type V = ReferenceModel;

    open spec fn view(&self) -> ReferenceModel {
        self.deep_view()
    }
}

/// The text of group `i`, if the group exists and took part in the match.
pub open spec fn group(groups: Seq<Option<Seq<char>>>, i: int) -> Option<Seq<char>> {
    if 0 <= i < groups.len() {
        groups[i]
    } else {
        None
    }
}

/// The text of group `i`, or `fallback` where the group took no part.
pub open spec fn group_or(groups: Seq<Option<Seq<char>>>, i: int, fallback: Seq<char>) -> Seq<
    char,
> {
    match group(groups, i) {
        Some(text) => text,
        None => fallback,
    }
}

/// The reference that the capture groups spell: the book without
/// surrounding white space, the chapter, the first verse, the last verse
/// (the first again where none is given), and the translation (the default
/// where none is given).
pub open spec fn reference_of(groups: Seq<Option<Seq<char>>>, translation: Seq<char>) -> ReferenceModel {
    let verse_start = group_or(groups, 3, Seq::empty());
    ReferenceModel {
        book: trimmed(group_or(groups, 1, Seq::empty())),
        chapter: group_or(groups, 2, Seq::empty()),
        verse_start,
        verse_end: group_or(groups, 4, verse_start),
        translation: group_or(groups, 5, translation),
    }
}

/// The passage as the lookup service wants it named: `Book 3:16`, or
/// `Book 3:16-18` where the last verse differs from the first.
pub open spec fn query_of(r: ReferenceModel) -> Seq<char> {
    let head = r.book + seq![' '] + r.chapter + seq![':'] + r.verse_start;
    if r.verse_start == r.verse_end {
        head
    } else {
        head + seq!['-'] + r.verse_end
    }
}

/// The text of group `i`, or `fallback` where the group took no part.
fn group_text(groups: &Vec<Option<String>>, i: usize, fallback: &str) -> (text: String)
    ensures
        text@ == group_or(groups.deep_view(), i as int, fallback@),
{
    if i < groups.len() {
        match &groups[i] {
            Some(text) => text.clone(),
            None => String::from_str(fallback),
        }
    } else {
        String::from_str(fallback)
    }
}

/// `text` without its leading and trailing white space.
pub fn trim(text: &str) -> (short: String)
    ensures
        short@ == trimmed(text@),
{
    let chars = to_chars(text);
    let (from, to) = trim_bounds(&chars);
    from_chars(&chars, from, to)
}

/// Reads a reference off the capture groups of a match.
pub fn reference_from_groups(groups: &Vec<Option<String>>, translation: &str) -> (reference:
    ScriptureReference)
    ensures
        reference@ == reference_of(groups.deep_view(), translation@),
{
    proof {
        reveal_strlit("");
    }
    assert(""@ =~= Seq::<char>::empty());
    let book = trim(group_text(groups, 1, "").as_str());
    let chapter = group_text(groups, 2, "");
    let verse_start = group_text(groups, 3, "");
    let verse_end = group_text(groups, 4, verse_start.as_str());
    let translation = group_text(groups, 5, translation);
    ScriptureReference { book, chapter, verse_start, verse_end, translation }
}

/// Finds the first reference in `reference`, anywhere in the text and
/// whatever its case. `translation` applies where the text names none.
pub fn parse_reference(reference: &str, translation: &str) -> (parsed: Result<
    ScriptureReference,
    ScriptureError,
>)
    ensures
        match regex_captures(SCRIPTURE_BIBLE_REGEX@, reference_options(), reference@) {
            None => parsed == Err::<ScriptureReference, ScriptureError>(ScriptureError::Pattern),
            Some(None) => parsed == Err::<ScriptureReference, ScriptureError>(
                ScriptureError::InvalidReference,
            ),
            Some(Some(groups)) => parsed matches Ok(r) && r@ == reference_of(groups, translation@),
        },
{
    let options = MatchOptions {
        case_insensitive: true,
        unicode: true,
        dot_matches_new_line: false,
    };
    match capture_groups(SCRIPTURE_BIBLE_REGEX, options, reference) {
        Err(_) => Err(ScriptureError::Pattern),
        Ok(None) => Err(ScriptureError::InvalidReference),
        Ok(Some(groups)) => Ok(reference_from_groups(&groups, translation)),
    }
}

impl ScriptureReference {
    /// The passage as the lookup service wants it named.
    pub fn query(&self) -> (text: String)
        ensures
            text@ == query_of(self@),
    {
        proof {
            reveal_strlit(" ");
            reveal_strlit(":");
            reveal_strlit("-");
        }
        let text = self.book.clone();
        let text = text.concat(" ");
        let text = text.concat(self.chapter.as_str());
        let text = text.concat(":");
        let text = text.concat(self.verse_start.as_str());
        if same_text(self.verse_start.as_str(), self.verse_end.as_str()) {
            assert(text@ =~= query_of(self@));
            text
        } else {
            let text = text.concat("-");
            let text = text.concat(self.verse_end.as_str());
            assert(text@ =~= query_of(self@));
            text
        }
    }
}

/// `s` with every space written as `%20`.
pub open spec fn encode_spaces(s: Seq<char>) -> Seq<char>
    decreases s.len(),
{
    if s.len() == 0 {
        Seq::empty()
    } else if s.last() == ' ' {
        encode_spaces(s.drop_last()) + seq!['%', '2', '0']
    } else {
        encode_spaces(s.drop_last()).push(s.last())
    }
}

/// The address of a lookup: the service, the translation, the reference
/// with its spaces encoded, the partner, and the length limit if there is
/// one.
pub open spec fn url_of(
    translation: Seq<char>,
    reference: Seq<char>,
    partner: Seq<char>,
    length: Option<u16>,
) -> Seq<char> {
    let head = SCRIPTURE_BASE_URL@ + seq!['/'] + translation + seq!['/'] + encode_spaces(reference)
        + "?partner="@ + partner;
    match length {
        Some(n) => head + "&length="@ + decimal(n as nat),
        None => head,
    }
}

/// `text` with every space written as `%20`.
pub fn encode_reference(text: &str) -> (encoded: String)
    ensures
        encoded@ == encode_spaces(text@),
{
    let chars = to_chars(text);
    let mut out: Vec<char> = Vec::new();
    let mut i: usize = 0;
    assert(chars@.take(0) =~= Seq::<char>::empty());
    while i < chars.len()
        invariant
            i <= chars.len(),
            chars@ == text@,
            out@ == encode_spaces(chars@.take(i as int)),
        decreases chars.len() - i,
    {
        let ghost before = chars@.take(i as int);
        let ghost after = chars@.take(i + 1);
        assert(after.drop_last() =~= before);
        assert(after.last() == chars[i as int]);
        if chars[i] == ' ' {
            out.push('%');
            out.push('2');
            out.push('0');
            assert(out@ =~= encode_spaces(before) + seq!['%', '2', '0']);
        } else {
            out.push(chars[i]);
        }
        i = i + 1;
    }
    assert(chars@.take(i as int) =~= chars@);
    let encoded = from_chars(&out, 0, out.len());
    assert(out@.subrange(0, out.len() as int) =~= out@);
    encoded
}

/// The address of a lookup.
pub fn scripture_url(translation: &str, reference: &str, partner: &str, length: Option<u16>) -> (url:
    String)
    ensures
        url@ == url_of(translation@, reference@, partner@, length),
{
    proof {
        reveal_strlit("/");
    }
    let url = String::from_str(SCRIPTURE_BASE_URL);
    let url = url.concat("/");
    let url = url.concat(translation);
    let url = url.concat("/");
    let url = url.concat(encode_reference(reference).as_str());
    let url = url.concat("?partner=");
    let url = url.concat(partner);
    match length {
        Some(n) => {
            let url = url.concat("&length=");
            let url = url.concat(format_decimal(n as u64).as_str());
            assert(url@ =~= url_of(translation@, reference@, partner@, length));
            url
        },
        None => {
            assert(url@ =~= url_of(translation@, reference@, partner@, length));
            url
        },
    }
}

/// Checks the body of an answer of the service: an empty body is an error.
pub fn check_response_text(text: &str) -> (checked: Result<(), ScriptureError>)
    ensures
        checked is Ok <==> text@.len() > 0,
        checked is Err ==> checked == Err::<(), ScriptureError>(ScriptureError::EmptyResponse),
{
    if text.unicode_len() == 0 {
        Err(ScriptureError::EmptyResponse)
    } else {
        Ok(())
    }
}

/// Name of the control whose text lists references, one per line.
pub const SCRIPTURES_CONTROL: &'static str = "scriptures";

/// `s` cut at every line break; the breaks themselves are left out.
pub open spec fn pieces(s: Seq<char>) -> Seq<Seq<char>> {
    split_on(s, '\n')
}

/// The lines of `s`: its pieces, without the empty piece behind a final
/// line break.
pub open spec fn lines_of(s: Seq<char>) -> Seq<Seq<char>> {
    let all = pieces(s);
    if all.len() > 0 && all.last().len() == 0 {
        all.drop_last()
    } else {
        all
    }
}

/// One lookup that a list of references asks for.
#[derive(Debug, PartialEq, Eq)]
pub struct Lookup {
    /// The tab that shows the passage.
    pub tab_id: String,
    /// The reference to look up; empty where the line is blank, and then
    /// the tab shows nothing.
    pub reference: String,
}

/// Mathematical content of a `Lookup`.
pub struct LookupModel {
    pub tab_id: Seq<char>,
    pub reference: Seq<char>,
}

impl DeepView for Lookup {
    type V = LookupModel;

    open spec fn deep_view(&self) -> LookupModel {
        LookupModel { tab_id: self.tab_id@, reference: self.reference@ }
    }
}

impl View for Lookup {
    type V = LookupModel;

    open spec fn view(&self) -> LookupModel {
        self.deep_view()
    }
}

/// The id of the tab for line `index`: `scripture-content-` and the index.
pub open spec fn tab_id_of(index: nat) -> Seq<char> {
    "scripture-content-"@ + decimal(index)
}

/// The lookups that a control message asks for: none unless the control
/// is the list of references, else one per line of its text, blank lines
/// included, each reference without surrounding white space.
pub open spec fn lookups_of(control_name: Seq<char>, text: Seq<char>) -> Seq<LookupModel> {
    if control_name == SCRIPTURES_CONTROL@ {
        let lines = lines_of(text);
        Seq::new(
            lines.len(),
            |i: int| LookupModel { tab_id: tab_id_of(i as nat), reference: trimmed(lines[i]) },
        )
    } else {
        Seq::empty()
    }
}

/// The lines of `text`: cut at every line break, without an empty last
/// line. A carriage return in front of a line break stays in its line.
pub fn split_lines(text: &str) -> (lines: Vec<String>)
    ensures
        lines.deep_view() == lines_of(text@),
{
    let chars = to_chars(text);
    let parts = split_chars(&chars, '\n');
    let ghost all = pieces(text@);
    let keep = if parts[parts.len() - 1].len() == 0 {
        parts.len() - 1
    } else {
        parts.len()
    };
    let mut lines: Vec<String> = Vec::new();
    let mut i: usize = 0;
    while i < keep
        invariant
            i <= keep <= parts.len(),
            all == pieces(text@),
            chars@ == text@,
            parts.len() == all.len(),
            forall|j: int| 0 <= j < parts.len() ==> (#[trigger] parts[j])@ == all[j],
            lines.len() == i,
            forall|j: int| 0 <= j < i ==> (#[trigger] lines[j])@ == all[j],
        decreases keep - i,
    {
        let line = from_chars(&parts[i], 0, parts[i].len());
        assert(parts[i as int]@.subrange(0, parts[i as int].len() as int) =~= parts[i as int]@);
        lines.push(line);
        i = i + 1;
    }
    assert(lines.deep_view() =~= lines_of(text@));
    lines
}

/// The lookups that a control message asks for.
pub fn scripture_lookups(control_name: &str, text: &str) -> (lookups: Vec<Lookup>)
    ensures
        lookups.deep_view() == lookups_of(control_name@, text@),
{
    let mut lookups: Vec<Lookup> = Vec::new();
    if !same_text(control_name, SCRIPTURES_CONTROL) {
        assert(lookups.deep_view() =~= Seq::<LookupModel>::empty());
        return lookups;
    }
    let lines = split_lines(text);
    let ghost expected = lookups_of(control_name@, text@);
    let mut i: usize = 0;
    while i < lines.len()
        invariant
            i <= lines.len(),
            lines.deep_view() == lines_of(text@),
            expected == lookups_of(control_name@, text@),
            expected.len() == lines.len(),
            lookups.len() == i,
            forall|j: int| 0 <= j < i ==> (#[trigger] lookups[j])@ == expected[j],
        decreases lines.len() - i,
    {
        let tab_id = String::from_str("scripture-content-").concat(
            format_decimal(i as u64).as_str(),
        );
        let reference = trim(lines[i].as_str());
        assert(lines.deep_view()[i as int] == lines[i as int]@);
        lookups.push(Lookup { tab_id, reference });
        i = i + 1;
    }
    assert(lookups.deep_view() =~= expected);
    lookups
}

/// What a tab shows in place of a passage while the lookup service cannot
/// be reached during development.
pub fn development_notice(query: &str, translation: &str) -> (text: String)
    ensures
        text@ == "Development Mode - Reference: "@ + query@ + seq![' ', '('] + translation@
            + seq![')'],
{
    proof {
        reveal_strlit(" (");
        reveal_strlit(")");
    }
    let text = String::from_str("Development Mode - Reference: ");
    let text = text.concat(query);
    let text = text.concat(" (");
    let text = text.concat(translation);
    let text = text.concat(")");
    assert(text@ =~= "Development Mode - Reference: "@ + query@ + seq![' ', '('] + translation@
        + seq![')']);
    text
}

} // verus!
