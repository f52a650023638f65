use crate::text::{
    chars_of, has_char, is_whitespace, pieces, same_text, split, string_of, strip_whitespace,
    whitespace, without_whitespace,
};
use crate::text_map::TextMap;
use vstd::prelude::*;
use vstd::string::*;

verus! {

/// A course that files are sorted into: its code and what it is about.
#[derive(Debug)]
pub struct Course {
    pub name: String,
    pub description: String,
}

/// A course as plain text.
pub struct CourseView {
    pub name: Seq<char>,
    pub description: Seq<char>,
}

impl View for Course {
    type V = CourseView;

    open spec fn view(&self) -> CourseView {
        CourseView { name: self.name@, description: self.description@ }
    }
}

impl DeepView for Course {
    type V = CourseView;

    open spec fn deep_view(&self) -> CourseView {
        self@
    }
}

impl Clone for Course {
    fn clone(&self) -> (r: Course)
        ensures
            r == *self,
    {
        Course { name: self.name.clone(), description: self.description.clone() }
    }
}

/// What the monitor is told once, when it starts.
#[derive(Debug)]
pub struct Config {
    pub download_path: String,
    pub base_path: String,
    pub current_term: String,
    pub start_year: i32,
    pub end_year: i32,
    pub coop: bool,
    pub courses: Vec<Course>,
    pub api_key: String,
}

impl Default for Config {
    fn default() -> (r: Config)
        ensures
            r.download_path@.len() == 0,
            r.base_path@.len() == 0,
            r.current_term@.len() == 0,
            r.start_year == 0,
            r.end_year == 0,
            !r.coop,
            r.courses@.len() == 0,
            r.api_key@.len() == 0,
    {
        Config {
            download_path: String::new(),
            base_path: String::new(),
            current_term: String::new(),
            start_year: 0,
            end_year: 0,
            coop: false,
            courses: Vec::new(),
            api_key: String::new(),
        }
    }
}

/// `s` with every white-space character left out.
pub fn remove_whitespace(s: String) -> (r: String)
    ensures
        r@ == without_whitespace(s@),
{
    strip_whitespace(s.as_str())
}

/// Whether `s` can be a list of courses: it holds a comma, or no space.
pub fn is_valid_course_list(s: &str) -> (r: bool)
    ensures
        r == (s@.contains(',') || !s@.contains(' ')),
{
    has_char(s, ',') || !has_char(s, ' ')
}

/// The entries of a comma-separated list, white space left out.
pub fn csl_to_vec(s: String) -> (r: Vec<String>)
    ensures
        r.deep_view() == pieces(without_whitespace(s@), ','),
{
    let stripped = remove_whitespace(s);
    split(stripped.as_str(), ',')
}

/// Why the configuration could not be put together.
#[derive(Debug, Clone, Copy, PartialEq, Eq, Structural)]
pub enum SetupError {
    /// A course of the list is not in the catalogue.
    UnknownCourse,
    /// A year is no number.
    InvalidYear,
    /// The answer on co-op is neither `true` nor `false`.
    InvalidFlag,
    /// No key was entered and none was provided otherwise.
    MissingApiKey,
}

/// The upper-case form of an ASCII letter; every other character as it is.
pub open spec fn ascii_upper(c: char) -> char {
    if 'a' <= c <= 'z' {
        ((c as u32) - 32) as u8 as char
    } else {
        c
    }
}

/// `s` with its ASCII letters in upper case.
pub open spec fn ascii_uppercase(s: Seq<char>) -> Seq<char> {
    s.map_values(|c: char| ascii_upper(c))
}

/// The courses that a list of entries names: each entry that the catalogue
/// describes, in the order of the list, under its code in upper case.
pub open spec fn listed_courses(
    entries: Seq<Seq<char>>,
    catalog: Map<Seq<char>, Option<String>>,
) -> Seq<CourseView>
    decreases entries.len(),
{
    if entries.len() == 0 {
        Seq::empty()
    } else {
        let earlier = listed_courses(entries.drop_last(), catalog);
        match catalog[entries.last()] {
            Some(description) => earlier.push(
                CourseView { name: ascii_uppercase(entries.last()), description: description@ },
            ),
            None => earlier,
        }
    }
}

/// `s` with its ASCII letters in upper case.
pub fn to_ascii_uppercase(s: &str) -> (r: String)
    ensures
        r@ == ascii_uppercase(s@),
{
    let chars = chars_of(s);
    let mut out: Vec<char> = Vec::new();
    let mut i: usize = 0;
    while i < chars.len()
        invariant
            i <= chars.len(),
            chars@ == s@,
            out@ == ascii_uppercase(s@.take(i as int)),
        decreases chars.len() - i,
    {
        let c = chars[i];
        let upper = if 'a' <= c && c <= 'z' {
            ((c as u32) - 32) as u8 as char
        } else {
            c
        };
        out.push(upper);
        i += 1;
    }
    string_of(&out)
}

/// The courses that the comma-separated list `s` names. Every entry of the
/// list has to be in the catalogue; one that the catalogue does not describe
/// is left out.
pub fn parse_course_list(s: String, courses_map: &TextMap<Option<String>>) -> (r: Result<
    Vec<Course>,
    SetupError,
>)
    ensures
        match r {
            Ok(courses) => {
                &&& forall|i: int|
                    0 <= i < pieces(without_whitespace(s@), ',').len() ==> courses_map@.contains_key(
                        #[trigger] pieces(without_whitespace(s@), ',')[i],
                    )
                &&& courses.deep_view() == listed_courses(
                    pieces(without_whitespace(s@), ','),
                    courses_map@,
                )
            },
            Err(e) => e == SetupError::UnknownCourse && exists|i: int|
                0 <= i < pieces(without_whitespace(s@), ',').len() && !courses_map@.contains_key(
                    #[trigger] pieces(without_whitespace(s@), ',')[i],
                ),
        },
{
    let ghost entries = pieces(without_whitespace(s@), ',');
    let course_list = csl_to_vec(s);
    let mut courses: Vec<Course> = Vec::new();
    let mut i: usize = 0;
    while i < course_list.len()
        invariant
            i <= course_list.len(),
            course_list.deep_view() == entries,
            entries == pieces(without_whitespace(s@), ','),
            forall|k: int| 0 <= k < i ==> courses_map@.contains_key(#[trigger] entries[k]),
            courses.deep_view() == listed_courses(entries.take(i as int), courses_map@),
        decreases course_list.len() - i,
    {
        let entry = &course_list[i];
        assert(entry@ == entries[i as int]);
        assert(entries.take(i + 1).drop_last() =~= entries.take(i as int));
        match courses_map.get(entry.as_str()) {
            None => {
                return Err(SetupError::UnknownCourse);
            },
            Some(None) => {},
            Some(Some(description)) => {
                let course = Course {
                    name: to_ascii_uppercase(entry.as_str()),
                    description: description.clone(),
                };
                courses.push(course);
            },
        }
        i += 1;
    }
    assert(entries.take(i as int) =~= entries);
    Ok(courses)
}

/// One course as the catalogue service reports it.
#[derive(Debug)]
pub struct CatalogEntry {
    pub subject_code: Option<String>,
    pub catalog_number: Option<String>,
    pub description: Option<String>,
}

/// The catalogue that the reported courses make: the description of each
/// course that has a subject and a number, under the two put together. Of
/// two courses with the same code the later one counts.
pub open spec fn catalog_of(entries: Seq<CatalogEntry>) -> Map<Seq<char>, Option<String>>
    decreases entries.len(),
{
    if entries.len() == 0 {
        Map::empty()
    } else {
        let earlier = catalog_of(entries.drop_last());
        let entry = entries.last();
        match (entry.subject_code, entry.catalog_number) {
            (Some(subject), Some(number)) => earlier.insert(subject@ + number@, entry.description),
            _ => earlier,
        }
    }
}

/// The catalogue that the reported courses make.
pub fn course_catalog(entries: &Vec<CatalogEntry>) -> (r: TextMap<Option<String>>)
    ensures
        r@ == catalog_of(entries@),
{
    let mut map: TextMap<Option<String>> = TextMap::new();
    let mut i: usize = 0;
    while i < entries.len()
        invariant
            i <= entries.len(),
            map@ == catalog_of(entries@.take(i as int)),
        decreases entries.len() - i,
    {
        let entry = &entries[i];
        proof {
            assert(entries@.take(i + 1).drop_last() =~= entries@.take(i as int));
        }
        match (&entry.subject_code, &entry.catalog_number) {
            (Some(subject), Some(number)) => {
                let mut key = subject.clone();
                key.append(number.as_str());
                let description = match &entry.description {
                    Some(text) => Some(text.clone()),
                    None => None,
                };
                map.insert(key, description);
            },
            _ => {},
        }
        i += 1;
    }
    assert(entries@.take(i as int) =~= entries@);
    map
}

/// The address at which the catalogue of the term `term_code` is asked for.
pub fn catalog_url(term_code: &str) -> (r: String)
    ensures
        r@ == "https://openapi.data.uwaterloo.ca/v3"@ + "/Courses/"@ + term_code@,
{
    let mut url = "https://openapi.data.uwaterloo.ca/v3".to_owned();
    url.append("/Courses/");
    url.append(term_code);
    url
}

/// Whether `text` holds nothing but white space.
pub open spec fn blank(text: Seq<char>) -> bool {
    forall|i: int| 0 <= i < text.len() ==> is_whitespace(#[trigger] text[i])
}

/// Whether `text` holds nothing but white space.
pub fn is_blank(text: &str) -> (r: bool)
    ensures
        r == blank(text@),
{
    let chars = chars_of(text);
    let mut i: usize = 0;
    while i < chars.len()
        invariant
            i <= chars.len(),
            chars@ == text@,
            forall|k: int| 0 <= k < i ==> is_whitespace(#[trigger] text@[k]),
        decreases chars.len() - i,
    {
        if !whitespace(chars[i]) {
            return false;
        }
        i += 1;
    }
    true
}

/// Whether every character of `text` is a decimal digit.
pub open spec fn all_digits(text: Seq<char>) -> bool {
    forall|i: int| 0 <= i < text.len() ==> '0' <= #[trigger] text[i] <= '9'
}

/// The number that a run of decimal digits writes.
pub open spec fn decimal(digits: Seq<char>) -> int
    decreases digits.len(),
{
    if digits.len() == 0 {
        0
    } else {
        decimal(digits.drop_last()) * 10 + (digits.last() as u32 - 48)
    }
}

/// The number that `text` writes: an optional sign and at least one decimal
/// digit, nothing else, and a value that 32 bits with a sign can hold.
pub open spec fn number_of(text: Seq<char>) -> Option<int> {
    let signed = text.len() > 0 && (text[0] == '-' || text[0] == '+');
    let digits = if signed {
        text.skip(1)
    } else {
        text
    };
    if digits.len() == 0 || !all_digits(digits) {
        None
    } else {
        let value = if text[0] == '-' {
            -decimal(digits)
        } else {
            decimal(digits)
        };
        if i32::MIN <= value <= i32::MAX {
            Some(value)
        } else {
            None
        }
    }
}

/// More digits never write a smaller number.
proof fn lemma_decimal_grows(digits: Seq<char>, n: int)
    requires
        all_digits(digits),
        0 <= n <= digits.len(),
    ensures
        0 <= decimal(digits.take(n)) <= decimal(digits),
    decreases digits.len() - n,
{
    if n == digits.len() {
        assert(digits.take(n) =~= digits);
        lemma_decimal_positive(digits);
    } else {
        lemma_decimal_grows(digits, n + 1);
        let longer = digits.take(n + 1);
        assert(longer.drop_last() =~= digits.take(n));
        assert('0' <= longer.last() <= '9');
        assert(all_digits(digits.take(n)));
        lemma_decimal_positive(digits.take(n));
    }
}

/// A run of digits writes no negative number.
proof fn lemma_decimal_positive(digits: Seq<char>)
    requires
        all_digits(digits),
    ensures
        0 <= decimal(digits),
    decreases digits.len(),
{
    if digits.len() > 0 {
        let shorter = digits.drop_last();
        assert(all_digits(shorter));
        lemma_decimal_positive(shorter);
        assert('0' <= digits.last() <= '9');
    }
}

/// The number that `text` writes, as `str::parse::<i32>` reads it.
pub fn parse_number(text: &str) -> (r: Option<i32>)
    ensures
        match r {
            Some(n) => number_of(text@) == Some(n as int),
            None => number_of(text@) is None,
        },
{
    let chars = chars_of(text);
    let negative = chars.len() > 0 && chars[0] == '-';
    let signed = chars.len() > 0 && (chars[0] == '-' || chars[0] == '+');
    let start: usize = if signed { 1 } else { 0 };
    let ghost digits = if signed { text@.skip(1) } else { text@ };
    if chars.len() == start {
        return None;
    }
    let mut magnitude: i64 = 0;
    let mut i: usize = start;
    while i < chars.len()
        invariant
            start <= i <= chars.len(),
            chars@ == text@,
            start == (if signed { 1usize } else { 0usize }),
            digits == (if signed { text@.skip(1) } else { text@ }),
            signed == (text@.len() > 0 && (text@[0] == '-' || text@[0] == '+')),
            negative == (text@.len() > 0 && text@[0] == '-'),
            all_digits(digits.take(i - start)),
            magnitude == decimal(digits.take(i - start)),
            0 <= magnitude <= 2147483648,
        decreases chars.len() - i,
    {
        let c = chars[i];
        if !('0' <= c && c <= '9') {
            return None;
        }
        let value: i64 = (c as u32 - 48) as i64;
        let ghost longer = digits.take(i - start + 1);
        proof {
            assert(longer.drop_last() =~= digits.take(i - start));
            assert(all_digits(longer)) by {
                assert(forall|k: int|
                    0 <= k < longer.len() - 1 ==> longer[k] == digits.take(i - start)[k]);
            }
        }
        let next: i64 = magnitude * 10 + value;
        if next > 2147483648 {
            proof {
                if all_digits(digits) {
                    lemma_decimal_grows(digits, i - start + 1);
                }
            }
            return None;
        }
        magnitude = next;
        i += 1;
    }
    assert(digits.take(i - start) =~= digits);
    if negative {
        Some((-magnitude) as i32)
    } else if magnitude == 2147483648 {
        None
    } else {
        Some(magnitude as i32)
    }
}

/// What `text` says of a yes-or-no question: `true`, `false`, or nothing.
pub open spec fn flag_of(text: Seq<char>) -> Option<bool> {
    if text == "true"@ {
        Some(true)
    } else if text == "false"@ {
        Some(false)
    } else {
        None
    }
}

/// What `text` says of a yes-or-no question, as `str::parse::<bool>` reads it.
pub fn parse_flag(text: &str) -> (r: Option<bool>)
    ensures
        r == flag_of(text@),
{
    if same_text(text, "true") {
        Some(true)
    } else if same_text(text, "false") {
        Some(false)
    } else {
        None
    }
}

/// The key to ask the catalogue with: the one that was entered, or, where
/// nothing was entered, the one that was provided otherwise.
pub fn resolve_api_key(entered: String, provided: Option<String>) -> (r: Result<String, SetupError>)
    ensures
        r == (if !blank(entered@) {
            Ok::<String, SetupError>(entered)
        } else {
            match provided {
                Some(key) => Ok(key),
                None => Err(SetupError::MissingApiKey),
            }
        }),
{
    if !is_blank(entered.as_str()) {
        Ok(entered)
    } else {
        match provided {
            Some(key) => Ok(key),
            None => Err(SetupError::MissingApiKey),
        }
    }
}

/// What was answered when the configuration was set up.
#[derive(Debug)]
pub struct Answers {
    pub download_path: String,
    pub base_path: String,
    pub current_term: String,
    pub start_year: String,
    pub end_year: String,
    pub coop: String,
    pub courses: String,
}

/// The first thing that is wrong with the answers, if anything is.
pub open spec fn answers_error(answers: Answers, catalog: Map<Seq<char>, Option<String>>) -> Option<
    SetupError,
> {
    let entries = pieces(without_whitespace(answers.courses@), ',');
    if number_of(answers.start_year@) is None || number_of(answers.end_year@) is None {
        Some(SetupError::InvalidYear)
    } else if flag_of(answers.coop@) is None {
        Some(SetupError::InvalidFlag)
    } else if exists|i: int| 0 <= i < entries.len() && !catalog.contains_key(#[trigger] entries[i]) {
        Some(SetupError::UnknownCourse)
    } else {
        None
    }
}

/// The configuration that the answers make: the download directory is the
/// one given, or the usual one where none was given.
pub fn assemble_config(
    answers: Answers,
    default_download_path: String,
    api_key: String,
    catalog: &TextMap<Option<String>>,
) -> (r: Result<Config, SetupError>)
    ensures
        match r {
            Ok(config) => {
                &&& answers_error(answers, catalog@) is None
                &&& config.download_path@ == (if blank(answers.download_path@) {
                    default_download_path@
                } else {
                    answers.download_path@
                })
                &&& config.base_path@ == answers.base_path@
                &&& config.current_term@ == answers.current_term@
                &&& number_of(answers.start_year@) == Some(config.start_year as int)
                &&& number_of(answers.end_year@) == Some(config.end_year as int)
                &&& flag_of(answers.coop@) == Some(config.coop)
                &&& config.courses.deep_view() == listed_courses(
                    pieces(without_whitespace(answers.courses@), ','),
                    catalog@,
                )
                &&& config.api_key@ == api_key@
            },
            Err(e) => answers_error(answers, catalog@) == Some(e),
        },
{
    let start_year = match parse_number(answers.start_year.as_str()) {
        Some(year) => year,
        None => {
            return Err(SetupError::InvalidYear);
        },
    };
    let end_year = match parse_number(answers.end_year.as_str()) {
        Some(year) => year,
        None => {
            return Err(SetupError::InvalidYear);
        },
    };
    let coop = match parse_flag(answers.coop.as_str()) {
        Some(flag) => flag,
        None => {
            return Err(SetupError::InvalidFlag);
        },
    };
    let courses = match parse_course_list(answers.courses, catalog) {
        Ok(courses) => courses,
        Err(e) => {
            return Err(e);
        },
    };
    let download_path = if is_blank(answers.download_path.as_str()) {
        default_download_path
    } else {
        answers.download_path
    };
    Ok(
        Config {
            download_path,
            base_path: answers.base_path,
            current_term: answers.current_term,
            start_year,
            end_year,
            coop,
            courses,
            api_key,
        },
    )
}

} // verus!
