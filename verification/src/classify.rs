use crate::setup::Course;
use crate::text::{contains, contains_text, strip_whitespace, without_whitespace};
use vstd::prelude::*;

verus! {

/// A file that arrived with a record of where it came from.
#[derive(Debug)]
pub struct File {
    pub name: String,
    pub url: String,
    pub path: String,
}

/// A candidate file as plain text.
pub struct FileView {
    pub name: Seq<char>,
    pub url: Seq<char>,
    pub path: Seq<char>,
}

impl View for File {
    type V = FileView;

    open spec fn view(&self) -> FileView {
        FileView { name: self.name@, url: self.url@, path: self.path@ }
    }
}

impl Clone for File {
    fn clone(&self) -> (r: File)
        ensures
            r == *self,
    {
        File { name: self.name.clone(), url: self.url.clone(), path: self.path.clone() }
    }
}

/// What the course list says of a file.
#[derive(Debug)]
pub enum Classification {
    Matched(Course),
    Unmatched,
}

/// Whether a file belongs to the course with the code `code`: its name, white
/// space left out, or its origin holds the code.
pub open spec fn course_matches(file: FileView, code: Seq<char>) -> bool {
    contains_text(without_whitespace(file.name), code) || contains_text(file.url, code)
}

/// The place of the first course from `from` on that `file` belongs to.
pub open spec fn first_match_from(file: FileView, courses: Seq<Course>, from: int) -> Option<int>
    decreases courses.len() - from,
{
    if from < 0 || from >= courses.len() {
        None
    } else if course_matches(file, courses[from].name@) {
        Some(from)
    } else {
        first_match_from(file, courses, from + 1)
    }
}

/// The place of the first course in `courses` that `file` belongs to.
pub open spec fn first_match(file: FileView, courses: Seq<Course>) -> Option<int> {
    first_match_from(file, courses, 0)
}

/// The first match is a match, and no course before it is one; where there
/// is none, no course matches.
pub proof fn lemma_first_match_from(file: FileView, courses: Seq<Course>, from: int)
    requires
        0 <= from,
    ensures
        match first_match_from(file, courses, from) {
            Some(i) => from <= i < courses.len() && course_matches(file, courses[i].name@)
                && forall|j: int| from <= j < i ==> !course_matches(file, #[trigger] courses[j].name@),
            None => forall|j: int|
                from <= j < courses.len() ==> !course_matches(file, #[trigger] courses[j].name@),
        },
    decreases courses.len() - from,
{
    if from < courses.len() && !course_matches(file, courses[from].name@) {
        lemma_first_match_from(file, courses, from + 1);
    }
}

/// The order of the course list breaks ties: where a file belongs to the
/// course at `i`, the first match is that course or one listed before it.
pub proof fn lemma_first_listed_wins(file: FileView, courses: Seq<Course>, i: int)
    requires
        0 <= i < courses.len(),
        course_matches(file, courses[i].name@),
    ensures
        first_match(file, courses) is Some,
        first_match(file, courses).unwrap() <= i,
        forall|j: int|
            0 <= j < first_match(file, courses).unwrap() ==> !course_matches(
                file,
                #[trigger] courses[j].name@,
            ),
{
    lemma_first_match_from(file, courses, 0);
}

/// The first course of `courses`, in their order, that `file` belongs to.
pub fn grep_course_code(file: &File, courses: &Vec<Course>) -> (r: Classification)
    ensures
        match first_match(file@, courses@) {
            Some(i) => r == Classification::Matched(courses@[i]),
            None => r is Unmatched,
        },
{
    let sanitized_name = strip_whitespace(file.name.as_str());
    let mut i: usize = 0;
    while i < courses.len()
        invariant
            i <= courses.len(),
            sanitized_name@ == without_whitespace(file@.name),
            first_match(file@, courses@) == first_match_from(file@, courses@, i as int),
        decreases courses.len() - i,
    {
        let code = courses[i].name.as_str();
        if contains(sanitized_name.as_str(), code) || contains(file.url.as_str(), code) {
            return Classification::Matched(courses[i].clone());
        }
        i += 1;
    }
    Classification::Unmatched
}

} // verus!
