//! The ownership file of a repository: which owners answer for which paths.

use crate::error::Report;
use crate::text::{
    all_whitespace, chars_of, distinct, lemma_distinct, lemma_words_apart,
    lemma_words_ignore_surrounding_space, line_end, lines, lines_from, push_distinct,
    split_whitespace, str_eq, words,
};
use vstd::prelude::*;

verus! {

/// What an assignment says: a path pattern and the owners of the paths it
/// matches, each named once, in the order in which the line first names them.
pub ghost struct AssignmentView {
    pub file_pattern: Seq<char>,
    pub owners: Seq<Seq<char>>,
}

/// One line of an ownership file.
#[derive(Debug)]
pub struct Assignment {
    /// A git compatible glob that says which files this assignment applies to.
    file_pattern: String,
    /// The user names of those who own that part of the code.
    owners: Vec<String>,
}

/// An ownership file. Its lines are ordered, and two lines may give the same
/// pattern, so the assignments are kept as a sequence in the order of the
/// file.
#[derive(Debug)]
pub struct CodeOwners {
    assignments: Vec<Assignment>,
}

/// Whether `name` is written as an owner: with an `@` in front.
pub open spec fn has_sigil(name: Seq<char>) -> bool {
    name.len() > 0 && name[0] == '@'
}

/// The first position from `i` on at which `name` holds something else than
/// `@`, or the end of `name`.
pub open spec fn sigil_end(name: Seq<char>, i: int) -> int
    decreases name.len() - i,
{
    if 0 <= i < name.len() && name[i] == '@' {
        sigil_end(name, i + 1)
    } else {
        i
    }
}

/// An owner's name without the `@` signs in front of it.
pub open spec fn strip_sigils(name: Seq<char>) -> Seq<char> {
    name.subrange(sigil_end(name, 0), name.len() as int)
}

/// The first of the tokens from position `i` on that is not written as an
/// owner.
pub open spec fn first_without_sigil(tokens: Seq<Seq<char>>, i: int) -> Option<Seq<char>>
    decreases tokens.len() - i,
{
    if i < 0 || i >= tokens.len() {
        None
    } else if !has_sigil(tokens[i]) {
        Some(tokens[i])
    } else {
        first_without_sigil(tokens, i + 1)
    }
}

/// The owners that `tokens` name: each token without its sigils, a name that
/// comes again left out.
pub open spec fn owner_names(tokens: Seq<Seq<char>>) -> Seq<Seq<char>> {
    distinct(tokens.map_values(|token: Seq<char>| strip_sigils(token)))
}

/// What the words of a line mean: the first is the pattern, the others are
/// owners. A line without words, an owner without a sigil, or a pattern
/// without any owner is an error.
pub open spec fn parse_words(tokens: Seq<Seq<char>>) -> Result<AssignmentView, Seq<Seq<char>>> {
    if tokens.len() == 0 {
        Err(seq!["No file pattern for code owners line"@])
    } else {
        match first_without_sigil(tokens, 1) {
            Some(name) => Err(
                seq![
                    "Unable to parse code owners for "@ + tokens[0],
                    "Code owner `"@ + name + "` does not start with an @"@,
                ],
            ),
            None => if tokens.len() == 1 {
                Err(seq!["File pattern `"@ + tokens[0] + "` has no owners"@])
            } else {
                Ok(
                    AssignmentView {
                        file_pattern: tokens[0],
                        owners: owner_names(tokens.subrange(1, tokens.len() as int)),
                    },
                )
            },
        }
    }
}

/// What a line means.
pub open spec fn parse_line(line: Seq<char>) -> Result<AssignmentView, Seq<Seq<char>>> {
    parse_words(words(line))
}

/// Whether a line says nothing: it is blank, or a comment, whose first
/// character after white space is `#`.
pub open spec fn is_ignored(line: Seq<char>) -> bool {
    words(line).len() == 0 || words(line)[0][0] == '#'
}

/// What a sequence of lines means: the assignments of the lines that say
/// something, in order, or the error of the first line that is malformed.
pub open spec fn parse_lines(all: Seq<Seq<char>>) -> Result<Seq<AssignmentView>, Seq<Seq<char>>>
    decreases all.len(),
{
    if all.len() == 0 {
        Ok(Seq::empty())
    } else {
        match parse_lines(all.drop_last()) {
            Err(e) => Err(e),
            Ok(earlier) => if is_ignored(all.last()) {
                Ok(earlier)
            } else {
                match parse_line(all.last()) {
                    Ok(assignment) => Ok(earlier.push(assignment)),
                    Err(e) => Err(e),
                }
            },
        }
    }
}

/// What an ownership file means.
pub open spec fn parse_document(source: Seq<char>) -> Result<Seq<AssignmentView>, Seq<Seq<char>>> {
    parse_lines(lines(source))
}

/// The owners of the first assignment from position `i` on whose pattern is
/// exactly `*`.
pub open spec fn wildcard_owners(assignments: Seq<AssignmentView>, i: int) -> Option<
    Seq<Seq<char>>,
>
    decreases assignments.len() - i,
{
    if i < 0 || i >= assignments.len() {
        None
    } else if assignments[i].file_pattern == "*"@ {
        Some(assignments[i].owners)
    } else {
        wildcard_owners(assignments, i + 1)
    }
}

/// Once a line is malformed, the lines after it change nothing.
pub proof fn lemma_parse_lines_error_stays(
    done: Seq<Seq<char>>,
    rest: Seq<Seq<char>>,
)
    requires
        parse_lines(done) is Err,
    ensures
        parse_lines(done + rest) == parse_lines(done),
    decreases rest.len(),
{
    if rest.len() == 0 {
        assert(done + rest =~= done);
    } else {
        lemma_parse_lines_error_stays(done, rest.drop_last());
        assert((done + rest).drop_last() =~= done + rest.drop_last());
    }
}

/// Where every token from position `i` on is written as an owner, none is
/// found that is not; else the first that is not is found.
pub proof fn lemma_first_without_sigil(tokens: Seq<Seq<char>>, i: int)
    requires
        0 <= i,
    ensures
        match first_without_sigil(tokens, i) {
            None => forall|k: int| i <= k < tokens.len() ==> has_sigil(#[trigger] tokens[k]),
            Some(name) => exists|k: int|
                i <= k < tokens.len() && !has_sigil(#[trigger] tokens[k]) && tokens[k] == name
                    && forall|j: int| i <= j < k ==> has_sigil(#[trigger] tokens[j]),
        },
    decreases tokens.len() - i,
{
    if i < tokens.len() {
        if has_sigil(tokens[i]) {
            lemma_first_without_sigil(tokens, i + 1);
            if first_without_sigil(tokens, i) is Some {
                let name = first_without_sigil(tokens, i)->Some_0;
                let k = choose|k: int|
                    i + 1 <= k < tokens.len() && !has_sigil(#[trigger] tokens[k]) && tokens[k]
                        == name && forall|j: int| i + 1 <= j < k ==> has_sigil(#[trigger] tokens[j]);
                assert(i <= k < tokens.len() && !has_sigil(tokens[k]) && tokens[k] == name
                    && forall|j: int| i <= j < k ==> has_sigil(#[trigger] tokens[j]));
            }
        } else {
            assert(i <= i < tokens.len() && !has_sigil(tokens[i]) && tokens[i] == tokens[i]
                && forall|j: int| i <= j < i ==> has_sigil(#[trigger] tokens[j]));
        }
    }
}

/// A pattern followed by one or more owners, each written with its sigil,
/// gives an assignment: it has that pattern, and its owners are the names
/// that the tokens give, each held once.
pub proof fn lemma_line_with_owners(tokens: Seq<Seq<char>>)
    requires
        tokens.len() >= 2,
        forall|k: int| 1 <= k < tokens.len() ==> has_sigil(#[trigger] tokens[k]),
    ensures
        parse_words(tokens) is Ok,
        parse_words(tokens)->Ok_0.file_pattern == tokens[0],
        parse_words(tokens)->Ok_0.owners.no_duplicates(),
        parse_words(tokens)->Ok_0.owners.len() >= 1,
        forall|name: Seq<char>|
            parse_words(tokens)->Ok_0.owners.contains(name) <==> exists|k: int|
                1 <= k < tokens.len() && strip_sigils(#[trigger] tokens[k]) == name,
{
    lemma_first_without_sigil(tokens, 1);
    let rest = tokens.subrange(1, tokens.len() as int);
    let names = rest.map_values(|token: Seq<char>| strip_sigils(token));
    lemma_distinct(names);
    assert forall|name: Seq<char>|
        owner_names(rest).contains(name) <==> exists|k: int|
            1 <= k < tokens.len() && strip_sigils(#[trigger] tokens[k]) == name by {
        if owner_names(rest).contains(name) {
            assert(names.contains(name));
            let j = choose|j: int| 0 <= j < names.len() && names[j] == name;
            assert(strip_sigils(tokens[j + 1]) == name);
        }
        if exists|k: int| 1 <= k < tokens.len() && strip_sigils(#[trigger] tokens[k]) == name {
            let k = choose|k: int|
                1 <= k < tokens.len() && strip_sigils(#[trigger] tokens[k]) == name;
            assert(names[k - 1] == name);
            assert(names.contains(name));
        }
    }
}

/// A line with an owner that lacks its sigil is an error, and the error's
/// message names the pattern of the line.
pub proof fn lemma_missing_sigil_fails(tokens: Seq<Seq<char>>, k: int)
    requires
        1 <= k < tokens.len(),
        !has_sigil(tokens[k]),
    ensures
        parse_words(tokens) is Err,
        parse_words(tokens)->Err_0[0] == "Unable to parse code owners for "@ + tokens[0],
{
    lemma_first_without_sigil(tokens, 1);
}

/// White space around the words of a line is insignificant: a line says
/// the same with white space before it and after it, and with any amount
/// of it between two of its words.
pub proof fn lemma_white_space_is_insignificant(
    before: Seq<char>,
    line: Seq<char>,
    after: Seq<char>,
    left: Seq<char>,
    gap: Seq<char>,
    other_gap: Seq<char>,
    right: Seq<char>,
)
    requires
        all_whitespace(before),
        all_whitespace(after),
        all_whitespace(gap),
        all_whitespace(other_gap),
        gap.len() > 0,
        other_gap.len() > 0,
    ensures
        parse_line(before + line + after) == parse_line(line),
        is_ignored(before + line + after) == is_ignored(line),
        parse_line(left + gap + right) == parse_line(left + other_gap + right),
        is_ignored(left + gap + right) == is_ignored(left + other_gap + right),
{
    lemma_words_ignore_surrounding_space(before, line, after);
    lemma_words_apart(left, gap, right);
    lemma_words_apart(left, other_gap, right);
}

/// A file is read whole or not at all: where a line that says something is
/// malformed, there is no document, and the error is that of the first such
/// line.
pub proof fn lemma_malformed_line_fails(all: Seq<Seq<char>>, i: int)
    requires
        0 <= i < all.len(),
        !is_ignored(all[i]),
        parse_line(all[i]) is Err,
        forall|j: int| 0 <= j < i ==> is_ignored(#[trigger] all[j]) || parse_line(all[j]) is Ok,
    ensures
        parse_lines(all) == Err::<Seq<AssignmentView>, Seq<Seq<char>>>(parse_line(all[i])->Err_0),
{
    let done = all.subrange(0, i + 1);
    lemma_well_formed_lines(all.subrange(0, i));
    assert(done.drop_last() =~= all.subrange(0, i));
    assert(done.last() == all[i]);
    lemma_parse_lines_error_stays(done, all.subrange(i + 1, all.len() as int));
    assert(done + all.subrange(i + 1, all.len() as int) =~= all);
}

/// Where every line is blank, a comment or a well-formed assignment, there
/// is a document.
pub proof fn lemma_well_formed_lines(all: Seq<Seq<char>>)
    requires
        forall|j: int| 0 <= j < all.len() ==> is_ignored(#[trigger] all[j]) || parse_line(all[j]) is Ok,
    ensures
        parse_lines(all) is Ok,
        parse_lines(all)->Ok_0.len() <= all.len(),
    decreases all.len(),
{
    if all.len() > 0 {
        let front = all.drop_last();
        assert forall|j: int| 0 <= j < front.len() implies is_ignored(#[trigger] front[j])
            || parse_line(front[j]) is Ok by {
            assert(front[j] == all[j]);
        }
        lemma_well_formed_lines(front);
        assert(all.last() == all[all.len() - 1]);
    }
}

/// Blank lines and comments give no assignment: a file of nothing else is
/// a document without assignments.
pub proof fn lemma_ignored_lines_give_nothing(all: Seq<Seq<char>>)
    requires
        forall|j: int| 0 <= j < all.len() ==> is_ignored(#[trigger] all[j]),
    ensures
        parse_lines(all) == Ok::<Seq<AssignmentView>, Seq<Seq<char>>>(Seq::empty()),
    decreases all.len(),
{
    if all.len() > 0 {
        let front = all.drop_last();
        assert forall|j: int| 0 <= j < front.len() implies is_ignored(#[trigger] front[j]) by {
            assert(front[j] == all[j]);
        }
        lemma_ignored_lines_give_nothing(front);
        assert(all.last() == all[all.len() - 1]);
    }
}

/// The owners of `*` are those of the first assignment with that pattern,
/// and there are none exactly where no assignment has it.
pub proof fn lemma_wildcard_owners(assignments: Seq<AssignmentView>, i: int)
    requires
        0 <= i,
    ensures
        match wildcard_owners(assignments, i) {
            None => forall|k: int|
                i <= k < assignments.len() ==> (#[trigger] assignments[k]).file_pattern != "*"@,
            Some(owners) => exists|k: int|
                i <= k < assignments.len() && (#[trigger] assignments[k]).file_pattern == "*"@
                    && assignments[k].owners == owners && forall|j: int|
                    i <= j < k ==> (#[trigger] assignments[j]).file_pattern != "*"@,
        },
    decreases assignments.len() - i,
{
    if i < assignments.len() {
        if assignments[i].file_pattern == "*"@ {
            assert(i <= i < assignments.len() && assignments[i].file_pattern == "*"@
                && assignments[i].owners == assignments[i].owners && forall|j: int|
                i <= j < i ==> (#[trigger] assignments[j]).file_pattern != "*"@);
        } else {
            lemma_wildcard_owners(assignments, i + 1);
            if wildcard_owners(assignments, i) is Some {
                let owners = wildcard_owners(assignments, i)->Some_0;
                let k = choose|k: int|
                    i + 1 <= k < assignments.len() && (#[trigger] assignments[k]).file_pattern
                        == "*"@ && assignments[k].owners == owners && forall|j: int|
                        i + 1 <= j < k ==> (#[trigger] assignments[j]).file_pattern != "*"@;
                assert(i <= k < assignments.len() && assignments[k].file_pattern == "*"@
                    && assignments[k].owners == owners && forall|j: int|
                    i <= j < k ==> (#[trigger] assignments[j]).file_pattern != "*"@);
            }
        }
    }
}

/// The view of what parsing a line gave.
pub open spec fn line_result(result: Result<Assignment, Report>) -> Result<
    AssignmentView,
    Seq<Seq<char>>,
> {
    match result {
        Ok(assignment) => Ok(assignment@),
        Err(report) => Err(report@),
    }
}

/// The view of what parsing a file gave.
pub open spec fn document_result(result: Result<CodeOwners, Report>) -> Result<
    Seq<AssignmentView>,
    Seq<Seq<char>>,
> {
    match result {
        Ok(document) => Ok(document@),
        Err(report) => Err(report@),
    }
}

impl View for Assignment {
    type V = AssignmentView;

    closed spec fn view(&self) -> AssignmentView {
        AssignmentView { file_pattern: self.file_pattern@, owners: self.owners.deep_view() }
    }
}

/// What a token says as an owner: its name without the sigils, or the
/// error of a token that has none.
pub open spec fn owner_name(token: Seq<char>) -> Result<Seq<char>, Seq<Seq<char>>> {
    if has_sigil(token) {
        Ok(strip_sigils(token))
    } else {
        Err(seq!["Code owner `"@ + token + "` does not start with an @"@])
    }
}

fn validate_name_format(name: &str) -> (owner: Result<String, Report>)
    ensures
        crate::error::text_view(owner) == owner_name(name@),
{
    if !starts_with_char(name, '@') {
        let mut message = String::from_str("Code owner `");
        message.append(name);
        message.append("` does not start with an @");
        return Err(Report::new(message.as_str()));
    }
    let chars = chars_of(name);
    let mut i: usize = 0;
    while i < chars.len() && chars[i] == '@'
        invariant
            i <= chars.len(),
            chars@ == name@,
            sigil_end(name@, i as int) == sigil_end(name@, 0),
        decreases chars.len() - i,
    {
        i += 1;
    }
    Ok(String::from_str(name.substring_char(i, chars.len())))
}

fn starts_with_char(text: &str, c: char) -> (starts: bool)
    ensures
        starts == (text@.len() > 0 && text@[0] == c),
{
    text.unicode_len() > 0 && text.get_char(0) == c
}

impl Assignment {
    #[verifier::type_invariant]
    spec fn well_formed(&self) -> bool {
        &&& self.file_pattern@.len() > 0
        &&& self.owners.len() > 0
        &&& self.owners.deep_view().no_duplicates()
    }

    /// Reads one line of an ownership file: a pattern, then the owners, each
    /// written with an `@` in front, with white space between them.
    pub fn from_line(line: &str) -> (result: Result<Assignment, Report>)
        ensures
            line_result(result) == parse_line(line@),
    {
        Assignment::from_words(split_whitespace(line))
    }

    /// Reads an assignment from the words of a line.
    fn from_words(tokens: Vec<String>) -> (result: Result<Assignment, Report>)
        requires
            forall|k: int| 0 <= k < tokens.len() ==> (#[trigger] tokens[k])@.len() > 0,
        ensures
            line_result(result) == parse_words(tokens.deep_view()),
    {
        let ghost all = tokens.deep_view();
        if tokens.len() == 0 {
            return Err(Report::new("No file pattern for code owners line"));
        }
        let file_pattern = tokens[0].clone();
        assert(file_pattern@ == all[0]);
        let mut owners: Vec<String> = Vec::new();
        let mut i: usize = 1;
        while i < tokens.len()
            invariant
                1 <= i <= tokens.len(),
                all == tokens.deep_view(),
                file_pattern@ == all[0],
                first_without_sigil(all, i as int) == first_without_sigil(all, 1),
                owners.deep_view() == owner_names(all.subrange(1, i as int)),
            decreases tokens.len() - i,
        {
            let token = tokens[i].as_str();
            assert(token@ == all[i as int]);
            let name = match validate_name_format(token) {
                Ok(name) => name,
                Err(cause) => {
                    let mut message = String::from_str("Unable to parse code owners for ");
                    message.append(file_pattern.as_str());
                    let report = cause.wrap_err(message.as_str());
                    assert(report@ =~= seq![message@, cause@[0]]);
                    assert(first_without_sigil(all, i as int) == Some(token@));
                    return Err(report);
                },
            };
            proof {
                let strip = |token: Seq<char>| strip_sigils(token);
                let seen = all.subrange(1, i as int + 1);
                assert(seen.map_values(strip).drop_last() =~= all.subrange(1, i as int).map_values(
                    strip,
                ));
                assert(seen.map_values(strip).last() == name@);
            }
            push_distinct(&mut owners, name);
            i += 1;
        }
        proof {
            lemma_distinct(
                all.subrange(1, i as int).map_values(|token: Seq<char>| strip_sigils(token)),
            );
        }
        if owners.len() == 0 {
            let mut message = String::from_str("File pattern `");
            message.append(file_pattern.as_str());
            message.append("` has no owners");
            return Err(Report::new(message.as_str()));
        }
        Ok(Assignment { file_pattern, owners })
    }

    /// The pattern that says which files this assignment applies to. It is
    /// never empty.
    pub fn file_pattern(&self) -> (pattern: &String)
        ensures
            pattern@ == self@.file_pattern,
            pattern@.len() > 0,
    {
        proof {
            use_type_invariant(self);
        }
        &self.file_pattern
    }

    /// The owners: at least one, and each named once.
    pub fn owners(&self) -> (owners: &Vec<String>)
        ensures
            owners.deep_view() == self@.owners,
            owners.len() > 0,
            owners.deep_view().no_duplicates(),
    {
        proof {
            use_type_invariant(self);
        }
        &self.owners
    }
}

impl View for CodeOwners {
    type V = Seq<AssignmentView>;

    closed spec fn view(&self) -> Seq<AssignmentView> {
        Seq::new(self.assignments.len() as nat, |i: int| self.assignments[i]@)
    }
}

impl CodeOwners {
    /// Reads an ownership file. Blank lines and comments say nothing; every
    /// other line is an assignment. The file is read whole or not at all: the
    /// first malformed line is the error.
    pub fn new(source: &str) -> (result: Result<CodeOwners, Report>)
        ensures
            document_result(result) == parse_document(source@),
    {
        let chars = chars_of(source);
        let n = chars.len();
        let mut assignments: Vec<Assignment> = Vec::new();
        let mut start: usize = 0;
        let ghost mut done: Seq<Seq<char>> = Seq::empty();
        let ghost mut read: Seq<AssignmentView> = Seq::empty();
        assert(done + lines_from(source@, 0) =~= lines(source@));
        while start < n
            invariant
                start <= n,
                n == chars.len(),
                chars@ == source@,
                lines(source@) == done + lines_from(source@, start as int),
                parse_lines(done) == Ok::<Seq<AssignmentView>, Seq<Seq<char>>>(read),
                read == Seq::new(assignments.len() as nat, |i: int| assignments[i]@),
            decreases n - start,
        {
            let mut end = start;
            while end < n && chars[end] != '\n'
                invariant
                    start <= end <= n,
                    n == chars.len(),
                    chars@ == source@,
                    line_end(source@, end as int) == line_end(source@, start as int),
                decreases n - end,
            {
                end += 1;
            }
            let line = source.substring_char(start, end);
            let next = if end < n {
                end + 1
            } else {
                end
            };
            proof {
                assert(line_end(source@, start as int) == end);
                assert(done.push(line@) + lines_from(source@, next as int) =~= done + lines_from(
                    source@,
                    start as int,
                ));
                assert(done.push(line@).drop_last() =~= done);
            }
            let tokens = split_whitespace(line);
            let ignored = tokens.len() == 0 || starts_with_char(tokens[0].as_str(), '#');
            assert(ignored == is_ignored(line@)) by {
                if tokens.len() > 0 {
                    assert(tokens.deep_view()[0] == tokens[0]@);
                }
            }
            if !ignored {
                match Assignment::from_words(tokens) {
                    Ok(assignment) => {
                        proof {
                            read = read.push(assignment@);
                        }
                        assignments.push(assignment);
                    },
                    Err(report) => {
                        proof {
                            lemma_parse_lines_error_stays(
                                done.push(line@),
                                lines_from(source@, next as int),
                            );
                        }
                        return Err(report);
                    },
                }
            }
            proof {
                done = done.push(line@);
                assert(read =~= Seq::new(assignments.len() as nat, |i: int| assignments[i]@));
            }
            start = next;
        }
        assert(done =~= lines(source@));
        Ok(CodeOwners { assignments })
    }

    /// The owners of the whole repository: those of the first assignment
    /// whose pattern is exactly `*`, if there is one.
    pub fn primary_maintainers(&self) -> (owners: Option<&Vec<String>>)
        ensures
            match owners {
                Some(list) => {
                    &&& wildcard_owners(self@, 0) == Some(list.deep_view())
                    &&& list.len() > 0
                    &&& list.deep_view().no_duplicates()
                },
                None => wildcard_owners(self@, 0) is None,
            },
    {
        let mut i: usize = 0;
        while i < self.assignments.len()
            invariant
                i <= self.assignments.len(),
                wildcard_owners(self@, i as int) == wildcard_owners(self@, 0),
            decreases self.assignments.len() - i,
        {
            assert(self@[i as int] == self.assignments[i as int]@);
            if str_eq(self.assignments[i].file_pattern.as_str(), "*") {
                return Some(self.assignments[i].owners());
            }
            i += 1;
        }
        None
    }

    /// The assignments, in the order of the file.
    pub fn assignments(&self) -> (assignments: &Vec<Assignment>)
        ensures
            assignments.len() == self@.len(),
            forall|i: int| 0 <= i < assignments.len() ==> (#[trigger] assignments[i])@ == self@[i],
    {
        &self.assignments
    }
}

} // verus!
