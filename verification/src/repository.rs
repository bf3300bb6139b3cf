//! References to a repository, written `owner/name[/sub/dir...][?(branch|tag|commit)=value]`.

use vstd::prelude::*;
use vstd::string::*;

use crate::error::ScafalraError;
use crate::text::{
    char_is_whitespace, chars_of, has_prefix, is_blank, is_whitespace, starts_with_at, substring,
};

verus! {

/// Which state of the repository is wanted.
#[derive(Debug, PartialEq, Eq)]
pub enum Query {
    Branch(String),
    Tag(String),
    Commit(String),
}

pub enum QueryView {
    Branch(Seq<char>),
    Tag(Seq<char>),
    Commit(Seq<char>),
}

impl View for Query {
    type V = QueryView;

    open spec fn view(&self) -> QueryView {
        match self {
            Query::Branch(value) => QueryView::Branch(value@),
            Query::Tag(value) => QueryView::Tag(value@),
            Query::Commit(value) => QueryView::Commit(value@),
        }
    }
}

impl QueryView {
    /// The word that names the kind of query in a reference.
    pub open spec fn key(self) -> Seq<char> {
        match self {
            QueryView::Branch(_) => "branch"@,
            QueryView::Tag(_) => "tag"@,
            QueryView::Commit(_) => "commit"@,
        }
    }

    pub open spec fn value(self) -> Seq<char> {
        match self {
            QueryView::Branch(value) => value,
            QueryView::Tag(value) => value,
            QueryView::Commit(value) => value,
        }
    }

    /// The query as it ends a reference: `?key=value`.
    pub open spec fn text(self) -> Seq<char> {
        seq!['?'] + self.key() + seq!['='] + self.value()
    }
}

/// A repository, a directory in it, and the state of it that is wanted.
#[derive(Debug)]
pub struct Repository {
    pub owner: String,
    pub name: String,
    /// The directory as written, with the `/` in front of each of its parts.
    pub subdir: Option<String>,
    pub query: Option<Query>,
}

pub struct RepositoryView {
    pub owner: Seq<char>,
    pub name: Seq<char>,
    pub subdir: Option<Seq<char>>,
    pub query: Option<QueryView>,
}

impl View for Repository {
    type V = RepositoryView;

    open spec fn view(&self) -> RepositoryView {
        RepositoryView {
            owner: self.owner@,
            name: self.name@,
            subdir: match self.subdir {
                Some(dir) => Some(dir@),
                None => None,
            },
            query: match self.query {
                Some(query) => Some(query@),
                None => None,
            },
        }
    }
}

/// No character of `s` is `c`.
pub open spec fn free_of(s: Seq<char>, c: char) -> bool {
    forall|i: int| 0 <= i < s.len() ==> #[trigger] s[i] != c
}

/// One or more parts, each with a `/` in front of it, none of them empty and
/// none holding a `?`.
pub open spec fn valid_subdir(dir: Seq<char>) -> bool {
    &&& dir.len() > 0
    &&& dir[0] == '/'
    &&& dir.last() != '/'
    &&& free_of(dir, '?')
    &&& forall|i: int| 0 < i < dir.len() && #[trigger] dir[i] == '/' ==> dir[i - 1] != '/'
}

impl RepositoryView {
    /// What the grammar asks of each part of a reference.
    pub open spec fn valid(self) -> bool {
        &&& self.owner.len() > 0
        &&& free_of(self.owner, '/')
        &&& self.name.len() > 0
        &&& free_of(self.name, '/')
        &&& free_of(self.name, '?')
        &&& (self.subdir matches Some(dir) ==> valid_subdir(dir))
        &&& (self.query matches Some(query) ==> !is_blank(query.value()))
    }

    pub open spec fn subdir_text(self) -> Seq<char> {
        match self.subdir {
            Some(dir) => dir,
            None => Seq::empty(),
        }
    }

    pub open spec fn query_text(self) -> Seq<char> {
        match self.query {
            Some(query) => query.text(),
            None => Seq::empty(),
        }
    }

    /// The reference as it is written.
    pub open spec fn text(self) -> Seq<char> {
        self.owner + seq!['/'] + self.name + self.subdir_text() + self.query_text()
    }

    /// The address of the repository's page.
    pub open spec fn url(self) -> Seq<char> {
        "https://github.com/"@ + self.owner + "/"@ + self.name
    }
}

/// Whether `input` is the text of a reference that the grammar accepts.
pub open spec fn is_reference(input: Seq<char>) -> bool {
    exists|repo: RepositoryView| repo.valid() && #[trigger] repo.text() == input
}

/// Where the parts of a valid reference lie in its text.
proof fn lemma_text_shape(repo: RepositoryView)
    requires
        repo.valid(),
    ensures
        ({
            let t = repo.text();
            let o = repo.owner.len() as int;
            let n = o + 1 + repo.name.len();
            let d = n + repo.subdir_text().len();
            &&& t.len() == d + repo.query_text().len()
            &&& 0 < o < n - 1
            &&& t.subrange(0, o) == repo.owner
            &&& t[o] == '/'
            &&& t.subrange(o + 1, n) == repo.name
            &&& t.subrange(n, d) == repo.subdir_text()
            &&& t.subrange(d, t.len() as int) == repo.query_text()
            &&& (forall|i: int| 0 <= i < o ==> #[trigger] t[i] != '/')
            &&& (forall|i: int| o < i < n ==> #[trigger] t[i] != '/' && t[i] != '?')
            &&& (forall|i: int| n <= i < d ==> #[trigger] t[i] != '?')
            &&& (repo.subdir is Some ==> n < d && t[n] == '/')
            &&& (repo.subdir is None ==> n == d)
            &&& (repo.query is Some ==> d < t.len() && t[d] == '?')
            &&& (repo.query is None ==> d == t.len())
        }),
{
}

/// The three words that may name a query differ in their first letter.
proof fn lemma_keys()
    ensures
        "branch"@.len() == 6,
        "tag"@.len() == 3,
        "commit"@.len() == 6,
        "branch"@[0] == 'b',
        "tag"@[0] == 't',
        "commit"@[0] == 'c',
        "branch="@ == "branch"@ + seq!['='],
        "tag="@ == "tag"@ + seq!['='],
        "commit="@ == "commit"@ + seq!['='],
{
    reveal_strlit("branch");
    reveal_strlit("tag");
    reveal_strlit("commit");
    reveal_strlit("branch=");
    reveal_strlit("tag=");
    reveal_strlit("commit=");
}

/// A query is known by its text.
proof fn lemma_query_text_injective(a: QueryView, b: QueryView)
    requires
        a.text() == b.text(),
    ensures
        a == b,
{
    lemma_keys();
    let ta = a.text();
    let tb = b.text();
    assert(ta[1] == a.key()[0]);
    let k = a.key().len() as int;
    assert(a.value() =~= ta.subrange(k + 2, ta.len() as int));
    assert(b.value() =~= tb.subrange(k + 2, tb.len() as int));
}

/// The first place at or after `from` where `text` holds a character that
/// ends a part: a `/` where `at_slash`, a `?` where `at_question`.
spec fn is_part_end(
    text: Seq<char>,
    from: int,
    end: int,
    at_slash: bool,
    at_question: bool,
) -> bool {
    &&& from <= end <= text.len()
    &&& forall|i: int|
        from <= i < end ==> !(at_slash && #[trigger] text[i] == '/') && !(at_question && text[i]
            == '?')
    &&& (end < text.len() ==> (at_slash && text[end] == '/') || (at_question && text[end] == '?'))
}

fn part_end(text: &Vec<char>, from: usize, at_slash: bool, at_question: bool) -> (end: usize)
    requires
        from <= text.len(),
    ensures
        is_part_end(text@, from as int, end as int, at_slash, at_question),
{
    let mut end: usize = from;
    while end < text.len() && !((at_slash && text[end] == '/') || (at_question && text[end]
        == '?'))
        invariant
            from <= end <= text.len(),
            forall|i: int|
                from <= i < end ==> !(at_slash && #[trigger] text@[i] == '/') && !(at_question
                    && text@[i] == '?'),
        decreases text.len() - end,
    {
        end = end + 1;
    }
    end
}

/// Whether the characters of `text` from `from` up to `to` are the text of a
/// directory that the grammar accepts.
fn check_subdir(text: &Vec<char>, from: usize, to: usize) -> (ok: bool)
    requires
        from < to <= text.len(),
        text@[from as int] == '/',
        forall|i: int| from <= i < to ==> #[trigger] text@[i] != '?',
    ensures
        ok == valid_subdir(text@.subrange(from as int, to as int)),
{
    let ghost dir = text@.subrange(from as int, to as int);
    if text[to - 1] == '/' {
        return false;
    }
    let mut i: usize = from + 1;
    while i < to
        invariant
            from < i <= to <= text.len(),
            dir == text@.subrange(from as int, to as int),
            forall|p: int| 0 < p < i - from && #[trigger] dir[p] == '/' ==> dir[p - 1] != '/',
        decreases to - i,
    {
        if text[i] == '/' && text[i - 1] == '/' {
            proof {
                let p = i - from;
                assert(dir[p] == '/' && dir[p - 1] == '/');
            }
            return false;
        }
        i = i + 1;
    }
    true
}

/// Whether every character of `text` from `from` on is whitespace.
fn blank_from(text: &Vec<char>, from: usize) -> (blank: bool)
    requires
        from <= text.len(),
    ensures
        blank == is_blank(text@.skip(from as int)),
{
    let ghost rest = text@.skip(from as int);
    let mut i: usize = from;
    while i < text.len()
        invariant
            from <= i <= text.len(),
            rest == text@.skip(from as int),
            forall|p: int| 0 <= p < i - from ==> is_whitespace(#[trigger] rest[p]),
        decreases text.len() - i,
    {
        if !char_is_whitespace(text[i]) {
            assert(!is_whitespace(rest[i - from]));
            return false;
        }
        i = i + 1;
    }
    true
}

/// Reads the query that ends a reference: the characters of `text` from the
/// `?` at `at` on.
fn parse_query(input: &str, text: &Vec<char>, at: usize) -> (result: Option<Query>)
    requires
        text@ == input@,
        at < text.len(),
        text@[at as int] == '?',
    ensures
        match result {
            Some(query) => !is_blank(query@.value()) && query@.text() == text@.skip(at as int),
            None => forall|query: QueryView|
                !is_blank(query.value()) ==> #[trigger] query.text() != text@.skip(at as int),
        },
{
    let ghost t = text@;
    let ghost tail = t.skip(at as int);
    let ghost rest = t.skip(at + 1);
    let len = text.len();
    let value_start = at + 1;
    let branch = chars_of("branch=");
    let tag = chars_of("tag=");
    let commit = chars_of("commit=");
    let is_branch = starts_with_at(text, value_start, &branch);
    let is_tag = starts_with_at(text, value_start, &tag);
    let is_commit = starts_with_at(text, value_start, &commit);
    proof {
        lemma_keys();
        assert forall|query: QueryView| #[trigger] query.text() == tail implies {
            &&& has_prefix(rest, query.key() + seq!['='])
            &&& query.value() == rest.skip(query.key().len() as int + 1)
        } by {
            let head = query.key() + seq!['='];
            assert(rest =~= query.text().skip(1));
            assert(rest.take(head.len() as int) =~= head);
        }
    }
    if !(is_branch || is_tag || is_commit) {
        return None;
    }
    let key_len: usize = if is_branch {
        7
    } else if is_tag {
        4
    } else {
        7
    };
    let start = value_start + key_len;
    proof {
        let found = if is_branch {
            "branch="@
        } else if is_tag {
            "tag="@
        } else {
            "commit="@
        };
        assert(rest.take(found.len() as int)[0] == rest[0]);
        assert(t.skip(start as int) =~= rest.skip(key_len as int));
    }
    if blank_from(text, start) {
        return None;
    }
    let value = substring(input, start, len);
    let query = if is_branch {
        Query::Branch(value)
    } else if is_tag {
        Query::Tag(value)
    } else {
        Query::Commit(value)
    };
    proof {
        let head = query@.key() + seq!['='];
        assert(rest =~= rest.take(head.len() as int) + rest.skip(head.len() as int));
        assert(tail =~= seq!['?'] + rest);
    }
    Some(query)
}

/// Where the parts of a valid reference end, told from its text alone.
proof fn lemma_boundaries(
    repo: RepositoryView,
    owner_end: int,
    name_end: int,
    dir_end: int,
)
    requires
        repo.valid(),
        is_part_end(repo.text(), 0, owner_end, true, false),
        owner_end < repo.text().len(),
        is_part_end(repo.text(), owner_end + 1, name_end, true, true),
        is_part_end(repo.text(), name_end, dir_end, false, true),
    ensures
        repo.owner.len() == owner_end,
        owner_end + 1 + repo.name.len() == name_end,
        name_end + repo.subdir_text().len() == dir_end,
{
    lemma_text_shape(repo);
}

/// A text without a `/`, or with nothing in front of its first `/`, is no
/// reference.
proof fn lemma_needs_owner(repo: RepositoryView, owner_end: int)
    requires
        repo.valid(),
        is_part_end(repo.text(), 0, owner_end, true, false),
    ensures
        0 < owner_end < repo.text().len(),
{
    lemma_text_shape(repo);
}

impl Repository {
    /// Reads a reference. It succeeds on the texts that the grammar accepts,
    /// and then returns the one repository that is written so; on every other
    /// text it fails with `ParseError`, which holds the text.
    pub fn parse(input: &str) -> (result: Result<Repository, ScafalraError>)
        ensures
            match result {
                Ok(repo) => repo@.valid() && repo@.text() == input@,
                Err(error) => {
                    &&& !is_reference(input@)
                    &&& error matches ScafalraError::ParseError(text)
                    &&& text@ == input@
                },
            },
    {
        let text = chars_of(input);
        let ghost t = text@;
        let len = text.len();

        let owner_end = part_end(&text, 0, true, false);
        if owner_end == 0 || owner_end == len {
            proof {
                assert forall|repo: RepositoryView| repo.valid() implies #[trigger] repo.text()
                    != t by {
                    if repo.text() == t {
                        lemma_needs_owner(repo, owner_end as int);
                    }
                }
            }
            return Err(ScafalraError::ParseError(String::from_str(input)));
        }
        let name_start = owner_end + 1;
        let name_end = part_end(&text, name_start, true, true);
        let dir_end = part_end(&text, name_end, false, true);
        proof {
            assert forall|repo: RepositoryView| repo.valid() && #[trigger] repo.text() == t implies {
                &&& repo.owner.len() == owner_end
                &&& owner_end + 1 + repo.name.len() == name_end
                &&& name_end + repo.subdir_text().len() == dir_end
                &&& t.subrange(name_end as int, dir_end as int) == repo.subdir_text()
                &&& t.skip(dir_end as int) == repo.query_text()
                &&& (repo.query is Some <==> dir_end < len)
                &&& (repo.subdir is Some <==> name_end < dir_end)
            } by {
                lemma_boundaries(repo, owner_end as int, name_end as int, dir_end as int);
                lemma_text_shape(repo);
            }
        }
        if name_end == name_start {
            return Err(ScafalraError::ParseError(String::from_str(input)));
        }
        let subdir = if name_end < dir_end {
            if !check_subdir(&text, name_end, dir_end) {
                return Err(ScafalraError::ParseError(String::from_str(input)));
            }
            Some(substring(input, name_end, dir_end))
        } else {
            None
        };
        let query = if dir_end < len {
            match parse_query(input, &text, dir_end) {
                Some(query) => Some(query),
                None => {
                    return Err(ScafalraError::ParseError(String::from_str(input)));
                },
            }
        } else {
            None
        };
        let repo = Repository {
            owner: substring(input, 0, owner_end),
            name: substring(input, name_start, name_end),
            subdir,
            query,
        };
        Ok(repo)
    }

    /// Reads a reference, as [`Repository::parse`] does.
    pub fn new(input: &str) -> (result: Result<Repository, ScafalraError>)
        ensures
            match result {
                Ok(repo) => repo@.valid() && repo@.text() == input@,
                Err(error) => {
                    &&& !is_reference(input@)
                    &&& error matches ScafalraError::ParseError(text)
                    &&& text@ == input@
                },
            },
    {
        Repository::parse(input)
    }

    /// Whether `input` is a reference that the grammar accepts.
    pub fn is_repo(input: &str) -> (accepted: bool)
        ensures
            accepted == is_reference(input@),
    {
        match Repository::parse(input) {
            Ok(_) => true,
            Err(_) => false,
        }
    }

    /// The address of the repository's page.
    pub fn url(&self) -> (url: String)
        ensures
            url@ == self@.url(),
    {
        let mut url = String::from_str("https://github.com/");
        url.append(self.owner.as_str());
        url.append("/");
        url.append(self.name.as_str());
        url
    }
}

/// A text without a `/` is no reference.
pub proof fn lemma_reference_has_slash(input: Seq<char>)
    requires
        free_of(input, '/'),
    ensures
        !is_reference(input),
{
    if is_reference(input) {
        let repo = choose|repo: RepositoryView| repo.valid() && #[trigger] repo.text() == input;
        lemma_text_shape(repo);
    }
}

/// A reference is written in one way only: two repositories that the grammar
/// accepts and that have the same text are the same repository.
pub proof fn lemma_text_injective(a: RepositoryView, b: RepositoryView)
    requires
        a.valid(),
        b.valid(),
        a.text() == b.text(),
    ensures
        a == b,
{
    lemma_text_shape(a);
    lemma_text_shape(b);
    if a.query is Some {
        lemma_query_text_injective(a.query->0, b.query->0);
    }
}

} // verus!
