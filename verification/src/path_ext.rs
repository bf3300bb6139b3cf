//! Paths as texts whose parts are separated by `/`.
//!
//! The functions of this module are defined here, over texts. `join`,
//! `file_name` and `with_extension` give what the standard library's
//! `Path::join`, `Path::file_name` and `Path::with_extension` give where `/`
//! is the only separator and paths have no prefix, with two differences, both
//! in `with_extension`. It takes any extension as it is, also one that holds
//! a `/`. And it treats a name that is two dots followed by an extension as
//! any other name, where the standard library's result for such a name
//! depends on what follows the name. `parent` is simpler than
//! `Path::parent`, and says so.

use vstd::prelude::*;
use vstd::string::*;

use crate::text::{chars_of, split_kept, split_kept_of, substring, texts, Keep};

verus! {

/// The parts of `path`, which are what stands between its separators, that
/// name something: not the empty ones and not `.`, and where `parent` is not
/// wanted not `..` either. They come in order.
pub open spec fn named_parts(path: Seq<char>, parent: bool) -> Seq<Seq<char>> {
    split_kept(
        path,
        '/',
        if parent {
            Keep::ButDot
        } else {
            Keep::ButDots
        },
    )
}

/// The parts of `path` that name a file or a directory below the place where
/// the path starts: all but the empty ones, `.` and `..`.
pub open spec fn normal_parts(path: Seq<char>) -> Seq<Seq<char>> {
    named_parts(path, false)
}

/// The name of what `path` leads to: its last part, where that is not `..`.
/// Empty parts and `.` do not count as parts here.
pub open spec fn file_name(path: Seq<char>) -> Option<Seq<char>> {
    let named = named_parts(path, true);
    if named.len() > 0 && named.last() != seq!['.', '.'] {
        Some(named.last())
    } else {
        None
    }
}

/// The path that leads from `base` on into `part`. A part that starts at the
/// root leads nowhere from `base`: it is the path.
pub open spec fn join(base: Seq<char>, part: Seq<char>) -> Seq<char> {
    if part.len() > 0 && part[0] == '/' {
        part
    } else if base.len() == 0 {
        part
    } else if base.last() == '/' {
        base + part
    } else {
        base + seq!['/'] + part
    }
}

/// The path that leads from `base` on through each of `parts` in turn.
pub open spec fn join_all(base: Seq<char>, parts: Seq<Seq<char>>) -> Seq<char>
    decreases parts.len(),
{
    if parts.len() == 0 {
        base
    } else {
        join(join_all(base, parts.drop_last()), parts.last())
    }
}

/// The path that leads from `base` down along `path`, whose empty parts, `.`
/// and `..` are passed over.
pub open spec fn join_normal(base: Seq<char>, path: Seq<char>) -> Seq<char> {
    join_all(base, normal_parts(path))
}

/// The parts of `path` that name something, in order.
pub fn named_parts_of(path: &str, parent: bool) -> (found: Vec<String>)
    ensures
        texts(found@) == named_parts(path@, parent),
{
    if parent {
        split_kept_of(path, '/', Keep::ButDot)
    } else {
        split_kept_of(path, '/', Keep::ButDots)
    }
}

/// The name of what `path` leads to, where it has one.
pub fn file_name_of(path: &str) -> (name: Option<String>)
    ensures
        match name {
            Some(name) => file_name(path@) == Some(name@),
            None => file_name(path@) is None,
        },
{
    let mut named = named_parts_of(path, true);
    match named.pop() {
        Some(last) => {
            let text = chars_of(last.as_str());
            if text.len() == 2 && text[0] == '.' && text[1] == '.' {
                assert(last@ =~= seq!['.', '.']);
                None
            } else {
                Some(last)
            }
        },
        None => None,
    }
}

/// Paths that can be led on through a list of parts.
pub trait JoinIter: View<V = Seq<char>> {
    /// The path that leads from this one on through each of `parts` in turn.
    fn join_iter(&self, parts: &Vec<String>) -> (joined: String)
        ensures
            joined@ == join_all(self@, texts(parts@)),
    ;
}

/// Paths that can be led on along another path.
pub trait JoinCanonicalize: View<V = Seq<char>> {
    /// Leads this path on along `path`, whose empty parts, `.` and `..` are
    /// passed over.
    fn join_canonicalize(&mut self, path: &str)
        ensures
            final(self)@ == join_normal(old(self)@, path@),
    ;
}

/// Leads `base` on into `part`.
pub fn push_part(base: &mut String, part: &str)
    ensures
        final(base)@ == join(old(base)@, part@),
{
    let text = chars_of(base.as_str());
    let rest = chars_of(part);
    if rest.len() > 0 && rest[0] == '/' {
        *base = String::from_str(part);
        return ;
    }
    if text.len() > 0 && text[text.len() - 1] != '/' {
        base.append("/");
        proof {
            reveal_strlit("/");
        }
    }
    base.append(part);
}

impl JoinIter for String {
    fn join_iter(&self, parts: &Vec<String>) -> (joined: String) {
        let mut joined = self.clone();
        let mut i: usize = 0;
        while i < parts.len()
            invariant
                i <= parts.len(),
                joined@ == join_all(self@, texts(parts@).take(i as int)),
            decreases parts.len() - i,
        {
            push_part(&mut joined, parts[i].as_str());
            i = i + 1;
            proof {
                let done = texts(parts@).take(i as int);
                assert(done.drop_last() =~= texts(parts@).take(i - 1));
            }
        }
        assert(texts(parts@).take(i as int) =~= texts(parts@));
        joined
    }
}

impl JoinCanonicalize for String {
    fn join_canonicalize(&mut self, path: &str) {
        let parts = named_parts_of(path, false);
        let joined = self.join_iter(&parts);
        *self = joined;
    }
}

/// Where `c` stands last in `text`, or -1 where it does not stand at all.
pub open spec fn last_index_of(text: Seq<char>, c: char) -> int
    decreases text.len(),
{
    if text.len() == 0 {
        -1
    } else if text.last() == c {
        text.len() - 1
    } else {
        last_index_of(text.drop_last(), c)
    }
}

proof fn lemma_last_index_of(text: Seq<char>, c: char, at: int)
    requires
        -1 <= at < text.len(),
        at >= 0 ==> text[at] == c,
        forall|i: int| at < i < text.len() ==> #[trigger] text[i] != c,
    ensures
        last_index_of(text, c) == at,
    decreases text.len(),
{
    if text.len() > 0 && text.last() != c {
        lemma_last_index_of(text.drop_last(), c, at);
    }
}

/// Where `c` stands last among the characters of `text` from `from` up to
/// `to`, counted from `from`; -1 where it does not stand there.
fn last_index_in(text: &Vec<char>, from: usize, to: usize, c: char) -> (at: Option<usize>)
    requires
        from <= to <= text.len(),
    ensures
        match at {
            Some(found) => found < to - from && last_index_of(
                text@.subrange(from as int, to as int),
                c,
            ) == found,
            None => last_index_of(text@.subrange(from as int, to as int), c) == -1,
        },
{
    let ghost part = text@.subrange(from as int, to as int);
    let mut i: usize = to;
    while i > from
        invariant
            from <= i <= to <= text.len(),
            part == text@.subrange(from as int, to as int),
            forall|j: int| i - from <= j < part.len() ==> #[trigger] part[j] != c,
        decreases i,
    {
        i = i - 1;
        if text[i] == c {
            proof {
                lemma_last_index_of(part, c, i - from);
            }
            return Some(i - from);
        }
    }
    proof {
        lemma_last_index_of(part, c, -1);
    }
    None
}

/// The directory that holds what `path` leads to: what is written in front
/// of the last `/`. A path without a `/` tells of no such directory.
///
/// This goes by the text alone. The standard library's `Path::parent` passes
/// over separators at the end, gives the empty path for a path of one part,
/// and keeps the root; this function does none of that.
pub open spec fn parent(path: Seq<char>) -> Option<Seq<char>> {
    if last_index_of(path, '/') < 0 {
        None
    } else {
        Some(path.take(last_index_of(path, '/')))
    }
}

/// The directory that holds what `path` leads to, where the path tells it.
pub fn parent_of(path: &str) -> (dir: Option<String>)
    ensures
        crate::text::opt_text(dir) == parent(path@),
{
    let text = chars_of(path);
    assert(text@.subrange(0, text@.len() as int) =~= text@);
    match last_index_in(&text, 0, text.len(), '/') {
        Some(at) => Some(substring(path, 0, at)),
        None => None,
    }
}

/// `path` without what does not count at its end: separators, and parts that
/// are a single dot.
pub open spec fn trimmed(path: Seq<char>) -> Seq<char>
    decreases path.len(),
{
    if path.len() == 0 {
        path
    } else if path.last() == '/' {
        trimmed(path.drop_last())
    } else if path.last() == '.' && (path.len() == 1 || path[path.len() - 2] == '/') {
        trimmed(path.drop_last())
    } else {
        path
    }
}

/// How many characters of `text` are left when what does not count at its end
/// is taken away.
fn trimmed_len(text: &Vec<char>) -> (end: usize)
    ensures
        end <= text.len(),
        text@.take(end as int) == trimmed(text@),
{
    let mut end: usize = text.len();
    assert(text@.take(end as int) =~= text@);
    while end > 0 && (text[end - 1] == '/' || (text[end - 1] == '.' && (end == 1 || text[end - 2]
        == '/')))
        invariant
            end <= text.len(),
            trimmed(text@.take(end as int)) == trimmed(text@),
        decreases end,
    {
        assert(text@.take(end as int).drop_last() =~= text@.take(end - 1));
        end = end - 1;
    }
    end
}

/// Where the name of the file that `path` leads to begins: behind the last
/// `/`, or at the start.
pub open spec fn name_start(path: Seq<char>) -> int {
    last_index_of(path, '/') + 1
}

/// Where the name of the file that `path` leads to, taken without its
/// extension, ends. The extension is what follows the last `.` of the name,
/// unless the name begins with that `.`.
pub open spec fn stem_end(path: Seq<char>) -> int {
    let name = path.skip(name_start(path));
    if last_index_of(name, '.') <= 0 {
        path.len() as int
    } else {
        name_start(path) + last_index_of(name, '.')
    }
}

/// `path` with the extension of its file's name replaced by `extension`, or
/// taken away where `extension` is empty. The name of the file is the last
/// part of the path; separators behind it, and parts that are a single dot,
/// do not count and are left out of the result. Where `path` leads to no
/// file, because its last part is `..` or it has no part, it stays as it is.
pub open spec fn with_extension(path: Seq<char>, extension: Seq<char>) -> Seq<char> {
    let counted = trimmed(path);
    let name = counted.skip(name_start(counted));
    if name.len() == 0 || name == seq!['.', '.'] {
        path
    } else if extension.len() == 0 {
        counted.take(stem_end(counted))
    } else {
        counted.take(stem_end(counted)) + seq!['.'] + extension
    }
}

/// `path` with the extension of its file's name replaced by `extension`.
pub fn with_extension_of(path: &str, extension: &str) -> (changed: String)
    ensures
        changed@ == with_extension(path@, extension@),
{
    let text = chars_of(path);
    let len = trimmed_len(&text);
    let ghost counted = text@.take(len as int);
    assert(text@.subrange(0, len as int) =~= counted);
    let start = match last_index_in(&text, 0, len, '/') {
        Some(at) => at + 1,
        None => 0,
    };
    let ghost name = counted.skip(start as int);
    assert(text@.subrange(start as int, len as int) =~= name);
    let name_len = len - start;
    if name_len == 0 {
        return String::from_str(path);
    }
    if name_len == 2 && text[start] == '.' && text[start + 1] == '.' {
        assert(name =~= seq!['.', '.']);
        return String::from_str(path);
    }
    proof {
        if name_len == 2 {
            assert(name[0] == text@[start as int] && name[1] == text@[start + 1]);
        }
        assert(seq!['.', '.'].len() == 2);
    }
    let end = match last_index_in(&text, start, len, '.') {
        Some(at) => if at == 0 {
            len
        } else {
            start + at
        },
        None => len,
    };
    let mut changed = substring(path, 0, end);
    assert(changed@ =~= counted.take(end as int));
    if extension.unicode_len() > 0 {
        changed.append(".");
        changed.append(extension);
        proof {
            reveal_strlit(".");
        }
    }
    changed
}

} // verus!
