//! The templates that are kept, each under its name, and the record of what
//! was done to them.

use vstd::prelude::*;
use vstd::string::*;

use crate::error::{missing_template_message, missing_template_text};
use crate::path_ext::{join, push_part};
use crate::similarity::{lemma_similarity_range, similarity, Ratio, Score};
use crate::template::{Template, TemplateView};
use crate::text::{
    lemma_lex_lt_irreflexive, lemma_lex_lt_total, lemma_lex_lt_transitive, lex_lt, opt_text,
    str_eq, str_lt, strictly_sorted, texts,
};

verus! {

/// The line that records that a template called `name` was added.
pub open spec fn added_line(name: Seq<char>) -> Seq<char> {
    "+ "@ + name
}

/// The line that records that the template called `name` was removed.
pub open spec fn removed_line(name: Seq<char>) -> Seq<char> {
    "- "@ + name
}

/// What was done to the templates, one line for each change, in order.
pub struct Changes {
    inner: Vec<String>,
}

impl View for Changes {
    type V = Seq<Seq<char>>;

    closed spec fn view(&self) -> Seq<Seq<char>> {
        texts(self.inner@)
    }
}

impl Changes {
    pub fn new() -> (changes: Changes)
        ensures
            changes@ == Seq::<Seq<char>>::empty(),
    {
        Changes { inner: Vec::new() }
    }

    /// Records that a template called `name` was added.
    pub fn push_add(&mut self, name: &str)
        ensures
            final(self)@ == old(self)@.push(added_line(name@)),
    {
        let mut line = String::from_str("+ ");
        line.append(name);
        self.inner.push(line);
    }

    /// Records that the template called `name` was removed.
    pub fn push_remove(&mut self, name: &str)
        ensures
            final(self)@ == old(self)@.push(removed_line(name@)),
    {
        let mut line = String::from_str("- ");
        line.append(name);
        self.inner.push(line);
    }

    /// The lines recorded so far, in order.
    pub fn lines(&self) -> (lines: Vec<String>)
        ensures
            texts(lines@) == self@,
    {
        let mut lines: Vec<String> = Vec::new();
        let mut i: usize = 0;
        while i < self.inner.len()
            invariant
                i <= self.inner.len(),
                lines@.len() == i,
                forall|j: int| 0 <= j < i ==> #[trigger] lines@[j]@ == self.inner@[j]@,
            decreases self.inner.len() - i,
        {
            lines.push(self.inner[i].clone());
            i = i + 1;
        }
        lines
    }
}

/// The names of `entries`, in order.
pub open spec fn names_of(entries: Seq<TemplateView>) -> Seq<Seq<char>> {
    Seq::new(entries.len(), |i: int| entries[i].name)
}

/// Whether one of `entries` is called `name`.
pub open spec fn has_name(entries: Seq<TemplateView>, name: Seq<char>) -> bool {
    exists|i: int| 0 <= i < entries.len() && #[trigger] entries[i].name == name
}

/// No two of `entries` have the same name.
spec fn unique_names(entries: Seq<TemplateView>) -> bool {
    forall|i: int, j: int|
        0 <= i < entries.len() && 0 <= j < entries.len() && i != j ==> #[trigger] entries[i].name
            != #[trigger] entries[j].name
}

/// The templates of `entries`, each under its name.
pub open spec fn entries_map(entries: Seq<TemplateView>) -> Map<Seq<char>, TemplateView> {
    Map::new(
        |name: Seq<char>| has_name(entries, name),
        |name: Seq<char>|
            entries[choose|i: int| 0 <= i < entries.len() && #[trigger] entries[i].name == name],
    )
}

/// What a list of templates comes to when they are stored one after the
/// other: of two with the same name the later one stays.
pub open spec fn stored(list: Seq<TemplateView>) -> Map<Seq<char>, TemplateView>
    decreases list.len(),
{
    if list.len() == 0 {
        Map::empty()
    } else {
        stored(list.drop_last()).insert(list.last().name, list.last())
    }
}

/// What `store` holds once the templates of `list` are added to it, one after
/// the other.
pub open spec fn added_map(
    store: Map<Seq<char>, TemplateView>,
    list: Seq<TemplateView>,
) -> Map<Seq<char>, TemplateView>
    decreases list.len(),
{
    if list.len() == 0 {
        store
    } else {
        added_map(store, list.drop_last()).insert(list.last().name, list.last())
    }
}

/// What the record `log` of `store` holds once the templates of `list` are
/// added to the store, one after the other.
pub open spec fn added_log(
    store: Map<Seq<char>, TemplateView>,
    log: Seq<Seq<char>>,
    list: Seq<TemplateView>,
) -> Seq<Seq<char>>
    decreases list.len(),
{
    if list.len() == 0 {
        log
    } else {
        let before = added_log(store, log, list.drop_last());
        let name = list.last().name;
        if added_map(store, list.drop_last()).dom().contains(name) {
            before.push(removed_line(name)).push(added_line(name))
        } else {
            before.push(added_line(name))
        }
    }
}

/// What `store` holds once the templates called `names` are removed from it,
/// one after the other.
pub open spec fn removed_map(
    store: Map<Seq<char>, TemplateView>,
    names: Seq<Seq<char>>,
) -> Map<Seq<char>, TemplateView>
    decreases names.len(),
{
    if names.len() == 0 {
        store
    } else {
        removed_map(store, names.drop_last()).remove(names.last())
    }
}

/// The templates that are taken out of `store` when those called `names` are
/// removed from it, one after the other, in the order in which they leave. A
/// name under which nothing is stored when its turn comes takes nothing out.
pub open spec fn removed_templates(
    store: Map<Seq<char>, TemplateView>,
    names: Seq<Seq<char>>,
) -> Seq<TemplateView>
    decreases names.len(),
{
    if names.len() == 0 {
        Seq::empty()
    } else {
        let before = removed_templates(store, names.drop_last());
        let left = removed_map(store, names.drop_last());
        if left.dom().contains(names.last()) {
            before.push(left[names.last()])
        } else {
            before
        }
    }
}

/// The directories of `templates`, in order.
pub open spec fn paths_of(templates: Seq<TemplateView>) -> Seq<Seq<char>> {
    Seq::new(templates.len(), |i: int| templates[i].path)
}

/// What is left of `store` once the templates called `names` are removed is
/// what `store` holds under the other names.
pub proof fn lemma_removed_map(store: Map<Seq<char>, TemplateView>, names: Seq<Seq<char>>)
    ensures
        forall|name: Seq<char>|
            #[trigger] removed_map(store, names).dom().contains(name) <==> store.dom().contains(
                name,
            ) && !names.contains(name),
        forall|name: Seq<char>|
            removed_map(store, names).dom().contains(name) ==> #[trigger] removed_map(
                store,
                names,
            )[name] == store[name],
    decreases names.len(),
{
    if names.len() > 0 {
        let before = names.drop_last();
        let last = names.last();
        let left = removed_map(store, before);
        lemma_removed_map(store, before);
        assert(removed_map(store, names) == left.remove(last));
        assert forall|name: Seq<char>| names.contains(name) <==> before.contains(name) || name
            == last by {
            if names.contains(name) && name != last {
                let i = choose|i: int| 0 <= i < names.len() && names[i] == name;
                assert(before[i] == name);
            }
            if before.contains(name) {
                let i = choose|i: int| 0 <= i < before.len() && before[i] == name;
                assert(names[i] == name);
            }
            if name == last {
                assert(names[names.len() - 1] == name);
            }
        }
        assert forall|name: Seq<char>|
            #[trigger] removed_map(store, names).dom().contains(name) <==> store.dom().contains(
                name,
            ) && !names.contains(name) by {
            assert(left.dom().contains(name) <==> store.dom().contains(name) && !before.contains(
                name,
            ));
        }
        assert forall|name: Seq<char>|
            removed_map(store, names).dom().contains(name) implies #[trigger] removed_map(
            store,
            names,
        )[name] == store[name] by {
            assert(left.dom().contains(name));
            assert(left[name] == store[name]);
        }
    }
}

/// The lines that record the removal of each of `templates`, in order.
pub open spec fn removed_lines(templates: Seq<TemplateView>) -> Seq<Seq<char>> {
    Seq::new(templates.len(), |i: int| removed_line(templates[i].name))
}

/// The views of the elements of `list`, in order.
pub open spec fn template_views(list: Seq<Template>) -> Seq<TemplateView> {
    Seq::new(list.len(), |i: int| list[i]@)
}

proof fn lemma_sorted_unique(entries: Seq<TemplateView>)
    requires
        strictly_sorted(names_of(entries)),
    ensures
        unique_names(entries),
{
    assert forall|i: int, j: int|
        0 <= i < entries.len() && 0 <= j < entries.len() && i != j implies #[trigger] entries[i].name
        != #[trigger] entries[j].name by {
        let names = names_of(entries);
        if i < j {
            assert(lex_lt(names[i], names[j]));
        } else {
            assert(lex_lt(names[j], names[i]));
        }
        lemma_lex_lt_irreflexive(entries[i].name);
    }
}

proof fn lemma_map_lookup(entries: Seq<TemplateView>, i: int)
    requires
        unique_names(entries),
        0 <= i < entries.len(),
    ensures
        has_name(entries, entries[i].name),
        entries_map(entries)[entries[i].name] == entries[i],
{
}

proof fn lemma_map_insert(entries: Seq<TemplateView>, at: int, template: TemplateView)
    requires
        unique_names(entries),
        !has_name(entries, template.name),
        0 <= at <= entries.len(),
    ensures
        unique_names(entries.insert(at, template)),
        entries_map(entries.insert(at, template)) == entries_map(entries).insert(
            template.name,
            template,
        ),
{
    let after = entries.insert(at, template);
    let left = entries_map(after);
    let right = entries_map(entries).insert(template.name, template);
    assert forall|name: Seq<char>| left.dom().contains(name) <==> right.dom().contains(name) by {
        if has_name(after, name) {
            let i = choose|i: int| 0 <= i < after.len() && #[trigger] after[i].name == name;
        }
        if has_name(entries, name) {
            let i = choose|i: int| 0 <= i < entries.len() && #[trigger] entries[i].name == name;
            let ni = if i < at { i } else { i + 1 };
            assert(after[ni].name == name);
        }
        if name == template.name {
            assert(after[at].name == name);
        }
    }
}

proof fn lemma_map_update(entries: Seq<TemplateView>, at: int, template: TemplateView)
    requires
        unique_names(entries),
        0 <= at < entries.len(),
        entries[at].name == template.name,
    ensures
        unique_names(entries.update(at, template)),
        names_of(entries.update(at, template)) == names_of(entries),
        entries_map(entries.update(at, template)) == entries_map(entries).insert(
            template.name,
            template,
        ),
{
    let after = entries.update(at, template);
    let left = entries_map(after);
    let right = entries_map(entries).insert(template.name, template);
    assert forall|name: Seq<char>| left.dom().contains(name) <==> right.dom().contains(name) by {
        if has_name(entries, name) {
            let i = choose|i: int| 0 <= i < entries.len() && #[trigger] entries[i].name == name;
            assert(after[i].name == name);
        }
    }
}

proof fn lemma_map_remove(entries: Seq<TemplateView>, at: int)
    requires
        unique_names(entries),
        0 <= at < entries.len(),
    ensures
        unique_names(entries.remove(at)),
        !has_name(entries.remove(at), entries[at].name),
        entries_map(entries.remove(at)) == entries_map(entries).remove(entries[at].name),
{
    let after = entries.remove(at);
    let left = entries_map(after);
    let right = entries_map(entries).remove(entries[at].name);
    assert forall|name: Seq<char>| left.dom().contains(name) <==> right.dom().contains(name) by {
        if has_name(entries, name) && name != entries[at].name {
            let i = choose|i: int| 0 <= i < entries.len() && #[trigger] entries[i].name == name;
            let ni = if i < at { i } else { i - 1 };
            assert(after[ni].name == name);
        }
    }
}

/// A place in a sorted list of names where `name` stands, or where it would
/// have to be put.
spec fn is_place(names: Seq<Seq<char>>, name: Seq<char>, place: Result<usize, usize>) -> bool {
    match place {
        Ok(at) => at < names.len() && names[at as int] == name,
        Err(at) => {
            &&& at <= names.len()
            &&& forall|i: int| 0 <= i < at ==> lex_lt(#[trigger] names[i], name)
            &&& forall|i: int| at <= i < names.len() ==> lex_lt(name, #[trigger] names[i])
        },
    }
}

proof fn lemma_place_absent(entries: Seq<TemplateView>, name: Seq<char>, at: usize)
    requires
        is_place(names_of(entries), name, Err(at)),
    ensures
        !has_name(entries, name),
{
    if has_name(entries, name) {
        let i = choose|i: int| 0 <= i < entries.len() && #[trigger] entries[i].name == name;
        let names = names_of(entries);
        assert(names[i] == name);
        lemma_lex_lt_irreflexive(name);
    }
}

proof fn lemma_insert_sorted(entries: Seq<TemplateView>, at: usize, template: TemplateView)
    requires
        strictly_sorted(names_of(entries)),
        is_place(names_of(entries), template.name, Err(at)),
    ensures
        strictly_sorted(names_of(entries.insert(at as int, template))),
{
    let names = names_of(entries);
    let after = names_of(entries.insert(at as int, template));
    assert(after =~= names.insert(at as int, template.name));
}

proof fn lemma_remove_sorted(entries: Seq<TemplateView>, at: int)
    requires
        strictly_sorted(names_of(entries)),
        0 <= at < entries.len(),
    ensures
        strictly_sorted(names_of(entries.remove(at))),
{
    let names = names_of(entries);
    let after = names_of(entries.remove(at));
    assert(after =~= names.remove(at));
}

/// What [`Store::rename`] did.
#[derive(Debug)]
pub enum Renamed {
    /// The template is now stored under its new name.
    Done,
    /// A template of the new name is stored already; nothing was changed.
    AlreadyExists,
    /// No template of the old name is stored; nothing was changed.
    NotFound(Suggestion),
}

/// Why a lookup failed, and the stored name that comes closest to the name
/// that was looked for, where one is close enough.
#[derive(Debug)]
pub struct Suggestion {
    pub target: String,
    pub similar: Option<String>,
}

impl Suggestion {
    /// The sentences that tell a user of the failed lookup.
    pub fn message(&self) -> (text: String)
        ensures
            text@ == missing_template_text(self.target@, opt_text(self.similar)),
    {
        match &self.similar {
            Some(name) => missing_template_message(self.target.as_str(), Some(name.as_str())),
            None => missing_template_message(self.target.as_str(), None),
        }
    }
}

/// Whether `names[at]` resembles `target` by more than one half, no stored
/// name resembles it more, and none that comes later resembles it as much.
pub open spec fn is_closest(names: Seq<Seq<char>>, target: Seq<char>, at: int) -> bool {
    &&& 0 <= at < names.len()
    &&& similarity(target, names[at]).exceeds_half()
    &&& forall|i: int|
        0 <= i < names.len() ==> similarity(target, #[trigger] names[i]).at_most(
            similarity(target, names[at]),
        )
    &&& forall|i: int|
        at < i < names.len() ==> similarity(target, #[trigger] names[i]).less_than(
            similarity(target, names[at]),
        )
}

/// What is to be written when a store is saved.
#[derive(Debug)]
pub struct Snapshot {
    /// The templates, in the order of their names.
    pub templates: Vec<Template>,
    /// The changes made since the store was opened, in the order in which
    /// they were made.
    pub changes: Vec<String>,
}

pub struct Store {
    path: String,
    templates: Vec<Template>,
    changes: Changes,
}

impl View for Store {
    type V = Map<Seq<char>, TemplateView>;

    closed spec fn view(&self) -> Map<Seq<char>, TemplateView> {
        entries_map(self.entries())
    }
}

impl Store {
    /// The name of the file that a store is kept in.
    pub const FILE_NAME: &'static str = "store.json";

    /// The templates are kept in the ascending order of their names, so that no
    /// two of them have the same name.
    pub closed spec fn wf(&self) -> bool {
        strictly_sorted(names_of(self.entries()))
    }

    /// The templates, in the order in which they are kept.
    pub closed spec fn entries(&self) -> Seq<TemplateView> {
        template_views(self.templates@)
    }

    /// The names of the templates, in the order in which they are kept.
    pub open spec fn names(&self) -> Seq<Seq<char>> {
        names_of(self.entries())
    }

    /// The changes recorded since the store was opened.
    pub closed spec fn log(&self) -> Seq<Seq<char>> {
        self.changes@
    }

    /// The file that the store is kept in.
    pub closed spec fn location(&self) -> Seq<char> {
        self.path@
    }

    /// Where `name` stands among the templates, or where it would have to be
    /// put.
    fn find(&self, name: &str) -> (place: Result<usize, usize>)
        requires
            self.wf(),
        ensures
            is_place(self.names(), name@, place),
    {
        let ghost names = self.names();
        let mut i: usize = 0;
        while i < self.templates.len()
            invariant
                i <= self.templates.len(),
                names == self.names(),
                names.len() == self.templates.len(),
                strictly_sorted(names),
                forall|j: int| 0 <= j < i ==> lex_lt(#[trigger] names[j], name@),
            decreases self.templates.len() - i,
        {
            let current = self.templates[i].name.as_str();
            if str_eq(current, name) {
                return Ok(i);
            }
            if str_lt(name, current) {
                proof {
                    assert forall|j: int| i <= j < names.len() implies lex_lt(
                        name@,
                        #[trigger] names[j],
                    ) by {
                        if i < j {
                            lemma_lex_lt_transitive(name@, names[i as int], names[j]);
                        }
                    }
                }
                return Err(i);
            }
            proof {
                lemma_lex_lt_total(current@, name@);
            }
            i = i + 1;
        }
        Err(i)
    }

    /// The store kept in the directory `scafalra_dir`, holding `templates`. Of
    /// two templates with the same name the later one stays. No change is
    /// recorded.
    pub fn new(scafalra_dir: &str, templates: Vec<Template>) -> (store: Store)
        ensures
            store.wf(),
            store@ == stored(template_views(templates@)),
            store.log() == Seq::<Seq<char>>::empty(),
            store.location() == join(scafalra_dir@, Store::FILE_NAME@),
    {
        let mut path = String::from_str(scafalra_dir);
        push_part(&mut path, Store::FILE_NAME);
        let mut store = Store { path, templates: Vec::new(), changes: Changes::new() };
        let ghost views = template_views(templates@);
        let mut i: usize = 0;
        while i < templates.len()
            invariant
                i <= templates.len(),
                views == template_views(templates@),
                store@ == stored(views.take(i as int)),
                store.log() == Seq::<Seq<char>>::empty(),
                store.location() == join(scafalra_dir@, Store::FILE_NAME@),
                store.wf(),
            decreases templates.len() - i,
        {
            store.put(templates[i].clone());
            proof {
                let done = views.take(i + 1);
                assert(done.drop_last() =~= views.take(i as int));
            }
            i = i + 1;
        }
        assert(views.take(i as int) =~= views);
        store
    }

    /// Stores `template` under its name, in place of what was stored there.
    /// Says whether something was.
    fn put(&mut self, template: Template) -> (replaced: bool)
        requires
            old(self).wf(),
        ensures
            final(self).wf(),
            final(self)@ == old(self)@.insert(template@.name, template@),
            replaced == old(self)@.dom().contains(template@.name),
            final(self).log() == old(self).log(),
            final(self).location() == old(self).location(),
    {
        proof {
            lemma_sorted_unique(self.entries());
        }
        let ghost entries = self.entries();
        match self.find(template.name.as_str()) {
            Ok(at) => {
                proof {
                    lemma_map_update(entries, at as int, template@);
                    lemma_map_lookup(entries, at as int);
                }
                self.templates.set(at, template);
                assert(self.entries() =~= entries.update(at as int, template@));
                true
            },
            Err(at) => {
                proof {
                    lemma_place_absent(entries, template@.name, at);
                    lemma_map_insert(entries, at as int, template@);
                    lemma_insert_sorted(entries, at, template@);
                }
                self.templates.insert(at, template);
                assert(self.entries() =~= entries.insert(at as int, template@));
                false
            },
        }
    }

    /// What is to be written when the store is saved: the templates in the
    /// order of their names, and the changes in the order in which they were
    /// made.
    pub fn save(&self) -> (snapshot: Snapshot)
        requires
            self.wf(),
        ensures
            template_views(snapshot.templates@) == self.entries(),
            strictly_sorted(self.names()),
            entries_map(self.entries()) == self@,
            texts(snapshot.changes@) == self.log(),
    {
        let mut templates: Vec<Template> = Vec::new();
        let mut i: usize = 0;
        while i < self.templates.len()
            invariant
                i <= self.templates.len(),
                templates@.len() == i,
                forall|j: int| 0 <= j < i ==> #[trigger] templates@[j]@ == self.templates@[j]@,
            decreases self.templates.len() - i,
        {
            templates.push(self.templates[i].clone());
            i = i + 1;
        }
        Snapshot { templates, changes: self.changes.lines() }
    }

    /// Stores `template` under its name. A template that was stored under that
    /// name is replaced, which is recorded as a removal; then the addition is
    /// recorded.
    pub fn add(&mut self, template: Template)
        requires
            old(self).wf(),
        ensures
            final(self).wf(),
            final(self)@ == old(self)@.insert(template@.name, template@),
            final(self).log() == if old(self)@.dom().contains(template@.name) {
                old(self).log().push(removed_line(template@.name)).push(added_line(template@.name))
            } else {
                old(self).log().push(added_line(template@.name))
            },
            final(self).location() == old(self).location(),
    {
        let name = template.name.clone();
        let replaced = self.put(template);
        if replaced {
            self.changes.push_remove(name.as_str());
        }
        self.changes.push_add(name.as_str());
    }

    /// Takes the template called `name` out of the store, records the removal
    /// and returns the template. Where there is none of that name, nothing
    /// is changed.
    pub fn remove(&mut self, name: &str) -> (removed: Option<Template>)
        requires
            old(self).wf(),
        ensures
            final(self).wf(),
            final(self).location() == old(self).location(),
            match removed {
                Some(template) => {
                    &&& old(self)@.dom().contains(name@)
                    &&& template@ == old(self)@[name@]
                    &&& final(self)@ == old(self)@.remove(name@)
                    &&& final(self).log() == old(self).log().push(removed_line(name@))
                },
                None => {
                    &&& !old(self)@.dom().contains(name@)
                    &&& final(self)@ == old(self)@
                    &&& final(self).log() == old(self).log()
                },
            },
    {
        proof {
            lemma_sorted_unique(self.entries());
        }
        let ghost entries = self.entries();
        match self.find(name) {
            Ok(at) => {
                proof {
                    lemma_map_lookup(entries, at as int);
                    lemma_map_remove(entries, at as int);
                    lemma_remove_sorted(entries, at as int);
                }
                let template = self.templates.remove(at);
                assert(self.entries() =~= entries.remove(at as int));
                self.changes.push_remove(name);
                Some(template)
            },
            Err(at) => {
                proof {
                    lemma_place_absent(entries, name@, at);
                }
                None
            },
        }
    }

    /// Stores the template called `name` under `new_name` instead, and
    /// records a removal and an addition. Where a template called `new_name`
    /// is stored already, or none called `name`, nothing is changed.
    pub fn rename(&mut self, name: &str, new_name: &str) -> (outcome: Renamed)
        requires
            old(self).wf(),
        ensures
            final(self).wf(),
            final(self).location() == old(self).location(),
            match outcome {
                Renamed::Done => {
                    &&& !old(self)@.dom().contains(new_name@)
                    &&& old(self)@.dom().contains(name@)
                    &&& final(self)@ == old(self)@.remove(name@).insert(
                        new_name@,
                        old(self)@[name@].renamed(new_name@),
                    )
                    &&& final(self).log() == old(self).log().push(removed_line(name@)).push(
                        added_line(new_name@),
                    )
                },
                Renamed::AlreadyExists => {
                    &&& old(self)@.dom().contains(new_name@)
                    &&& final(self)@ == old(self)@
                    &&& final(self).log() == old(self).log()
                },
                Renamed::NotFound(suggestion) => {
                    &&& !old(self)@.dom().contains(new_name@)
                    &&& !old(self)@.dom().contains(name@)
                    &&& final(self)@ == old(self)@
                    &&& final(self).log() == old(self).log()
                    &&& suggestion.target@ == name@
                    &&& old(self).suggests(name@, opt_text(suggestion.similar))
                },
            },
    {
        proof {
            lemma_sorted_unique(self.entries());
        }
        let ghost entries = self.entries();
        match self.find(new_name) {
            Ok(at) => {
                proof {
                    lemma_map_lookup(entries, at as int);
                }
                return Renamed::AlreadyExists;
            },
            Err(at) => {
                proof {
                    lemma_place_absent(entries, new_name@, at);
                }
            },
        }
        match self.find(name) {
            Ok(at) => {
                proof {
                    lemma_map_lookup(entries, at as int);
                    lemma_map_remove(entries, at as int);
                    lemma_remove_sorted(entries, at as int);
                }
                let mut template = self.templates.remove(at);
                assert(self.entries() =~= entries.remove(at as int));
                template.name = String::from_str(new_name);
                self.put(template);
                self.changes.push_remove(name);
                self.changes.push_add(new_name);
                Renamed::Done
            },
            Err(at) => {
                proof {
                    lemma_place_absent(entries, name@, at);
                }
                Renamed::NotFound(self.similar_name_suggestion(name))
            },
        }
    }

    /// Stores each of `templates` under its name, one after the other, as
    /// [`Store::add`] does.
    pub fn add_all(&mut self, templates: Vec<Template>)
        requires
            old(self).wf(),
        ensures
            final(self).wf(),
            final(self)@ == added_map(old(self)@, template_views(templates@)),
            final(self).log() == added_log(old(self)@, old(self).log(), template_views(templates@)),
            final(self).location() == old(self).location(),
    {
        let ghost views = template_views(templates@);
        let mut i: usize = 0;
        while i < templates.len()
            invariant
                i <= templates.len(),
                views == template_views(templates@),
                self.wf(),
                self@ == added_map(old(self)@, views.take(i as int)),
                self.log() == added_log(old(self)@, old(self).log(), views.take(i as int)),
                self.location() == old(self).location(),
            decreases templates.len() - i,
        {
            proof {
                let done = views.take(i + 1);
                assert(done.drop_last() =~= views.take(i as int));
            }
            self.add(templates[i].clone());
            i = i + 1;
        }
        assert(views.take(i as int) =~= views);
    }

    /// Takes the templates called `names` out of the store, one after the
    /// other, as [`Store::remove`] does, and returns those that were there.
    pub fn remove_all(&mut self, names: &Vec<String>) -> (removed: Vec<Template>)
        requires
            old(self).wf(),
        ensures
            final(self).wf(),
            final(self)@ == removed_map(old(self)@, texts(names@)),
            template_views(removed@) == removed_templates(old(self)@, texts(names@)),
            final(self).log() == old(self).log() + removed_lines(template_views(removed@)),
            final(self).location() == old(self).location(),
    {
        let ghost wanted = texts(names@);
        let mut removed: Vec<Template> = Vec::new();
        let mut i: usize = 0;
        while i < names.len()
            invariant
                i <= names.len(),
                wanted == texts(names@),
                self.wf(),
                self@ == removed_map(old(self)@, wanted.take(i as int)),
                template_views(removed@) == removed_templates(old(self)@, wanted.take(i as int)),
                self.log() == old(self).log() + removed_lines(template_views(removed@)),
                self.location() == old(self).location(),
            decreases names.len() - i,
        {
            proof {
                let done = wanted.take(i + 1);
                assert(done.drop_last() =~= wanted.take(i as int));
            }
            match self.remove(names[i].as_str()) {
                Some(template) => {
                    removed.push(template);
                },
                None => {},
            }
            i = i + 1;
        }
        assert(wanted.take(i as int) =~= wanted);
        removed
    }

    /// Whether the name at `at` stands in `names` before that place too.
    fn named_before(names: &Vec<String>, at: usize) -> (found: bool)
        requires
            at < names.len(),
        ensures
            found == texts(names@).take(at as int).contains(names@[at as int]@),
    {
        let ghost before = texts(names@).take(at as int);
        let mut i: usize = 0;
        while i < at
            invariant
                i <= at < names.len(),
                before == texts(names@).take(at as int),
                forall|j: int| 0 <= j < i ==> before[j] != names@[at as int]@,
            decreases at - i,
        {
            if str_eq(names[i].as_str(), names[at].as_str()) {
                assert(before[i as int] == names@[at as int]@);
                return true;
            }
            i = i + 1;
        }
        false
    }

    /// The directories of the templates that [`Store::remove_all`] would take
    /// out for `names`, in the order in which they would leave. The store
    /// stays as it is.
    pub fn directories(&self, names: &Vec<String>) -> (dirs: Vec<String>)
        requires
            self.wf(),
        ensures
            texts(dirs@) == paths_of(removed_templates(self@, texts(names@))),
    {
        let ghost wanted = texts(names@);
        let mut dirs: Vec<String> = Vec::new();
        let mut i: usize = 0;
        assert(texts(dirs@) =~= paths_of(removed_templates(self@, wanted.take(0))));
        while i < names.len()
            invariant
                i <= names.len(),
                wanted == texts(names@),
                self.wf(),
                texts(dirs@) == paths_of(removed_templates(self@, wanted.take(i as int))),
            decreases names.len() - i,
        {
            proof {
                let done = wanted.take(i + 1);
                assert(done.drop_last() =~= wanted.take(i as int));
                assert(done.last() == names@[i as int]@);
                lemma_removed_map(self@, wanted.take(i as int));
            }
            let ghost before = removed_templates(self@, wanted.take(i as int));
            if !Store::named_before(names, i) {
                match self.get(names[i].as_str()) {
                    Some(template) => {
                        let ghost listed = dirs@;
                        dirs.push(template.path.clone());
                        assert(texts(dirs@) =~= texts(listed).push(template@.path));
                        assert(paths_of(before.push(template@)) =~= paths_of(before).push(
                            template@.path,
                        ));
                    },
                    None => {},
                }
            }
            i = i + 1;
        }
        assert(wanted.take(i as int) =~= wanted);
        dirs
    }

    /// The template called `name`, where one is stored.
    pub fn get(&self, name: &str) -> (found: Option<&Template>)
        requires
            self.wf(),
        ensures
            match found {
                Some(template) => self@.dom().contains(name@) && template@ == self@[name@],
                None => !self@.dom().contains(name@),
            },
    {
        proof {
            lemma_sorted_unique(self.entries());
        }
        match self.find(name) {
            Ok(at) => {
                proof {
                    lemma_map_lookup(self.entries(), at as int);
                }
                Some(&self.templates[at])
            },
            Err(at) => {
                proof {
                    lemma_place_absent(self.entries(), name@, at);
                }
                None
            },
        }
    }

    /// Whether `similar` is what is to be suggested to someone who looked for
    /// `target`: the stored name that resembles `target` most, where it does
    /// so by more than one half; of several such names the last in the order
    /// of the names.
    pub open spec fn suggests(&self, target: Seq<char>, similar: Option<Seq<char>>) -> bool {
        match similar {
            Some(name) => exists|at: int|
                #[trigger] is_closest(self.names(), target, at) && self.names()[at] == name,
            None => forall|at: int|
                0 <= at < self.names().len() ==> !similarity(
                    target,
                    #[trigger] self.names()[at],
                ).exceeds_half(),
        }
    }

    /// The stored name that resembles `target` most, where one resembles it
    /// by more than one half.
    pub fn get_similar_name(&self, target: &str) -> (similar: Option<String>)
        ensures
            self.suggests(target@, opt_text(similar)),
    {
        let ghost names = self.names();
        let mut best: Option<(usize, Score)> = None;
        let mut i: usize = 0;
        while i < self.templates.len()
            invariant
                i <= self.templates.len(),
                names == self.names(),
                names.len() == self.templates.len(),
                match best {
                    Some((at, score)) => {
                        &&& at < i
                        &&& score@ == similarity(target@, names[at as int])
                        &&& is_closest(names.take(i as int), target@, at as int)
                    },
                    None => forall|j: int|
                        0 <= j < i ==> !similarity(target@, #[trigger] names[j]).exceeds_half(),
                },
            decreases self.templates.len() - i,
        {
            let score = Score::of(target, self.templates[i].name.as_str());
            let ghost before = names.take(i as int);
            let ghost after = names.take(i + 1);
            proof {
                lemma_similarity_range(target@, names[i as int]);
                if best is Some {
                    lemma_similarity_range(target@, names[(best->0).0 as int]);
                }
            }
            if score.exceeds_half() {
                let better = match &best {
                    Some((_, top)) => !score.less_than(top),
                    None => true,
                };
                if better {
                    proof {
                        match best {
                            Some((at, top)) => {
                                assert forall|j: int| 0 <= j < after.len() implies similarity(
                                    target@,
                                    #[trigger] after[j],
                                ).at_most(similarity(target@, after[i as int])) by {
                                    if j < i {
                                        lemma_at_most_transitive(
                                            similarity(target@, before[j]),
                                            top@,
                                            score@,
                                        );
                                    }
                                }
                            },
                            None => {
                                assert forall|j: int| 0 <= j < after.len() implies similarity(
                                    target@,
                                    #[trigger] after[j],
                                ).at_most(similarity(target@, after[i as int])) by {
                                    if j < i {
                                        lemma_below_half(similarity(target@, names[j]), score@);
                                    }
                                }
                            },
                        }
                    }
                    best = Some((i, score));
                }
            } else {
                proof {
                    match best {
                        Some((at, top)) => {
                            lemma_below_half(score@, top@);
                        },
                        None => {},
                    }
                }
            }
            i = i + 1;
        }
        assert(names.take(i as int) =~= names);
        match best {
            Some((at, _)) => Some(self.templates[at].name.clone()),
            None => None,
        }
    }

    /// What to tell someone who looked for a template called `target` in
    /// vain.
    pub fn similar_name_suggestion(&self, target: &str) -> (suggestion: Suggestion)
        ensures
            suggestion.target@ == target@,
            self.suggests(target@, opt_text(suggestion.similar)),
    {
        Suggestion { target: String::from_str(target), similar: self.get_similar_name(target) }
    }

    /// The names of the templates, in ascending order.
    pub fn all_templates_name(&self) -> (names: Vec<&String>)
        requires
            self.wf(),
        ensures
            names@.len() == self.names().len(),
            forall|i: int| 0 <= i < names@.len() ==> #[trigger] names@[i]@ == self.names()[i],
            strictly_sorted(self.names()),
            forall|name: Seq<char>| self@.dom().contains(name) <==> self.names().contains(name),
    {
        let mut names: Vec<&String> = Vec::new();
        let mut i: usize = 0;
        while i < self.templates.len()
            invariant
                i <= self.templates.len(),
                names@.len() == i,
                forall|j: int| 0 <= j < i ==> #[trigger] names@[j]@ == self.templates@[j]@.name,
            decreases self.templates.len() - i,
        {
            names.push(&self.templates[i].name);
            i = i + 1;
        }
        proof {
            let entries = self.entries();
            let listed = self.names();
            assert forall|name: Seq<char>| self@.dom().contains(name) <==> listed.contains(
                name,
            ) by {
                if has_name(entries, name) {
                    let i = choose|i: int| 0 <= i < entries.len() && #[trigger] entries[i].name == name;
                    assert(listed[i] == name);
                }
            }
        }
        names
    }

    /// The file that the store is kept in.
    pub fn path(&self) -> (path: &String)
        ensures
            path@ == self.location(),
    {
        &self.path
    }

    /// The number of templates.
    pub fn len(&self) -> (count: usize)
        ensures
            count == self.names().len(),
    {
        self.templates.len()
    }
}

/// A list of templates with different names comes to the same whether its
/// templates are stored one after the other or looked up by their names.
proof fn lemma_stored_is_entries_map(entries: Seq<TemplateView>)
    requires
        unique_names(entries),
    ensures
        stored(entries) == entries_map(entries),
    decreases entries.len(),
{
    if entries.len() > 0 {
        let before = entries.drop_last();
        let last = entries.last();
        lemma_stored_is_entries_map(before);
        lemma_map_insert(before, before.len() as int, last);
        assert(before.insert(before.len() as int, last) =~= entries);
    }
}

impl Store {
    /// Saving and loading: the templates that [`Store::save`] hands out, in
    /// the ascending order of their names, are stored by a later
    /// [`Store::new`] just as they were stored before.
    pub proof fn lemma_save_then_load(self)
        requires
            self.wf(),
        ensures
            strictly_sorted(self.names()),
            stored(self.entries()) == self@,
    {
        lemma_sorted_unique(self.entries());
        lemma_stored_is_entries_map(self.entries());
    }

    /// Each template is stored under its own name, and the names that are
    /// listed are those under which a template is stored.
    pub proof fn lemma_names(self)
        requires
            self.wf(),
        ensures
            forall|name: Seq<char>| self@.dom().contains(name) ==> (#[trigger] self@[name]).name == name,
            forall|name: Seq<char>| self@.dom().contains(name) <==> self.names().contains(name),
            self.names().no_duplicates(),
            self@.dom().finite(),
            self@.dom().len() == self.names().len(),
    {
        let entries = self.entries();
        let listed = self.names();
        lemma_sorted_unique(entries);
        assert forall|name: Seq<char>| self@.dom().contains(name) <==> listed.contains(name) by {
            if has_name(entries, name) {
                let i = choose|i: int| 0 <= i < entries.len() && #[trigger] entries[i].name == name;
                assert(listed[i] == name);
            }
        }
        assert(self@.dom() =~= listed.to_set());
        listed.unique_seq_to_set();
    }
}

/// There is one name to suggest at most: two places of a list of names that
/// both hold the closest name are one place.
pub proof fn lemma_closest_is_one(names: Seq<Seq<char>>, target: Seq<char>, first: int, second: int)
    requires
        is_closest(names, target, first),
        is_closest(names, target, second),
    ensures
        first == second,
{
    if first < second {
        assert(similarity(target, names[second]).less_than(similarity(target, names[first])));
    } else if second < first {
        assert(similarity(target, names[first]).less_than(similarity(target, names[second])));
    }
}

/// A template that was added is found under its name, just as it was added.
pub proof fn lemma_add_then_get(before: Map<Seq<char>, TemplateView>, template: TemplateView)
    ensures
        before.insert(template.name, template).dom().contains(template.name),
        before.insert(template.name, template)[template.name] == template,
{
}

/// A template that is added under a name that is taken replaces what was
/// stored there: nothing of the earlier one stays.
pub proof fn lemma_add_replaces(
    before: Map<Seq<char>, TemplateView>,
    first: TemplateView,
    second: TemplateView,
)
    requires
        first.name == second.name,
    ensures
        before.insert(first.name, first).insert(second.name, second) == before.insert(
            second.name,
            second,
        ),
{
}

/// Removing takes the entry away, and where there is none it changes
/// nothing.
pub proof fn lemma_remove(before: Map<Seq<char>, TemplateView>, name: Seq<char>)
    ensures
        !before.remove(name).dom().contains(name),
        !before.dom().contains(name) ==> before.remove(name) == before,
        forall|other: Seq<char>|
            other != name && before.dom().contains(other) ==> before.remove(name).dom().contains(
                other,
            ) && #[trigger] before.remove(name)[other] == before[other],
{
}

/// Of two fractions, one that does not exceed one half is at most, and less
/// than, one that does.
proof fn lemma_below_half(low: Ratio, high: Ratio)
    requires
        low.whole > 0,
        high.whole > 0,
        !low.exceeds_half(),
        high.exceeds_half(),
    ensures
        low.less_than(high),
        low.at_most(high),
{
    assert(low.part * high.whole < high.part * low.whole) by (nonlinear_arith)
        requires
            low.whole > 0,
            high.whole > 0,
            2 * low.part <= low.whole,
            2 * high.part > high.whole,
    ;
}

proof fn lemma_at_most_transitive(
    a: Ratio,
    b: Ratio,
    c: Ratio,
)
    requires
        a.whole > 0,
        b.whole > 0,
        c.whole > 0,
        a.at_most(b),
        b.at_most(c),
    ensures
        a.at_most(c),
{
    assert(a.part * c.whole <= c.part * a.whole) by (nonlinear_arith)
        requires
            a.whole > 0,
            b.whole > 0,
            c.whole > 0,
            a.part * b.whole <= b.part * a.whole,
            b.part * c.whole <= c.part * b.whole,
    ;
}

} // verus!
