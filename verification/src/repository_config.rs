//! What a repository asks to be done when templates are taken from it.

use vstd::prelude::*;
use vstd::string::*;

use crate::path_ext::{join, push_part};
use crate::store::Store;
use crate::template::TemplateView;
use crate::text::{clone_texts, texts};

verus! {

/// A rule of a repository: what matches one of `globs` is to be copied into
/// the template called `name`, if there is one.
#[derive(Debug)]
pub struct CopyRule {
    pub name: String,
    pub globs: Vec<String>,
}

#[derive(Debug)]
pub struct RepositoryConfig {
    pub copy_on_add: Vec<CopyRule>,
}

/// Files to copy: what matches one of `globs` below the directory `from`
/// goes into the directory `to`.
#[derive(Debug)]
pub struct CopyJob {
    pub from: String,
    pub globs: Vec<String>,
    pub to: String,
}

pub struct CopyJobView {
    pub from: Seq<char>,
    pub globs: Seq<Seq<char>>,
    pub to: Seq<char>,
}

impl View for CopyJob {
    type V = CopyJobView;

    open spec fn view(&self) -> CopyJobView {
        CopyJobView { from: self.from@, globs: texts(self.globs@), to: self.to@ }
    }
}

/// The views of the elements of `jobs`, in order.
pub open spec fn job_views(jobs: Seq<CopyJob>) -> Seq<CopyJobView> {
    Seq::new(jobs.len(), |i: int| jobs[i]@)
}

/// The jobs that `rules` give rise to, in the order of the rules: one for
/// each rule that names a template of `store`, from the directory `from`
/// into the directory of that template.
pub open spec fn copy_jobs(
    rules: Seq<CopyRule>,
    store: Map<Seq<char>, TemplateView>,
    from: Seq<char>,
) -> Seq<CopyJobView>
    decreases rules.len(),
{
    if rules.len() == 0 {
        Seq::empty()
    } else {
        let before = copy_jobs(rules.drop_last(), store, from);
        let rule = rules.last();
        if store.dom().contains(rule.name@) {
            before.push(CopyJobView { from, globs: texts(rule.globs@), to: store[rule.name@].path })
        } else {
            before
        }
    }
}

/// Rules that name no template of `store` ask for nothing; a single rule
/// that names one asks for one job, into the directory of that template.
pub proof fn lemma_copy_jobs(
    rules: Seq<CopyRule>,
    store: Map<Seq<char>, TemplateView>,
    from: Seq<char>,
)
    ensures
        (forall|i: int| 0 <= i < rules.len() ==> !store.dom().contains(#[trigger] rules[i].name@))
            ==> copy_jobs(rules, store, from) == Seq::<CopyJobView>::empty(),
        rules.len() == 1 && store.dom().contains(rules[0].name@) ==> copy_jobs(rules, store, from)
            == seq![
            (CopyJobView { from, globs: texts(rules[0].globs@), to: store[rules[0].name@].path }),
        ],
    decreases rules.len(),
{
    if rules.len() > 0 {
        lemma_copy_jobs(rules.drop_last(), store, from);
        if forall|i: int| 0 <= i < rules.len() ==> !store.dom().contains(#[trigger] rules[i].name@) {
            assert forall|i: int| 0 <= i < rules.drop_last().len() implies !store.dom().contains(
                #[trigger] rules.drop_last()[i].name@,
            ) by {
                assert(rules.drop_last()[i] == rules[i]);
            }
            assert(!store.dom().contains(rules[rules.len() - 1].name@));
        }
        if rules.len() == 1 && store.dom().contains(rules[0].name@) {
            assert(copy_jobs(rules.drop_last(), store, from) =~= Seq::<CopyJobView>::empty());
            assert(copy_jobs(rules, store, from) =~= seq![
                (CopyJobView { from, globs: texts(rules[0].globs@), to: store[rules[0].name@].path }),
            ]);
        }
    }
}

impl RepositoryConfig {
    /// The name of the directory, inside what was fetched, that holds the
    /// repository's settings and what they speak of.
    pub const DIR_NAME: &'static str = ".scafalra";

    /// The name of the file in that directory that holds the settings.
    pub const FILE_NAME: &'static str = "scafalra.json";

    /// The directory inside `template_dir` that the rules speak of.
    pub open spec fn dir(template_dir: Seq<char>) -> Seq<char> {
        join(template_dir, RepositoryConfig::DIR_NAME@)
    }

    /// The file that holds the settings of what was fetched into
    /// `template_dir`.
    pub fn file(template_dir: &str) -> (file: String)
        ensures
            file@ == join(RepositoryConfig::dir(template_dir@), RepositoryConfig::FILE_NAME@),
    {
        let mut file = String::from_str(template_dir);
        push_part(&mut file, RepositoryConfig::DIR_NAME);
        push_part(&mut file, RepositoryConfig::FILE_NAME);
        file
    }

    /// The settings that were read, or settings without a rule where none
    /// could be read: a repository without settings, or with settings that
    /// make no sense, asks for nothing.
    pub fn load(read: Option<RepositoryConfig>) -> (config: RepositoryConfig)
        ensures
            match read {
                Some(found) => config == found,
                None => config.copy_on_add@.len() == 0,
            },
    {
        match read {
            Some(found) => found,
            None => RepositoryConfig { copy_on_add: Vec::new() },
        }
    }

    /// What is to be copied, now that the templates of `template_dir` are
    /// stored: for each rule that names a template of `store`, in the order
    /// of the rules, what matches the rule in the settings' directory goes
    /// into the directory of that template.
    pub fn copy_on_add(&self, store: &Store, template_dir: &str) -> (jobs: Vec<CopyJob>)
        requires
            store.wf(),
        ensures
            job_views(jobs@) == copy_jobs(
                self.copy_on_add@,
                store@,
                RepositoryConfig::dir(template_dir@),
            ),
    {
        let mut from = String::from_str(template_dir);
        push_part(&mut from, RepositoryConfig::DIR_NAME);
        let ghost rules = self.copy_on_add@;
        let mut jobs: Vec<CopyJob> = Vec::new();
        let mut i: usize = 0;
        while i < self.copy_on_add.len()
            invariant
                i <= self.copy_on_add.len(),
                rules == self.copy_on_add@,
                store.wf(),
                from@ == RepositoryConfig::dir(template_dir@),
                job_views(jobs@) == copy_jobs(rules.take(i as int), store@, from@),
            decreases self.copy_on_add.len() - i,
        {
            let rule = &self.copy_on_add[i];
            proof {
                let done = rules.take(i + 1);
                assert(done.drop_last() =~= rules.take(i as int));
            }
            match store.get(rule.name.as_str()) {
                Some(template) => {
                    let job = CopyJob {
                        from: from.clone(),
                        globs: clone_texts(&rule.globs),
                        to: template.path.clone(),
                    };
                    jobs.push(job);
                },
                None => {},
            }
            i = i + 1;
        }
        assert(rules.take(i as int) =~= rules);
        jobs
    }
}

} // verus!
