//! The commands: what each of them decides, given what was read and found.

use vstd::prelude::*;
use vstd::string::*;

use crate::cli::{AddArgs, CreateArgs, ListArgs, RemoveArgs, RenameArgs, TokenArgs};
use crate::config::Config;
use crate::error::ScafalraError;
use crate::github_api::repo::RemoteRepo;
use crate::github_api::GitHubApi;
use crate::path_ext::{
    file_name, file_name_of, join, join_normal, parent, parent_of, push_part, with_extension,
    JoinCanonicalize,
};
use crate::repository::{Repository, RepositoryView};
use crate::repository_config::{copy_jobs, job_views, CopyJob, CopyJobView, RepositoryConfig};
use crate::store::{
    added_log, added_map, paths_of, removed_lines, removed_map, removed_templates,
    template_views, Renamed, Snapshot, Store,
};
use crate::sub_template::{
    read_sub_templates, sub_template_dir, sub_template_views, sub_templates_in, Child, DirEntry,
    SubTemplate, SubTemplateView, Tree, SUB_TEMPLATE_DIR,
};
use crate::template::{Template, TemplateView};
use crate::text::{
    chars_of, clone_texts, opt_text, split_kept, split_kept_of, str_eq, texts, Keep,
};
use crate::utils::Downloader;

verus! {

/// Where a command takes something from: from its arguments, or from the
/// user, who is to be asked.
#[derive(Debug)]
pub enum Choice<T> {
    Given(T),
    Ask,
}

/// What the command `token` comes to.
#[derive(Debug)]
pub enum TokenOutcome {
    /// The token was set; the settings are to be saved.
    Save,
    /// The token that is kept is to be shown, where there is one.
    Show(Option<String>),
}

/// What the command `list` shows.
#[derive(Debug)]
pub enum Listing {
    /// The names of the templates, in ascending order.
    Grid(Vec<String>),
    /// The templates with all that is known of them, in the ascending order
    /// of their names.
    Table(Vec<Template>),
}

/// How an archive is brought into the cache.
#[derive(Debug)]
pub struct CachePlan {
    /// What fetches the archive.
    pub download: Downloader,
    /// The directory to unpack the archive into, and to remove afterwards
    /// together with the archive.
    pub extract_dir: String,
    /// The directory that takes what the archive holds, in place of what is
    /// there.
    pub destination: String,
}

/// A directory to copy.
#[derive(Debug)]
pub struct DirCopy {
    pub from: String,
    pub to: String,
}

pub struct DirCopyView {
    pub from: Seq<char>,
    pub to: Seq<char>,
}

impl View for DirCopy {
    type V = DirCopyView;

    open spec fn view(&self) -> DirCopyView {
        DirCopyView { from: self.from@, to: self.to@ }
    }
}

/// The views of the elements of `copies`, in order.
pub open spec fn copy_views(copies: Seq<DirCopy>) -> Seq<DirCopyView> {
    Seq::new(copies.len(), |i: int| copies[i]@)
}

/// How a template is copied to where a project is to begin.
#[derive(Debug)]
pub struct CreatePlan {
    /// The directory of the template.
    pub source: String,
    /// The directory to make, which must not be there yet.
    pub destination: String,
    /// The directory to remove from the copy: the one that holds the
    /// sub-templates.
    pub reserved: String,
    /// The sub-templates to copy into the new directory, in order.
    pub sub_templates: Vec<DirCopy>,
    /// What else to bring along from beside the template.
    pub with: Option<CopyJob>,
}

/// The directory of the repository that is wanted: the one that the arguments
/// name, or else the one that the reference names.
pub open spec fn wanted_subdir(repo: RepositoryView, args: AddArgs) -> Option<Seq<char>> {
    match args.subdir {
        Some(dir) => Some(dir@),
        None => repo.subdir,
    }
}

/// The directory that is to become a template, or whose directories are: what
/// was fetched into `destination`, or the wanted directory in it.
pub open spec fn template_dir(destination: Seq<char>, subdir: Option<Seq<char>>) -> Seq<char> {
    match subdir {
        Some(dir) => join_normal(destination, dir),
        None => destination,
    }
}

/// The name of the template made of `dir`: where a directory of the
/// repository is wanted, the name of that directory; otherwise the name that
/// the arguments give, or else the name of the repository.
pub open spec fn template_name(repo: RepositoryView, args: AddArgs, dir: Seq<char>) -> Seq<char> {
    if wanted_subdir(repo, args) is Some && file_name(dir) is Some {
        file_name(dir)->0
    } else {
        match args.name {
            Some(name) => name@,
            None => repo.name,
        }
    }
}

/// Whether a name begins with a dot.
pub open spec fn is_hidden(name: Seq<char>) -> bool {
    name.len() > 0 && name[0] == '.'
}

/// The templates made of the directories among `children`, which are what
/// `dir` holds: one for each directory whose name does not begin with a dot,
/// in the order of the entries, each with the sub-templates that its own
/// directory keeps aside.
pub open spec fn child_templates(
    dir: Seq<char>,
    children: Seq<Child>,
    url: Seq<char>,
    created_at: Seq<char>,
) -> Seq<TemplateView>
    decreases children.len(),
{
    if children.len() == 0 {
        Seq::empty()
    } else {
        let before = child_templates(dir, children.drop_last(), url, created_at);
        let child = children.last();
        if child.is_dir && !is_hidden(child.name@) {
            before.push(
                TemplateView {
                    name: child.name@,
                    url,
                    path: join(dir, child.name@),
                    created_at,
                    sub_templates: Some(
                        sub_templates_in(
                            sub_template_dir(join(dir, child.name@)),
                            child.kept_aside@,
                        ),
                    ),
                    is_sub_template: Some(true),
                },
            )
        } else {
            before
        }
    }
}

/// The templates that a fetch of `depth` makes of what was found in `dir`:
/// one of `dir` itself, called `name`, or one of each directory in it.
pub open spec fn fetched_templates(
    depth: u8,
    name: Seq<char>,
    dir: Seq<char>,
    tree: Tree,
    url: Seq<char>,
    created_at: Seq<char>,
) -> Seq<TemplateView> {
    if depth == 0 {
        seq![whole_template(name, dir, tree.kept_aside@, url, created_at)]
    } else {
        child_templates(dir, tree.children@, url, created_at)
    }
}

/// The one template made of `dir` itself.
pub open spec fn whole_template(
    name: Seq<char>,
    dir: Seq<char>,
    entries: Seq<DirEntry>,
    url: Seq<char>,
    created_at: Seq<char>,
) -> TemplateView {
    TemplateView {
        name,
        url,
        path: dir,
        created_at,
        sub_templates: Some(sub_templates_in(sub_template_dir(dir), entries)),
        is_sub_template: None,
    }
}

/// Whether a path starts at the root.
pub open spec fn is_absolute(path: Seq<char>) -> bool {
    path.len() > 0 && path[0] == '/'
}

/// Where the copy of the template called `name` goes: to the destination
/// asked for, taken from the current directory `cwd` unless it starts at the
/// root, or else to a directory in `cwd` that is named after the template.
pub open spec fn create_destination(
    cwd: Seq<char>,
    name: Seq<char>,
    destination: Option<Seq<char>>,
) -> Seq<char> {
    match destination {
        Some(dir) => if is_absolute(dir) {
            dir
        } else {
            join_normal(cwd, dir)
        },
        None => join(cwd, name),
    }
}

/// The directory of the sub-template called `name`: of several of that name
/// the last one counts.
pub open spec fn sub_template_path(
    sub_templates: Seq<SubTemplateView>,
    name: Seq<char>,
) -> Option<Seq<char>>
    decreases sub_templates.len(),
{
    if sub_templates.len() == 0 {
        None
    } else if sub_templates.last().name == name {
        Some(sub_templates.last().path)
    } else {
        sub_template_path(sub_templates.drop_last(), name)
    }
}

/// The copies that bring the sub-templates called `chosen` into
/// `destination`, in the order of `chosen`. A name that no sub-template has
/// brings nothing.
pub open spec fn sub_template_copies(
    sub_templates: Seq<SubTemplateView>,
    chosen: Seq<Seq<char>>,
    destination: Seq<char>,
) -> Seq<DirCopyView>
    decreases chosen.len(),
{
    if chosen.len() == 0 {
        Seq::empty()
    } else {
        let before = sub_template_copies(sub_templates, chosen.drop_last(), destination);
        match sub_template_path(sub_templates, chosen.last()) {
            Some(path) => before.push(
                DirCopyView { from: path, to: join(destination, chosen.last()) },
            ),
            None => before,
        }
    }
}

/// What else comes along with a copy of `template`: where the template was
/// stored as one of several directories of a repository, and patterns were
/// given, what matches one of them beside the template.
pub open spec fn brought_along(
    template: TemplateView,
    with: Option<Seq<char>>,
    destination: Seq<char>,
) -> Option<CopyJobView> {
    if template.is_sub_template == Some(true) && with is Some && parent(template.path) is Some {
        Some(
            CopyJobView {
                from: parent(template.path)->0,
                globs: split_kept(with->0, ',', Keep::Filled),
                to: destination,
            },
        )
    } else {
        None
    }
}

/// The sub-templates of `template`, or none where it was not looked for
/// them.
pub open spec fn sub_templates_of(template: TemplateView) -> Seq<SubTemplateView> {
    match template.sub_templates {
        Some(list) => list,
        None => Seq::empty(),
    }
}

/// The directory of the sub-template called `name`, where there is one.
fn find_sub_template<'a>(sub_templates: &'a Vec<SubTemplate>, name: &str) -> (path: Option<&'a String>)
    ensures
        match path {
            Some(found) => sub_template_path(sub_template_views(sub_templates@), name@) == Some(
                found@,
            ),
            None => sub_template_path(sub_template_views(sub_templates@), name@) is None,
        },
{
    let ghost views = sub_template_views(sub_templates@);
    let mut i: usize = sub_templates.len();
    assert(views.take(i as int) =~= views);
    while i > 0
        invariant
            i <= sub_templates.len(),
            views == sub_template_views(sub_templates@),
            sub_template_path(views, name@) == sub_template_path(views.take(i as int), name@),
        decreases i,
    {
        i = i - 1;
        proof {
            let upto = views.take(i + 1);
            assert(upto.drop_last() =~= views.take(i as int));
        }
        if str_eq(sub_templates[i].name.as_str(), name) {
            return Some(&sub_templates[i].path);
        }
    }
    None
}

pub struct Scafalra {
    path: String,
    cache_dir: String,
    config: Config,
    store: Store,
    github_api: GitHubApi,
    interactive_mode: bool,
}

impl Scafalra {
    /// The name of the directory, inside the directory of the program, where
    /// what is fetched is kept.
    pub const CACHE_DIR_NAME: &'static str = "cache";

    /// The name of the directory, inside the cache, where an archive is
    /// unpacked.
    pub const TMP_DIR_NAME: &'static str = "t";

    /// The extension of the file that an archive is fetched into.
    pub const ARCHIVE_EXT: &'static str = "tar.gz";

    /// The templates are in order.
    pub closed spec fn wf(&self) -> bool {
        self.store.wf()
    }

    /// The directory of the program.
    pub closed spec fn dir(&self) -> Seq<char> {
        self.path@
    }

    /// The directory where what is fetched is kept.
    pub closed spec fn cache(&self) -> Seq<char> {
        self.cache_dir@
    }

    /// The templates.
    pub closed spec fn templates(&self) -> Store {
        self.store
    }

    /// The settings.
    pub closed spec fn settings(&self) -> Config {
        self.config
    }

    /// The service that is asked about repositories.
    pub closed spec fn api(&self) -> GitHubApi {
        self.github_api
    }

    /// Whether the user is asked for what the arguments could name.
    pub closed spec fn interactive(&self) -> bool {
        self.interactive_mode
    }

    /// The program in the directory `path`, with its settings and its
    /// templates as they were read. The service is asked with `token`, or
    /// else with the token of the settings. The user is not asked anything.
    pub fn new(
        path: &str,
        endpoint: Option<&str>,
        token: Option<&str>,
        config: Config,
        store: Store,
    ) -> (scafalra: Scafalra)
        requires
            store.wf(),
        ensures
            scafalra.wf(),
            scafalra.dir() == path@,
            scafalra.cache() == join(path@, Scafalra::CACHE_DIR_NAME@),
            scafalra.templates() == store,
            scafalra.settings() == config,
            scafalra.api().endpoint() == match endpoint {
                Some(place) => place@,
                None => crate::github_api::DEFAULT_ENDPOINT@,
            },
            scafalra.api().token() == match token {
                Some(given) => Some(given@),
                None => config.kept_token(),
            },
            !scafalra.interactive(),
    {
        let mut cache_dir = String::from_str(path);
        push_part(&mut cache_dir, Scafalra::CACHE_DIR_NAME);
        let mut github_api = GitHubApi::new(endpoint);
        match token {
            Some(given) => {
                github_api.set_token(given);
            },
            None => match config.token() {
                Some(kept) => {
                    github_api.set_token(kept);
                },
                None => {},
            },
        }
        Scafalra {
            path: String::from_str(path),
            cache_dir,
            config,
            store,
            github_api,
            interactive_mode: false,
        }
    }

    /// Says whether the user is to be asked for what the arguments could
    /// name.
    pub fn set_interactive_mode(&mut self, interactive: bool)
        ensures
            final(self).interactive() == interactive,
            final(self).wf() == old(self).wf(),
            final(self).dir() == old(self).dir(),
            final(self).cache() == old(self).cache(),
            final(self).templates() == old(self).templates(),
            final(self).settings() == old(self).settings(),
            final(self).api() == old(self).api(),
    {
        self.interactive_mode = interactive;
    }

    pub fn interactive_mode(&self) -> (interactive: bool)
        ensures
            interactive == self.interactive(),
    {
        self.interactive_mode
    }

    /// The directory of the program.
    pub fn path(&self) -> (path: &String)
        ensures
            path@ == self.dir(),
    {
        &self.path
    }

    /// The directory where what is fetched is kept.
    pub fn cache_dir(&self) -> (dir: &String)
        ensures
            dir@ == self.cache(),
    {
        &self.cache_dir
    }

    /// The templates.
    pub fn store(&self) -> (store: &Store)
        ensures
            *store == self.templates(),
            self.wf() ==> store.wf(),
    {
        &self.store
    }

    /// The program is in order when its templates are.
    pub proof fn lemma_wf(self)
        ensures
            self.wf() == self.templates().wf(),
    {
    }

    /// The settings.
    pub fn config(&self) -> (config: &Config)
        ensures
            *config == self.settings(),
    {
        &self.config
    }

    /// The service that is asked about repositories.
    pub fn github_api(&self) -> (api: &GitHubApi)
        ensures
            *api == self.api(),
    {
        &self.github_api
    }

    /// Sets the token of the settings, or tells the one that is kept.
    pub fn token(&mut self, args: TokenArgs) -> (outcome: TokenOutcome)
        ensures
            final(self).wf() == old(self).wf(),
            final(self).templates() == old(self).templates(),
            final(self).api() == old(self).api(),
            final(self).dir() == old(self).dir(),
            final(self).cache() == old(self).cache(),
            final(self).interactive() == old(self).interactive(),
            final(self).settings().location() == old(self).settings().location(),
            match args.token {
                Some(token) => {
                    &&& outcome is Save
                    &&& final(self).settings().kept_token() == Some(token@)
                },
                None => {
                    &&& outcome matches TokenOutcome::Show(kept)
                    &&& opt_text(kept) == old(self).settings().kept_token()
                    &&& final(self).settings() == old(self).settings()
                },
            },
    {
        match args.token {
            Some(token) => {
                self.config.set_token(token.as_str());
                TokenOutcome::Save
            },
            None => match self.config.token() {
                Some(kept) => TokenOutcome::Show(Some(String::from_str(kept))),
                None => TokenOutcome::Show(None),
            },
        }
    }

    /// What is to be shown of the templates: nothing where there is none,
    /// otherwise their names, or all that is known of them where a table is
    /// asked for; in either case in the ascending order of the names.
    pub fn list(&self, args: &ListArgs) -> (listing: Option<Listing>)
        requires
            self.wf(),
        ensures
            crate::text::strictly_sorted(self.templates().names()),
            match listing {
                None => self.templates().names().len() == 0,
                Some(Listing::Grid(names)) => {
                    &&& !args.table
                    &&& names@.len() > 0
                    &&& texts(names@) == self.templates().names()
                },
                Some(Listing::Table(templates)) => {
                    &&& args.table
                    &&& templates@.len() > 0
                    &&& template_views(templates@) == self.templates().entries()
                },
            },
    {
        let snapshot = self.store.save();
        if snapshot.templates.len() == 0 {
            return None;
        }
        if args.table {
            Some(Listing::Table(snapshot.templates))
        } else {
            let mut names: Vec<String> = Vec::new();
            let mut i: usize = 0;
            while i < snapshot.templates.len()
                invariant
                    i <= snapshot.templates.len(),
                    names@.len() == i,
                    forall|j: int| 0 <= j < i ==> #[trigger] names@[j]@ == snapshot.templates@[j]@.name,
                decreases snapshot.templates.len() - i,
            {
                names.push(snapshot.templates[i].name.clone());
                i = i + 1;
            }
            Some(Listing::Grid(names))
        }
    }

    /// How the archive of `repo`, which `remote` tells of, is brought into
    /// the cache: it is fetched into a file beside the directory that it is
    /// unpacked into, both at fixed places in the cache, and what it holds
    /// goes to the place in the cache that belongs to the repository.
    pub fn cache_template(&self, repo: &Repository, remote: &RemoteRepo) -> (plan: CachePlan)
        ensures
            plan.download.url@ == remote.tarball_url@,
            plan.download.file@ == with_extension(
                join(self.cache(), Scafalra::TMP_DIR_NAME@),
                Scafalra::ARCHIVE_EXT@,
            ),
            plan.extract_dir@ == join(self.cache(), Scafalra::TMP_DIR_NAME@),
            plan.destination@ == join(join(self.cache(), repo@.owner), repo@.name),
    {
        let mut extract_dir = self.cache_dir.clone();
        push_part(&mut extract_dir, Scafalra::TMP_DIR_NAME);
        let download = Downloader::new(
            remote.tarball_url.as_str(),
            extract_dir.as_str(),
            Scafalra::ARCHIVE_EXT,
        );
        let mut destination = self.cache_dir.clone();
        push_part(&mut destination, repo.owner.as_str());
        push_part(&mut destination, repo.name.as_str());
        CachePlan { download, extract_dir, destination }
    }

    /// The directory that holds what an archive held, given the names of what
    /// unpacking the archive left in `extract_dir`: archives wrap what they
    /// hold in one directory, which is the first entry. Fails with
    /// `EmptyArchive` where there is no entry.
    pub fn content_root(extract_dir: &str, entries: &Vec<String>) -> (root: Result<
        String,
        ScafalraError,
    >)
        ensures
            match root {
                Ok(dir) => entries@.len() > 0 && dir@ == join(extract_dir@, entries@[0]@),
                Err(error) => entries@.len() == 0 && error is EmptyArchive,
            },
    {
        if entries.len() == 0 {
            return Err(ScafalraError::EmptyArchive);
        }
        let mut dir = String::from_str(extract_dir);
        push_part(&mut dir, entries[0].as_str());
        Ok(dir)
    }

    /// The directory that is to become a template, or whose directories are,
    /// once `repo` is in the cache.
    pub fn template_dir(&self, repo: &Repository, args: &AddArgs) -> (dir: String)
        ensures
            dir@ == template_dir(
                join(join(self.cache(), repo@.owner), repo@.name),
                wanted_subdir(repo@, *args),
            ),
    {
        let mut dir = self.cache_dir.clone();
        push_part(&mut dir, repo.owner.as_str());
        push_part(&mut dir, repo.name.as_str());
        match &args.subdir {
            Some(subdir) => {
                dir.join_canonicalize(subdir.as_str());
            },
            None => match &repo.subdir {
                Some(subdir) => {
                    dir.join_canonicalize(subdir.as_str());
                },
                None => {},
            },
        }
        dir
    }

    /// Stores what was fetched of `repo`, whose page is at `url`, as
    /// templates made at `created_at`, and says what the repository's
    /// settings `config` then ask to be copied. `tree` is what was found in
    /// the directory that [`Scafalra::template_dir`] names.
    ///
    /// With a depth of 0 that directory becomes one template, and nothing is
    /// to be copied. With a depth of 1 each directory in it whose name does
    /// not begin with a dot becomes a template; and for each rule of the
    /// settings that names a template which was stored before this fetch,
    /// what matches the rule in the settings' directory is to be copied into
    /// the directory of that template. Any other depth fails with
    /// `InvalidArguments`, and nothing is stored.
    pub fn add(
        &mut self,
        args: &AddArgs,
        repo: &Repository,
        url: &str,
        tree: &Tree,
        config: &RepositoryConfig,
        created_at: &str,
    ) -> (result: Result<Vec<CopyJob>, ScafalraError>)
        requires
            old(self).wf(),
        ensures
            final(self).wf(),
            final(self).dir() == old(self).dir(),
            final(self).cache() == old(self).cache(),
            final(self).settings() == old(self).settings(),
            final(self).api() == old(self).api(),
            final(self).interactive() == old(self).interactive(),
            final(self).templates().location() == old(self).templates().location(),
            match result {
                Ok(jobs) => {
                    let dir = template_dir(
                        join(join(old(self).cache(), repo@.owner), repo@.name),
                        wanted_subdir(repo@, *args),
                    );
                    let added = fetched_templates(
                        args.depth,
                        template_name(repo@, *args, dir),
                        dir,
                        *tree,
                        url@,
                        created_at@,
                    );
                    &&& args.depth <= 1
                    &&& final(self).templates()@ == added_map(old(self).templates()@, added)
                    &&& final(self).templates().log() == added_log(
                        old(self).templates()@,
                        old(self).templates().log(),
                        added,
                    )
                    &&& job_views(jobs@) == if args.depth == 1 {
                        copy_jobs(
                            config.copy_on_add@,
                            old(self).templates()@,
                            RepositoryConfig::dir(dir),
                        )
                    } else {
                        Seq::empty()
                    }
                },
                Err(error) => {
                    &&& args.depth > 1
                    &&& error matches ScafalraError::InvalidArguments(advice)
                    &&& advice@ == "The argument `depth` allows only 0 or 1"@
                    &&& final(self).templates() == old(self).templates()
                },
            },
    {
        let dir = self.template_dir(repo, args);
        if args.depth == 0 {
            let name = Scafalra::name_template(repo, args, dir.as_str());
            let sub_templates = read_sub_templates(dir.as_str(), &tree.kept_aside);
            let template = Template::new(
                name.as_str(),
                url,
                dir.as_str(),
                created_at,
                Some(sub_templates),
            );
            let mut templates: Vec<Template> = Vec::new();
            templates.push(template);
            assert(template_views(templates@) =~= seq![
                whole_template(
                    template_name(repo@, *args, dir@),
                    dir@,
                    tree.kept_aside@,
                    url@,
                    created_at@,
                ),
            ]);
            self.store.add_all(templates);
            let jobs: Vec<CopyJob> = Vec::new();
            assert(job_views(jobs@) =~= Seq::<CopyJobView>::empty());
            Ok(jobs)
        } else if args.depth == 1 {
            let jobs = config.copy_on_add(&self.store, dir.as_str());
            let templates = Scafalra::children(dir.as_str(), &tree.children, url, created_at);
            self.store.add_all(templates);
            Ok(jobs)
        } else {
            Err(
                ScafalraError::InvalidArguments(
                    String::from_str("The argument `depth` allows only 0 or 1"),
                ),
            )
        }
    }

    /// The name of the template made of `dir`.
    fn name_template(repo: &Repository, args: &AddArgs, dir: &str) -> (name: String)
        ensures
            name@ == template_name(repo@, *args, dir@),
    {
        if args.subdir.is_some() || repo.subdir.is_some() {
            match file_name_of(dir) {
                Some(name) => {
                    return name;
                },
                None => {},
            }
        }
        match &args.name {
            Some(name) => name.clone(),
            None => repo.name.clone(),
        }
    }

    /// The templates made of the directories among `children`.
    fn children(dir: &str, children: &Vec<Child>, url: &str, created_at: &str) -> (templates: Vec<
        Template,
    >)
        ensures
            template_views(templates@) == child_templates(dir@, children@, url@, created_at@),
    {
        let mut templates: Vec<Template> = Vec::new();
        let mut i: usize = 0;
        assert(template_views(templates@) =~= child_templates(
            dir@,
            children@.take(0),
            url@,
            created_at@,
        ));
        while i < children.len()
            invariant
                i <= children.len(),
                template_views(templates@) == child_templates(
                    dir@,
                    children@.take(i as int),
                    url@,
                    created_at@,
                ),
            decreases children.len() - i,
        {
            proof {
                let done = children@.take(i + 1);
                assert(done.drop_last() =~= children@.take(i as int));
                assert(done.last() == children@[i as int]);
            }
            let child = &children[i];
            if child.is_dir {
                let name = chars_of(child.name.as_str());
                let hidden = name.len() > 0 && name[0] == '.';
                if !hidden {
                    let mut path = String::from_str(dir);
                    push_part(&mut path, child.name.as_str());
                    let sub_templates = read_sub_templates(path.as_str(), &child.kept_aside);
                    let template = Template {
                        name: child.name.clone(),
                        url: String::from_str(url),
                        path,
                        created_at: String::from_str(created_at),
                        sub_templates: Some(sub_templates),
                        is_sub_template: Some(true),
                    };
                    let ghost before = templates@;
                    templates.push(template);
                    assert(template_views(templates@) =~= template_views(before).push(template@));
                }
            }
            i = i + 1;
        }
        assert(children@.take(i as int) =~= children@);
        templates
    }

    /// Which template `create` is to copy: the one that the arguments name,
    /// or one that the user is to pick. Without a name and without the leave
    /// to ask it fails, with `InvalidArguments`.
    pub fn create_name(&self, args: &CreateArgs) -> (name: Result<Choice<String>, ScafalraError>)
        ensures
            match name {
                Ok(Choice::Ask) => self.interactive(),
                Ok(Choice::Given(given)) => !self.interactive() && opt_text(args.name) == Some(
                    given@,
                ),
                Err(error) => {
                    &&& !self.interactive()
                    &&& args.name is None
                    &&& error matches ScafalraError::InvalidArguments(advice)
                    &&& advice@
                        == "Provide a name or opt for interactive mode with the `-i` argument"@
                },
            },
    {
        if self.interactive_mode {
            return Ok(Choice::Ask);
        }
        match &args.name {
            Some(name) => Ok(Choice::Given(name.clone())),
            None => Err(
                ScafalraError::InvalidArguments(
                    String::from_str(
                        "Provide a name or opt for interactive mode with the `-i` argument",
                    ),
                ),
            ),
        }
    }

    /// Which sub-templates `create` is to add to the copy: those that the
    /// arguments name, or those that the user is to pick, or none.
    pub fn create_sub_templates(&self, args: &CreateArgs) -> (names: Option<Choice<Vec<String>>>)
        ensures
            match names {
                Some(Choice::Ask) => self.interactive(),
                Some(Choice::Given(given)) => {
                    &&& !self.interactive()
                    &&& args.sub_templates matches Some(list)
                    &&& texts(given@) == texts(list@)
                },
                None => !self.interactive() && args.sub_templates is None,
            },
    {
        if self.interactive_mode {
            return Some(Choice::Ask);
        }
        match &args.sub_templates {
            Some(list) => Some(Choice::Given(clone_texts(list))),
            None => None,
        }
    }

    /// How the template called `name` is copied to where a project is to
    /// begin, with the sub-templates called `sub_templates`. `cwd` is the
    /// current directory. Fails with `NoSuchTemplate` where no template of
    /// that name is stored, and then suggests the name that comes closest.
    pub fn create(
        &self,
        name: &str,
        args: &CreateArgs,
        cwd: &str,
        sub_templates: &Option<Vec<String>>,
    ) -> (plan: Result<CreatePlan, ScafalraError>)
        requires
            self.wf(),
        ensures
            match plan {
                Ok(plan) => {
                    let template = self.templates()@[name@];
                    let destination = create_destination(cwd@, name@, opt_text(args.destination));
                    &&& self.templates()@.dom().contains(name@)
                    &&& plan.source@ == template.path
                    &&& plan.destination@ == destination
                    &&& plan.reserved@ == sub_template_dir(destination)
                    &&& copy_views(plan.sub_templates@) == sub_template_copies(
                        sub_templates_of(template),
                        match *sub_templates {
                            Some(chosen) => texts(chosen@),
                            None => Seq::empty(),
                        },
                        destination,
                    )
                    &&& match plan.with {
                        Some(job) => brought_along(template, opt_text(args.with), destination)
                            == Some(job@),
                        None => brought_along(template, opt_text(args.with), destination) is None,
                    }
                },
                Err(error) => {
                    &&& !self.templates()@.dom().contains(name@)
                    &&& error matches ScafalraError::NoSuchTemplate(target, similar)
                    &&& target@ == name@
                    &&& self.templates().suggests(name@, opt_text(similar))
                },
            },
    {
        let template = match self.store.get(name) {
            Some(template) => template,
            None => {
                let similar = self.store.get_similar_name(name);
                return Err(ScafalraError::NoSuchTemplate(String::from_str(name), similar));
            },
        };
        let destination = Scafalra::destination(cwd, name, &args.destination);
        let mut reserved = destination.clone();
        push_part(&mut reserved, SUB_TEMPLATE_DIR);
        let copies = match sub_templates {
            Some(chosen) => match &template.sub_templates {
                Some(list) => Scafalra::copies(list, chosen, destination.as_str()),
                None => {
                    let empty: Vec<SubTemplate> = Vec::new();
                    assert(sub_template_views(empty@) =~= Seq::<SubTemplateView>::empty());
                    Scafalra::copies(&empty, chosen, destination.as_str())
                },
            },
            None => {
                let copies: Vec<DirCopy> = Vec::new();
                copies
            },
        };
        let with = match (&template.is_sub_template, &args.with) {
            (Some(true), Some(patterns)) => match parent_of(template.path.as_str()) {
                Some(from) => Some(
                    CopyJob {
                        from,
                        globs: split_kept_of(patterns.as_str(), ',', Keep::Filled),
                        to: destination.clone(),
                    },
                ),
                None => None,
            },
            _ => None,
        };
        Ok(
            CreatePlan {
                source: template.path.clone(),
                destination,
                reserved,
                sub_templates: copies,
                with,
            },
        )
    }

    /// Where the copy of the template called `name` goes.
    fn destination(cwd: &str, name: &str, destination: &Option<String>) -> (dir: String)
        ensures
            dir@ == create_destination(cwd@, name@, opt_text(*destination)),
    {
        match destination {
            Some(wanted) => {
                let text = chars_of(wanted.as_str());
                if text.len() > 0 && text[0] == '/' {
                    wanted.clone()
                } else {
                    let mut dir = String::from_str(cwd);
                    dir.join_canonicalize(wanted.as_str());
                    dir
                }
            },
            None => {
                let mut dir = String::from_str(cwd);
                push_part(&mut dir, name);
                dir
            },
        }
    }

    /// The copies that bring the sub-templates called `chosen` into
    /// `destination`.
    fn copies(sub_templates: &Vec<SubTemplate>, chosen: &Vec<String>, destination: &str) -> (copies:
        Vec<DirCopy>)
        ensures
            copy_views(copies@) == sub_template_copies(
                sub_template_views(sub_templates@),
                texts(chosen@),
                destination@,
            ),
    {
        let ghost views = sub_template_views(sub_templates@);
        let ghost names = texts(chosen@);
        let mut copies: Vec<DirCopy> = Vec::new();
        let mut i: usize = 0;
        while i < chosen.len()
            invariant
                i <= chosen.len(),
                views == sub_template_views(sub_templates@),
                names == texts(chosen@),
                copy_views(copies@) == sub_template_copies(
                    views,
                    names.take(i as int),
                    destination@,
                ),
            decreases chosen.len() - i,
        {
            proof {
                let done = names.take(i + 1);
                assert(done.drop_last() =~= names.take(i as int));
            }
            match find_sub_template(sub_templates, chosen[i].as_str()) {
                Some(path) => {
                    let mut to = String::from_str(destination);
                    push_part(&mut to, chosen[i].as_str());
                    let copy = DirCopy { from: path.clone(), to };
                    copies.push(copy);
                },
                None => {},
            }
            i = i + 1;
        }
        assert(names.take(i as int) =~= names);
        copies
    }

    /// Which template `rename` is to rename, and to what: what the arguments
    /// name, or what the user is to tell. Without both names and without the
    /// leave to ask it fails, with `InvalidArguments`.
    pub fn rename_names(&self, args: &RenameArgs) -> (names: Result<
        Choice<(String, String)>,
        ScafalraError,
    >)
        ensures
            match names {
                Ok(Choice::Ask) => self.interactive(),
                Ok(Choice::Given((name, new_name))) => {
                    &&& !self.interactive()
                    &&& opt_text(args.name) == Some(name@)
                    &&& opt_text(args.new_name) == Some(new_name@)
                },
                Err(error) => {
                    &&& !self.interactive()
                    &&& (args.name is None || args.new_name is None)
                    &&& error matches ScafalraError::InvalidArguments(advice)
                    &&& advice@ == if args.name is Some {
                        "Please provide a new name"@
                    } else {
                        "Provide both the target and new names, or opt for interactive mode with the `-i` argument"@
                    }
                },
            },
    {
        if self.interactive_mode {
            return Ok(Choice::Ask);
        }
        match (&args.name, &args.new_name) {
            (Some(name), Some(new_name)) => Ok(Choice::Given((name.clone(), new_name.clone()))),
            (Some(_), None) => Err(
                ScafalraError::InvalidArguments(String::from_str("Please provide a new name")),
            ),
            _ => Err(
                ScafalraError::InvalidArguments(
                    String::from_str(
                        "Provide both the target and new names, or opt for interactive mode with the `-i` argument",
                    ),
                ),
            ),
        }
    }

    /// Stores the template called `name` under `new_name` instead, as
    /// [`Store::rename`] does. Where that was done the templates are to be
    /// saved.
    pub fn rename(&mut self, name: &str, new_name: &str) -> (outcome: Renamed)
        requires
            old(self).wf(),
        ensures
            final(self).wf(),
            final(self).dir() == old(self).dir(),
            final(self).cache() == old(self).cache(),
            final(self).settings() == old(self).settings(),
            final(self).api() == old(self).api(),
            final(self).interactive() == old(self).interactive(),
            final(self).templates().location() == old(self).templates().location(),
            match outcome {
                Renamed::Done => {
                    &&& !old(self).templates()@.dom().contains(new_name@)
                    &&& old(self).templates()@.dom().contains(name@)
                    &&& final(self).templates()@ == old(self).templates()@.remove(name@).insert(
                        new_name@,
                        old(self).templates()@[name@].renamed(new_name@),
                    )
                    &&& final(self).templates().log() == old(self).templates().log().push(
                        crate::store::removed_line(name@),
                    ).push(crate::store::added_line(new_name@))
                },
                Renamed::AlreadyExists => {
                    &&& old(self).templates()@.dom().contains(new_name@)
                    &&& final(self).templates()@ == old(self).templates()@
                    &&& final(self).templates().log() == old(self).templates().log()
                },
                Renamed::NotFound(suggestion) => {
                    &&& !old(self).templates()@.dom().contains(new_name@)
                    &&& !old(self).templates()@.dom().contains(name@)
                    &&& final(self).templates()@ == old(self).templates()@
                    &&& final(self).templates().log() == old(self).templates().log()
                    &&& suggestion.target@ == name@
                    &&& old(self).templates().suggests(name@, opt_text(suggestion.similar))
                },
            },
    {
        self.store.rename(name, new_name)
    }

    /// Which templates `remove` is to remove: those that the arguments name,
    /// or those that the user is to pick. Without names and without the
    /// leave to ask it fails, with `InvalidArguments`.
    pub fn remove_names(&self, args: &RemoveArgs) -> (names: Result<
        Choice<Vec<String>>,
        ScafalraError,
    >)
        ensures
            match names {
                Ok(Choice::Ask) => self.interactive(),
                Ok(Choice::Given(given)) => {
                    &&& !self.interactive()
                    &&& args.names matches Some(list)
                    &&& texts(given@) == texts(list@)
                },
                Err(error) => {
                    &&& !self.interactive()
                    &&& args.names is None
                    &&& error matches ScafalraError::InvalidArguments(advice)
                    &&& advice@
                        == "Provide names or opt for interactive mode with the `-i` argument"@
                },
            },
    {
        if self.interactive_mode {
            return Ok(Choice::Ask);
        }
        match &args.names {
            Some(list) => Ok(Choice::Given(clone_texts(list))),
            None => Err(
                ScafalraError::InvalidArguments(
                    String::from_str(
                        "Provide names or opt for interactive mode with the `-i` argument",
                    ),
                ),
            ),
        }
    }

    /// The directories of the templates that [`Scafalra::remove`] takes out
    /// for `names`, in the order in which they leave. Nothing is changed:
    /// the directories are to be removed first, and the templates taken out
    /// of the store once that is done.
    pub fn remove_dirs(&self, names: &Vec<String>) -> (dirs: Vec<String>)
        requires
            self.wf(),
        ensures
            texts(dirs@) == paths_of(removed_templates(self.templates()@, texts(names@))),
    {
        self.store.directories(names)
    }

    /// Takes the templates called `names` out of the store, one after the
    /// other, and returns those that were there. A name under which nothing
    /// is stored is passed over.
    pub fn remove(&mut self, names: &Vec<String>) -> (removed: Vec<Template>)
        requires
            old(self).wf(),
        ensures
            final(self).wf(),
            final(self).dir() == old(self).dir(),
            final(self).cache() == old(self).cache(),
            final(self).settings() == old(self).settings(),
            final(self).api() == old(self).api(),
            final(self).interactive() == old(self).interactive(),
            final(self).templates().location() == old(self).templates().location(),
            final(self).templates()@ == removed_map(old(self).templates()@, texts(names@)),
            template_views(removed@) == removed_templates(old(self).templates()@, texts(names@)),
            final(self).templates().log() == old(self).templates().log() + removed_lines(
                template_views(removed@),
            ),
    {
        self.store.remove_all(names)
    }

    /// What is to be written when the templates are saved.
    pub fn save(&self) -> (snapshot: Snapshot)
        requires
            self.wf(),
        ensures
            template_views(snapshot.templates@) == self.templates().entries(),
            crate::text::strictly_sorted(self.templates().names()),
            crate::store::entries_map(self.templates().entries()) == self.templates()@,
            texts(snapshot.changes@) == self.templates().log(),
    {
        self.store.save()
    }
}

} // verus!
