use vstd::prelude::*;
use crate::document::DocView;
use crate::document::TomlValue;
use crate::document::entries_view;
use crate::document::values_view;
use crate::document::value_view;
use crate::document::lemma_entries_view;
use crate::document::lemma_values_view;
use crate::document::has_key;
use crate::document::distinct_keys;
use crate::document::tables_unique;
use crate::document::lemma_lookup_is_entry;
use crate::document::entries_tables_unique;
use crate::document::lemma_entries_tables_unique_index;
use crate::document::lookup;
use crate::document::lemma_lookup_at;
use crate::document::lemma_lookup_none;
use crate::document::table_get;
use crate::document::toml_document;
use crate::document::parse_document;
use crate::error::Error;
use crate::error::FileIoAction;
use crate::error::FileKind;
use crate::io::FileSystemReader;
use crate::mode::Mode;
use crate::version::Version;
use crate::version::VersionView;
use crate::version::VersionRange;
use crate::version::spec_default_version;
use crate::version::default_version;
use crate::version::version_of;
use crate::version::requirement_ok;
use crate::version::parse_version_str;

verus! {

/// A supplementary documentation link of a package: a display title paired
/// with an href.
#[derive(Debug, Clone, PartialEq, Eq)]
pub struct Link {
    pub title: String,
    pub href: String,
}

/// The mathematical value of a [`Link`].
pub struct LinkView {
    pub title: Seq<char>,
    pub href: Seq<char>,
}

impl View for Link {
    type V = LinkView;

    open spec fn view(&self) -> LinkView {
        LinkView { title: self.title@, href: self.href@ }
    }
}

/// One documentation page of a package: a title, the path it is served
/// under, and the source file it is built from.
#[derive(Debug, Clone, PartialEq, Eq)]
pub struct DocsPage {
    pub title: String,
    pub path: String,
    pub source: String,
}

/// The mathematical value of a [`DocsPage`].
pub struct DocsPageView {
    pub title: Seq<char>,
    pub path: Seq<char>,
    pub source: Seq<char>,
}

impl View for DocsPage {
    type V = DocsPageView;

    open spec fn view(&self) -> DocsPageView {
        DocsPageView { title: self.title@, path: self.path@, source: self.source@ }
    }
}

/// The documentation descriptor of a package: its pages, in order.
#[derive(Debug, Clone, PartialEq, Eq)]
pub struct Docs {
    pub pages: Vec<DocsPage>,
}

/// The mathematical value of a [`Docs`].
pub struct DocsView {
    pub pages: Seq<DocsPageView>,
}

impl View for Docs {
    type V = DocsView;

    open spec fn view(&self) -> DocsView {
        DocsView { pages: Seq::new(self.pages@.len(), |i: int| self.pages@[i]@) }
    }
}

impl Default for Docs {
    /// An empty documentation descriptor: no pages.
    fn default() -> (d: Docs)
        ensures
            d@.pages =~= Seq::<DocsPageView>::empty(),
    {
        Docs { pages: Vec::new() }
    }
}

/// The Erlang-specific configuration of a package: an optional override of
/// the OTP application start module.
#[derive(Debug, Clone, PartialEq, Eq)]
pub struct ErlangConfig {
    pub otp_start_module: Option<String>,
}

/// The mathematical value of an [`ErlangConfig`].
pub struct ErlangConfigView {
    pub otp_start_module: Option<Seq<char>>,
}

impl View for ErlangConfig {
    type V = ErlangConfigView;

    open spec fn view(&self) -> ErlangConfigView {
        ErlangConfigView {
            otp_start_module: match &self.otp_start_module {
                Some(s) => Some(s@),
                None => None,
            },
        }
    }
}

impl Default for ErlangConfig {
    /// An empty Erlang configuration: no start-module override.
    fn default() -> (c: ErlangConfig)
        ensures
            c@.otp_start_module is None,
    {
        ErlangConfig { otp_start_module: None }
    }
}

/// Where a package's source code is hosted: one of the known forges with a
/// user and repository name, a custom URL, or nowhere.
#[derive(Debug, Clone, PartialEq, Eq)]
pub enum Repository {
    GitHub { user: String, repo: String },
    GitLab { user: String, repo: String },
    BitBucket { user: String, repo: String },
    Custom { url: String },
    Nowhere,
}

/// The mathematical value of a [`Repository`].
pub enum RepositoryView {
    GitHub { user: Seq<char>, repo: Seq<char> },
    GitLab { user: Seq<char>, repo: Seq<char> },
    BitBucket { user: Seq<char>, repo: Seq<char> },
    Custom { url: Seq<char> },
    Nowhere,
}

impl View for Repository {
    type V = RepositoryView;

    open spec fn view(&self) -> RepositoryView {
        match self {
            Repository::GitHub { user, repo } => RepositoryView::GitHub {
                user: user@,
                repo: repo@,
            },
            Repository::GitLab { user, repo } => RepositoryView::GitLab {
                user: user@,
                repo: repo@,
            },
            Repository::BitBucket { user, repo } => RepositoryView::BitBucket {
                user: user@,
                repo: repo@,
            },
            Repository::Custom { url } => RepositoryView::Custom { url: url@ },
            Repository::Nowhere => RepositoryView::Nowhere,
        }
    }
}

impl Default for Repository {
    /// A manifest that names no repository hosts it nowhere.
    fn default() -> (r: Repository)
        ensures
            r@ == RepositoryView::Nowhere,
    {
        Repository::Nowhere
    }
}

/// The canonical URL a repository is reached under, as a function of the
/// repository value alone: forge host plus user and repository name for the
/// known forges, the stored URL unchanged for a custom repository, and
/// nothing where the package is hosted nowhere.
pub open spec fn spec_url(r: RepositoryView) -> Option<Seq<char>> {
    match r {
        RepositoryView::GitHub { user, repo } => Some(
            "https://github.com/"@ + user + "/"@ + repo,
        ),
        RepositoryView::GitLab { user, repo } => Some(
            "https://gitlab.com/"@ + user + "/"@ + repo,
        ),
        RepositoryView::BitBucket { user, repo } => Some(
            "https://bitbucket.com/"@ + user + "/"@ + repo,
        ),
        RepositoryView::Custom { url } => Some(url),
        RepositoryView::Nowhere => None,
    }
}

/// `<prefix><user>/<repo>`.
fn forge_url(prefix: &str, user: &String, repo: &String) -> (s: String)
    ensures
        s@ == prefix@ + user@ + "/"@ + repo@,
{
    let mut s = String::from_str(prefix);
    s.append(user.as_str());
    s.append("/");
    s.append(repo.as_str());
    s
}

impl Repository {
    /// Derive the canonical URL of the repository, exhaustively over the
    /// five variants.
    pub fn url(&self) -> (r: Option<String>)
        ensures
            match r {
                Some(u) => spec_url(self@) == Some(u@),
                None => spec_url(self@) is None,
            },
    {
        match self {
            Repository::GitHub { user, repo } => Some(forge_url("https://github.com/", user, repo)),
            Repository::GitLab { user, repo } => Some(forge_url("https://gitlab.com/", user, repo)),
            Repository::BitBucket { user, repo } => Some(
                forge_url("https://bitbucket.com/", user, repo),
            ),
            Repository::Custom { url } => Some(url.clone()),
            Repository::Nowhere => None,
        }
    }
}

/// The declared dependencies of one kind for a package: names paired with
/// the version requirement each must satisfy, in the order the parsing
/// layer hands them over (a parsed table arrives with its keys sorted). The
/// parsing layer yields each name at most once, since the source document
/// is a table; [`Dependencies::wf`] states that uniqueness.
#[derive(Debug, Clone, PartialEq, Eq)]
pub struct Dependencies {
    pub entries: Vec<(String, VersionRange)>,
}

impl View for Dependencies {
    type V = Seq<(Seq<char>, Seq<char>)>;

    open spec fn view(&self) -> Seq<(Seq<char>, Seq<char>)> {
        Seq::new(self.entries@.len(), |i: int| (self.entries@[i].0@, self.entries@[i].1@))
    }
}

impl Default for Dependencies {
    /// No dependencies declared.
    fn default() -> (d: Dependencies)
        ensures
            d@ =~= Seq::<(Seq<char>, Seq<char>)>::empty(),
    {
        Dependencies { entries: Vec::new() }
    }
}

impl Dependencies {
    /// Well-formed: no name is declared twice within this one set, as holds
    /// of every set read from a manifest, whose source is a table.
    pub open spec fn wf(&self) -> bool {
        no_dup_keys(self@)
    }

    /// How many dependencies are declared.
    pub fn len(&self) -> (n: usize)
        ensures
            n == self@.len(),
    {
        self.entries.len()
    }

    /// The requirement declared for a name, or nothing where the name is not
    /// declared.
    pub fn get(&self, name: &String) -> (r: Option<&VersionRange>)
        ensures
            match r {
                Some(v) => lookup(self@, name@) == Some(v@),
                None => lookup(self@, name@) is None,
            },
    {
        let mut i: usize = 0;
        while i < self.entries.len()
            invariant
                0 <= i <= self.entries.len(),
                forall|j: int| 0 <= j < i ==> self@[j].0 != name@,
            decreases self.entries.len() - i,
        {
            if self.entries[i].0 == *name {
                proof {
                    lemma_lookup_at(self@, name@, i as int);
                }
                return Some(&self.entries[i].1);
            }
            i += 1;
        }
        proof {
            lemma_lookup_none(self@, name@);
        }
        None
    }

    /// Whether a requirement is declared for the name.
    pub fn contains_key(&self, name: &String) -> (r: bool)
        ensures
            r == (lookup(self@, name@) is Some),
    {
        self.get(name).is_some()
    }
}

// The manifest schema, field by field, as functions of the parsed document.
// Each field has an `_ok` spec function saying when its value in the
// document is acceptable, and a `_val` spec function giving the parsed
// value, with the field's default where the document does not name it.

/// A required string field: present and a string.
pub open spec fn req_string_ok(t: Seq<(Seq<char>, DocView)>, key: Seq<char>) -> bool {
    lookup(t, key) matches Some(v) && v is Str
}

/// The value of a required string field.
pub open spec fn req_string_val(t: Seq<(Seq<char>, DocView)>, key: Seq<char>) -> Seq<char> {
    lookup(t, key)->0.chars()
}

/// An optional string field: absent, or a string.
pub open spec fn opt_string_ok(t: Seq<(Seq<char>, DocView)>, key: Seq<char>) -> bool {
    match lookup(t, key) {
        Option::Some(v) => v is Str,
        Option::None => true,
    }
}

/// The value of an optional string field, where one is present.
pub open spec fn opt_string_val(t: Seq<(Seq<char>, DocView)>, key: Seq<char>) -> Option<
    Seq<char>,
> {
    match lookup(t, key) {
        Option::Some(v) => Option::Some(v.chars()),
        Option::None => Option::None,
    }
}

/// The value of an optional string field, defaulting to the empty string.
pub open spec fn opt_string_or_empty(t: Seq<(Seq<char>, DocView)>, key: Seq<char>) -> Seq<char> {
    match opt_string_val(t, key) {
        Option::Some(s) => s,
        Option::None => Seq::empty(),
    }
}

/// The `version` field: absent (the default applies), or a string that
/// parses as a semantic version.
pub open spec fn version_field_ok(t: Seq<(Seq<char>, DocView)>) -> bool {
    match lookup(t, "version"@) {
        Option::Some(v) => v is Str && version_of(v.chars()) is Some,
        Option::None => true,
    }
}

/// The parsed `version` field, `0.1.0` where the document names none.
pub open spec fn version_field_val(t: Seq<(Seq<char>, DocView)>) -> VersionView {
    match lookup(t, "version"@) {
        Option::Some(v) => version_of(v.chars())->0,
        Option::None => spec_default_version(),
    }
}

/// Whether every item of an array is a string.
pub open spec fn all_strings(items: Seq<DocView>) -> bool {
    forall|i: int| 0 <= i < items.len() ==> items[i] is Str
}

/// The strings of an array of strings.
pub open spec fn strings_of(items: Seq<DocView>) -> Seq<Seq<char>> {
    Seq::new(items.len(), |i: int| items[i].chars())
}

/// The entry the licence list is read from: the `licences` key, or failing
/// that its accepted alias `licenses`.
pub open spec fn licences_entry(t: Seq<(Seq<char>, DocView)>) -> Option<DocView> {
    if has_key(t, "licences"@) {
        lookup(t, "licences"@)
    } else {
        lookup(t, "licenses"@)
    }
}

/// The licence field: at most one of the two accepted spellings, holding an
/// array of strings. Both spellings at once name the same attribute twice,
/// which is a duplicate field and rejected.
pub open spec fn licences_field_ok(t: Seq<(Seq<char>, DocView)>) -> bool {
    &&& !(has_key(t, "licences"@) && has_key(t, "licenses"@))
    &&& match licences_entry(t) {
        Option::Some(v) => v is Arr && all_strings(v.items()),
        Option::None => true,
    }
}

/// The licence list, empty where neither spelling is present.
pub open spec fn licences_field_val(t: Seq<(Seq<char>, DocView)>) -> Seq<Seq<char>> {
    match licences_entry(t) {
        Option::Some(v) => strings_of(v.items()),
        Option::None => Seq::empty(),
    }
}

/// A dependency table: every value is a string that is a valid version
/// requirement.
pub open spec fn dep_table_ok(es: Seq<(Seq<char>, DocView)>) -> bool {
    forall|i: int| 0 <= i < es.len() ==> es[i].1 is Str && requirement_ok(es[i].1.chars())
}

/// The dependency pairs of a dependency table, in document order.
pub open spec fn deps_of(es: Seq<(Seq<char>, DocView)>) -> Seq<(Seq<char>, Seq<char>)> {
    Seq::new(es.len(), |i: int| (es[i].0, es[i].1.chars()))
}

/// A dependency field (`dependencies` or `dev-dependencies`): absent, or a
/// table of valid requirements.
pub open spec fn deps_field_ok(t: Seq<(Seq<char>, DocView)>, key: Seq<char>) -> bool {
    match lookup(t, key) {
        Option::Some(v) => v is Table && dep_table_ok(v.entries()),
        Option::None => true,
    }
}

/// The declared dependency pairs of a dependency field, none where it is
/// absent.
pub open spec fn deps_field_val(t: Seq<(Seq<char>, DocView)>, key: Seq<char>) -> Seq<
    (Seq<char>, Seq<char>),
> {
    match lookup(t, key) {
        Option::Some(v) => deps_of(v.entries()),
        Option::None => Seq::empty(),
    }
}

/// A documentation page: a table with `title`, `path` and `source` strings.
pub open spec fn page_ok(d: DocView) -> bool {
    &&& d is Table
    &&& req_string_ok(d.entries(), "title"@)
    &&& req_string_ok(d.entries(), "path"@)
    &&& req_string_ok(d.entries(), "source"@)
}

/// The parsed documentation page of a page table.
pub open spec fn page_of(d: DocView) -> DocsPageView {
    DocsPageView {
        title: req_string_val(d.entries(), "title"@),
        path: req_string_val(d.entries(), "path"@),
        source: req_string_val(d.entries(), "source"@),
    }
}

/// Whether every item of a page array is a well-formed page.
pub open spec fn pages_ok(items: Seq<DocView>) -> bool {
    forall|i: int| 0 <= i < items.len() ==> page_ok(items[i])
}

/// The parsed pages of a page array.
pub open spec fn pages_of(items: Seq<DocView>) -> Seq<DocsPageView> {
    Seq::new(items.len(), |i: int| page_of(items[i]))
}

/// The `docs` field: absent, or a table whose `pages` key, where present,
/// is an array of well-formed pages.
pub open spec fn docs_field_ok(t: Seq<(Seq<char>, DocView)>) -> bool {
    match lookup(t, "docs"@) {
        Option::Some(d) => d is Table && match lookup(d.entries(), "pages"@) {
            Option::Some(p) => p is Arr && pages_ok(p.items()),
            Option::None => true,
        },
        Option::None => true,
    }
}

/// The parsed documentation descriptor, empty where absent.
pub open spec fn docs_field_val(t: Seq<(Seq<char>, DocView)>) -> DocsView {
    match lookup(t, "docs"@) {
        Option::Some(d) => match lookup(d.entries(), "pages"@) {
            Option::Some(p) => DocsView { pages: pages_of(p.items()) },
            Option::None => DocsView { pages: Seq::empty() },
        },
        Option::None => DocsView { pages: Seq::empty() },
    }
}

/// A link: a table with `title` and `href` strings.
pub open spec fn link_ok(d: DocView) -> bool {
    &&& d is Table
    &&& req_string_ok(d.entries(), "title"@)
    &&& req_string_ok(d.entries(), "href"@)
}

/// The parsed link of a link table.
pub open spec fn link_of(d: DocView) -> LinkView {
    LinkView {
        title: req_string_val(d.entries(), "title"@),
        href: req_string_val(d.entries(), "href"@),
    }
}

/// Whether every item of a link array is a well-formed link.
pub open spec fn links_items_ok(items: Seq<DocView>) -> bool {
    forall|i: int| 0 <= i < items.len() ==> link_ok(items[i])
}

/// The parsed links of a link array.
pub open spec fn links_of(items: Seq<DocView>) -> Seq<LinkView> {
    Seq::new(items.len(), |i: int| link_of(items[i]))
}

/// The `links` field: absent, or an array of well-formed links.
pub open spec fn links_field_ok(t: Seq<(Seq<char>, DocView)>) -> bool {
    match lookup(t, "links"@) {
        Option::Some(v) => v is Arr && links_items_ok(v.items()),
        Option::None => true,
    }
}

/// The parsed link list, empty where absent.
pub open spec fn links_field_val(t: Seq<(Seq<char>, DocView)>) -> Seq<LinkView> {
    match lookup(t, "links"@) {
        Option::Some(v) => links_of(v.items()),
        Option::None => Seq::empty(),
    }
}

/// A repository table: a `type` tag naming one of the five variants, with
/// `user` and `repo` strings for the forges and a `url` string for a custom
/// repository.
pub open spec fn repo_table_ok(es: Seq<(Seq<char>, DocView)>) -> bool {
    req_string_ok(es, "type"@) && {
        let tag = req_string_val(es, "type"@);
        if tag == "github"@ || tag == "gitlab"@ || tag == "bitbucket"@ {
            req_string_ok(es, "user"@) && req_string_ok(es, "repo"@)
        } else if tag == "custom"@ {
            req_string_ok(es, "url"@)
        } else {
            tag == "none"@
        }
    }
}

/// The parsed repository of a repository table.
pub open spec fn repo_table_val(es: Seq<(Seq<char>, DocView)>) -> RepositoryView {
    let tag = req_string_val(es, "type"@);
    if tag == "github"@ {
        RepositoryView::GitHub {
            user: req_string_val(es, "user"@),
            repo: req_string_val(es, "repo"@),
        }
    } else if tag == "gitlab"@ {
        RepositoryView::GitLab {
            user: req_string_val(es, "user"@),
            repo: req_string_val(es, "repo"@),
        }
    } else if tag == "bitbucket"@ {
        RepositoryView::BitBucket {
            user: req_string_val(es, "user"@),
            repo: req_string_val(es, "repo"@),
        }
    } else if tag == "custom"@ {
        RepositoryView::Custom { url: req_string_val(es, "url"@) }
    } else {
        RepositoryView::Nowhere
    }
}

/// The `repository` field: absent, or a well-formed repository table.
pub open spec fn repo_field_ok(t: Seq<(Seq<char>, DocView)>) -> bool {
    match lookup(t, "repository"@) {
        Option::Some(d) => d is Table && repo_table_ok(d.entries()),
        Option::None => true,
    }
}

/// The parsed repository, none where absent.
pub open spec fn repo_field_val(t: Seq<(Seq<char>, DocView)>) -> RepositoryView {
    match lookup(t, "repository"@) {
        Option::Some(d) => repo_table_val(d.entries()),
        Option::None => RepositoryView::Nowhere,
    }
}

/// The `erlang` field: absent, or a table whose start-module key, where
/// present, is a string.
pub open spec fn erlang_field_ok(t: Seq<(Seq<char>, DocView)>) -> bool {
    match lookup(t, "erlang"@) {
        Option::Some(d) => d is Table && opt_string_ok(
            d.entries(),
            "otp-application-start-module"@,
        ),
        Option::None => true,
    }
}

/// The parsed Erlang configuration, empty where absent.
pub open spec fn erlang_field_val(t: Seq<(Seq<char>, DocView)>) -> ErlangConfigView {
    match lookup(t, "erlang"@) {
        Option::Some(d) => ErlangConfigView {
            otp_start_module: opt_string_val(d.entries(), "otp-application-start-module"@),
        },
        Option::None => ErlangConfigView { otp_start_module: Option::None },
    }
}

/// Whether a parsed document is a valid manifest: a table whose fields all
/// meet the schema. Keys the schema does not know are ignored.
pub open spec fn config_ok(doc: DocView) -> bool {
    doc is Table && {
        let t = doc.entries();
        &&& req_string_ok(t, "name"@)
        &&& version_field_ok(t)
        &&& licences_field_ok(t)
        &&& opt_string_ok(t, "description"@)
        &&& docs_field_ok(t)
        &&& deps_field_ok(t, "dependencies"@)
        &&& deps_field_ok(t, "dev-dependencies"@)
        &&& repo_field_ok(t)
        &&& links_field_ok(t)
        &&& erlang_field_ok(t)
    }
}

/// The configuration a valid manifest parses to, field by field, with the
/// documented default for every absent optional field.
pub open spec fn spec_config(doc: DocView) -> ConfigView {
    let t = doc.entries();
    ConfigView {
        name: req_string_val(t, "name"@),
        version: version_field_val(t),
        licences: licences_field_val(t),
        description: opt_string_or_empty(t, "description"@),
        docs: docs_field_val(t),
        dependencies: deps_field_val(t, "dependencies"@),
        dev_dependencies: deps_field_val(t, "dev-dependencies"@),
        repository: repo_field_val(t),
        links: links_field_val(t),
        erlang: erlang_field_val(t),
    }
}

/// The root configuration of one package, as read from its manifest.
#[derive(Debug, Clone, PartialEq, Eq)]
pub struct PackageConfig {
    pub name: String,
    pub version: Version,
    pub licences: Vec<String>,
    pub description: String,
    pub docs: Docs,
    pub dependencies: Dependencies,
    pub dev_dependencies: Dependencies,
    pub repository: Repository,
    pub links: Vec<Link>,
    pub erlang: ErlangConfig,
}

/// The mathematical value of a [`PackageConfig`].
pub struct ConfigView {
    pub name: Seq<char>,
    pub version: VersionView,
    pub licences: Seq<Seq<char>>,
    pub description: Seq<char>,
    pub docs: DocsView,
    pub dependencies: Seq<(Seq<char>, Seq<char>)>,
    pub dev_dependencies: Seq<(Seq<char>, Seq<char>)>,
    pub repository: RepositoryView,
    pub links: Seq<LinkView>,
    pub erlang: ErlangConfigView,
}

impl View for PackageConfig {
    type V = ConfigView;

    open spec fn view(&self) -> ConfigView {
        ConfigView {
            name: self.name@,
            version: self.version@,
            licences: Seq::new(self.licences@.len(), |i: int| self.licences@[i]@),
            description: self.description@,
            docs: self.docs@,
            dependencies: self.dependencies@,
            dev_dependencies: self.dev_dependencies@,
            repository: self.repository@,
            links: Seq::new(self.links@.len(), |i: int| self.links@[i]@),
            erlang: self.erlang@,
        }
    }
}

/// The configuration of a package about which the manifest says nothing
/// beyond existing: empty name, version `0.1.0`, and every other field at
/// its documented default.
pub open spec fn spec_default_config() -> ConfigView {
    ConfigView {
        name: Seq::empty(),
        version: spec_default_version(),
        licences: Seq::empty(),
        description: Seq::empty(),
        docs: DocsView { pages: Seq::empty() },
        dependencies: Seq::empty(),
        dev_dependencies: Seq::empty(),
        repository: RepositoryView::Nowhere,
        links: Seq::empty(),
        erlang: ErlangConfigView { otp_start_module: Option::None },
    }
}

impl Default for PackageConfig {
    /// Every field at its documented default.
    fn default() -> (c: PackageConfig)
        ensures
            c@ == spec_default_config(),
    {
        let c = PackageConfig {
            name: String::new(),
            version: default_version(),
            licences: Vec::new(),
            description: String::new(),
            docs: Docs { pages: Vec::new() },
            dependencies: Dependencies { entries: Vec::new() },
            dev_dependencies: Dependencies { entries: Vec::new() },
            repository: Repository::Nowhere,
            links: Vec::new(),
            erlang: ErlangConfig { otp_start_module: None },
        };
        proof {
            assert(c@.licences =~= spec_default_config().licences);
            assert(c@.docs.pages =~= spec_default_config().docs.pages);
            assert(c@.dependencies =~= spec_default_config().dependencies);
            assert(c@.dev_dependencies =~= spec_default_config().dev_dependencies);
            assert(c@.links =~= spec_default_config().links);
        }
        c
    }
}

// Reading the schema off a document: one executable helper per field, each
// proved against the field's `_ok` and `_val` spec functions above.

/// A cause message naming a missing or ill-shaped field.
fn bad_field(key: &str) -> (m: String) {
    let mut m = String::from_str("invalid manifest: missing or ill-shaped field `");
    m.append(key);
    m.append("`");
    m
}

/// Look a key up among a table's entries.
fn field<'a>(es: &'a Vec<(String, TomlValue)>, key: &str) -> (r: Option<&'a TomlValue>)
    ensures
        match r {
            Some(v) => lookup(entries_view(es@), key@) == Some(v@),
            None => lookup(entries_view(es@), key@) is None,
        },
{
    table_get(es, &String::from_str(key))
}

/// Read a required string field.
fn req_string(es: &Vec<(String, TomlValue)>, key: &str) -> (r: Result<String, String>)
    ensures
        r is Ok <==> req_string_ok(entries_view(es@), key@),
        r matches Ok(s) ==> s@ == req_string_val(entries_view(es@), key@),
{
    match field(es, key) {
        Some(v) => match v {
            TomlValue::Str(s) => Ok(s.clone()),
            _ => Err(bad_field(key)),
        },
        None => Err(bad_field(key)),
    }
}

/// Read an optional string field.
fn opt_string(es: &Vec<(String, TomlValue)>, key: &str) -> (r: Result<Option<String>, String>)
    ensures
        r is Ok <==> opt_string_ok(entries_view(es@), key@),
        r matches Ok(o) ==> match o {
            Some(s) => opt_string_val(entries_view(es@), key@) == Some(s@),
            None => opt_string_val(entries_view(es@), key@) is None,
        },
{
    match field(es, key) {
        Some(v) => match v {
            TomlValue::Str(s) => Ok(Some(s.clone())),
            _ => Err(bad_field(key)),
        },
        None => Ok(None),
    }
}

/// Read the `version` field, defaulting to `0.1.0`.
fn version_field(es: &Vec<(String, TomlValue)>) -> (r: Result<Version, String>)
    ensures
        r is Ok <==> version_field_ok(entries_view(es@)),
        r matches Ok(v) ==> v@ == version_field_val(entries_view(es@)),
{
    match field(es, "version") {
        None => Ok(default_version()),
        Some(v) => match v {
            TomlValue::Str(s) => match parse_version_str(s.as_str()) {
                Some(ver) => Ok(ver),
                None => Err(bad_field("version")),
            },
            _ => Err(bad_field("version")),
        },
    }
}

/// Read an array of strings.
fn string_items(items: &Vec<TomlValue>) -> (r: Result<Vec<String>, String>)
    ensures
        r is Ok <==> all_strings(values_view(items@)),
        r matches Ok(v) ==> Seq::new(v@.len(), |i: int| v@[i]@) == strings_of(values_view(items@)),
{
    proof {
        lemma_values_view(items@);
    }
    let ghost vs = values_view(items@);
    let mut out: Vec<String> = Vec::new();
    let mut i: usize = 0;
    while i < items.len()
        invariant
            0 <= i <= items.len(),
            vs == values_view(items@),
            vs.len() == items@.len(),
            forall|j: int| 0 <= j < vs.len() ==> vs[j] == value_view(items@[j]),
            out@.len() == i,
            forall|j: int| 0 <= j < i ==> vs[j] is Str && out@[j]@ == vs[j].chars(),
        decreases items.len() - i,
    {
        match &items[i] {
            TomlValue::Str(s) => {
                out.push(s.clone());
            }
            _ => {
                proof {
                    assert(!(vs[i as int] is Str));
                    assert(!all_strings(vs));
                }
                return Err(String::from_str("invalid manifest: expected a list of strings"));
            }
        }
        i += 1;
    }
    proof {
        assert(Seq::new(out@.len(), |j: int| out@[j]@) =~= strings_of(vs));
    }
    Ok(out)
}

/// Read the licence list, under whichever of its two accepted spellings the
/// document uses.
fn licences_field(es: &Vec<(String, TomlValue)>) -> (r: Result<Vec<String>, String>)
    ensures
        r is Ok <==> licences_field_ok(entries_view(es@)),
        r matches Ok(v) ==> Seq::new(v@.len(), |i: int| v@[i]@) == licences_field_val(
            entries_view(es@),
        ),
{
    let has_ae = field(es, "licences").is_some();
    let has_e = field(es, "licenses").is_some();
    if has_ae && has_e {
        return Err(String::from_str("invalid manifest: duplicate field `licences`"));
    }
    let entry = if has_ae {
        field(es, "licences")
    } else {
        field(es, "licenses")
    };
    match entry {
        None => {
            let v: Vec<String> = Vec::new();
            proof {
                assert(Seq::new(v@.len(), |i: int| v@[i]@) =~= Seq::<Seq<char>>::empty());
            }
            Ok(v)
        }
        Some(v) => match v {
            TomlValue::Array(items) => string_items(items),
            _ => Err(bad_field("licences")),
        },
    }
}

/// A cause message naming a dependency with an invalid requirement.
fn bad_requirement(name: &String) -> (m: String) {
    let mut m = String::from_str("invalid manifest: dependency `");
    m.append(name.as_str());
    m.append("` has an invalid version requirement");
    m
}

/// Read one dependency table: every value must be a valid requirement.
fn dep_entries(dt: &Vec<(String, TomlValue)>) -> (r: Result<Dependencies, String>)
    ensures
        r is Ok <==> dep_table_ok(entries_view(dt@)),
        r matches Ok(d) ==> d@ == deps_of(entries_view(dt@)),
        r matches Ok(d) ==> distinct_keys(entries_view(dt@)) ==> d.wf(),
{
    proof {
        lemma_entries_view(dt@);
    }
    let ghost t = entries_view(dt@);
    let mut out: Vec<(String, VersionRange)> = Vec::new();
    let mut i: usize = 0;
    while i < dt.len()
        invariant
            0 <= i <= dt.len(),
            t == entries_view(dt@),
            t.len() == dt@.len(),
            forall|j: int| 0 <= j < t.len() ==> t[j] == (dt@[j].0@, value_view(dt@[j].1)),
            out@.len() == i,
            forall|j: int| 0 <= j < i ==> t[j].1 is Str && requirement_ok(t[j].1.chars()),
            forall|j: int| 0 <= j < i ==> (out@[j].0@, out@[j].1@) == (t[j].0, t[j].1.chars()),
        decreases dt.len() - i,
    {
        match &dt[i].1 {
            TomlValue::Str(s) => match VersionRange::new(s.as_str()) {
                Some(vr) => {
                    out.push((dt[i].0.clone(), vr));
                }
                None => {
                    proof {
                        assert(t[i as int].1.chars() == s@);
                        assert(!(t[i as int].1 is Str && requirement_ok(t[i as int].1.chars())));
                        assert(!dep_table_ok(t));
                    }
                    return Err(bad_requirement(&dt[i].0));
                }
            },
            _ => {
                proof {
                    assert(!(t[i as int].1 is Str));
                    assert(!dep_table_ok(t));
                }
                return Err(bad_requirement(&dt[i].0));
            }
        }
        i += 1;
    }
    let d = Dependencies { entries: out };
    proof {
        assert(d@ =~= deps_of(t));
        if distinct_keys(t) {
            assert forall|i: int| 0 <= i < d@.len() implies !dup_at(d@, i) by {
                if dup_at(d@, i) {
                    let j = choose|j: int| 0 <= j < i && d@[j].0 == d@[i].0;
                    assert(t[j].0 == t[i].0);
                    assert(false);
                }
            }
        }
    }
    Ok(d)
}

/// Whether a dependency field's table, where the field is present, maps
/// distinct keys.
pub open spec fn dep_field_distinct(t: Seq<(Seq<char>, DocView)>, key: Seq<char>) -> bool {
    match lookup(t, key) {
        Option::Some(v) => v is Table ==> distinct_keys(v.entries()),
        Option::None => true,
    }
}

/// Read a dependency field (`dependencies` or `dev-dependencies`).
fn deps_field(es: &Vec<(String, TomlValue)>, key: &str) -> (r: Result<Dependencies, String>)
    ensures
        r is Ok <==> deps_field_ok(entries_view(es@), key@),
        r matches Ok(d) ==> d@ == deps_field_val(entries_view(es@), key@),
        r matches Ok(d) ==> dep_field_distinct(entries_view(es@), key@) ==> d.wf(),
{
    match field(es, key) {
        None => {
            let d = Dependencies { entries: Vec::new() };
            proof {
                assert(d@ =~= Seq::<(Seq<char>, Seq<char>)>::empty());
            }
            Ok(d)
        }
        Some(v) => match v {
            TomlValue::Table(dt) => dep_entries(dt),
            _ => Err(bad_field(key)),
        },
    }
}

/// Read an array of documentation pages.
fn pages_items(items: &Vec<TomlValue>) -> (r: Result<Vec<DocsPage>, String>)
    ensures
        r is Ok <==> pages_ok(values_view(items@)),
        r matches Ok(v) ==> Seq::new(v@.len(), |i: int| v@[i]@) == pages_of(values_view(items@)),
{
    proof {
        lemma_values_view(items@);
    }
    let ghost vs = values_view(items@);
    let mut out: Vec<DocsPage> = Vec::new();
    let mut i: usize = 0;
    while i < items.len()
        invariant
            0 <= i <= items.len(),
            vs == values_view(items@),
            vs.len() == items@.len(),
            forall|j: int| 0 <= j < vs.len() ==> vs[j] == value_view(items@[j]),
            out@.len() == i,
            forall|j: int| 0 <= j < i ==> page_ok(vs[j]) && out@[j]@ == page_of(vs[j]),
        decreases items.len() - i,
    {
        match &items[i] {
            TomlValue::Table(pes) => {
                proof {
                    assert(vs[i as int].entries() == entries_view(pes@));
                }
                let title = match req_string(pes, "title") {
                    Ok(s) => s,
                    Err(e) => {
                        proof {
                            assert(!page_ok(vs[i as int]));
                            assert(!pages_ok(vs));
                        }
                        return Err(e);
                    }
                };
                let path = match req_string(pes, "path") {
                    Ok(s) => s,
                    Err(e) => {
                        proof {
                            assert(!page_ok(vs[i as int]));
                            assert(!pages_ok(vs));
                        }
                        return Err(e);
                    }
                };
                let source = match req_string(pes, "source") {
                    Ok(s) => s,
                    Err(e) => {
                        proof {
                            assert(!page_ok(vs[i as int]));
                            assert(!pages_ok(vs));
                        }
                        return Err(e);
                    }
                };
                out.push(DocsPage { title, path, source });
            }
            _ => {
                proof {
                    assert(!(vs[i as int] is Table));
                    assert(!pages_ok(vs));
                }
                return Err(bad_field("pages"));
            }
        }
        i += 1;
    }
    proof {
        assert(Seq::new(out@.len(), |j: int| out@[j]@) =~= pages_of(vs));
    }
    Ok(out)
}

/// Read the `docs` field.
fn docs_field(es: &Vec<(String, TomlValue)>) -> (r: Result<Docs, String>)
    ensures
        r is Ok <==> docs_field_ok(entries_view(es@)),
        r matches Ok(d) ==> d@ == docs_field_val(entries_view(es@)),
{
    match field(es, "docs") {
        None => {
            let d = Docs { pages: Vec::new() };
            proof {
                assert(d@.pages =~= Seq::<DocsPageView>::empty());
            }
            Ok(d)
        }
        Some(v) => match v {
            TomlValue::Table(ds) => match field(ds, "pages") {
                None => {
                    let d = Docs { pages: Vec::new() };
                    proof {
                        assert(d@.pages =~= Seq::<DocsPageView>::empty());
                    }
                    Ok(d)
                }
                Some(p) => match p {
                    TomlValue::Array(items) => match pages_items(items) {
                        Ok(pages) => {
                            let d = Docs { pages };
                            Ok(d)
                        }
                        Err(e) => Err(e),
                    },
                    _ => Err(bad_field("pages")),
                },
            },
            _ => Err(bad_field("docs")),
        },
    }
}

/// Read an array of links.
fn link_items(items: &Vec<TomlValue>) -> (r: Result<Vec<Link>, String>)
    ensures
        r is Ok <==> links_items_ok(values_view(items@)),
        r matches Ok(v) ==> Seq::new(v@.len(), |i: int| v@[i]@) == links_of(values_view(items@)),
{
    proof {
        lemma_values_view(items@);
    }
    let ghost vs = values_view(items@);
    let mut out: Vec<Link> = Vec::new();
    let mut i: usize = 0;
    while i < items.len()
        invariant
            0 <= i <= items.len(),
            vs == values_view(items@),
            vs.len() == items@.len(),
            forall|j: int| 0 <= j < vs.len() ==> vs[j] == value_view(items@[j]),
            out@.len() == i,
            forall|j: int| 0 <= j < i ==> link_ok(vs[j]) && out@[j]@ == link_of(vs[j]),
        decreases items.len() - i,
    {
        match &items[i] {
            TomlValue::Table(les) => {
                proof {
                    assert(vs[i as int].entries() == entries_view(les@));
                }
                let title = match req_string(les, "title") {
                    Ok(s) => s,
                    Err(e) => {
                        proof {
                            assert(!link_ok(vs[i as int]));
                            assert(!links_items_ok(vs));
                        }
                        return Err(e);
                    }
                };
                let href = match req_string(les, "href") {
                    Ok(s) => s,
                    Err(e) => {
                        proof {
                            assert(!link_ok(vs[i as int]));
                            assert(!links_items_ok(vs));
                        }
                        return Err(e);
                    }
                };
                out.push(Link { title, href });
            }
            _ => {
                proof {
                    assert(!(vs[i as int] is Table));
                    assert(!links_items_ok(vs));
                }
                return Err(bad_field("links"));
            }
        }
        i += 1;
    }
    proof {
        assert(Seq::new(out@.len(), |j: int| out@[j]@) =~= links_of(vs));
    }
    Ok(out)
}

/// Read the `links` field.
fn links_field(es: &Vec<(String, TomlValue)>) -> (r: Result<Vec<Link>, String>)
    ensures
        r is Ok <==> links_field_ok(entries_view(es@)),
        r matches Ok(v) ==> Seq::new(v@.len(), |i: int| v@[i]@) == links_field_val(
            entries_view(es@),
        ),
{
    match field(es, "links") {
        None => {
            let v: Vec<Link> = Vec::new();
            proof {
                assert(Seq::new(v@.len(), |i: int| v@[i]@) =~= Seq::<LinkView>::empty());
            }
            Ok(v)
        }
        Some(v) => match v {
            TomlValue::Array(items) => link_items(items),
            _ => Err(bad_field("links")),
        },
    }
}

/// Read the `repository` field.
fn repo_field(es: &Vec<(String, TomlValue)>) -> (r: Result<Repository, String>)
    ensures
        r is Ok <==> repo_field_ok(entries_view(es@)),
        r matches Ok(rep) ==> rep@ == repo_field_val(entries_view(es@)),
{
    match field(es, "repository") {
        None => Ok(Repository::Nowhere),
        Some(v) => match v {
            TomlValue::Table(rs) => {
                let tag = match req_string(rs, "type") {
                    Ok(s) => s,
                    Err(e) => return Err(e),
                };
                if tag == String::from_str("github") {
                    let user = match req_string(rs, "user") {
                        Ok(s) => s,
                        Err(e) => return Err(e),
                    };
                    let repo = match req_string(rs, "repo") {
                        Ok(s) => s,
                        Err(e) => return Err(e),
                    };
                    Ok(Repository::GitHub { user, repo })
                } else if tag == String::from_str("gitlab") {
                    let user = match req_string(rs, "user") {
                        Ok(s) => s,
                        Err(e) => return Err(e),
                    };
                    let repo = match req_string(rs, "repo") {
                        Ok(s) => s,
                        Err(e) => return Err(e),
                    };
                    Ok(Repository::GitLab { user, repo })
                } else if tag == String::from_str("bitbucket") {
                    let user = match req_string(rs, "user") {
                        Ok(s) => s,
                        Err(e) => return Err(e),
                    };
                    let repo = match req_string(rs, "repo") {
                        Ok(s) => s,
                        Err(e) => return Err(e),
                    };
                    Ok(Repository::BitBucket { user, repo })
                } else if tag == String::from_str("custom") {
                    let url = match req_string(rs, "url") {
                        Ok(s) => s,
                        Err(e) => return Err(e),
                    };
                    Ok(Repository::Custom { url })
                } else if tag == String::from_str("none") {
                    Ok(Repository::Nowhere)
                } else {
                    Err(bad_field("repository"))
                }
            }
            _ => Err(bad_field("repository")),
        },
    }
}

/// Read the `erlang` field.
fn erlang_field(es: &Vec<(String, TomlValue)>) -> (r: Result<ErlangConfig, String>)
    ensures
        r is Ok <==> erlang_field_ok(entries_view(es@)),
        r matches Ok(c) ==> c@ == erlang_field_val(entries_view(es@)),
{
    match field(es, "erlang") {
        None => Ok(ErlangConfig { otp_start_module: None }),
        Some(v) => match v {
            TomlValue::Table(ets) => match opt_string(ets, "otp-application-start-module") {
                Ok(o) => Ok(ErlangConfig { otp_start_module: o }),
                Err(e) => Err(e),
            },
            _ => Err(bad_field("erlang")),
        },
    }
}

impl PackageConfig {
    /// Apply the manifest schema to a parsed document: check every field's
    /// shape, apply the documented default to every absent optional field,
    /// and build the configuration. Fails with a cause message exactly where
    /// the document is not a valid manifest; nothing partial is ever
    /// returned.
    pub fn from_document(doc: &TomlValue) -> (r: Result<PackageConfig, String>)
        ensures
            r is Ok <==> config_ok(doc@),
            r matches Ok(c) ==> c@ == spec_config(doc@),
            r matches Ok(c) ==> tables_unique(doc@) ==> c.dependencies.wf()
                && c.dev_dependencies.wf(),
    {
        let es = match doc {
            TomlValue::Table(es) => es,
            _ => {
                return Err(String::from_str("invalid manifest: the document is not a table"));
            }
        };
        let name = match req_string(es, "name") {
            Ok(s) => s,
            Err(e) => return Err(e),
        };
        let version = match version_field(es) {
            Ok(v) => v,
            Err(e) => return Err(e),
        };
        let licences = match licences_field(es) {
            Ok(v) => v,
            Err(e) => return Err(e),
        };
        let description = match opt_string(es, "description") {
            Ok(Some(s)) => s,
            Ok(None) => String::new(),
            Err(e) => return Err(e),
        };
        let docs = match docs_field(es) {
            Ok(d) => d,
            Err(e) => return Err(e),
        };
        let dependencies = match deps_field(es, "dependencies") {
            Ok(d) => d,
            Err(e) => return Err(e),
        };
        let dev_dependencies = match deps_field(es, "dev-dependencies") {
            Ok(d) => d,
            Err(e) => return Err(e),
        };
        let repository = match repo_field(es) {
            Ok(rp) => rp,
            Err(e) => return Err(e),
        };
        let links = match links_field(es) {
            Ok(v) => v,
            Err(e) => return Err(e),
        };
        let erlang = match erlang_field(es) {
            Ok(c) => c,
            Err(e) => return Err(e),
        };
        let c = PackageConfig {
            name,
            version,
            licences,
            description,
            docs,
            dependencies,
            dev_dependencies,
            repository,
            links,
            erlang,
        };
        proof {
            if tables_unique(doc@) {
                let t = entries_view(es@);
                assert(doc@ == DocView::Table(t));
                assert(entries_tables_unique(t));
                if lookup(t, "dependencies"@) is Some {
                    lemma_lookup_is_entry(t, "dependencies"@);
                    let i = choose|i: int|
                        0 <= i < t.len() && t[i] == (
                        "dependencies"@,
                        lookup(t, "dependencies"@)->0,
                        );
                    lemma_entries_tables_unique_index(t, i);
                    assert(tables_unique(t[i].1));
                }
                if lookup(t, "dev-dependencies"@) is Some {
                    lemma_lookup_is_entry(t, "dev-dependencies"@);
                    let i = choose|i: int|
                        0 <= i < t.len() && t[i] == (
                        "dev-dependencies"@,
                        lookup(t, "dev-dependencies"@)->0,
                        );
                    lemma_entries_tables_unique_index(t, i);
                    assert(tables_unique(t[i].1));
                }
            }
        }
        Ok(c)
    }
}

// Deriving the working dependency set for a build mode.

/// Whether the entry at `i` repeats a key that appears earlier in the list.
pub open spec fn dup_at(c: Seq<(Seq<char>, Seq<char>)>, i: int) -> bool {
    exists|j: int| 0 <= j < i && c[j].0 == c[i].0
}

/// Whether all keys of the list are distinct.
pub open spec fn no_dup_keys(c: Seq<(Seq<char>, Seq<char>)>) -> bool {
    forall|i: int| 0 <= i < c.len() ==> !dup_at(c, i)
}

/// Whether a name is among the keys of the list.
pub open spec fn key_in(c: Seq<(Seq<char>, Seq<char>)>, name: Seq<char>) -> bool {
    exists|i: int| 0 <= i < c.len() && c[i].0 == name
}

/// What merging the two dependency sets returns: where no name repeats, the
/// runtime entries followed by the development entries; where one does, a
/// duplicate-dependency failure naming the first entry whose name was
/// already taken. The partially built result is discarded.
pub open spec fn merged_deps_post(
    deps: Seq<(Seq<char>, Seq<char>)>,
    dev: Seq<(Seq<char>, Seq<char>)>,
    r: Result<Dependencies, Error>,
) -> bool {
    let c = deps + dev;
    &&& (r is Ok <==> no_dup_keys(c))
    &&& (r matches Ok(d) ==> d@ == c)
    &&& (r matches Err(e) ==> e matches Error::DuplicateDependency(n) && exists|i: int|
        #![auto]
        0 <= i < c.len() && dup_at(c, i) && (forall|j: int| 0 <= j < i ==> !dup_at(c, j)) && n@
            == c[i].0)
}

/// Whether a name is a key of the accumulated entry list.
fn contains_entry(v: &Vec<(String, VersionRange)>, name: &String) -> (r: bool)
    ensures
        r == exists|j: int| 0 <= j < v@.len() && v@[j].0@ == name@,
{
    let mut i: usize = 0;
    while i < v.len()
        invariant
            0 <= i <= v.len(),
            forall|j: int| 0 <= j < i ==> v@[j].0@ != name@,
        decreases v.len() - i,
    {
        if v[i].0 == *name {
            proof {
                assert(v@[i as int].0@ == name@);
            }
            return true;
        }
        i += 1;
    }
    false
}

impl Dependencies {
    /// A copy with the same entries.
    pub fn duplicate(&self) -> (d: Dependencies)
        ensures
            d@ == self@,
    {
        let mut out: Vec<(String, VersionRange)> = Vec::new();
        let mut i: usize = 0;
        while i < self.entries.len()
            invariant
                0 <= i <= self.entries.len(),
                out@.len() == i,
                forall|j: int| 0 <= j < i ==> (out@[j].0@, out@[j].1@) == self@[j],
            decreases self.entries.len() - i,
        {
            out.push((self.entries[i].0.clone(), self.entries[i].1.duplicate()));
            i += 1;
        }
        let d = Dependencies { entries: out };
        proof {
            assert(d@ =~= self@);
        }
        d
    }
}

impl PackageConfig {
    /// The union of the runtime and the development dependency set: runtime
    /// entries first, then development entries, each name inserted once.
    /// Fails with the first name that repeats one already taken; names are
    /// unique within each set, so a failure is a name declared in both.
    pub fn all_dependencies(&self) -> (r: Result<Dependencies, Error>)
        ensures
            merged_deps_post(self.dependencies@, self.dev_dependencies@, r),
    {
        let ghost c = self.dependencies@ + self.dev_dependencies@;
        let n1 = self.dependencies.entries.len();
        let n2 = self.dev_dependencies.entries.len();
        let mut out: Vec<(String, VersionRange)> = Vec::new();
        let mut i: usize = 0;
        while i < n1
            invariant
                0 <= i <= n1,
                n1 == self.dependencies.entries.len(),
                n2 == self.dev_dependencies.entries.len(),
                c == self.dependencies@ + self.dev_dependencies@,
                c.len() == n1 + n2,
                forall|j: int| 0 <= j < n1 ==> c[j] == self.dependencies@[j],
                forall|j: int| 0 <= j < n2 ==> c[n1 + j] == self.dev_dependencies@[j],
                out@.len() == i,
                forall|j: int| 0 <= j < i ==> (out@[j].0@, out@[j].1@) == c[j],
                forall|j: int| 0 <= j < i ==> !dup_at(c, j),
            decreases n1 - i,
        {
            let name = &self.dependencies.entries[i].0;
            if contains_entry(&out, name) {
                proof {
                    assert(c[i as int].0 == name@);
                    let j = choose|j: int| 0 <= j < out@.len() && out@[j].0@ == name@;
                    assert(c[j].0 == c[i as int].0);
                    assert(dup_at(c, i as int));
                }
                return Err(Error::DuplicateDependency(name.clone()));
            }
            let vr = self.dependencies.entries[i].1.duplicate();
            out.push((name.clone(), vr));
            proof {
                assert(!dup_at(c, i as int));
            }
            i += 1;
        }
        let mut k: usize = 0;
        while k < n2
            invariant
                0 <= k <= n2,
                n1 == self.dependencies.entries.len(),
                n2 == self.dev_dependencies.entries.len(),
                c == self.dependencies@ + self.dev_dependencies@,
                c.len() == n1 + n2,
                forall|j: int| 0 <= j < n1 ==> c[j] == self.dependencies@[j],
                forall|j: int| 0 <= j < n2 ==> c[n1 + j] == self.dev_dependencies@[j],
                out@.len() == n1 + k,
                forall|j: int| 0 <= j < n1 + k ==> (out@[j].0@, out@[j].1@) == c[j],
                forall|j: int| 0 <= j < n1 + k ==> !dup_at(c, j),
            decreases n2 - k,
        {
            let name = &self.dev_dependencies.entries[k].0;
            if contains_entry(&out, name) {
                proof {
                    assert(c[n1 + k as int].0 == name@);
                    let j = choose|j: int| 0 <= j < out@.len() && out@[j].0@ == name@;
                    assert(c[j].0 == c[n1 + k as int].0);
                    assert(dup_at(c, n1 + k as int));
                }
                return Err(Error::DuplicateDependency(name.clone()));
            }
            let vr = self.dev_dependencies.entries[k].1.duplicate();
            out.push((name.clone(), vr));
            proof {
                assert(!dup_at(c, n1 + k as int));
            }
            k += 1;
        }
        let d = Dependencies { entries: out };
        proof {
            assert(d@ =~= c);
            assert(no_dup_keys(c));
        }
        Ok(d)
    }

    /// The dependency set that applies to a build mode: for a development
    /// build the union of the two sets, for a production build a copy of the
    /// runtime set alone, which cannot fail.
    pub fn dependencies_for(&self, mode: Mode) -> (r: Result<Dependencies, Error>)
        ensures
            match mode {
                Mode::Dev => merged_deps_post(self.dependencies@, self.dev_dependencies@, r),
                Mode::Prod => r matches Ok(d) && d@ == self.dependencies@,
            },
    {
        match mode {
            Mode::Dev => self.all_dependencies(),
            Mode::Prod => Ok(self.dependencies.duplicate()),
        }
    }
}

// Reading a manifest file.

/// The shape of a parse failure: a file-io error of the parse action on a
/// file at the offending path, with an underlying cause.
pub open spec fn parse_error_shape(e: Error, path: Seq<char>) -> bool {
    e matches Error::FileIo { action, kind, path: p, err } && action is Parse && kind is File
        && p@ == path && err is Some
}

impl PackageConfig {
    /// Parse a manifest text against the schema, attributing any failure to
    /// the file at `path`.
    pub fn from_toml_str(text: &str, path: &str) -> (r: Result<PackageConfig, Error>)
        ensures
            match toml_document(text@) {
                Option::Some(d) => {
                    &&& (r is Ok <==> config_ok(d))
                    &&& (r matches Ok(c) ==> c@ == spec_config(d))
                    &&& (r matches Ok(c) ==> c.dependencies.wf() && c.dev_dependencies.wf())
                    &&& (r matches Err(e) ==> parse_error_shape(e, path@))
                },
                Option::None => r matches Err(e) && parse_error_shape(e, path@),
            },
    {
        match parse_document(text) {
            Ok(doc) => match PackageConfig::from_document(&doc) {
                Ok(c) => Ok(c),
                Err(msg) => Err(Error::FileIo {
                    action: FileIoAction::Parse,
                    kind: FileKind::File,
                    path: path.to_owned(),
                    err: Some(msg),
                }),
            },
            Err(msg) => Err(Error::FileIo {
                action: FileIoAction::Parse,
                kind: FileKind::File,
                path: path.to_owned(),
                err: Some(msg),
            }),
        }
    }

    /// Read a manifest: obtain the file's text from the caller's reader,
    /// then parse it. A returned configuration is always the schema's parse
    /// of a well-formed document whose text the reader handed over; a
    /// failure is either a parse failure attributed to the file, or a
    /// failure the reader produced, handed back unchanged.
    pub fn read<FS: FileSystemReader>(path: &str, fs: &FS) -> (r: Result<PackageConfig, Error>)
        ensures
            r matches Ok(c) ==> exists|text: String|
                #![auto]
                call_ensures(FS::read, (fs, path), Result::<String, Error>::Ok(text))
                    && toml_document(text@) is Some && config_ok(toml_document(text@)->0) && c@
                    == spec_config(toml_document(text@)->0),
            r matches Err(e) ==> parse_error_shape(e, path@) || call_ensures(
                FS::read,
                (fs, path),
                Result::<String, Error>::Err(e),
            ),
            r matches Ok(c) ==> c.dependencies.wf() && c.dev_dependencies.wf(),
    {
        let text = match fs.read(path) {
            Ok(t) => t,
            Err(e) => return Err(e),
        };
        let r = Self::from_toml_str(text.as_str(), path);
        proof {
            if r is Ok {
                assert(toml_document(text@) is Some);
            }
        }
        r
    }
}

// Laws that hold across the functions above.

/// A valid manifest that names no version is parsed with version `0.1.0`.
pub proof fn lemma_missing_version_defaults(doc: DocView)
    requires
        config_ok(doc),
        !has_key(doc.entries(), "version"@),
    ensures
        spec_config(doc).version == spec_default_version(),
{
}

/// The two spellings of the licence field are accepted equivalently: two
/// documents carrying the same value, one under `licences` and one under
/// `licenses`, parse to the same licence list, and one is acceptable
/// exactly when the other is.
pub proof fn lemma_licence_alias(
    t1: Seq<(Seq<char>, DocView)>,
    t2: Seq<(Seq<char>, DocView)>,
    v: DocView,
)
    requires
        lookup(t1, "licences"@) == Some(v),
        !has_key(t1, "licenses"@),
        lookup(t2, "licenses"@) == Some(v),
        !has_key(t2, "licences"@),
    ensures
        licences_field_val(t1) == licences_field_val(t2),
        licences_field_ok(t1) == licences_field_ok(t2),
{
}

/// A name declared in both dependency sets makes the merge fail, and the
/// failure names a package that is declared in both; the runtime set alone
/// is untouched by the collision.
pub proof fn lemma_collision_fails_merge(
    deps: Seq<(Seq<char>, Seq<char>)>,
    dev: Seq<(Seq<char>, Seq<char>)>,
    name: Seq<char>,
    r: Result<Dependencies, Error>,
)
    requires
        no_dup_keys(deps),
        no_dup_keys(dev),
        key_in(deps, name),
        key_in(dev, name),
        merged_deps_post(deps, dev, r),
    ensures
        r is Err,
        r matches Err(e) ==> e matches Error::DuplicateDependency(n) && key_in(deps, n@)
            && key_in(dev, n@),
{
    let c = deps + dev;
    let i0 = choose|i: int| 0 <= i < deps.len() && deps[i].0 == name;
    let j0 = choose|j: int| 0 <= j < dev.len() && dev[j].0 == name;
    assert(c[i0].0 == name);
    assert(c[deps.len() + j0].0 == name);
    assert(dup_at(c, deps.len() + j0));
    assert(!no_dup_keys(c));
    match r {
        Result::Ok(_) => {
            assert(false);
        }
        Result::Err(e) => {
            let i = choose|i: int|
                #![auto]
                0 <= i < c.len() && dup_at(c, i) && (forall|j: int| 0 <= j < i ==> !dup_at(c, j))
                    && (e matches Error::DuplicateDependency(n) && n@ == c[i].0);
            let j = choose|j: int| 0 <= j < i && c[j].0 == c[i].0;
            if i < deps.len() {
                assert(deps[j].0 == deps[i].0);
                assert(dup_at(deps, i));
                assert(false);
            }
            if j >= deps.len() {
                assert(dev[j - deps.len()].0 == dev[i - deps.len()].0);
                assert(dup_at(dev, i - deps.len()));
                assert(false);
            }
            assert(deps[j].0 == c[i].0);
            assert(key_in(deps, c[i].0));
            assert(dev[i - deps.len()].0 == c[i].0);
            assert(key_in(dev, c[i].0));
        }
    }
}

/// Deriving the merged dependency set is deterministic: any two results of
/// the merge on one unchanged configuration agree — the same entries on
/// success, and a failure naming the same package. Deriving it twice
/// therefore yields equivalent mappings.
pub proof fn lemma_merge_deterministic(
    deps: Seq<(Seq<char>, Seq<char>)>,
    dev: Seq<(Seq<char>, Seq<char>)>,
    r1: Result<Dependencies, Error>,
    r2: Result<Dependencies, Error>,
)
    requires
        merged_deps_post(deps, dev, r1),
        merged_deps_post(deps, dev, r2),
    ensures
        r1 is Ok <==> r2 is Ok,
        r1 matches Ok(a) ==> r2 matches Ok(b) ==> a@ == b@,
        r1 matches Err(e1) ==> r2 matches Err(e2) ==> e1 matches Error::DuplicateDependency(n1)
            && e2 matches Error::DuplicateDependency(n2) && n1@ == n2@,
{
    let c = deps + dev;
    if r1 is Err && r2 is Err {
        let e1 = r1->Err_0;
        let e2 = r2->Err_0;
        let i1 = choose|i: int|
            #![auto]
            0 <= i < c.len() && dup_at(c, i) && (forall|j: int| 0 <= j < i ==> !dup_at(c, j)) && (
            e1 matches Error::DuplicateDependency(n) && n@ == c[i].0);
        let i2 = choose|i: int|
            #![auto]
            0 <= i < c.len() && dup_at(c, i) && (forall|j: int| 0 <= j < i ==> !dup_at(c, j)) && (
            e2 matches Error::DuplicateDependency(n) && n@ == c[i].0);
        if i1 < i2 {
            assert(!dup_at(c, i1));
            assert(false);
        }
        if i2 < i1 {
            assert(!dup_at(c, i2));
            assert(false);
        }
        assert(i1 == i2);
    }
}

/// The aliasing law lifted to whole manifests: two documents that agree on
/// every key other than the licence field, and carry the same licence value
/// one under `licences` and the other under `licenses`, are accepted
/// equivalently and parse to the same configuration.
pub proof fn lemma_licence_alias_manifest(d1: DocView, d2: DocView, v: DocView)
    requires
        d1 is Table,
        d2 is Table,
        lookup(d1.entries(), "licences"@) == Some(v),
        !has_key(d1.entries(), "licenses"@),
        lookup(d2.entries(), "licenses"@) == Some(v),
        !has_key(d2.entries(), "licences"@),
        forall|k: Seq<char>|
            k != "licences"@ && k != "licenses"@ ==> #[trigger] lookup(d1.entries(), k) == lookup(
                d2.entries(),
                k,
            ),
    ensures
        config_ok(d1) == config_ok(d2),
        config_ok(d1) ==> spec_config(d1) == spec_config(d2),
{
    let t1 = d1.entries();
    let t2 = d2.entries();
    reveal_strlit("licences");
    reveal_strlit("licenses");
    reveal_strlit("name");
    reveal_strlit("version");
    reveal_strlit("description");
    reveal_strlit("docs");
    reveal_strlit("dependencies");
    reveal_strlit("dev-dependencies");
    reveal_strlit("repository");
    reveal_strlit("links");
    reveal_strlit("erlang");
    assert("licences"@.len() == 8);
    assert("licenses"@.len() == 8);
    assert("name"@.len() == 4);
    assert("version"@.len() == 7);
    assert("description"@.len() == 11);
    assert("docs"@.len() == 4);
    assert("dependencies"@.len() == 12);
    assert("dev-dependencies"@.len() == 16);
    assert("repository"@.len() == 10);
    assert("links"@.len() == 5);
    assert("erlang"@.len() == 6);
    assert(lookup(t1, "name"@) == lookup(t2, "name"@));
    assert(lookup(t1, "version"@) == lookup(t2, "version"@));
    assert(lookup(t1, "description"@) == lookup(t2, "description"@));
    assert(lookup(t1, "docs"@) == lookup(t2, "docs"@));
    assert(lookup(t1, "dependencies"@) == lookup(t2, "dependencies"@));
    assert(lookup(t1, "dev-dependencies"@) == lookup(t2, "dev-dependencies"@));
    assert(lookup(t1, "repository"@) == lookup(t2, "repository"@));
    assert(lookup(t1, "links"@) == lookup(t2, "links"@));
    assert(lookup(t1, "erlang"@) == lookup(t2, "erlang"@));
    lemma_licence_alias(t1, t2, v);
}

} // verus!
