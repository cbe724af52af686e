//! The package commands (`crates`, `npm`, `pypi`): the registries' answers as
//! plain values, and the replies built from them.
use vstd::prelude::*;

use crate::embed::{
    embed_reply, empty_embed, text_reply, Embed, EmbedFieldView, EmbedView, Reply, ReplyView,
};
use crate::map::TextMap;
use crate::text::{
    chars_of, decimal, decimal_string, ends_with, has_prefix, has_suffix, join, join_strings,
    slice_chars, starts_with, string_of,
};

verus! {

/// A field that is not shown inline.
pub open spec fn block_field(name: Seq<char>, value: Seq<char>) -> EmbedFieldView {
    EmbedFieldView { name, value, inline: false }
}

/// The embed of a package: its name, description, the registry's logo and
/// colour, the current time, and `fields`.
pub open spec fn package_embed(
    name: Seq<char>,
    description: Seq<char>,
    thumbnail: Seq<char>,
    fields: Seq<EmbedFieldView>,
) -> EmbedView {
    EmbedView {
        title: Some(name),
        description: Some(description),
        thumbnail: Some(thumbnail),
        color: Some(0xE03D29u32),
        fields,
        timestamp_now: true,
        ..empty_embed()
    }
}

/// `s` with the value of `o`, or `d` where it has none.
pub open spec fn or_default(o: Option<Seq<char>>, d: Seq<char>) -> Seq<char> {
    match o {
        Some(s) => s,
        None => d,
    }
}

fn package_embed_exec(name: String, description: String, thumbnail: &str) -> (e: Embed)
    ensures
        e@ == package_embed(name@, description@, thumbnail@, Seq::empty()),
{
    let mut e = Embed::new();
    e.title = Some(name);
    e.description = Some(description);
    e.thumbnail = Some(String::from_str(thumbnail));
    e.color = Some(0xE03D29u32);
    e.timestamp_now = true;
    e
}

// ---------------------------------------------------------------------------
// crates.io
// ---------------------------------------------------------------------------

pub enum CrateAPIResponse {
    CrateAPIData(CrateAPIData),
    CrateAPIErrors(CrateAPIErrors),
}

pub struct CrateAPIErrors {
    pub errors: Vec<CrateAPIError>,
}

pub struct CrateAPIError {
    pub detail: String,
}

pub struct CrateAPIData {
    pub crate_: CrateInfo,
    pub versions: Vec<CrateVersion>,
    pub categories: Vec<CrateCategory>,
}

pub struct CrateInfo {
    pub name: String,
    pub description: String,
    pub downloads: u64,
    pub repository: String,
    pub homepage: Option<String>,
    pub documentation: Option<String>,
}

pub struct CrateVersion {
    pub published_by: Option<CrateAuthor>,
    pub num: String,
    pub license: Option<String>,
}

pub struct CrateAuthor {
    pub name: Option<String>,
    pub login: String,
    pub url: String,
}

pub struct CrateCategory {
    pub category: String,
}

/// The logo shown with a crate.
pub open spec fn crates_thumbnail() -> Seq<char> {
    "https://upload.wikimedia.org/wikipedia/commons/thumb/d/d5/Rust_programming_language_black_logo.svg/2048px-Rust_programming_language_black_logo.svg.png"@
}

/// The links of a crate: its page and repository, then its documentation and
/// homepage where it has them.
pub open spec fn crate_links(c: CrateInfo) -> Seq<char> {
    "[Package](https://crates.io/crates/"@ + c.name@ + ") [Repository]("@ + c.repository@ + ")"@
        + match c.documentation {
        Some(d) => " [Documentation]("@ + d@ + ")"@,
        None => Seq::empty(),
    } + match c.homepage {
        Some(h) => " [Homepage]("@ + h@ + ")"@,
        None => Seq::empty(),
    }
}

/// The names of the categories.
pub open spec fn category_names(cs: Seq<CrateCategory>) -> Seq<Seq<char>> {
    cs.map_values(|c: CrateCategory| c.category@)
}

/// The fields of a crate's embed, for the version `v` that it shows: the
/// categories (where there are any), the licence ("Unknown" without one),
/// the downloads, the publisher (where known, by name or else login, linked),
/// the links, and the version number.
pub open spec fn crate_fields(d: CrateAPIData, v: CrateVersion) -> Seq<EmbedFieldView> {
    let cats = if d.categories.len() > 0 {
        seq![block_field("Categories"@, join(category_names(d.categories@), ", "@))]
    } else {
        Seq::empty()
    };
    let author = match v.published_by {
        Some(a) => seq![
            block_field(
                "Author"@,
                "["@ + or_default(a.name.deep_view(), a.login@) + "]("@ + a.url@ + ")"@,
            ),
        ],
        None => Seq::empty(),
    };
    cats + seq![
        block_field("License"@, or_default(v.license.deep_view(), "Unknown"@)),
        block_field("Downloads"@, decimal(d.crate_.downloads as nat)),
    ] + author + seq![
        block_field("Links"@, crate_links(d.crate_)),
        block_field("Latest Version"@, v.num@),
    ]
}

/// The reply to crates.io's answer: the first error's detail, or an embed
/// of the crate that shows its second listed version.
pub open spec fn crates_reply_spec(r: CrateAPIResponse) -> ReplyView {
    match r {
        CrateAPIResponse::CrateAPIErrors(e) => text_reply(e.errors@[0].detail@),
        CrateAPIResponse::CrateAPIData(d) => embed_reply(
            package_embed(
                d.crate_.name@,
                d.crate_.description@,
                crates_thumbnail(),
                crate_fields(d, d.versions@[1]),
            ),
        ),
    }
}

/// The links of a crate.
fn crate_links_exec(c: &CrateInfo) -> (s: String)
    ensures
        s@ == crate_links(*c),
{
    let mut s = String::from_str("[Package](https://crates.io/crates/");
    s.append(c.name.as_str());
    s.append(") [Repository](");
    s.append(c.repository.as_str());
    s.append(")");
    let ghost base = s@;
    match &c.documentation {
        Some(d) => {
            s.append(" [Documentation](");
            s.append(d.as_str());
            s.append(")");
        },
        None => {
            proof {
                assert(base + Seq::<char>::empty() =~= base);
            }
        },
    }
    let ghost mid = s@;
    match &c.homepage {
        Some(h) => {
            s.append(" [Homepage](");
            s.append(h.as_str());
            s.append(")");
        },
        None => {
            proof {
                assert(mid + Seq::<char>::empty() =~= mid);
            }
        },
    }
    proof {
        assert(s@ =~= crate_links(*c));
    }
    s
}

/// The reply to crates.io's answer.
pub fn crates_reply(r: CrateAPIResponse) -> (reply: Reply)
    requires
        match r {
            CrateAPIResponse::CrateAPIErrors(e) => e.errors.len() >= 1,
            CrateAPIResponse::CrateAPIData(d) => d.versions.len() >= 2,
        },
    ensures
        reply@ == crates_reply_spec(r),
{
    match r {
        CrateAPIResponse::CrateAPIErrors(e) => Reply::text(e.errors[0].detail.clone()),
        CrateAPIResponse::CrateAPIData(d) => {
            let ghost dv = d;
            let v = &d.versions[1];
            let mut e = package_embed_exec(
                d.crate_.name.clone(),
                d.crate_.description.clone(),
                "https://upload.wikimedia.org/wikipedia/commons/thumb/d/d5/Rust_programming_language_black_logo.svg/2048px-Rust_programming_language_black_logo.svg.png",
            );
            let ghost cats: Seq<EmbedFieldView> = if d.categories.len() > 0 {
                seq![block_field("Categories"@, join(category_names(d.categories@), ", "@))]
            } else {
                Seq::empty()
            };
            if d.categories.len() > 0 {
                let mut names: Vec<String> = Vec::new();
                let mut i: usize = 0;
                while i < d.categories.len()
                    invariant
                        i <= d.categories.len(),
                        names.deep_view() == category_names(d.categories@).take(i as int),
                    decreases d.categories.len() - i,
                {
                    let ghost before = names.deep_view();
                    let c = d.categories[i].category.clone();
                    let ghost cv = c@;
                    names.push(c);
                    proof {
                        assert(names.deep_view() =~= before.push(cv));
                        assert(category_names(d.categories@).take(i + 1) =~= category_names(
                            d.categories@,
                        ).take(i as int).push(d.categories@[i as int].category@));
                    }
                    i = i + 1;
                }
                proof {
                    assert(category_names(d.categories@).take(i as int) =~= category_names(
                        d.categories@,
                    ));
                }
                e.add_field(String::from_str("Categories"), join_strings(&names, ", "), false);
            }
            proof {
                assert(e@.fields =~= cats);
            }
            let license = match &v.license {
                Some(l) => l.clone(),
                None => String::from_str("Unknown"),
            };
            e.add_field(String::from_str("License"), license, false);
            e.add_field(String::from_str("Downloads"), decimal_string(d.crate_.downloads), false);
            let ghost fixed = e@.fields;
            match &v.published_by {
                Some(a) => {
                    let mut text = String::from_str("[");
                    match &a.name {
                        Some(n) => text.append(n.as_str()),
                        None => text.append(a.login.as_str()),
                    }
                    text.append("](");
                    text.append(a.url.as_str());
                    text.append(")");
                    e.add_field(String::from_str("Author"), text, false);
                },
                None => {},
            }
            e.add_field(String::from_str("Links"), crate_links_exec(&d.crate_), false);
            e.add_field(String::from_str("Latest Version"), v.num.clone(), false);
            proof {
                assert(e@.fields =~= crate_fields(dv, dv.versions@[1]));
            }
            Reply::with_embed(e)
        },
    }
}

// ---------------------------------------------------------------------------
// npm
// ---------------------------------------------------------------------------

pub enum NpmResponse {
    NpmData(NpmData),
    NpmError(NpmError),
}

pub struct NpmData {
    pub name: String,
    pub description: String,
    pub dist_tags: DistTags,
    pub versions: TextMap<NpmVersionInfo>,
    pub maintainers: Vec<NpmMaintainer>,
}

pub struct NpmMaintainer {
    pub name: String,
}

pub struct DistTags {
    pub latest: String,
}

pub struct NpmVersionInfo {
    pub version: String,
    pub license: String,
    pub homepage: String,
    pub repository: Repository,
}

pub struct Repository {
    pub url: String,
}

pub struct NpmError {
    pub error: String,
}

pub struct NpmVersionView {
    pub version: Seq<char>,
    pub license: Seq<char>,
    pub homepage: Seq<char>,
    pub repository: Seq<char>,
}

impl DeepView for NpmVersionInfo {
    type V = NpmVersionView;

    open spec fn deep_view(&self) -> NpmVersionView {
        NpmVersionView {
            version: self.version@,
            license: self.license@,
            homepage: self.homepage@,
            repository: self.repository.url@,
        }
    }
}

/// The logo shown with an npm package.
pub open spec fn npm_thumbnail() -> Seq<char> {
    "https://upload.wikimedia.org/wikipedia/commons/thumb/d/db/Npm-logo.svg/800px-Npm-logo.svg.png"@
}

/// `s` without the prefix `p`, where it has it (`str::strip_prefix` and
/// `unwrap_or`).
pub open spec fn strip_prefix_or_keep(s: Seq<char>, p: Seq<char>) -> Seq<char> {
    if has_prefix(s, p) {
        s.skip(p.len() as int)
    } else {
        s
    }
}

/// `s` without the suffix `p`, where it has it.
pub open spec fn strip_suffix_or_keep(s: Seq<char>, p: Seq<char>) -> Seq<char> {
    if has_suffix(s, p) {
        s.take(s.len() - p.len())
    } else {
        s
    }
}

/// The repository address of a package without `git+` in front and `.git`
/// at the end.
pub open spec fn repository_link(url: Seq<char>) -> Seq<char> {
    strip_suffix_or_keep(strip_prefix_or_keep(url, "git+"@), ".git"@)
}

/// The names of the maintainers.
pub open spec fn maintainer_names(ms: Seq<NpmMaintainer>) -> Seq<Seq<char>> {
    ms.map_values(|m: NpmMaintainer| m.name@)
}

/// The fields of a package's embed, for its latest version `v`.
pub open spec fn npm_fields(d: NpmData, v: NpmVersionView) -> Seq<EmbedFieldView> {
    seq![
        block_field("Version"@, v.version),
        block_field("Maintainers"@, join(maintainer_names(d.maintainers@), ", "@)),
        block_field("License"@, v.license),
        block_field(
            "Links"@,
            "[Package](https://www.npmjs.com/package/"@ + d.name@ + ") [Repository]("@
                + repository_link(v.repository) + ") [Homepage]("@ + v.homepage + ")"@,
        ),
    ]
}

/// The reply to npm's answer: the error, or an embed of the package that
/// shows the version tagged `latest`.
pub open spec fn npm_reply_spec(r: NpmResponse) -> ReplyView {
    match r {
        NpmResponse::NpmError(e) => text_reply(e.error@),
        NpmResponse::NpmData(d) => embed_reply(
            package_embed(
                d.name@,
                d.description@,
                npm_thumbnail(),
                npm_fields(d, d.versions.spec_get(d.dist_tags.latest@)->0),
            ),
        ),
    }
}

/// The repository address without `git+` in front and `.git` at the end.
pub fn repository_link_exec(url: &String) -> (r: String)
    ensures
        r@ == repository_link(url@),
{
    let c = chars_of(url.as_str());
    let git_plus = chars_of("git+");
    let a = if starts_with(&c, &git_plus) {
        slice_chars(&c, git_plus.len(), c.len())
    } else {
        c
    };
    proof {
        assert(a@ =~= strip_prefix_or_keep(url@, "git+"@));
    }
    let dot_git = chars_of(".git");
    let b = if ends_with(&a, &dot_git) {
        slice_chars(&a, 0, a.len() - dot_git.len())
    } else {
        a
    };
    proof {
        assert(b@ =~= strip_suffix_or_keep(a@, ".git"@));
    }
    string_of(&b)
}

/// The reply to npm's answer.
pub fn npm_reply(r: NpmResponse) -> (reply: Reply)
    requires
        r matches NpmResponse::NpmData(d) ==> d.versions.spec_get(d.dist_tags.latest@) is Some,
    ensures
        reply@ == npm_reply_spec(r),
{
    match r {
        NpmResponse::NpmError(e) => Reply::text(e.error),
        NpmResponse::NpmData(d) => {
            let ghost dv = d;
            let v = match d.versions.get(&d.dist_tags.latest) {
                Some(v) => v,
                None => {
                    proof {
                        assert(false);
                    }
                    return Reply::text(String::new());
                },
            };
            let ghost vv = v.deep_view();
            let mut e = package_embed_exec(
                d.name.clone(),
                d.description.clone(),
                "https://upload.wikimedia.org/wikipedia/commons/thumb/d/db/Npm-logo.svg/800px-Npm-logo.svg.png",
            );
            e.add_field(String::from_str("Version"), v.version.clone(), false);
            let mut names: Vec<String> = Vec::new();
            let mut i: usize = 0;
            while i < d.maintainers.len()
                invariant
                    i <= d.maintainers.len(),
                    names.deep_view() == maintainer_names(d.maintainers@).take(i as int),
                decreases d.maintainers.len() - i,
            {
                let ghost before = names.deep_view();
                let m = d.maintainers[i].name.clone();
                let ghost mv = m@;
                names.push(m);
                proof {
                    assert(names.deep_view() =~= before.push(mv));
                    assert(maintainer_names(d.maintainers@).take(i + 1) =~= maintainer_names(
                        d.maintainers@,
                    ).take(i as int).push(d.maintainers@[i as int].name@));
                }
                i = i + 1;
            }
            proof {
                assert(maintainer_names(d.maintainers@).take(i as int) =~= maintainer_names(
                    d.maintainers@,
                ));
            }
            e.add_field(String::from_str("Maintainers"), join_strings(&names, ", "), false);
            e.add_field(String::from_str("License"), v.license.clone(), false);
            let mut links = String::from_str("[Package](https://www.npmjs.com/package/");
            links.append(d.name.as_str());
            links.append(") [Repository](");
            let repo = repository_link_exec(&v.repository.url);
            links.append(repo.as_str());
            links.append(") [Homepage](");
            links.append(v.homepage.as_str());
            links.append(")");
            e.add_field(String::from_str("Links"), links, false);
            proof {
                assert(e@.fields =~= npm_fields(dv, vv));
            }
            Reply::with_embed(e)
        },
    }
}

// ---------------------------------------------------------------------------
// PyPI
// ---------------------------------------------------------------------------

pub enum PypiResponse {
    PypiAPIData(PypiAPIData),
    PypiError(PypiError),
}

pub struct PypiAPIData {
    pub info: PypiPackageInfo,
}

pub struct PypiPackageInfo {
    pub name: String,
    pub author: String,
    pub version: String,
    pub home_page: String,
    pub summary: String,
    pub project_url: String,
    pub license: Option<String>,
    pub requires_python: String,
}

pub struct PypiError {
    pub message: String,
}

/// The logo shown with a PyPI package.
pub open spec fn pypi_thumbnail() -> Seq<char> {
    "https://i.imgur.com/syDydkb.png"@
}

/// The fields of a PyPI package's embed.
pub open spec fn pypi_fields(p: PypiPackageInfo) -> Seq<EmbedFieldView> {
    seq![
        block_field("Version"@, p.version@),
        block_field("Author"@, p.author@),
        block_field("License"@, or_default(p.license.deep_view(), "Unknown"@)),
        block_field("Python version required"@, p.requires_python@),
        block_field(
            "Links"@,
            "[Package](https://pypi.org/project/"@ + p.name@ + ") [Homepage]("@ + p.home_page@
                + ") [Project]("@ + p.project_url@ + ")"@,
        ),
    ]
}

/// The reply to PyPI's answer: the error message, or an embed of the
/// package.
pub open spec fn pypi_reply_spec(r: PypiResponse) -> ReplyView {
    match r {
        PypiResponse::PypiError(e) => text_reply(e.message@),
        PypiResponse::PypiAPIData(d) => embed_reply(
            package_embed(d.info.name@, d.info.summary@, pypi_thumbnail(), pypi_fields(d.info)),
        ),
    }
}

/// The reply to PyPI's answer.
pub fn pypi_reply(r: PypiResponse) -> (reply: Reply)
    ensures
        reply@ == pypi_reply_spec(r),
{
    match r {
        PypiResponse::PypiError(e) => Reply::text(e.message),
        PypiResponse::PypiAPIData(d) => {
            let ghost info = d.info;
            let p = d.info;
            let mut links = String::from_str("[Package](https://pypi.org/project/");
            links.append(p.name.as_str());
            links.append(") [Homepage](");
            links.append(p.home_page.as_str());
            links.append(") [Project](");
            links.append(p.project_url.as_str());
            links.append(")");
            let mut e = package_embed_exec(p.name, p.summary, "https://i.imgur.com/syDydkb.png");
            e.add_field(String::from_str("Version"), p.version, false);
            e.add_field(String::from_str("Author"), p.author, false);
            let license = match p.license {
                Some(l) => l,
                None => String::from_str("Unknown"),
            };
            e.add_field(String::from_str("License"), license, false);
            e.add_field(String::from_str("Python version required"), p.requires_python, false);
            e.add_field(String::from_str("Links"), links, false);
            proof {
                assert(e@.fields =~= pypi_fields(info));
            }
            Reply::with_embed(e)
        },
    }
}

} // verus!
