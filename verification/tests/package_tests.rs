use rustbot::map::TextMap;
use rustbot::message::{Builder, EmbedData};
use rustbot::packages::{
    crates_reply, npm_reply, pypi_reply, repository_link_exec, CrateAPIData, CrateAPIError,
    CrateAPIErrors, CrateAPIResponse, CrateAuthor, CrateCategory, CrateInfo, CrateVersion,
    DistTags, NpmData, NpmError, NpmMaintainer, NpmResponse, NpmVersionInfo, PypiAPIData,
    PypiError, PypiPackageInfo, PypiResponse, Repository,
};

fn fields(r: &rustbot::embed::Reply) -> Vec<(String, String)> {
    r.embed
        .as_ref()
        .unwrap()
        .fields
        .iter()
        .map(|f| (f.name.clone(), f.value.clone()))
        .collect()
}

fn crate_data(categories: Vec<&str>, author: Option<CrateAuthor>) -> CrateAPIData {
    CrateAPIData {
        crate_: CrateInfo {
            name: "serde".to_string(),
            description: "A serialization framework".to_string(),
            downloads: 123456,
            repository: "https://github.com/serde-rs/serde".to_string(),
            homepage: Some("https://serde.rs".to_string()),
            documentation: None,
        },
        versions: vec![
            CrateVersion { published_by: None, num: "2.0.0".to_string(), license: None },
            CrateVersion {
                published_by: author,
                num: "1.0.0".to_string(),
                license: Some("MIT".to_string()),
            },
        ],
        categories: categories
            .into_iter()
            .map(|c| CrateCategory { category: c.to_string() })
            .collect(),
    }
}

#[test]
fn crates_embed() {
    let author = CrateAuthor {
        name: None,
        login: "dtolnay".to_string(),
        url: "https://github.com/dtolnay".to_string(),
    };
    let r = crates_reply(CrateAPIResponse::CrateAPIData(crate_data(
        vec!["Encoding", "No standard library"],
        Some(author),
    )));
    let e = r.embed.as_ref().unwrap();
    assert_eq!(e.title.as_deref(), Some("serde"));
    assert_eq!(e.color, Some(0xE03D29));
    assert!(e.timestamp_now);
    assert_eq!(
        fields(&r),
        vec![
            ("Categories".to_string(), "Encoding, No standard library".to_string()),
            ("License".to_string(), "MIT".to_string()),
            ("Downloads".to_string(), "123456".to_string()),
            ("Author".to_string(), "[dtolnay](https://github.com/dtolnay)".to_string()),
            (
                "Links".to_string(),
                "[Package](https://crates.io/crates/serde) [Repository](https://github.com/serde-rs/serde) [Homepage](https://serde.rs)".to_string()
            ),
            ("Latest Version".to_string(), "1.0.0".to_string()),
        ]
    );
}

#[test]
fn crates_without_categories_or_author() {
    let r = crates_reply(CrateAPIResponse::CrateAPIData(crate_data(vec![], None)));
    let names: Vec<String> = fields(&r).into_iter().map(|f| f.0).collect();
    assert_eq!(names, vec!["License", "Downloads", "Links", "Latest Version"]);
}

#[test]
fn crates_error() {
    let r = crates_reply(CrateAPIResponse::CrateAPIErrors(CrateAPIErrors {
        errors: vec![CrateAPIError { detail: "Not Found".to_string() }],
    }));
    assert_eq!(r.content.as_deref(), Some("Not Found"));
}

#[test]
fn npm_embed() {
    let mut versions = TextMap::new();
    versions.insert(
        "1.2.3".to_string(),
        NpmVersionInfo {
            version: "1.2.3".to_string(),
            license: "MIT".to_string(),
            homepage: "https://lodash.com".to_string(),
            repository: Repository { url: "git+https://github.com/lodash/lodash.git".to_string() },
        },
    );
    let r = npm_reply(NpmResponse::NpmData(NpmData {
        name: "lodash".to_string(),
        description: "Utilities".to_string(),
        dist_tags: DistTags { latest: "1.2.3".to_string() },
        versions,
        maintainers: vec![
            NpmMaintainer { name: "a".to_string() },
            NpmMaintainer { name: "b".to_string() },
        ],
    }));
    assert_eq!(
        fields(&r),
        vec![
            ("Version".to_string(), "1.2.3".to_string()),
            ("Maintainers".to_string(), "a, b".to_string()),
            ("License".to_string(), "MIT".to_string()),
            (
                "Links".to_string(),
                "[Package](https://www.npmjs.com/package/lodash) [Repository](https://github.com/lodash/lodash) [Homepage](https://lodash.com)".to_string()
            ),
        ]
    );
    let err = npm_reply(NpmResponse::NpmError(NpmError { error: "Not found".to_string() }));
    assert_eq!(err.content.as_deref(), Some("Not found"));
}

#[test]
fn repository_links() {
    assert_eq!(repository_link_exec(&"git+https://x/y.git".to_string()), "https://x/y");
    assert_eq!(repository_link_exec(&"https://x/y".to_string()), "https://x/y");
    assert_eq!(repository_link_exec(&".git".to_string()), "");
}

#[test]
fn pypi_embed() {
    let r = pypi_reply(PypiResponse::PypiAPIData(PypiAPIData {
        info: PypiPackageInfo {
            name: "requests".to_string(),
            author: "Kenneth Reitz".to_string(),
            version: "2.31.0".to_string(),
            home_page: "https://requests.readthedocs.io".to_string(),
            summary: "HTTP for Humans.".to_string(),
            project_url: "https://pypi.org/project/requests/".to_string(),
            license: None,
            requires_python: ">=3.7".to_string(),
        },
    }));
    assert_eq!(r.embed.as_ref().unwrap().description.as_deref(), Some("HTTP for Humans."));
    assert_eq!(
        fields(&r),
        vec![
            ("Version".to_string(), "2.31.0".to_string()),
            ("Author".to_string(), "Kenneth Reitz".to_string()),
            ("License".to_string(), "Unknown".to_string()),
            ("Python version required".to_string(), ">=3.7".to_string()),
            (
                "Links".to_string(),
                "[Package](https://pypi.org/project/requests) [Homepage](https://requests.readthedocs.io) [Project](https://pypi.org/project/requests/)".to_string()
            ),
        ]
    );
    let err = pypi_reply(PypiResponse::PypiError(PypiError { message: "gone".to_string() }));
    assert_eq!(err.content.as_deref(), Some("gone"));
}

#[test]
fn builder_flow() {
    let mut b = Builder::default();
    assert_eq!(b.content.as_deref(), Some("<PlaceHolder>"));
    assert!(!b.ephemeral);
    b.set_content("hi".to_string());
    b.set_ephemeral(true);
    b.embed_data = Some(EmbedData {
        title: "T".to_string(),
        description: "D".to_string(),
        color: 7,
        fields: vec![("a".to_string(), "b".to_string(), true)],
        pages: vec![],
        footer: String::new(),
        thumbnail: String::new(),
        image: String::new(),
        highlighting: false,
    });
    b.build_embed();
    let e = b.embed.as_ref().unwrap();
    assert_eq!(e.title.as_deref(), Some("T"));
    assert_eq!(e.color, Some(7));
    assert_eq!(e.fields[0].name, "a");
    assert!(e.fields[0].inline);
    assert_eq!(b.content.as_deref(), Some("hi"));
    assert!(b.ephemeral);
}
