use std::io::Write;

use rustbot::inventory::{entry_link, InventoryError, SphinxInventory};
use rustbot::map::TextMap;
use rustbot::rtfm::{invalid_name_reply, matched_links, rtfm_reply, RtfmData};

fn zlib(text: &str) -> Vec<u8> {
    let mut enc = flate2::write::ZlibEncoder::new(Vec::new(), flate2::Compression::default());
    enc.write_all(text.as_bytes()).unwrap();
    enc.finish().unwrap()
}

fn inventory(body: &str) -> Vec<u8> {
    let mut data = b"# Sphinx inventory version 2\n# Project: demo\n# Version: 1.0\n# The remainder of this file is compressed using zlib.\n".to_vec();
    data.extend(zlib(body));
    data
}

fn text_map(pairs: &[(&str, &str)]) -> TextMap<String> {
    let mut m = TextMap::new();
    for (k, v) in pairs {
        m.insert(k.to_string(), v.to_string());
    }
    m
}

fn get(m: &TextMap<String>, k: &str) -> Option<String> {
    m.get(&k.to_string()).cloned()
}

#[test]
fn headers_give_project_name() {
    let mut inv = SphinxInventory::new(inventory(""));
    assert!(inv.headers_ok());
    match inv.process_headers() {
        Ok(name) => assert_eq!(name, "demo"),
        Err(_) => panic!("headers should read"),
    }
}

#[test]
fn read_line_trims_and_advances() {
    let mut inv = SphinxInventory::new(b"abc  \r\nnext".to_vec());
    assert_eq!(inv.read_line().ok().unwrap(), "abc");
    assert_eq!(inv.pos, 7);
    assert_eq!(inv.read_line().ok().unwrap(), "next");
    assert_eq!(inv.read_line().ok().unwrap(), "");
}

#[test]
fn read_line_rejects_bad_utf8() {
    let mut inv = SphinxInventory::new(vec![0xff, 0xfe, b'\n']);
    assert!(matches!(inv.read_line(), Err(InventoryError::InvalidUtf8)));
}

#[test]
fn wrong_version_header() {
    let inv = SphinxInventory::new(b"# Sphinx inventory version 1\n".to_vec());
    match inv.into_map("https://x/", None) {
        Err(InventoryError::InvalidVersionHeader(h)) => {
            assert_eq!(h, "# Sphinx inventory version 1")
        }
        _ => panic!("expected a version header error"),
    }
}

#[test]
fn wrong_encoding_header() {
    let data = b"# Sphinx inventory version 2\n# Project: demo\n# Version: 1.0\n# plain text\n".to_vec();
    let inv = SphinxInventory::new(data);
    assert!(matches!(
        inv.into_map("https://x/", None),
        Err(InventoryError::InvalidEncodingHeader(_))
    ));
}

#[test]
fn short_project_line_is_caught() {
    let inv = SphinxInventory::new(b"# Sphinx inventory version 2\nshort\n".to_vec());
    assert!(!inv.headers_ok());
}

#[test]
fn body_not_zlib() {
    let mut data = inventory("");
    data.truncate(data.len() - 6);
    data.extend(b"garbage");
    let inv = SphinxInventory::new(data);
    assert!(matches!(inv.into_map("https://x/", None), Err(InventoryError::Decompress)));
}

#[test]
fn inventory_entries_to_links() {
    let body = "\
Vec py:class 1 api.html#$ -\n\
mod py:module 0 mod.html#module-$ -\n\
mod py:module 0 other.html -\n\
intro std:doc -1 intro.html Introduction\n\
term std:term -1 glossary.html#term-$ -\n\
std::vec::Vec rs:struct 1 vec.html -\n";
    let ns = vec!["std::".to_string()];
    let inv = SphinxInventory::new(inventory(body));
    let m = match inv.into_map("https://docs/", Some(&ns)) {
        Ok(m) => m,
        Err(_) => panic!("inventory should read"),
    };
    assert_eq!(get(&m, "Vec").as_deref(), Some("https://docs/api.html#Vec"));
    assert_eq!(get(&m, "mod").as_deref(), Some("https://docs/mod.html#module-mod"));
    assert_eq!(get(&m, "label:Introduction").as_deref(), Some("https://docs/intro.html"));
    assert_eq!(get(&m, "term:term").as_deref(), Some("https://docs/glossary.html#term-term"));
    assert_eq!(get(&m, "vec::Vec").as_deref(), Some("https://docs/vec.html"));
    for (_, link) in &m.entries {
        assert!(link.starts_with("https://docs/"));
    }
}

#[test]
fn inventory_bad_line() {
    let inv = SphinxInventory::new(inventory("nonsense\n"));
    match inv.into_map("u/", None) {
        Err(InventoryError::LineMismatch(l)) => assert_eq!(l, "nonsense"),
        _ => panic!("expected a line error"),
    }
}

#[test]
fn entry_without_colon_role() {
    let known = TextMap::new();
    let groups = Some(vec![
        Some("a".to_string()),
        Some("nocolon".to_string()),
        Some("1".to_string()),
        Some("x.html".to_string()),
        Some("-".to_string()),
    ]);
    match entry_link(groups, &"line".to_string(), &known, "u/", None) {
        Err(InventoryError::InvalidDirective(d)) => assert_eq!(d, "nocolon"),
        _ => panic!("expected a directive error"),
    }
}

#[test]
fn entry_missing_group() {
    let known = TextMap::new();
    let groups = Some(vec![Some("a".to_string()), None, None, None, None]);
    assert!(matches!(
        entry_link(groups, &"line".to_string(), &known, "u/", None),
        Err(InventoryError::MissingGroups(_))
    ));
    assert!(matches!(
        entry_link(None, &"line".to_string(), &known, "u/", None),
        Err(InventoryError::LineMismatch(_))
    ));
}

#[test]
fn entry_python_module_kept_once() {
    let known = text_map(&[("m", "first")]);
    let groups = Some(vec![
        Some("m".to_string()),
        Some("py:module".to_string()),
        Some("0".to_string()),
        Some("m.html".to_string()),
        Some("-".to_string()),
    ]);
    assert!(matches!(
        entry_link(groups, &"l".to_string(), &known, "u/", None),
        Ok(None)
    ));
}

fn rtfm_data() -> RtfmData {
    let mut ns = TextMap::new();
    ns.insert("py".to_string(), vec!["builtins.".to_string()]);
    RtfmData {
        targets: text_map(&[("py", "https://docs.python.org/3"), ("rs", "https://doc.rust-lang.org/")]),
        url_overrides: text_map(&[("rs", "https://example.org/rs.inv")]),
        ignore_namespaces: ns,
        aliases_raw: Some(vec![
            ("py".to_string(), vec!["python".to_string(), "py3".to_string()]),
            ("rs".to_string(), vec!["rust".to_string(), "py3".to_string()]),
        ]),
        aliases: None,
    }
}

#[test]
fn alias_map_last_listing_wins() {
    let data = rtfm_data().make_alias_map();
    assert!(data.aliases_raw.is_none());
    assert_eq!(data.resolve(&"python".to_string()).as_deref(), Some("py"));
    assert_eq!(data.resolve(&"rust".to_string()).as_deref(), Some("rs"));
    assert_eq!(data.resolve(&"py3".to_string()).as_deref(), Some("rs"));
    assert_eq!(data.resolve(&"py".to_string()), None);
    assert_eq!(data.alias_map().entries.len(), 3);
}

#[test]
fn urls_of_targets() {
    let data = rtfm_data();
    let (base, object) = data.inventory_urls(&"py".to_string());
    assert_eq!(base, "https://docs.python.org/3/");
    assert_eq!(object, "https://docs.python.org/3/objects.inv");
    let (base, object) = data.inventory_urls(&"rs".to_string());
    assert_eq!(base, "https://doc.rust-lang.org/");
    assert_eq!(object, "https://example.org/rs.inv");
}

#[test]
fn links_for_target_strip_namespaces() {
    let data = rtfm_data();
    let bytes = inventory("builtins.len py:function 1 library/functions.html#$ -\n");
    let m = match data.links_for(&"py".to_string(), bytes) {
        Ok(m) => m,
        Err(_) => panic!("inventory should read"),
    };
    assert_eq!(
        get(&m, "len").as_deref(),
        Some("https://docs.python.org/3/library/functions.html#builtins.len")
    );
}

#[test]
fn matched_and_reply() {
    let links = text_map(&[("a", "https://x/a"), ("b", "https://x/b")]);
    let found = matched_links(&links, &vec!["b".to_string(), "a".to_string()]).unwrap();
    assert_eq!(found[0], ("b".to_string(), "https://x/b".to_string()));
    assert!(matched_links(&links, &vec!["c".to_string()]).is_none());
    let reply = rtfm_reply(&"py".to_string(), &found);
    let e = reply.embed.unwrap();
    assert_eq!(e.title.as_deref(), Some("py"));
    assert_eq!(e.color, Some(0x8f18a3));
    assert_eq!(e.description.as_deref(), Some("[`b`](https://x/b)\n[`a`](https://x/a)"));
    let none = rtfm_reply(&"py".to_string(), &vec![]);
    assert_eq!(none.content.as_deref(), Some("No matches."));
    assert_eq!(invalid_name_reply().content.as_deref(), Some("Invalid name"));
}

#[test]
fn text_map_read_after_write() {
    let mut m = text_map(&[("k", "v1"), ("other", "o")]);
    m.insert("k".to_string(), "v2".to_string());
    assert_eq!(get(&m, "k").as_deref(), Some("v2"));
    assert_eq!(get(&m, "other").as_deref(), Some("o"));
    assert!(!m.contains_key(&"missing".to_string()));
}
