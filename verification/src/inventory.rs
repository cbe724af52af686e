//! Reading Sphinx `objects.inv` inventories: four header lines of text, then a
//! zlib stream of entry lines, each mapping a documented object to its page.
use vstd::prelude::*;
use vstd::utf8::{decode_utf8, encode_utf8, is_char_boundary, valid_utf8};

use crate::map::{as_map, lookup, TextMap};
use crate::pattern::{capture_groups, entry_pattern, regex_groups};
use crate::text::{
    chars_of, contains, contains_text, eq_str, lemma_char_vec_deep_view, lines, lines_of,
    push_chars, remove_all, remove_all_chars, slice_chars, split_once, split_once_char, string_of,
    trim_end, trim_end_chars,
};

verus! {

// ---------------------------------------------------------------------------
// Errors
// ---------------------------------------------------------------------------

/// Why an inventory could not be read.
pub enum InventoryError {
    /// A header line is not valid UTF-8.
    InvalidUtf8,
    /// The first line is not the version 2 header; it holds the line read.
    InvalidVersionHeader(String),
    /// The fourth line does not announce zlib compression.
    InvalidEncodingHeader(String),
    /// The compressed part is not a zlib stream of UTF-8 text.
    Decompress,
    /// An entry line does not have the entry format.
    LineMismatch(String),
    /// Some part of an entry line could not be found.
    MissingGroups(String),
    /// An entry's role has no `:`.
    InvalidDirective(String),
}

pub enum InventoryErrorView {
    InvalidUtf8,
    InvalidVersionHeader(Seq<char>),
    InvalidEncodingHeader(Seq<char>),
    Decompress,
    LineMismatch(Seq<char>),
    MissingGroups(Seq<char>),
    InvalidDirective(Seq<char>),
}

impl View for InventoryError {
    type V = InventoryErrorView;

    open spec fn view(&self) -> InventoryErrorView {
        match self {
            InventoryError::InvalidUtf8 => InventoryErrorView::InvalidUtf8,
            InventoryError::InvalidVersionHeader(s) => InventoryErrorView::InvalidVersionHeader(
                s@,
            ),
            InventoryError::InvalidEncodingHeader(s) => InventoryErrorView::InvalidEncodingHeader(
                s@,
            ),
            InventoryError::Decompress => InventoryErrorView::Decompress,
            InventoryError::LineMismatch(s) => InventoryErrorView::LineMismatch(s@),
            InventoryError::MissingGroups(s) => InventoryErrorView::MissingGroups(s@),
            InventoryError::InvalidDirective(s) => InventoryErrorView::InvalidDirective(s@),
        }
    }
}

// ---------------------------------------------------------------------------
// Outside calls
// ---------------------------------------------------------------------------

/// `std::str::from_utf8`: the text that `bytes` encode in UTF-8, if they are
/// valid UTF-8.
#[verifier::external_body]
fn utf8_text(bytes: &[u8]) -> (r: Option<String>)
    ensures
        r is Some == valid_utf8(bytes@),
        r matches Some(s) ==> s@ == decode_utf8(bytes@),
{
    match std::str::from_utf8(bytes) {
        Ok(s) => Some(s.to_string()),
        Err(_) => None,
    }
}

/// The bytes that the zlib stream at the start of `data` decompresses to,
/// or `None` where `data` does not start with a complete zlib stream.
pub uninterp spec fn zlib_inflate(data: Seq<u8>) -> Option<Seq<u8>>;

/// `flate2::read::ZlibDecoder` read to its end. The contract names the
/// result: decompression is a function of the input bytes alone.
#[verifier::external_body]
fn inflate(data: &[u8]) -> (r: Option<Vec<u8>>)
    ensures
        r.deep_view() == zlib_inflate(data@),
{
    let mut decoder = flate2::read::ZlibDecoder::new(data);
    let mut out = Vec::new();
    match std::io::Read::read_to_end(&mut decoder, &mut out) {
        Ok(_) => Some(out),
        Err(_) => None,
    }
}

/// The five capture groups (name, role, priority, location, display name)
/// of the entry pattern in `line`, or `None` where it does not match.
pub open spec fn entry_groups(line: Seq<char>) -> Option<Seq<Option<Seq<char>>>> {
    regex_groups(entry_pattern(), line)
}

// ---------------------------------------------------------------------------
// Lines of the header
// ---------------------------------------------------------------------------

/// The index after the first newline at or after `pos`, or the end of `data`.
pub open spec fn line_end(data: Seq<u8>, pos: int) -> int
    decreases data.len() - pos,
{
    if pos >= data.len() {
        pos
    } else if data[pos] == 10u8 {
        pos + 1
    } else {
        line_end(data, pos + 1)
    }
}

/// The bytes that `BufRead::read_line` takes at `pos`: up to and including
/// the next newline, or to the end.
pub open spec fn raw_line(data: Seq<u8>, pos: int) -> Seq<u8> {
    if 0 <= pos < data.len() {
        data.subrange(pos, line_end(data, pos))
    } else {
        Seq::empty()
    }
}

/// The line read at `pos`, without trailing whitespace; `None` where its
/// bytes are not UTF-8.
pub open spec fn line_text(data: Seq<u8>, pos: int) -> Option<Seq<char>> {
    let raw = raw_line(data, pos);
    if valid_utf8(raw) {
        Some(trim_end(decode_utf8(raw)))
    } else {
        None
    }
}

/// The text after the first `n` bytes of the UTF-8 encoding of `s`
/// (`&s[n..]`).
pub open spec fn skip_bytes(s: Seq<char>, n: int) -> Seq<char> {
    decode_utf8(encode_utf8(s).skip(n))
}

/// Whether `&s[n..]` is defined: `n` falls on a character boundary of the
/// encoding of `s`.
pub open spec fn can_skip_bytes(s: Seq<char>, n: int) -> bool {
    is_char_boundary(encode_utf8(s), n)
}

/// The bytes after `pos` (none where `pos` is past the end).
pub open spec fn rest_of(data: Seq<u8>, pos: int) -> Seq<u8> {
    if pos <= data.len() {
        data.skip(pos)
    } else {
        Seq::empty()
    }
}

/// The first header line of a version 2 inventory.
pub open spec fn version_header() -> Seq<char> {
    "# Sphinx inventory version 2"@
}

/// The headers read from `pos`: the project name (the second line after its
/// first eleven bytes) and the position after the fourth line. Errors: a
/// line that is not UTF-8, a first line that is not the version 2 header, a
/// fourth line without `zlib`.
pub open spec fn headers_spec(data: Seq<u8>, pos: int) -> Result<(Seq<char>, int), InventoryErrorView> {
    let p1 = line_end(data, pos);
    let p2 = line_end(data, p1);
    let p3 = line_end(data, p2);
    let p4 = line_end(data, p3);
    match line_text(data, pos) {
        None => Err(InventoryErrorView::InvalidUtf8),
        Some(v) => if v != version_header() {
            Err(InventoryErrorView::InvalidVersionHeader(v))
        } else {
            match line_text(data, p1) {
                None => Err(InventoryErrorView::InvalidUtf8),
                Some(project) => match line_text(data, p2) {
                    None => Err(InventoryErrorView::InvalidUtf8),
                    Some(_) => match line_text(data, p3) {
                        None => Err(InventoryErrorView::InvalidUtf8),
                        Some(enc) => if !contains_text(enc, "zlib"@) {
                            Err(InventoryErrorView::InvalidEncodingHeader(enc))
                        } else {
                            Ok((skip_bytes(project, 11), p4))
                        },
                    },
                },
            }
        },
    }
}

/// Whether reading the headers from `pos` can take the text after the first
/// eleven bytes of the second and third lines wherever it gets to them:
/// the line is at least that long and the eleventh byte ends a character.
pub open spec fn headers_sliceable(data: Seq<u8>, pos: int) -> bool {
    let p1 = line_end(data, pos);
    let p2 = line_end(data, p1);
    match line_text(data, pos) {
        Some(v) => v == version_header() ==> match line_text(data, p1) {
            Some(project) => can_skip_bytes(project, 11) && match line_text(data, p2) {
                Some(version) => can_skip_bytes(version, 11),
                None => true,
            },
            None => true,
        },
        None => true,
    }
}

/// An inventory being read: its bytes and the read position.
pub struct SphinxInventory {
    pub data: Vec<u8>,
    pub pos: usize,
}

/// The text after the first `n` bytes of `s`.
fn skip_bytes_exec(s: &String, n: usize) -> (r: String)
    requires
        can_skip_bytes(s@, n as int),
    ensures
        r@ == skip_bytes(s@, n as int),
{
    broadcast use vstd::utf8::group_utf8_lib;

    let st = s.as_str();
    let (_, rest) = st.split_at(n);
    proof {
        vstd::utf8::encode_utf8_decode_utf8(rest@);
        assert(encode_utf8(s@).skip(n as int) =~= encode_utf8(s@).subrange(
            n as int,
            encode_utf8(s@).len() as int,
        ));
    }
    String::from_str(rest)
}

/// Whether `&s[n..]` is defined.
fn can_skip_bytes_exec(s: &String, n: usize) -> (b: bool)
    ensures
        b == can_skip_bytes(s@, n as int),
{
    s.as_str().is_char_boundary(n)
}

impl SphinxInventory {
    /// An inventory read from its start.
    pub fn new(data: Vec<u8>) -> (inv: Self)
        ensures
            inv.data == data,
            inv.pos == 0,
    {
        SphinxInventory { data, pos: 0 }
    }

    /// The end of the line at the read position.
    fn find_line_end(&self) -> (e: usize)
        ensures
            e == line_end(self.data@, self.pos as int),
            self.pos < self.data.len() ==> self.pos < e <= self.data.len(),
            self.pos >= self.data.len() ==> e == self.pos,
    {
        if self.pos >= self.data.len() {
            return self.pos;
        }
        let mut e = self.pos;
        while e < self.data.len() && self.data[e] != 10u8
            invariant
                self.pos <= e <= self.data.len(),
                line_end(self.data@, self.pos as int) == line_end(self.data@, e as int),
            decreases self.data.len() - e,
        {
            e = e + 1;
        }
        if e < self.data.len() {
            e + 1
        } else {
            e
        }
    }

    /// `BufRead::read_line`, then `trim_end`: the next line without trailing
    /// whitespace; an error where its bytes are not UTF-8.
    pub fn read_line(&mut self) -> (r: Result<String, InventoryError>)
        ensures
            final(self).data == old(self).data,
            final(self).pos == line_end(old(self).data@, old(self).pos as int),
            old(self).pos <= old(self).data.len() ==> final(self).pos <= final(self).data.len(),
            match r {
                Ok(s) => line_text(old(self).data@, old(self).pos as int) == Some(s@),
                Err(e) => line_text(old(self).data@, old(self).pos as int) is None
                    && e@ == InventoryErrorView::InvalidUtf8,
            },
    {
        let e = self.find_line_end();
        let raw = if self.pos < self.data.len() {
            let mut raw: Vec<u8> = Vec::new();
            let mut k = self.pos;
            while k < e
                invariant
                    self.pos <= k <= e <= self.data.len(),
                    raw@ == self.data@.subrange(self.pos as int, k as int),
                decreases e - k,
            {
                raw.push(self.data[k]);
                proof {
                    assert(raw@ =~= self.data@.subrange(self.pos as int, k + 1));
                }
                k = k + 1;
            }
            raw
        } else {
            Vec::new()
        };
        proof {
            assert(raw@ =~= raw_line(self.data@, self.pos as int));
        }
        self.pos = e;
        match utf8_text(raw.as_slice()) {
            Some(text) => {
                let c = chars_of(text.as_str());
                let t = trim_end_chars(&c);
                Ok(string_of(&t))
            },
            None => Err(InventoryError::InvalidUtf8),
        }
    }

    /// Whether `process_headers` can run to its end without stopping on a
    /// byte index inside a character or past a line's end.
    pub fn headers_ok(&self) -> (b: bool)
        ensures
            b == headers_sliceable(self.data@, self.pos as int),
    {
        let mut probe = SphinxInventory { data: self.data.clone(), pos: self.pos };
        proof {
            assert(probe.data@ == self.data@);
        }
        match probe.read_line() {
            Ok(v) => {
                if !eq_str(&chars_of(v.as_str()), "# Sphinx inventory version 2") {
                    return true;
                }
                match probe.read_line() {
                    Ok(project) => {
                        if !can_skip_bytes_exec(&project, 11) {
                            return false;
                        }
                        match probe.read_line() {
                            Ok(version) => can_skip_bytes_exec(&version, 11),
                            Err(_) => true,
                        }
                    },
                    Err(_) => true,
                }
            },
            Err(_) => true,
        }
    }

    /// Reads the four header lines and gives the project name.
    pub fn process_headers(&mut self) -> (r: Result<String, InventoryError>)
        requires
            headers_sliceable(old(self).data@, old(self).pos as int),
        ensures
            final(self).data == old(self).data,
            match headers_spec(old(self).data@, old(self).pos as int) {
                Ok((name, p)) => r matches Ok(s) && s@ == name && final(self).pos == p,
                Err(e) => r matches Err(x) && x@ == e,
            },
    {
        let version_header = self.read_line()?;
        if !eq_str(&chars_of(version_header.as_str()), "# Sphinx inventory version 2") {
            return Err(InventoryError::InvalidVersionHeader(version_header));
        }
        let project_line = self.read_line()?;
        let proj_name = skip_bytes_exec(&project_line, 11);
        let version_line = self.read_line()?;
        let _version = skip_bytes_exec(&version_line, 11);
        let encoding_header = self.read_line()?;
        if !contains(&chars_of(encoding_header.as_str()), &chars_of("zlib")) {
            return Err(InventoryError::InvalidEncodingHeader(encoding_header));
        }
        Ok(proj_name)
    }

    /// The rest of the inventory, decompressed and decoded as UTF-8.
    pub fn read_compressed_chunks(self) -> (r: Result<String, InventoryError>)
        ensures
            match zlib_inflate(rest_of(self.data@, self.pos as int)) {
                Some(bytes) => if valid_utf8(bytes) {
                    r matches Ok(s) && s@ == decode_utf8(bytes)
                } else {
                    r matches Err(e) && e@ == InventoryErrorView::Decompress
                },
                None => r matches Err(e) && e@ == InventoryErrorView::Decompress,
            },
    {
        let start = if self.pos <= self.data.len() {
            self.pos
        } else {
            self.data.len()
        };
        let rest = slice_bytes(&self.data, start);
        proof {
            assert(rest@ =~= rest_of(self.data@, self.pos as int));
        }
        decompressed_text(inflate(rest.as_slice()))
    }

    /// The lines of the decompressed rest of the inventory.
    pub fn read_compressed_lines(self) -> (r: Result<Vec<String>, InventoryError>)
        ensures
            match zlib_inflate(rest_of(self.data@, self.pos as int)) {
                Some(bytes) => if valid_utf8(bytes) {
                    r matches Ok(v) && v.deep_view() == lines(decode_utf8(bytes))
                } else {
                    r matches Err(e) && e@ == InventoryErrorView::Decompress
                },
                None => r matches Err(e) && e@ == InventoryErrorView::Decompress,
            },
    {
        let text = self.read_compressed_chunks()?;
        let ls = lines_of(&chars_of(text.as_str()));
        let mut out: Vec<String> = Vec::new();
        let mut k: usize = 0;
        while k < ls.len()
            invariant
                k <= ls.len(),
                out.deep_view() == ls.deep_view().take(k as int),
            decreases ls.len() - k,
        {
            let s = string_of(&ls[k]);
            let ghost before = out.deep_view();
            let ghost sv = s@;
            out.push(s);
            proof {
                lemma_char_vec_deep_view(ls@[k as int]);
                assert(out.deep_view() =~= before.push(sv));
                assert(ls.deep_view().take(k + 1) =~= ls.deep_view().take(k as int).push(
                    ls.deep_view()[k as int],
                ));
            }
            k = k + 1;
        }
        proof {
            assert(ls.deep_view().take(k as int) =~= ls.deep_view());
        }
        Ok(out)
    }
}

/// The text of a decompressed inventory body: `inflated` holds the bytes
/// that decompression gave, `None` where it failed.
pub fn decompressed_text(inflated: Option<Vec<u8>>) -> (r: Result<String, InventoryError>)
    ensures
        match inflated.deep_view() {
            Some(bytes) => if valid_utf8(bytes) {
                r matches Ok(s) && s@ == decode_utf8(bytes)
            } else {
                r matches Err(e) && e@ == InventoryErrorView::Decompress
            },
            None => r matches Err(e) && e@ == InventoryErrorView::Decompress,
        },
{
    match inflated {
        Some(bytes) => {
            proof {
                assert(bytes.deep_view() =~= bytes@);
            }
            match utf8_text(bytes.as_slice()) {
                Some(s) => Ok(s),
                None => Err(InventoryError::Decompress),
            }
        },
        None => Err(InventoryError::Decompress),
    }
}

/// Copy of `data[start..]`.
fn slice_bytes(data: &Vec<u8>, start: usize) -> (r: Vec<u8>)
    requires
        start <= data.len(),
    ensures
        r@ == data@.subrange(start as int, data.len() as int),
{
    let mut r: Vec<u8> = Vec::new();
    let mut k = start;
    while k < data.len()
        invariant
            start <= k <= data.len(),
            r@ == data@.subrange(start as int, k as int),
        decreases data.len() - k,
    {
        r.push(data[k]);
        proof {
            assert(r@ =~= data@.subrange(start as int, k + 1));
        }
        k = k + 1;
    }
    r
}

// ---------------------------------------------------------------------------
// Entries
// ---------------------------------------------------------------------------

/// Every group took part in the match.
pub open spec fn all_present(g: Seq<Option<Seq<char>>>) -> bool {
    forall|i: int| 0 <= i < g.len() ==> (#[trigger] g[i]) is Some
}

/// `key` with every occurrence of each namespace removed, namespace by
/// namespace.
pub open spec fn remove_namespaces(key: Seq<char>, ns: Seq<Seq<char>>) -> Seq<char>
    decreases ns.len(),
{
    if ns.len() == 0 {
        key
    } else {
        remove_namespaces(remove_all(key, ns[0]), ns.drop_first())
    }
}

/// The lookup key and the link of an entry. The key is the display name (the
/// object's name where that is `-`), stripped of the ignored namespaces, and
/// in the `std` domain prefixed by the role (`label` for `std:doc`) and `:`.
/// The link is `url` and the location, a location ending in `$` having the
/// object's name in place of the `$`.
pub open spec fn entry_pair(
    name: Seq<char>,
    directive: Seq<char>,
    domain: Seq<char>,
    role: Seq<char>,
    location: Seq<char>,
    dispname: Seq<char>,
    url: Seq<char>,
    ignore: Option<Seq<Seq<char>>>,
) -> (Seq<char>, Seq<char>) {
    let role = if directive == "std:doc"@ {
        "label"@
    } else {
        role
    };
    let loc = if location.len() > 0 && location.last() == '$' {
        location.drop_last() + name
    } else {
        location
    };
    let shown = if dispname == "-"@ {
        name
    } else {
        dispname
    };
    let prefix = if domain == "std"@ {
        role + ":"@
    } else {
        Seq::empty()
    };
    let key = match ignore {
        Some(ns) => remove_namespaces(shown, ns),
        None => shown,
    };
    (prefix + key, url + loc)
}

/// What the entry line `item`, with capture groups `groups`, adds to the
/// links `known` so far: nothing for a Python module that already has a
/// link, the entry's key and link otherwise. Errors: the line does not match,
/// a group is missing, the role has no `:`.
#[verifier::opaque]
pub open spec fn entry_step(
    groups: Option<Seq<Option<Seq<char>>>>,
    item: Seq<char>,
    known: Map<Seq<char>, Seq<char>>,
    url: Seq<char>,
    ignore: Option<Seq<Seq<char>>>,
) -> Result<Option<(Seq<char>, Seq<char>)>, InventoryErrorView> {
    match groups {
        None => Err(InventoryErrorView::LineMismatch(item)),
        Some(g) => if !all_present(g) {
            Err(InventoryErrorView::MissingGroups(item))
        } else {
            let name = g[0]->0;
            let directive = g[1]->0;
            let location = g[3]->0;
            let dispname = g[4]->0;
            match split_once_char(directive, ':') {
                None => Err(InventoryErrorView::InvalidDirective(directive)),
                Some((domain, role)) => if directive == "py:module"@ && known.dom().contains(
                    name,
                ) {
                    Ok(None)
                } else {
                    Ok(
                        Some(
                            entry_pair(
                                name,
                                directive,
                                domain,
                                role,
                                location,
                                dispname,
                                url,
                                ignore,
                            ),
                        ),
                    )
                },
            }
        },
    }
}

/// The links of the entry lines, added to `acc` in order; the first error
/// stops the reading.
pub open spec fn map_lines(
    items: Seq<Seq<char>>,
    url: Seq<char>,
    ignore: Option<Seq<Seq<char>>>,
    acc: Map<Seq<char>, Seq<char>>,
) -> Result<Map<Seq<char>, Seq<char>>, InventoryErrorView>
    decreases items.len(),
{
    if items.len() == 0 {
        Ok(acc)
    } else {
        match entry_step(entry_groups(items[0]), items[0], acc, url, ignore) {
            Err(e) => Err(e),
            Ok(None) => map_lines(items.drop_first(), url, ignore, acc),
            Ok(Some((k, v))) => map_lines(items.drop_first(), url, ignore, acc.insert(k, v)),
        }
    }
}

/// The links of an inventory read from `pos`: the headers, then every line
/// of the decompressed rest.
pub open spec fn inventory_spec(
    data: Seq<u8>,
    pos: int,
    url: Seq<char>,
    ignore: Option<Seq<Seq<char>>>,
) -> Result<Map<Seq<char>, Seq<char>>, InventoryErrorView> {
    match headers_spec(data, pos) {
        Err(e) => Err(e),
        Ok((_, p)) => match zlib_inflate(rest_of(data, p)) {
            None => Err(InventoryErrorView::Decompress),
            Some(bytes) => if !valid_utf8(bytes) {
                Err(InventoryErrorView::Decompress)
            } else {
                map_lines(lines(decode_utf8(bytes)), url, ignore, Map::empty())
            },
        },
    }
}

/// The text of group `i`, which took part in the match.
fn group_text(g: &Vec<Option<String>>, i: usize) -> (s: String)
    requires
        i < g.len(),
        g.deep_view()[i as int] is Some,
    ensures
        g.deep_view()[i as int] == Some(s@),
{
    match &g[i] {
        Some(t) => t.clone(),
        None => {
            proof {
                assert(g.deep_view()[i as int] is None);
            }
            String::new()
        },
    }
}

/// `key` with the namespaces removed, one after another.
fn remove_namespaces_exec(key: Vec<char>, ns: &Vec<String>) -> (r: Vec<char>)
    ensures
        r@ == remove_namespaces(key@, ns.deep_view()),
{
    let mut k = key;
    let mut i: usize = 0;
    proof {
        assert(ns.deep_view().skip(0) =~= ns.deep_view());
    }
    while i < ns.len()
        invariant
            i <= ns.len(),
            remove_namespaces(key@, ns.deep_view()) == remove_namespaces(
                k@,
                ns.deep_view().skip(i as int),
            ),
        decreases ns.len() - i,
    {
        proof {
            assert(ns.deep_view().skip(i as int).drop_first() =~= ns.deep_view().skip(i + 1));
        }
        let pat = chars_of(ns[i].as_str());
        k = remove_all_chars(&k, &pat);
        i = i + 1;
    }
    k
}

/// What the entry line `item`, with the capture groups `groups`, adds to the
/// links `known` so far.
pub fn entry_link(
    groups: Option<Vec<Option<String>>>,
    item: &String,
    known: &TextMap<String>,
    url: &str,
    ignore: Option<&Vec<String>>,
) -> (r: Result<Option<(String, String)>, InventoryError>)
    requires
        groups matches Some(g) ==> g.len() >= 5,
    ensures
        match entry_step(
            groups.deep_view(),
            item@,
            as_map(known.items()),
            url@,
            ignore.deep_view(),
        ) {
            Ok(None) => r matches Ok(None),
            Ok(Some((k, v))) => r matches Ok(Some((a, b))) && a@ == k && b@ == v,
            Err(e) => r matches Err(x) && x@ == e,
        },
{
    reveal(entry_step);
    let ghost gv = groups.deep_view();
    let g = match groups {
        None => {
            return Err(InventoryError::LineMismatch(item.clone()));
        },
        Some(g) => g,
    };
    let mut i: usize = 0;
    #[verifier::loop_isolation(false)]
    while i < g.len()
        invariant
            i <= g.len(),
            gv == Some(g.deep_view()),
            forall|m: int| 0 <= m < i ==> #[trigger] g.deep_view()[m] is Some,
        decreases g.len() - i,
    {
        if g[i].is_none() {
            proof {
                assert(g.deep_view()[i as int] is None);
                assert(!all_present(g.deep_view()));
                assert(entry_step(gv, item@, as_map(known.items()), url@, ignore.deep_view())
                    == Err::<Option<(Seq<char>, Seq<char>)>, InventoryErrorView>(
                    InventoryErrorView::MissingGroups(item@),
                ));
            }
            let e = InventoryError::MissingGroups(item.clone());
            proof {
                assert(e@ == InventoryErrorView::MissingGroups(item@));
            }
            return Err(e);
        }
        i = i + 1;
    }
    let name = group_text(&g, 0);
    let directive = group_text(&g, 1);
    let location = group_text(&g, 3);
    let dispname = group_text(&g, 4);
    let directive_chars = chars_of(directive.as_str());
    let (domain, role) = match split_once(&directive_chars, ':') {
        None => {
            return Err(InventoryError::InvalidDirective(directive));
        },
        Some(parts) => parts,
    };
    if eq_str(&directive_chars, "py:module") && known.contains_key(&name) {
        return Ok(None);
    }
    let role = if eq_str(&directive_chars, "std:doc") {
        chars_of("label")
    } else {
        role
    };
    let loc_chars = chars_of(location.as_str());
    let n = loc_chars.len();
    let mut link = String::from_str(url);
    if n > 0 && loc_chars[n - 1] == '$' {
        push_chars(&mut link, &slice_chars(&loc_chars, 0, n - 1));
        link.append(name.as_str());
        proof {
            assert(link@ =~= url@ + (loc_chars@.drop_last() + name@));
        }
    } else {
        push_chars(&mut link, &loc_chars);
    }
    let shown = if eq_str(&chars_of(dispname.as_str()), "-") {
        chars_of(name.as_str())
    } else {
        chars_of(dispname.as_str())
    };
    let key_chars = match ignore {
        Some(ns) => remove_namespaces_exec(shown, ns),
        None => shown,
    };
    let mut key = String::new();
    if eq_str(&domain, "std") {
        push_chars(&mut key, &role);
        key.append(":");
    }
    push_chars(&mut key, &key_chars);
    proof {
        assert(key@ =~= entry_pair(
            name@,
            directive@,
            domain@,
            role@,
            location@,
            dispname@,
            url@,
            ignore.deep_view(),
        ).0) by {
            if domain@ == "std"@ {
            } else {
                assert(Seq::<char>::empty() + key_chars@ =~= key_chars@);
            }
        }
    }
    Ok(Some((key, link)))
}

impl SphinxInventory {
    /// Reads the inventory into a map from lookup keys to links, the links
    /// starting with `url`.
    pub fn into_map(self, url: &str, ignore_namespaces: Option<&Vec<String>>) -> (r: Result<
        TextMap<String>,
        InventoryError,
    >)
        requires
            headers_sliceable(self.data@, self.pos as int),
        ensures
            match inventory_spec(self.data@, self.pos as int, url@, ignore_namespaces.deep_view()) {
                Ok(m) => r matches Ok(x) && as_map(x.items()) == m,
                Err(e) => r matches Err(x) && x@ == e,
            },
    {
        let ghost data = self.data@;
        let ghost pos0 = self.pos as int;
        let mut inv = self;
        let _project_name = inv.process_headers()?;
        let items = inv.read_compressed_lines()?;
        links_from_lines(&items, url, ignore_namespaces)
    }
}

/// Adds what the entry line `item` gives to `result`.
fn add_entry_line(
    result: &mut TextMap<String>,
    item: &String,
    url: &str,
    ignore_namespaces: Option<&Vec<String>>,
) -> (r: Result<(), InventoryError>)
    ensures
        match entry_step(
            entry_groups(item@),
            item@,
            as_map(old(result).items()),
            url@,
            ignore_namespaces.deep_view(),
        ) {
            Err(e) => r matches Err(x) && x@ == e,
            Ok(None) => r is Ok && as_map(final(result).items()) == as_map(old(result).items()),
            Ok(Some((k, v))) => r is Ok && as_map(final(result).items()) == as_map(
                old(result).items(),
            ).insert(k, v),
        },
{
    let groups = capture_groups(r"(?x)(.+?)\s+(\S*:\S*)\s+(-?\d+)\s+(\S+)\s+(.*)", item.as_str());
    proof {
        assert(groups matches Some(g) ==> g.len() >= 5);
    }
    match entry_link(groups, item, result, url, ignore_namespaces) {
        Err(e) => Err(e),
        Ok(None) => Ok(()),
        Ok(Some((key, link))) => {
            let ghost before = as_map(result.items());
            let ghost old_items = result.items();
            let ghost kv = key@;
            let ghost lv = link@;
            result.insert(key, link);
            proof {
                assert forall|q: Seq<char>|
                    #![auto]
                    lookup(result.items(), q) == if q == kv {
                        Some(lv)
                    } else {
                        lookup(old_items, q)
                    } by {
                    assert(result.spec_get(q) == lookup(result.items(), q));
                }
                assert(as_map(result.items()) =~= before.insert(kv, lv));
            }
            Ok(())
        },
    }
}

/// The links of the entry lines `items`, read in order into an empty map;
/// the first bad line stops the reading.
pub fn links_from_lines(items: &Vec<String>, url: &str, ignore_namespaces: Option<&Vec<String>>) -> (r:
    Result<TextMap<String>, InventoryError>)
    ensures
        match map_lines(items.deep_view(), url@, ignore_namespaces.deep_view(), Map::empty()) {
            Ok(m) => r matches Ok(x) && as_map(x.items()) == m,
            Err(e) => r matches Err(x) && x@ == e,
        },
{
    let ghost all = items.deep_view();
    let ghost ignore = ignore_namespaces.deep_view();
    let mut result: TextMap<String> = TextMap::new();
    let mut k: usize = 0;
    proof {
        assert(all.skip(0) =~= all);
        assert(as_map(result.items()) =~= Map::<Seq<char>, Seq<char>>::empty());
    }
    while k < items.len()
        invariant
            k <= items.len(),
            all == items.deep_view(),
            map_lines(all, url@, ignore, Map::empty()) == map_lines(
                all.skip(k as int),
                url@,
                ignore,
                as_map(result.items()),
            ),
            ignore == ignore_namespaces.deep_view(),
        decreases items.len() - k,
    {
        proof {
            assert(all.skip(k as int)[0] == items@[k as int]@);
            assert(all.skip(k as int).drop_first() =~= all.skip(k + 1));
        }
        match add_entry_line(&mut result, &items[k], url, ignore_namespaces) {
            Err(e) => {
                return Err(e);
            },
            Ok(()) => {},
        }
        k = k + 1;
    }
    proof {
        assert(all.skip(k as int).len() == 0);
    }
    Ok(result)
}

/// Reading a line never moves past the end.
pub proof fn lemma_line_end_bound(data: Seq<u8>, pos: int)
    ensures
        pos <= data.len() ==> pos <= line_end(data, pos) <= data.len(),
        pos >= data.len() ==> line_end(data, pos) == pos,
    decreases data.len() - pos,
{
    if pos < data.len() && data[pos] != 10u8 {
        lemma_line_end_bound(data, pos + 1);
    }
}

} // verus!
