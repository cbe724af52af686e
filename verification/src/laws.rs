//! Properties that hold across the library's operations.
use vstd::prelude::*;

use crate::ansi::{ansi_seq, BgColors, Style, TextColors};
use crate::inventory::{entry_step, entry_groups, inventory_spec, map_lines, headers_spec};
use crate::rtfm::{alias_map_spec, alias_pairs, insert_all};
use crate::pattern::{flag_split, flag_split_from};
use crate::run::{initial_args, parse_args_spec, parse_pieces, ParsedArgsView};
use crate::packages::{crate_links, pypi_reply_spec, CrateInfo, PypiAPIData, PypiResponse};
use crate::packages::{crates_reply_spec, repository_link, CrateAPIData, CrateAPIResponse};
use crate::run::{run_plan_spec, RunPlanView};
use crate::text::{digit_char, has_prefix, is_ws, trim, trim_end, trim_start};

verus! {

// ---------------------------------------------------------------------------
// ANSI
// ---------------------------------------------------------------------------

/// Without a style, a sequence selects the normal style.
pub proof fn lemma_unset_style_is_normal(color: TextColors, bg: BgColors)
    ensures
        ansi_seq(color, bg, Style::Unset) == ansi_seq(color, bg, Style::Normal),
{
}

// ---------------------------------------------------------------------------
// Trimming
// ---------------------------------------------------------------------------

proof fn lemma_trim_end_idempotent(s: Seq<char>)
    ensures
        trim_end(trim_end(s)) == trim_end(s),
        trim_end(s).len() == 0 || !is_ws(trim_end(s).last()),
    decreases s.len(),
{
    if s.len() > 0 && is_ws(s.last()) {
        lemma_trim_end_idempotent(s.drop_last());
    }
}

/// Trimming the end keeps a first character that is not whitespace.
proof fn lemma_trim_end_keeps_start(s: Seq<char>)
    requires
        s.len() == 0 || !is_ws(s[0]),
    ensures
        trim_end(s).len() == 0 || (trim_end(s)[0] == s[0]),
    decreases s.len(),
{
    if s.len() > 0 && is_ws(s.last()) {
        if s.len() > 1 {
            assert(s.drop_last()[0] == s[0]);
        }
        lemma_trim_end_keeps_start(s.drop_last());
    }
}

proof fn lemma_trim_start_first(s: Seq<char>)
    ensures
        trim_start(s).len() == 0 || !is_ws(trim_start(s)[0]),
    decreases s.len(),
{
    if s.len() > 0 && is_ws(s[0]) {
        lemma_trim_start_first(s.drop_first());
    }
}

/// Trimmed text trims to itself.
pub proof fn lemma_trim_idempotent(s: Seq<char>)
    ensures
        trim(trim(s)) == trim(s),
{
    let a = trim_start(s);
    let b = trim_end(a);
    lemma_trim_start_first(s);
    lemma_trim_end_keeps_start(a);
    lemma_trim_end_idempotent(a);
    assert(trim_start(b) == b);
}

// ---------------------------------------------------------------------------
// Flags of `run`
// ---------------------------------------------------------------------------

proof fn lemma_flag_split_plain(s: Seq<char>, cur: Seq<char>)
    requires
        forall|i: int| 0 <= i < s.len() ==> s[i] != '-' && s[i] != '=',
    ensures
        flag_split_from(s, cur) == seq![cur + s],
    decreases s.len(),
{
    if s.len() == 0 {
        assert(cur + s =~= cur);
    } else {
        assert(cur.push(s[0]) + s.drop_first() =~= cur + s);
        lemma_flag_split_plain(s.drop_first(), cur.push(s[0]));
    }
}

/// Text without `-` and `=` sets no flag: every setting keeps its default.
pub proof fn lemma_no_flags_keep_defaults(s: Seq<char>)
    requires
        forall|i: int| 0 <= i < s.len() ==> s[i] != '-' && s[i] != '=',
    ensures
        parse_args_spec(s) == Some(initial_args()),
{
    lemma_flag_split_plain(s, Seq::empty());
    assert(Seq::<char>::empty() + s =~= s);
    let pieces = flag_split(s);
    assert(pieces == seq![s]);
    assert(pieces.drop_first() =~= Seq::<Seq<char>>::empty());
    assert(parse_pieces(pieces.drop_first(), initial_args()) == Some(initial_args()));
    assert(!has_prefix(s, "file-"@)) by {
        reveal_strlit("file-");
        if has_prefix(s, "file-"@) {
            assert(s.take(5)[4] == '-');
            assert(s[4] == '-');
        }
    }
}

/// Every value that the flags set comes out trimmed.
pub open spec fn values_trimmed(p: ParsedArgsView) -> bool {
    &&& trim(p.version) == p.version
    &&& trim(p.stdin) == p.stdin
    &&& p.language matches Some(l) ==> trim(l) == l
    &&& forall|i: int| 0 <= i < p.args.len() ==> #[trigger] trim(p.args[i]) == p.args[i]
    &&& forall|i: int| 0 <= i < p.files.len() ==> #[trigger] trim(p.files[i].name) == p.files[i].name
}

proof fn lemma_parse_pieces_trimmed(pieces: Seq<Seq<char>>, acc: ParsedArgsView)
    requires
        values_trimmed(acc),
    ensures
        parse_pieces(pieces, acc) matches Some(p) ==> values_trimmed(p),
    decreases pieces.len(),
{
    if pieces.len() > 0 {
        let part = pieces[0];
        let rest = pieces.drop_first();
        if rest.len() > 0 {
            lemma_trim_idempotent(rest[0]);
        }
        let key = trim(part);
        if key == "version"@ {
            if rest.len() > 0 {
                lemma_parse_pieces_trimmed(
                    rest.drop_first(),
                    ParsedArgsView { version: trim(rest[0]), ..acc },
                );
            }
        } else if key == "language"@ {
            if rest.len() > 0 {
                lemma_parse_pieces_trimmed(
                    rest.drop_first(),
                    ParsedArgsView { language: Some(trim(rest[0])), ..acc },
                );
            }
        } else if key == "stdin"@ {
            if rest.len() > 0 {
                lemma_parse_pieces_trimmed(
                    rest.drop_first(),
                    ParsedArgsView { stdin: trim(rest[0]), ..acc },
                );
            }
        } else if key == "args"@ {
            if rest.len() > 0 {
                let added = crate::text::split_char(rest[0], ',').map_values(
                    |a: Seq<char>| trim(a),
                );
                let next = ParsedArgsView { args: acc.args + added, ..acc };
                assert forall|i: int| 0 <= i < next.args.len() implies #[trigger] trim(
                    next.args[i],
                ) == next.args[i] by {
                    if i >= acc.args.len() {
                        lemma_trim_idempotent(
                            crate::text::split_char(rest[0], ',')[i - acc.args.len()],
                        );
                    }
                }
                lemma_parse_pieces_trimmed(rest.drop_first(), next);
            }
        } else if key == "debug"@ {
            lemma_parse_pieces_trimmed(rest, acc);
        } else if has_prefix(part, "file-"@) {
            match crate::run::codeblock_code(trim(part)) {
                Some(code) => {
                    let f = crate::run::FileView {
                        name: crate::run::file_flag_name(part),
                        content: code,
                        encoding: "utf8"@,
                    };
                    let next = ParsedArgsView { files: acc.files.push(f), ..acc };
                    lemma_trim_idempotent(
                        crate::text::split_char(crate::text::split_char(part, '-')[1], ' ')[0],
                    );
                    assert forall|i: int| 0 <= i < next.files.len() implies #[trigger] trim(
                        next.files[i].name,
                    ) == next.files[i].name by {
                        if i < acc.files.len() {
                            assert(next.files[i] == acc.files[i]);
                        }
                    }
                    lemma_parse_pieces_trimmed(rest, next);
                },
                None => {},
            }
        } else {
            lemma_parse_pieces_trimmed(rest, acc);
        }
    }
}

/// The version, input, language, arguments and file names that the flags
/// set carry no surrounding whitespace.
pub proof fn lemma_flag_values_trimmed(s: Seq<char>)
    ensures
        parse_args_spec(s) matches Some(p) ==> values_trimmed(p),
{
    assert(values_trimmed(initial_args())) by {
        reveal_strlit("*");
        assert(trim_start("*"@) == "*"@);
        assert(trim_end("*"@) == "*"@);
        assert(trim_start(Seq::<char>::empty()) == Seq::<char>::empty());
        assert(trim_end(Seq::<char>::empty()) == Seq::<char>::empty());
    }
    lemma_parse_pieces_trimmed(flag_split(s), initial_args());
}

// ---------------------------------------------------------------------------
// Inventories
// ---------------------------------------------------------------------------

/// Every link in `m` starts with `url`.
pub open spec fn links_under(m: Map<Seq<char>, Seq<char>>, url: Seq<char>) -> bool {
    forall|k: Seq<char>| #[trigger] m.dom().contains(k) ==> has_prefix(m[k], url)
}

proof fn lemma_map_lines_under(
    items: Seq<Seq<char>>,
    url: Seq<char>,
    ignore: Option<Seq<Seq<char>>>,
    acc: Map<Seq<char>, Seq<char>>,
)
    requires
        links_under(acc, url),
    ensures
        map_lines(items, url, ignore, acc) matches Ok(m) ==> links_under(m, url),
    decreases items.len(),
{
    reveal(entry_step);
    if items.len() > 0 {
        match entry_step(entry_groups(items[0]), items[0], acc, url, ignore) {
            Err(_) => {},
            Ok(None) => {
                lemma_map_lines_under(items.drop_first(), url, ignore, acc);
            },
            Ok(Some((k, v))) => {
                let g = entry_groups(items[0])->0;
                let location = g[3]->0;
                let name = g[0]->0;
                let loc = if location.len() > 0 && location.last() == '$' {
                    location.drop_last() + name
                } else {
                    location
                };
                assert(v == url + loc);
                assert((url + loc).take(url.len() as int) =~= url);
                let next = acc.insert(k, v);
                assert forall|q: Seq<char>| #[trigger] next.dom().contains(q) implies has_prefix(
                    next[q],
                    url,
                ) by {
                    if q != k {
                        assert(acc.dom().contains(q));
                    }
                }
                lemma_map_lines_under(items.drop_first(), url, ignore, next);
            },
        }
    }
}

/// Every link read from an inventory starts with the base location it was
/// read for.
pub proof fn lemma_inventory_links_under_url(
    data: Seq<u8>,
    pos: int,
    url: Seq<char>,
    ignore: Option<Seq<Seq<char>>>,
)
    ensures
        inventory_spec(data, pos, url, ignore) matches Ok(m) ==> links_under(m, url),
{
    match headers_spec(data, pos) {
        Err(_) => {},
        Ok((_, p)) => match crate::inventory::zlib_inflate(crate::inventory::rest_of(data, p)) {
            None => {},
            Some(bytes) => {
                if vstd::utf8::valid_utf8(bytes) {
                    lemma_map_lines_under(
                        crate::text::lines(vstd::utf8::decode_utf8(bytes)),
                        url,
                        ignore,
                        Map::empty(),
                    );
                }
            },
        },
    }
}

// ---------------------------------------------------------------------------
// Aliases
// ---------------------------------------------------------------------------

proof fn lemma_insert_all_source(
    m: Map<Seq<char>, Seq<char>>,
    pairs: Seq<(Seq<char>, Seq<char>)>,
    a: Seq<char>,
)
    ensures
        insert_all(m, pairs).dom().contains(a) <==> (m.dom().contains(a) || exists|j: int|
            0 <= j < pairs.len() && (#[trigger] pairs[j]).0 == a),
        insert_all(m, pairs).dom().contains(a) ==> (m.dom().contains(a) && insert_all(m, pairs)[a]
            == m[a]) || exists|j: int|
            0 <= j < pairs.len() && #[trigger] pairs[j] == (a, insert_all(m, pairs)[a]),
    decreases pairs.len(),
{
    if pairs.len() > 0 {
        let init = pairs.drop_last();
        lemma_insert_all_source(m, init, a);
        let last = pairs.last();
        assert forall|j: int| 0 <= j < init.len() implies #[trigger] init[j] == pairs[j] by {}
        if last.0 == a {
            assert(pairs[pairs.len() - 1] == (a, insert_all(m, pairs)[a]));
        } else {
            if exists|j: int| 0 <= j < pairs.len() && (#[trigger] pairs[j]).0 == a {
                let j = choose|j: int| 0 <= j < pairs.len() && (#[trigger] pairs[j]).0 == a;
                assert(j < pairs.len() - 1);
                assert(init[j].0 == a);
            }
            if insert_all(m, init).dom().contains(a) && !(m.dom().contains(a) && insert_all(
                m,
                init,
            )[a] == m[a]) {
                let j = choose|j: int|
                    0 <= j < init.len() && #[trigger] init[j] == (a, insert_all(m, init)[a]);
                assert(pairs[j] == init[j]);
            }
        }
    }
}

proof fn lemma_alias_pairs_source(raw: Seq<(Seq<char>, Seq<Seq<char>>)>, p: (Seq<char>, Seq<char>))
    ensures
        alias_pairs(raw).contains(p) <==> exists|i: int|
            0 <= i < raw.len() && (#[trigger] raw[i]).0 == p.1 && raw[i].1.contains(p.0),
    decreases raw.len(),
{
    if raw.len() > 0 {
        let init = raw.drop_last();
        let last = raw.last();
        lemma_alias_pairs_source(init, p);
        let added = last.1.map_values(|a: Seq<char>| (a, last.0));
        let ps = alias_pairs(raw);
        assert(ps == alias_pairs(init) + added);
        if ps.contains(p) {
            let k = choose|k: int| 0 <= k < ps.len() && ps[k] == p;
            if k < alias_pairs(init).len() {
                assert(alias_pairs(init)[k] == p);
                let i = choose|i: int|
                    0 <= i < init.len() && (#[trigger] init[i]).0 == p.1 && init[i].1.contains(
                        p.0,
                    );
                assert(raw[i] == init[i]);
            } else {
                let t = k - alias_pairs(init).len();
                assert(added[t] == p);
                assert(last.1[t] == p.0);
                assert(raw[raw.len() - 1] == last);
            }
        }
        if exists|i: int| 0 <= i < raw.len() && (#[trigger] raw[i]).0 == p.1 && raw[i].1.contains(p.0) {
            let i = choose|i: int|
                0 <= i < raw.len() && (#[trigger] raw[i]).0 == p.1 && raw[i].1.contains(p.0);
            if i < raw.len() - 1 {
                assert(init[i] == raw[i]);
                let k = choose|k: int| 0 <= k < alias_pairs(init).len() && alias_pairs(init)[k] == p;
                assert(ps[k] == p);
            } else {
                let t = choose|t: int| 0 <= t < last.1.len() && last.1[t] == p.0;
                assert(added[t] == p);
                assert(ps[alias_pairs(init).len() + t] == p);
            }
        }
    }
}

/// An alias resolves exactly when some target lists it, and it resolves to a
/// target that lists it.
pub proof fn lemma_alias_resolves(raw: Seq<(Seq<char>, Seq<Seq<char>>)>, a: Seq<char>)
    ensures
        alias_map_spec(raw).dom().contains(a) <==> exists|i: int|
            0 <= i < raw.len() && (#[trigger] raw[i]).1.contains(a),
        alias_map_spec(raw).dom().contains(a) ==> exists|i: int|
            0 <= i < raw.len() && (#[trigger] raw[i]).0 == alias_map_spec(raw)[a] && raw[i].1.contains(a),
{
    let pairs = alias_pairs(raw);
    lemma_insert_all_source(Map::empty(), pairs, a);
    if alias_map_spec(raw).dom().contains(a) {
        let j = choose|j: int| 0 <= j < pairs.len() && #[trigger] pairs[j] == (a, alias_map_spec(raw)[a]);
        lemma_alias_pairs_source(raw, pairs[j]);
        assert(pairs.contains(pairs[j]));
    }
    if exists|i: int| 0 <= i < raw.len() && (#[trigger] raw[i]).1.contains(a) {
        let i = choose|i: int| 0 <= i < raw.len() && (#[trigger] raw[i]).1.contains(a);
        lemma_alias_pairs_source(raw, (a, raw[i].0));
        let k = choose|k: int| 0 <= k < pairs.len() && pairs[k] == (a, raw[i].0);
        assert(pairs[k].0 == a);
    }
}

// ---------------------------------------------------------------------------
// ANSI codes
// ---------------------------------------------------------------------------

/// The position of a foreground colour in the declaration Grey, Red, Green,
/// Yellow, Blue, Pink, Cyan, White.
pub open spec fn text_color_position(c: TextColors) -> nat {
    match c {
        TextColors::Grey => 0,
        TextColors::Red => 1,
        TextColors::Green => 2,
        TextColors::Yellow => 3,
        TextColors::Blue => 4,
        TextColors::Pink => 5,
        TextColors::Cyan => 6,
        TextColors::White => 7,
        TextColors::Unset => 0,
    }
}

/// The position of a background colour in the declaration DarkBlue, Orange,
/// MarbleBlue, Turqoise, Grey, Indigo, LightGrey, White.
pub open spec fn bg_color_position(b: BgColors) -> nat {
    match b {
        BgColors::DarkBlue => 0,
        BgColors::Orange => 1,
        BgColors::MarbleBlue => 2,
        BgColors::Turqoise => 3,
        BgColors::Grey => 4,
        BgColors::Indigo => 5,
        BgColors::LightGrey => 6,
        BgColors::White => 7,
        BgColors::Unset => 0,
    }
}

proof fn lemma_style_part(s: Style)
    ensures
        crate::ansi::style_code(s) == seq![
            match s {
                Style::Bold => '1',
                Style::Underline => '4',
                _ => '0',
            },
        ],
{
    reveal_strlit("1");
    reveal_strlit("4");
    reveal_strlit("0");
    match s {
        Style::Bold => assert("1"@ =~= seq!['1']),
        Style::Underline => assert("4"@ =~= seq!['4']),
        _ => assert("0"@ =~= seq!['0']),
    }
}

proof fn lemma_color_part(c: TextColors)
    ensures
        crate::ansi::text_color_code(c) == if c == TextColors::Unset {
            Seq::<char>::empty()
        } else {
            seq![';', '3', digit_char(text_color_position(c))]
        },
{
    reveal_strlit(";30");
    reveal_strlit(";31");
    reveal_strlit(";32");
    reveal_strlit(";33");
    reveal_strlit(";34");
    reveal_strlit(";35");
    reveal_strlit(";36");
    reveal_strlit(";37");
    match c {
        TextColors::Grey => assert(";30"@ =~= seq![';', '3', '0']),
        TextColors::Red => assert(";31"@ =~= seq![';', '3', '1']),
        TextColors::Green => assert(";32"@ =~= seq![';', '3', '2']),
        TextColors::Yellow => assert(";33"@ =~= seq![';', '3', '3']),
        TextColors::Blue => assert(";34"@ =~= seq![';', '3', '4']),
        TextColors::Pink => assert(";35"@ =~= seq![';', '3', '5']),
        TextColors::Cyan => assert(";36"@ =~= seq![';', '3', '6']),
        TextColors::White => assert(";37"@ =~= seq![';', '3', '7']),
        TextColors::Unset => {},
    }
}

proof fn lemma_bg_part(b: BgColors)
    ensures
        crate::ansi::bg_code(b) == if b == BgColors::Unset {
            Seq::<char>::empty()
        } else {
            seq![';', '4', digit_char(bg_color_position(b))]
        },
{
    reveal_strlit(";40");
    reveal_strlit(";41");
    reveal_strlit(";42");
    reveal_strlit(";43");
    reveal_strlit(";44");
    reveal_strlit(";45");
    reveal_strlit(";46");
    reveal_strlit(";47");
    match b {
        BgColors::DarkBlue => assert(";40"@ =~= seq![';', '4', '0']),
        BgColors::Orange => assert(";41"@ =~= seq![';', '4', '1']),
        BgColors::MarbleBlue => assert(";42"@ =~= seq![';', '4', '2']),
        BgColors::Turqoise => assert(";43"@ =~= seq![';', '4', '3']),
        BgColors::Grey => assert(";44"@ =~= seq![';', '4', '4']),
        BgColors::Indigo => assert(";45"@ =~= seq![';', '4', '5']),
        BgColors::LightGrey => assert(";46"@ =~= seq![';', '4', '6']),
        BgColors::White => assert(";47"@ =~= seq![';', '4', '7']),
        BgColors::Unset => {},
    }
}

/// The layout of every escape sequence: reset, then `ESC [`, the style
/// digit (1 bold, 4 underline, else 0), for a set foreground `;3` and the
/// colour's position in its declaration (Grey 0 to White 7), for a set
/// background `;4` and its position (DarkBlue 0 to White 7), then `m`.
pub proof fn lemma_ansi_layout(color: TextColors, bg: BgColors, style: Style)
    ensures
        ansi_seq(color, bg, style) == seq!['\x1b', '[', '0', 'm', '\x1b', '[']
            + seq![
            match style {
                Style::Bold => '1',
                Style::Underline => '4',
                _ => '0',
            },
        ] + (if color == TextColors::Unset {
            Seq::<char>::empty()
        } else {
            seq![';', '3', digit_char(text_color_position(color))]
        }) + (if bg == BgColors::Unset {
            Seq::<char>::empty()
        } else {
            seq![';', '4', digit_char(bg_color_position(bg))]
        }) + seq!['m'],
{
    lemma_style_part(style);
    lemma_color_part(color);
    lemma_bg_part(bg);
    reveal_strlit("\x1b[0m\x1b[");
    reveal_strlit("m");
    assert("\x1b[0m\x1b["@ =~= seq!['\x1b', '[', '0', 'm', '\x1b', '[']);
    assert("m"@ =~= seq!['m']);
}

// ---------------------------------------------------------------------------
// The request of `run`
// ---------------------------------------------------------------------------

/// The request for a code block with a language follows the flags read from
/// the flag text: the same version, input and arguments, the flag files after
/// the block's file, the flag language where one is given; and there is a
/// request exactly when the flags can be read.
pub proof fn lemma_request_follows_flags(lang: Seq<char>, code: Seq<char>, raw: Option<Seq<char>>)
    ensures
        ({
            let text = match raw {
                Some(t) => t,
                None => Seq::empty(),
            };
            &&& run_plan_spec(Some(lang), code, raw) is None <==> parse_args_spec(text) is None
            &&& run_plan_spec(Some(lang), code, raw) matches Some(RunPlanView::Execute(d)) ==> {
                &&& parse_args_spec(text) matches Some(p)
                &&& d.version == p.version
                &&& d.stdin == p.stdin
                &&& d.args == p.args
                &&& d.files.len() == p.files.len() + 1
                &&& d.files[0].content == code
                &&& d.files.drop_first() == p.files
                &&& d.language == match p.language {
                    Some(l) => l,
                    None => lang,
                }
            }
        }),
{
    let text = match raw {
        Some(t) => t,
        None => Seq::<char>::empty(),
    };
    match parse_args_spec(text) {
        Some(p) => {
            let d = crate::run::exec_request(lang, code, p);
            assert(d.files.drop_first() =~= p.files);
        },
        None => {},
    }
}

proof fn lemma_flag_split_word(w: Seq<char>, rest: Seq<char>, cur: Seq<char>)
    requires
        forall|i: int| 0 <= i < w.len() ==> w[i] != '-' && w[i] != '=',
    ensures
        flag_split_from(w + rest, cur) == flag_split_from(rest, cur + w),
    decreases w.len(),
{
    if w.len() == 0 {
        assert(w + rest =~= rest);
        assert(cur + w =~= cur);
    } else {
        assert((w + rest).drop_first() =~= w.drop_first() + rest);
        assert(cur.push(w[0]) + w.drop_first() =~= cur + w);
        lemma_flag_split_word(w.drop_first(), rest, cur.push(w[0]));
    }
}

/// The pieces of `--w=v` for a word `w` and a value `v` without `-` or `=`.
proof fn lemma_one_flag_pieces(w: Seq<char>, v: Seq<char>)
    requires
        forall|i: int| 0 <= i < w.len() ==> w[i] != '-' && w[i] != '=',
        forall|i: int| 0 <= i < v.len() ==> v[i] != '-' && v[i] != '=',
    ensures
        flag_split(seq!['-', '-'] + w + seq!['='] + v) == seq![Seq::<char>::empty(), w, v],
{
    let s = seq!['-', '-'] + w + seq!['='] + v;
    assert(s.skip(2) =~= w + (seq!['='] + v));
    lemma_flag_split_word(w, seq!['='] + v, Seq::empty());
    assert(Seq::<char>::empty() + w =~= w);
    assert((seq!['='] + v).drop_first() =~= v);
    lemma_flag_split_plain(v, Seq::empty());
    assert(Seq::<char>::empty() + v =~= v);
    assert(flag_split(s) =~= seq![Seq::<char>::empty(), w, v]);
}

/// Reading pieces that start with an empty one is reading the rest.
proof fn lemma_skip_empty_piece(pieces: Seq<Seq<char>>, acc: ParsedArgsView)
    requires
        pieces.len() > 0,
        pieces[0] == Seq::<char>::empty(),
    ensures
        parse_pieces(pieces, acc) == parse_pieces(pieces.drop_first(), acc),
{
    reveal_strlit("file-");
    reveal_strlit("version");
    reveal_strlit("language");
    reveal_strlit("stdin");
    reveal_strlit("args");
    reveal_strlit("debug");
    assert(trim(pieces[0]) == Seq::<char>::empty());
    assert(!has_prefix(pieces[0], "file-"@));
    assert(Seq::<char>::empty() != "version"@ && Seq::<char>::empty() != "language"@);
    assert(Seq::<char>::empty() != "stdin"@ && Seq::<char>::empty() != "args"@);
    assert(Seq::<char>::empty() != "debug"@);
}

/// Reading a setting's key and its value, and nothing after them.
proof fn lemma_key_value(w: Seq<char>, v: Seq<char>)
    requires
        w == "version"@ || w == "language"@ || w == "stdin"@ || w == "args"@,
    ensures
        parse_pieces(seq![w, v], initial_args()) == parse_pieces(
            Seq::<Seq<char>>::empty(),
            if w == "version"@ {
                ParsedArgsView { version: trim(v), ..initial_args() }
            } else if w == "language"@ {
                ParsedArgsView { language: Some(trim(v)), ..initial_args() }
            } else if w == "stdin"@ {
                ParsedArgsView { stdin: trim(v), ..initial_args() }
            } else if w == "args"@ {
                ParsedArgsView {
                    args: initial_args().args + crate::text::split_char(v, ',').map_values(
                        |a: Seq<char>| trim(a),
                    ),
                    ..initial_args()
                }
            } else {
                initial_args()
            },
        ),
{
    reveal_strlit("version");
    reveal_strlit("language");
    reveal_strlit("stdin");
    reveal_strlit("args");
    assert(w.len() > 0 && !is_ws(w[0]) && !is_ws(w.last()));
    assert(trim(w) == w);
    assert(seq![w, v].drop_first() =~= seq![v]);
    assert(seq![v].drop_first() =~= Seq::<Seq<char>>::empty());
}

/// A flag text `--version=v`, `--language=v`, `--stdin=v` or `--args=v`,
/// where `v` holds no `-` or `=`, sets that one setting to `v` trimmed (the
/// arguments: `v` split at commas, each part trimmed) and leaves every other
/// setting at its default; a code block run with `--version=v` is sent with
/// that version.
pub proof fn lemma_single_flag(v: Seq<char>, lang: Seq<char>, code: Seq<char>)
    requires
        forall|i: int| 0 <= i < v.len() ==> v[i] != '-' && v[i] != '=',
    ensures
        parse_args_spec("--version="@ + v) == Some(ParsedArgsView { version: trim(v), ..initial_args() }),
        parse_args_spec("--language="@ + v) == Some(
            ParsedArgsView { language: Some(trim(v)), ..initial_args() },
        ),
        parse_args_spec("--stdin="@ + v) == Some(ParsedArgsView { stdin: trim(v), ..initial_args() }),
        parse_args_spec("--args="@ + v) == Some(
            ParsedArgsView {
                args: crate::text::split_char(v, ',').map_values(|a: Seq<char>| trim(a)),
                ..initial_args()
            },
        ),
        run_plan_spec(Some(lang), code, Some("--version="@ + v)) matches Some(RunPlanView::Execute(d))
            && d.version == trim(v),
{
    reveal_strlit("--version=");
    reveal_strlit("--language=");
    reveal_strlit("--stdin=");
    reveal_strlit("--args=");
    reveal_strlit("version");
    reveal_strlit("language");
    reveal_strlit("stdin");
    reveal_strlit("args");
    let ws: Seq<Seq<char>> = seq!["version"@, "language"@, "stdin"@, "args"@];
    let texts: Seq<Seq<char>> = seq!["--version="@, "--language="@, "--stdin="@, "--args="@];
    assert forall|j: int| 0 <= j < 4 implies parse_args_spec(#[trigger] texts[j] + v) == parse_pieces(
        seq![ws[j], v],
        initial_args(),
    ) by {
        let w = ws[j];
        assert(texts[j] + v =~= seq!['-', '-'] + w + seq!['='] + v);
        lemma_one_flag_pieces(w, v);
        let pieces = seq![Seq::<char>::empty(), w, v];
        lemma_skip_empty_piece(pieces, initial_args());
        assert(pieces.drop_first() =~= seq![w, v]);
    }
    assert(texts[0] == "--version="@);
    assert(texts[1] == "--language="@);
    assert(texts[2] == "--stdin="@);
    assert(texts[3] == "--args="@);
    lemma_key_value("version"@, v);
    lemma_key_value("language"@, v);
    lemma_key_value("stdin"@, v);
    lemma_key_value("args"@, v);
    assert("language"@ != "version"@ && "stdin"@ != "version"@ && "args"@ != "version"@);
    assert("stdin"@ != "language"@ && "args"@ != "language"@ && "args"@ != "stdin"@);
    assert(Seq::<Seq<char>>::empty() + crate::text::split_char(v, ',').map_values(
        |a: Seq<char>| trim(a),
    ) =~= crate::text::split_char(v, ',').map_values(|a: Seq<char>| trim(a)));
}

// ---------------------------------------------------------------------------
// Package replies
// ---------------------------------------------------------------------------

/// The PyPI embed has a `License` field, and every `License` field holds the
/// package's licence, or `Unknown` where it has none.
pub proof fn lemma_pypi_license(d: PypiAPIData)
    ensures
        pypi_reply_spec(PypiResponse::PypiAPIData(d)).embed matches Some(e) && (exists|i: int|
            0 <= i < e.fields.len() && (#[trigger] e.fields[i]).name == "License"@) && (forall|i: int|
            0 <= i < e.fields.len() && (#[trigger] e.fields[i]).name == "License"@
                ==> e.fields[i].value == match d.info.license {
                Some(l) => l@,
                None => "Unknown"@,
            }),
{
    let e = pypi_reply_spec(PypiResponse::PypiAPIData(d)).embed->0;
    reveal_strlit("License");
    reveal_strlit("Version");
    reveal_strlit("Author");
    reveal_strlit("Python version required");
    reveal_strlit("Links");
    assert("Version"@[0] != "License"@[0]);
    assert("Author"@.len() != "License"@.len());
    assert("Python version required"@.len() != "License"@.len());
    assert("Links"@.len() != "License"@.len());
    assert(e.fields[2].name == "License"@);
}

/// The links of a crate without documentation or homepage: its crates.io
/// page, then its repository.
pub proof fn lemma_crate_links_base(c: CrateInfo)
    requires
        c.documentation is None,
        c.homepage is None,
    ensures
        crate_links(c) == "[Package](https://crates.io/crates/"@ + c.name@ + ") [Repository]("@
            + c.repository@ + ")"@,
{
    assert(crate_links(c) =~= "[Package](https://crates.io/crates/"@ + c.name@ + ") [Repository]("@
        + c.repository@ + ")"@);
}

/// A documentation address adds ` [Documentation](address)` right after the
/// repository link (before any homepage link).
pub proof fn lemma_crate_links_documentation(c: CrateInfo, d: String)
    requires
        c.documentation == Some(d),
        c.homepage is None,
    ensures
        crate_links(c) == crate_links(CrateInfo { documentation: None, ..c }) + " [Documentation]("@
            + d@ + ")"@,
{
    assert(crate_links(c) =~= crate_links(CrateInfo { documentation: None, ..c })
        + " [Documentation]("@ + d@ + ")"@);
}

/// A homepage adds ` [Homepage](address)` at the end of the links.
pub proof fn lemma_crate_links_homepage(c: CrateInfo, h: String)
    requires
        c.homepage == Some(h),
    ensures
        crate_links(c) == crate_links(CrateInfo { homepage: None, ..c }) + " [Homepage]("@ + h@
            + ")"@,
{
    assert(crate_links(c) =~= crate_links(CrateInfo { homepage: None, ..c }) + " [Homepage]("@
        + h@ + ")"@);
}

/// The crates.io embed has one `License` field and one `Links` field: the
/// licence of the version shown (`Unknown` where it has none), and the
/// crate's links.
pub proof fn lemma_crate_license_and_links(d: CrateAPIData)
    requires
        d.versions.len() >= 2,
    ensures
        crates_reply_spec(CrateAPIResponse::CrateAPIData(d)).embed matches Some(e) && (exists|i: int|
            0 <= i < e.fields.len() && (#[trigger] e.fields[i]).name == "License"@) && (forall|i: int|
            0 <= i < e.fields.len() && (#[trigger] e.fields[i]).name == "License"@
                ==> e.fields[i].value == match d.versions@[1].license {
                Some(l) => l@,
                None => "Unknown"@,
            }) && (exists|i: int|
            0 <= i < e.fields.len() && (#[trigger] e.fields[i]).name == "Links"@) && (forall|i: int|
            0 <= i < e.fields.len() && (#[trigger] e.fields[i]).name == "Links"@
                ==> e.fields[i].value == crate_links(d.crate_)),
{
    let e = crates_reply_spec(CrateAPIResponse::CrateAPIData(d)).embed->0;
    reveal_strlit("License");
    reveal_strlit("Links");
    reveal_strlit("Categories");
    reveal_strlit("Downloads");
    reveal_strlit("Author");
    reveal_strlit("Latest Version");
    assert("Categories"@.len() != "License"@.len() && "Categories"@.len() != "Links"@.len());
    assert("Downloads"@.len() != "License"@.len() && "Downloads"@.len() != "Links"@.len());
    assert("Author"@.len() != "License"@.len() && "Author"@.len() != "Links"@.len());
    assert("Latest Version"@.len() != "License"@.len() && "Latest Version"@.len() != "Links"@.len());
    assert("License"@.len() != "Links"@.len());
    let c: int = if d.categories.len() > 0 { 1 } else { 0 };
    let a: int = if d.versions@[1].published_by is Some { 1 } else { 0 };
    assert(e.fields.len() == c + a + 4);
    assert(e.fields[c].name == "License"@);
    assert(e.fields[c + a + 2].name == "Links"@);
    assert forall|i: int| 0 <= i < e.fields.len() && (#[trigger] e.fields[i]).name == "License"@
        implies i == c by {}
    assert forall|i: int| 0 <= i < e.fields.len() && (#[trigger] e.fields[i]).name == "Links"@
        implies i == c + a + 2 by {}
}

/// The repository address drops a leading `git+` and a trailing `.git`, and
/// an address with neither is kept as it is.
pub proof fn lemma_repository_link_strips(u: Seq<char>)
    ensures
        repository_link("git+"@ + u + ".git"@) == u,
        !has_prefix(u, "git+"@) && !crate::text::has_suffix(u, ".git"@) ==> repository_link(u) == u,
{
    reveal_strlit("git+");
    reveal_strlit(".git");
    let s = "git+"@ + u + ".git"@;
    assert(s.take(4) =~= "git+"@);
    let t = s.skip(4);
    assert(t =~= u + ".git"@);
    assert(t.skip(t.len() - 4) =~= ".git"@);
    assert(t.take(t.len() - 4) =~= u);
}

// ---------------------------------------------------------------------------
// Inventory links
// ---------------------------------------------------------------------------

/// An entry's link is the base URL followed by its location, where a
/// location ending in `$` has the entry's name (the first group) in place of
/// the `$`, whatever the display name.
pub proof fn lemma_entry_link_location(
    g: Seq<Option<Seq<char>>>,
    item: Seq<char>,
    known: Map<Seq<char>, Seq<char>>,
    url: Seq<char>,
    ignore: Option<Seq<Seq<char>>>,
)
    requires
        g.len() >= 5,
    ensures
        entry_step(Some(g), item, known, url, ignore) matches Ok(Some(kv)) ==> kv.1 == if (
        g[3]->0).len() > 0 && (g[3]->0).last() == '$' {
            url + (g[3]->0).drop_last() + g[0]->0
        } else {
            url + g[3]->0
        },
{
    reveal(entry_step);
    let location = g[3]->0;
    let name = g[0]->0;
    assert(url + (location.drop_last() + name) =~= url + location.drop_last() + name);
}

/// Two entry lines that differ only in their display name get the same link.
pub proof fn lemma_entry_link_ignores_display_name(
    g: Seq<Option<Seq<char>>>,
    shown: Seq<char>,
    item: Seq<char>,
    known: Map<Seq<char>, Seq<char>>,
    url: Seq<char>,
    ignore: Option<Seq<Seq<char>>>,
)
    requires
        g.len() >= 5,
    ensures
        entry_step(Some(g), item, known, url, ignore) matches Ok(Some(a)) ==> entry_step(
            Some(g.update(4, Some(shown))),
            item,
            known,
            url,
            ignore,
        ) matches Ok(Some(b)) && a.1 == b.1,
{
    lemma_entry_link_location(g, item, known, url, ignore);
    lemma_entry_link_location(g.update(4, Some(shown)), item, known, url, ignore);
    reveal(entry_step);
    let h = g.update(4, Some(shown));
    assert(h[0] == g[0] && h[1] == g[1] && h[3] == g[3]);
    if entry_step(Some(g), item, known, url, ignore) is Ok {
        assert(crate::inventory::all_present(h)) by {
            assert forall|i: int| 0 <= i < h.len() implies (#[trigger] h[i]) is Some by {
                if i != 4 {
                    assert(h[i] == g[i]);
                }
            }
        }
    }
}

/// Without ignored namespaces, an entry's key is its display name (its name
/// where the display name is `-`), in the `std` domain after the role and a
/// `:`, the role of a `std:doc` entry being `label`.
pub proof fn lemma_entry_key(
    g: Seq<Option<Seq<char>>>,
    item: Seq<char>,
    known: Map<Seq<char>, Seq<char>>,
    url: Seq<char>,
)
    requires
        g.len() >= 5,
    ensures
        entry_step(Some(g), item, known, url, None) matches Ok(Some(kv)) ==> crate::text::split_once_char(
            g[1]->0,
            ':',
        ) matches Some(dr) && kv.0 == (if dr.0 == "std"@ {
            (if g[1]->0 == "std:doc"@ {
                "label"@
            } else {
                dr.1
            }) + ":"@
        } else {
            Seq::<char>::empty()
        }) + (if g[4]->0 == "-"@ {
            g[0]->0
        } else {
            g[4]->0
        }),
{
    reveal(entry_step);
}

} // verus!
