//! The `rtfm` command: documentation targets, their aliases, the links read
//! from their inventories, and the reply to a search.
use vstd::prelude::*;

use crate::embed::{embed_reply, empty_embed, text_reply, Embed, EmbedView, Reply, ReplyView};
use crate::inventory::{headers_sliceable, inventory_spec, InventoryError, SphinxInventory};
use crate::map::{as_map, lookup, TextMap};
use crate::text::{join, join_strings};

verus! {

/// The documentation targets: their inventory locations, the overrides of
/// the inventory file, the namespaces left out of lookup keys, and the
/// aliases users type.
pub struct RtfmData {
    pub targets: TextMap<String>,
    pub url_overrides: TextMap<String>,
    pub ignore_namespaces: TextMap<Vec<String>>,
    /// The aliases of each target, as configured.
    pub aliases_raw: Option<Vec<(String, Vec<String>)>>,
    /// Each alias and its target, once built.
    pub aliases: Option<TextMap<String>>,
}

/// Each alias of each target, paired with the target, target by target.
pub open spec fn alias_pairs(raw: Seq<(Seq<char>, Seq<Seq<char>>)>) -> Seq<(Seq<char>, Seq<char>)>
    decreases raw.len(),
{
    if raw.len() == 0 {
        Seq::empty()
    } else {
        alias_pairs(raw.drop_last()) + raw.last().1.map_values(|a: Seq<char>| (a, raw.last().0))
    }
}

/// `m` with the pairs inserted in order (a later pair for a key wins).
pub open spec fn insert_all(m: Map<Seq<char>, Seq<char>>, pairs: Seq<(Seq<char>, Seq<char>)>) -> Map<
    Seq<char>,
    Seq<char>,
>
    decreases pairs.len(),
{
    if pairs.len() == 0 {
        m
    } else {
        insert_all(m, pairs.drop_last()).insert(pairs.last().0, pairs.last().1)
    }
}

/// The alias map that the configured aliases give.
pub open spec fn alias_map_spec(raw: Seq<(Seq<char>, Seq<Seq<char>>)>) -> Map<Seq<char>, Seq<char>> {
    insert_all(Map::empty(), alias_pairs(raw))
}

/// A target's location, ending with `/`.
pub open spec fn with_slash(t: Seq<char>) -> Seq<char> {
    if t.len() > 0 && t.last() == '/' {
        t
    } else {
        t.push('/')
    }
}

impl RtfmData {
    /// Builds the alias map from the configured aliases, which it takes.
    pub fn make_alias_map(self) -> (r: Self)
        requires
            self.aliases_raw is Some,
        ensures
            r.aliases_raw is None,
            r.aliases matches Some(m) && as_map(m.items()) == alias_map_spec(
                self.aliases_raw.deep_view()->0,
            ),
            r.targets == self.targets,
            r.url_overrides == self.url_overrides,
            r.ignore_namespaces == self.ignore_namespaces,
    {
        let RtfmData { targets, url_overrides, ignore_namespaces, aliases_raw, aliases: _ } = self;
        let raw = match aliases_raw {
            Some(raw) => raw,
            None => {
                proof {
                    assert(false);
                }
                Vec::new()
            },
        };
        let ghost rv = raw.deep_view();
        let mut map: TextMap<String> = TextMap::new();
        let mut i: usize = 0;
        proof {
            assert(as_map(map.items()) =~= Map::<Seq<char>, Seq<char>>::empty());
            assert(rv.take(0) =~= Seq::<(Seq<char>, Seq<Seq<char>>)>::empty());
        }
        while i < raw.len()
            invariant
                i <= raw.len(),
                rv == raw.deep_view(),
                as_map(map.items()) == insert_all(Map::empty(), alias_pairs(rv.take(i as int))),
            decreases raw.len() - i,
        {
            let target = &raw[i].0;
            let names = &raw[i].1;
            let ghost done = alias_pairs(rv.take(i as int));
            proof {
                assert(rv.take(i + 1).drop_last() =~= rv.take(i as int));
                assert(rv.take(i + 1).last() == rv[i as int]);
            }
            let mut j: usize = 0;
            proof {
                assert(done + names.deep_view().take(0).map_values(|a: Seq<char>| (a, target@))
                    =~= done);
            }
            while j < names.len()
                invariant
                    j <= names.len(),
                    rv == raw.deep_view(),
                    names.deep_view() == rv[i as int].1,
                    target@ == rv[i as int].0,
                    as_map(map.items()) == insert_all(
                        Map::empty(),
                        done + names.deep_view().take(j as int).map_values(
                            |a: Seq<char>| (a, target@),
                        ),
                    ),
                decreases names.len() - j,
            {
                let ghost before = as_map(map.items());
                let ghost old_items = map.items();
                let ghost pairs = done + names.deep_view().take(j as int).map_values(
                    |a: Seq<char>| (a, target@),
                );
                let ghost next = done + names.deep_view().take(j + 1).map_values(
                    |a: Seq<char>| (a, target@),
                );
                let alias = names[j].clone();
                let value = target.clone();
                let ghost kv = alias@;
                map.insert(alias, value);
                proof {
                    assert(next.drop_last() =~= pairs);
                    assert(next.last() == (kv, target@));
                    assert forall|q: Seq<char>|
                        #![auto]
                        lookup(map.items(), q) == if q == kv {
                            Some(target@)
                        } else {
                            lookup(old_items, q)
                        } by {
                        assert(map.spec_get(q) == lookup(map.items(), q));
                    }
                    assert(as_map(map.items()) =~= before.insert(kv, target@));
                }
                j = j + 1;
            }
            proof {
                assert(names.deep_view().take(j as int) =~= names.deep_view());
                assert(alias_pairs(rv.take(i + 1)) =~= done + names.deep_view().map_values(
                    |a: Seq<char>| (a, target@),
                ));
            }
            i = i + 1;
        }
        proof {
            assert(rv.take(i as int) =~= rv);
        }
        RtfmData { targets, url_overrides, ignore_namespaces, aliases_raw: None, aliases: Some(map) }
    }

    /// The alias map.
    pub fn alias_map(&self) -> (m: &TextMap<String>)
        requires
            self.aliases is Some,
        ensures
            self.aliases == Some(*m),
    {
        self.aliases.as_ref().unwrap()
    }

    /// The target that the alias `name` stands for.
    pub fn resolve(&self, name: &String) -> (r: Option<String>)
        requires
            self.aliases is Some,
        ensures
            match r {
                Some(t) => self.aliases->0.spec_get(name@) == Some(t@),
                None => self.aliases->0.spec_get(name@) is None,
            },
    {
        match self.alias_map().get(name) {
            Some(t) => Some(t.clone()),
            None => None,
        }
    }

    /// The base location of target `name` (with a final `/`) and the
    /// location of its inventory: the override if there is one, else
    /// `objects.inv` under the base.
    pub fn inventory_urls(&self, name: &String) -> (r: (String, String))
        requires
            self.targets.spec_get(name@) is Some,
        ensures
            r.0@ == with_slash(self.targets.spec_get(name@)->0),
            r.1@ == match self.url_overrides.spec_get(name@) {
                Some(o) => o,
                None => with_slash(self.targets.spec_get(name@)->0) + "objects.inv"@,
            },
    {
        let target = match self.targets.get(name) {
            Some(t) => t.clone(),
            None => {
                proof {
                    assert(false);
                }
                String::new()
            },
        };
        let tc = crate::text::chars_of(target.as_str());
        let mut base = target;
        if !(tc.len() > 0 && tc[tc.len() - 1] == '/') {
            base.append("/");
            proof {
                reveal_strlit("/");
                assert(base@ =~= tc@.push('/'));
            }
        }
        let object = match self.url_overrides.get(name) {
            Some(o) => o.clone(),
            None => {
                let mut o = base.clone();
                o.append("objects.inv");
                o
            },
        };
        (base, object)
    }

    /// The links of target `name`, read from its inventory `bytes`.
    pub fn links_for(&self, name: &String, bytes: Vec<u8>) -> (r: Result<
        TextMap<String>,
        InventoryError,
    >)
        requires
            self.targets.spec_get(name@) is Some,
            headers_sliceable(bytes@, 0),
        ensures
            match inventory_spec(
                bytes@,
                0,
                with_slash(self.targets.spec_get(name@)->0),
                self.ignore_namespaces.spec_get(name@),
            ) {
                Ok(m) => r matches Ok(x) && as_map(x.items()) == m,
                Err(e) => r matches Err(x) && x@ == e,
            },
    {
        let (base, _object) = self.inventory_urls(name);
        let ignore = self.ignore_namespaces.get(name);
        proof {
            assert(ignore.deep_view() == self.ignore_namespaces.spec_get(name@));
        }
        SphinxInventory::new(bytes).into_map(base.as_str(), ignore)
    }
}

/// The links of the search results `texts`, each paired with its text;
/// `None` where a text has no link.
pub fn matched_links(links: &TextMap<String>, texts: &Vec<String>) -> (r: Option<
    Vec<(String, String)>,
>)
    ensures
        r is None <==> exists|i: int|
            0 <= i < texts.len() && #[trigger] links.spec_get(texts@[i]@) is None,
        r matches Some(v) ==> v.len() == texts.len() && forall|i: int|
            0 <= i < texts.len() ==> #[trigger] v@[i].0@ == texts@[i]@ && links.spec_get(
                texts@[i]@,
            ) == Some(v@[i].1@),
{
    let mut out: Vec<(String, String)> = Vec::new();
    let mut i: usize = 0;
    while i < texts.len()
        invariant
            i <= texts.len(),
            out.len() == i,
            forall|m: int|
                0 <= m < i ==> #[trigger] out@[m].0@ == texts@[m]@ && links.spec_get(texts@[m]@)
                    == Some(out@[m].1@),
        decreases texts.len() - i,
    {
        match links.get(&texts[i]) {
            Some(link) => {
                out.push((texts[i].clone(), link.clone()));
            },
            None => {
                return None;
            },
        }
        i = i + 1;
    }
    proof {
        assert forall|m: int| 0 <= m < texts.len() implies #[trigger] links.spec_get(
            texts@[m]@,
        ) is Some by {
            assert(out@[m].0@ == texts@[m]@);
        }
    }
    Some(out)
}

/// One result line: the text in code style, linked.
pub open spec fn result_line(text: Seq<char>, link: Seq<char>) -> Seq<char> {
    "[`"@ + text + "`]("@ + link + ")"@
}

/// The reply to a search of target `name`: "No matches." without results,
/// else an embed titled with the target whose description lists the results,
/// one per line.
pub open spec fn rtfm_reply_spec(name: Seq<char>, results: Seq<(Seq<char>, Seq<char>)>) -> ReplyView {
    if results.len() == 0 {
        text_reply("No matches."@)
    } else {
        embed_reply(
            EmbedView {
                title: Some(name),
                color: Some(0x8f18a3u32),
                description: Some(
                    join(results.map_values(|r: (Seq<char>, Seq<char>)| result_line(r.0, r.1)), "\n"@),
                ),
                ..empty_embed()
            },
        )
    }
}

/// The reply to a name that is no alias.
pub fn invalid_name_reply() -> (r: Reply)
    ensures
        r@ == text_reply("Invalid name"@),
{
    Reply::text(String::from_str("Invalid name"))
}

/// The reply to a search of target `name` with `results`.
pub fn rtfm_reply(name: &String, results: &Vec<(String, String)>) -> (r: Reply)
    ensures
        r@ == rtfm_reply_spec(name@, results.deep_view()),
{
    if results.len() == 0 {
        return Reply::text(String::from_str("No matches."));
    }
    let mut lines: Vec<String> = Vec::new();
    let mut i: usize = 0;
    while i < results.len()
        invariant
            i <= results.len(),
            lines.deep_view() == results.deep_view().take(i as int).map_values(
                |r: (Seq<char>, Seq<char>)| result_line(r.0, r.1),
            ),
        decreases results.len() - i,
    {
        let mut line = String::from_str("[`");
        line.append(results[i].0.as_str());
        line.append("`](");
        line.append(results[i].1.as_str());
        line.append(")");
        let ghost before = lines.deep_view();
        let ghost lv = line@;
        lines.push(line);
        proof {
            assert(lines.deep_view() =~= before.push(lv));
            assert(results.deep_view().take(i + 1) =~= results.deep_view().take(i as int).push(
                results.deep_view()[i as int],
            ));
            assert(lines.deep_view() =~= results.deep_view().take(i + 1).map_values(
                |r: (Seq<char>, Seq<char>)| result_line(r.0, r.1),
            ));
        }
        i = i + 1;
    }
    proof {
        assert(results.deep_view().take(i as int) =~= results.deep_view());
    }
    let mut e = Embed::new();
    e.title = Some(name.clone());
    e.color = Some(0x8f18a3u32);
    e.description = Some(join_strings(&lines, "\n"));
    Reply::with_embed(e)
}

} // verus!
