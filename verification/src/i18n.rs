//! Localized text tables (English and Spanish) and the lookup of dot-separated
//! keys such as `weather.title`.

use vstd::prelude::*;
use vstd::string::StringExecFns;
use crate::text::str_eq;

verus! {

/// A text table node: a text, or a table of named children.
pub enum TextNode {
    Text(String),
    Table(Vec<(String, TextNode)>),
}

/// The child named `key` of a table (the first entry with that name), or
/// `None` for a missing name or a text node.
pub open spec fn child(node: TextNode, key: Seq<char>) -> Option<TextNode> {
    match node {
        TextNode::Text(_) => None,
        TextNode::Table(entries) => entry_lookup(entries@, key),
    }
}

/// The node of the first entry named `key`.
pub open spec fn entry_lookup(entries: Seq<(String, TextNode)>, key: Seq<char>) -> Option<TextNode>
    decreases entries.len(),
{
    if entries.len() == 0 {
        None
    } else if entries[0].0@ == key {
        Some(entries[0].1)
    } else {
        entry_lookup(entries.drop_first(), key)
    }
}

/// The segments of `s` between dots, as `str::split('.')` yields them.
pub open spec fn split_dots(s: Seq<char>) -> Seq<Seq<char>>
    decreases s.len(),
{
    if s.len() == 0 {
        seq![Seq::<char>::empty()]
    } else {
        let r = split_dots(s.drop_last());
        if s.last() == '.' {
            r.push(Seq::<char>::empty())
        } else {
            r.update(r.len() - 1, r.last().push(s.last()))
        }
    }
}

/// The node reached from `node` by following the names of `path` in turn.
pub open spec fn resolve(node: TextNode, path: Seq<Seq<char>>) -> Option<TextNode>
    decreases path.len(),
{
    if path.len() == 0 {
        Some(node)
    } else {
        match resolve(node, path.drop_last()) {
            Some(n) => child(n, path.last()),
            None => None,
        }
    }
}

/// The text that `I18n::t` answers for `key`: the text at the key in the
/// active table (`es` for locale "es", otherwise `en`); when the key is
/// missing there, the English node; when no text is found, the key itself.
pub open spec fn localized_text(locale: Seq<char>, en: TextNode, es: TextNode, key: Seq<char>) -> Seq<
    char,
> {
    let dict = if locale == "es"@ {
        es
    } else {
        en
    };
    let found = match resolve(dict, split_dots(key)) {
        Some(v) => Some(v),
        None => resolve(en, split_dots(key)),
    };
    match found {
        Some(TextNode::Text(s)) => s@,
        _ => key,
    }
}

/// Whether `node` is a table of texts with exactly the given names and texts.
pub open spec fn section_holds(node: TextNode, pairs: Seq<(Seq<char>, Seq<char>)>) -> bool {
    match node {
        TextNode::Table(w) => {
            &&& w@.len() == pairs.len()
            &&& forall|j: int|
                0 <= j < pairs.len() ==> (#[trigger] w@[j]).0@ == pairs[j].0 && (w@[j].1 matches TextNode::Text(s) && s@ == pairs[j].1)
        },
        TextNode::Text(_) => false,
    }
}

/// Whether `node` is a table of sections with exactly the given names and contents.
pub open spec fn dictionary_holds(
    node: TextNode,
    sections: Seq<(Seq<char>, Seq<(Seq<char>, Seq<char>)>)>,
) -> bool {
    match node {
        TextNode::Table(v) => {
            &&& v@.len() == sections.len()
            &&& forall|i: int|
                0 <= i < sections.len() ==> (#[trigger] v@[i]).0@ == sections[i].0
                    && section_holds(v@[i].1, sections[i].1)
        },
        TextNode::Text(_) => false,
    }
}

/// The views of name/text pairs.
pub open spec fn pair_views(pairs: Seq<(&str, &str)>) -> Seq<(Seq<char>, Seq<char>)> {
    pairs.map_values(|p: (&str, &str)| (p.0@, p.1@))
}

/// The English table.
pub open spec fn english_sections() -> Seq<(Seq<char>, Seq<(Seq<char>, Seq<char>)>)> {
    seq![
        ("app"@, seq![("name"@, "Nimbo"@), ("loading"@, "Loading..."@), ("error"@, "Error"@)]),
        ("weather"@, seq![
            ("title"@, "Weather"@),
            ("feels_like"@, "Feels like"@),
            ("humidity"@, "Humidity"@),
            ("wind"@, "Wind"@),
            ("loading"@, "Loading weather..."@),
            ("error"@, "Could not load weather"@),
        ]),
        ("media"@, seq![
            ("title"@, "Now Playing"@),
            ("no_media"@, "No media playing"@),
            ("play"@, "Play"@),
            ("pause"@, "Pause"@),
            ("next"@, "Next"@),
            ("previous"@, "Previous"@),
        ]),
        ("stats"@, seq![
            ("title"@, "System Stats"@),
            ("cpu"@, "CPU"@),
            ("memory"@, "Memory"@),
            ("disk"@, "Disk"@),
            ("network"@, "Network"@),
        ]),
        ("tray"@, seq![("show_hide"@, "Show / Hide"@), ("quit"@, "Quit"@)]),
        ("settings"@, seq![
            ("title"@, "Settings"@),
            ("language"@, "Language"@),
            ("theme"@, "Theme"@),
            ("theme_light"@, "Light"@),
            ("theme_dark"@, "Dark"@),
            ("theme_glass"@, "Glass"@),
        ]),
    ]
}

/// The Spanish table.
pub open spec fn spanish_sections() -> Seq<(Seq<char>, Seq<(Seq<char>, Seq<char>)>)> {
    seq![
        ("app"@, seq![("name"@, "Nimbo"@), ("loading"@, "Cargando..."@), ("error"@, "Error"@)]),
        ("weather"@, seq![
            ("title"@, "Clima"@),
            ("feels_like"@, "Sensación térmica"@),
            ("humidity"@, "Humedad"@),
            ("wind"@, "Viento"@),
            ("loading"@, "Cargando clima..."@),
            ("error"@, "No se pudo cargar el clima"@),
        ]),
        ("media"@, seq![
            ("title"@, "Reproduciendo"@),
            ("no_media"@, "Sin medios en reproducción"@),
            ("play"@, "Reproducir"@),
            ("pause"@, "Pausar"@),
            ("next"@, "Siguiente"@),
            ("previous"@, "Anterior"@),
        ]),
        ("stats"@, seq![
            ("title"@, "Estadísticas del sistema"@),
            ("cpu"@, "CPU"@),
            ("memory"@, "Memoria"@),
            ("disk"@, "Disco"@),
            ("network"@, "Red"@),
        ]),
        ("tray"@, seq![("show_hide"@, "Mostrar / Ocultar"@), ("quit"@, "Salir"@)]),
        ("settings"@, seq![
            ("title"@, "Configuración"@),
            ("language"@, "Idioma"@),
            ("theme"@, "Tema"@),
            ("theme_light"@, "Claro"@),
            ("theme_dark"@, "Oscuro"@),
            ("theme_glass"@, "Cristal"@),
        ]),
    ]
}

/// A table of texts built from name/text pairs.
fn section(name: &str, pairs: &[(&str, &str)]) -> (entry: (String, TextNode))
    ensures
        entry.0@ == name@,
        section_holds(entry.1, pair_views(pairs@)),
{
    let mut rows: Vec<(String, TextNode)> = Vec::new();
    let mut j: usize = 0;
    while j < pairs.len()
        invariant
            0 <= j <= pairs@.len(),
            rows@.len() == j,
            forall|k: int|
                0 <= k < j ==> (#[trigger] rows@[k]).0@ == pairs@[k].0@ && (rows@[k].1 matches TextNode::Text(s) && s@ == pairs@[k].1@),
        decreases pairs@.len() - j,
    {
        let (key, text) = pairs[j];
        rows.push((String::from_str(key), TextNode::Text(String::from_str(text))));
        j = j + 1;
    }
    (String::from_str(name), TextNode::Table(rows))
}

/// The text tables and the active locale.
pub struct I18n {
    locale: String,
    en: TextNode,
    es: TextNode,
}

fn english() -> (node: TextNode)
    ensures
        dictionary_holds(node, english_sections()),
{
    let sections = vec![
        section("app", &[("name", "Nimbo"), ("loading", "Loading..."), ("error", "Error")]),
        section(
            "weather",
            &[
                ("title", "Weather"),
                ("feels_like", "Feels like"),
                ("humidity", "Humidity"),
                ("wind", "Wind"),
                ("loading", "Loading weather..."),
                ("error", "Could not load weather"),
            ],
        ),
        section(
            "media",
            &[
                ("title", "Now Playing"),
                ("no_media", "No media playing"),
                ("play", "Play"),
                ("pause", "Pause"),
                ("next", "Next"),
                ("previous", "Previous"),
            ],
        ),
        section(
            "stats",
            &[
                ("title", "System Stats"),
                ("cpu", "CPU"),
                ("memory", "Memory"),
                ("disk", "Disk"),
                ("network", "Network"),
            ],
        ),
        section("tray", &[("show_hide", "Show / Hide"), ("quit", "Quit")]),
        section(
            "settings",
            &[
                ("title", "Settings"),
                ("language", "Language"),
                ("theme", "Theme"),
                ("theme_light", "Light"),
                ("theme_dark", "Dark"),
                ("theme_glass", "Glass"),
            ],
        ),
    ];
    TextNode::Table(sections)
}

fn spanish() -> (node: TextNode)
    ensures
        dictionary_holds(node, spanish_sections()),
{
    let sections = vec![
        section("app", &[("name", "Nimbo"), ("loading", "Cargando..."), ("error", "Error")]),
        section(
            "weather",
            &[
                ("title", "Clima"),
                ("feels_like", "Sensación térmica"),
                ("humidity", "Humedad"),
                ("wind", "Viento"),
                ("loading", "Cargando clima..."),
                ("error", "No se pudo cargar el clima"),
            ],
        ),
        section(
            "media",
            &[
                ("title", "Reproduciendo"),
                ("no_media", "Sin medios en reproducción"),
                ("play", "Reproducir"),
                ("pause", "Pausar"),
                ("next", "Siguiente"),
                ("previous", "Anterior"),
            ],
        ),
        section(
            "stats",
            &[
                ("title", "Estadísticas del sistema"),
                ("cpu", "CPU"),
                ("memory", "Memoria"),
                ("disk", "Disco"),
                ("network", "Red"),
            ],
        ),
        section("tray", &[("show_hide", "Mostrar / Ocultar"), ("quit", "Salir")]),
        section(
            "settings",
            &[
                ("title", "Configuración"),
                ("language", "Idioma"),
                ("theme", "Tema"),
                ("theme_light", "Claro"),
                ("theme_dark", "Oscuro"),
                ("theme_glass", "Cristal"),
            ],
        ),
    ];
    TextNode::Table(sections)
}

/// The node an optional reference points to.
pub open spec fn deref_node(o: Option<&TextNode>) -> Option<TextNode> {
    match o {
        Some(n) => Some(*n),
        None => None,
    }
}

/// The child named `key` of `node`, as `serde_json::Value::get` finds it.
fn get_child<'a>(node: &'a TextNode, key: &str) -> (r: Option<&'a TextNode>)
    ensures
        deref_node(r) == child(*node, key@),
{
    match node {
        TextNode::Text(_) => None,
        TextNode::Table(entries) => {
            let mut i: usize = 0;
            assert(entries@.skip(0) =~= entries@);
            while i < entries.len()
                invariant
                    0 <= i <= entries@.len(),
                    child(*node, key@) == entry_lookup(entries@, key@),
                    entry_lookup(entries@, key@) == entry_lookup(entries@.skip(i as int), key@),
                decreases entries@.len() - i,
            {
                assert(entries@.skip(i as int)[0] == entries@[i as int]);
                assert(entries@.skip(i as int).drop_first() =~= entries@.skip(i + 1));
                if str_eq(entries[i].0.as_str(), key) {
                    assert(entries@.skip(i as int).len() > 0);
                    assert(entry_lookup(entries@.skip(i as int), key@) == Some(entries@[i as int].1));
                    return Some(&entries[i].1);
                }
                i = i + 1;
            }
            None
        },
    }
}

proof fn lemma_split_nonempty(s: Seq<char>)
    ensures
        split_dots(s).len() >= 1,
    decreases s.len(),
{
    if s.len() > 0 {
        lemma_split_nonempty(s.drop_last());
    }
}

/// The node reached from `dict` along the dot-separated `key`.
fn resolve_key<'a>(dict: &'a TextNode, key: &str) -> (r: Option<&'a TextNode>)
    ensures
        deref_node(r) == resolve(*dict, split_dots(key@)),
{
    let n = key.unicode_len();
    let mut start: usize = 0;
    let mut i: usize = 0;
    let mut cur: Option<&TextNode> = Some(dict);
    let ghost mut done: Seq<Seq<char>> = Seq::empty();
    assert(key@.take(0) =~= Seq::<char>::empty());
    assert(key@.subrange(0, 0) =~= Seq::<char>::empty());
    while i < n
        invariant
            n == key@.len(),
            0 <= start <= i <= n,
            split_dots(key@.take(i as int)) == done.push(key@.subrange(start as int, i as int)),
            deref_node(cur) == resolve(*dict, done),
        decreases n - i,
    {
        let c = key.get_char(i);
        let ghost prefix = key@.take(i as int);
        assert(key@.take(i + 1).drop_last() =~= prefix);
        assert(key@.take(i + 1).last() == c);
        proof {
            lemma_split_nonempty(prefix);
        }
        if c == '.' {
            let segment = key.substring_char(start, i);
            cur = match cur {
                Some(node) => get_child(node, segment),
                None => None,
            };
            proof {
                let seg = key@.subrange(start as int, i as int);
                assert(done.push(seg).drop_last() =~= done);
                done = done.push(seg);
                assert(key@.subrange((i + 1) as int, (i + 1) as int) =~= Seq::<char>::empty());
            }
            start = i + 1;
        } else {
            proof {
                assert(key@.subrange(start as int, i + 1) =~= key@.subrange(
                    start as int,
                    i as int,
                ).push(c));
                assert(done.push(key@.subrange(start as int, i as int)).update(
                    done.len() as int,
                    key@.subrange(start as int, i as int).push(c),
                ) =~= done.push(key@.subrange(start as int, i + 1)));
            }
        }
        i = i + 1;
    }
    assert(key@.take(n as int) =~= key@);
    let segment = key.substring_char(start, n);
    let r = match cur {
        Some(node) => get_child(node, segment),
        None => None,
    };
    proof {
        let path = done.push(key@.subrange(start as int, n as int));
        assert(path.drop_last() =~= done);
    }
    r
}

/// Whether a name holds no dot.
pub open spec fn dotless(s: Seq<char>) -> bool {
    forall|k: int| 0 <= k < s.len() ==> s[k] != '.'
}

/// Whether every section name and every entry name of `sections` is free of
/// dots, and no name repeats an earlier one at the same level.
pub open spec fn keys_well_formed(sections: Seq<(Seq<char>, Seq<(Seq<char>, Seq<char>)>)>) -> bool {
    &&& forall|i: int| 0 <= i < sections.len() ==> dotless(#[trigger] sections[i].0)
    &&& forall|i: int, k: int|
        0 <= k < i < sections.len() ==> #[trigger] sections[k].0 != #[trigger] sections[i].0
    &&& forall|i: int, j: int|
        0 <= i < sections.len() && 0 <= j < sections[i].1.len() ==> dotless(
            #[trigger] sections[i].1[j].0,
        )
    &&& forall|i: int, j: int, k: int|
        0 <= i < sections.len() && 0 <= k < j < sections[i].1.len() ==> #[trigger] sections[i].1[k].0
            != #[trigger] sections[i].1[j].0
}

proof fn lemma_split_dotless(s: Seq<char>)
    requires
        dotless(s),
    ensures
        split_dots(s) == seq![s],
    decreases s.len(),
{
    if s.len() > 0 {
        assert forall|k: int| 0 <= k < s.drop_last().len() implies s.drop_last()[k] != '.' by {
            assert(s.drop_last()[k] == s[k]);
        }
        lemma_split_dotless(s.drop_last());
        assert(s[s.len() - 1] != '.');
        assert(s.drop_last().push(s.last()) =~= s);
        assert(seq![s.drop_last()].update(0, s.drop_last().push(s.last())) =~= seq![s]);
    } else {
        assert(s =~= Seq::<char>::empty());
    }
}

proof fn lemma_split_pair(a: Seq<char>, b: Seq<char>)
    requires
        dotless(a),
        dotless(b),
    ensures
        split_dots(a + seq!['.'] + b) == seq![a, b],
    decreases b.len(),
{
    let key = a + seq!['.'] + b;
    if b.len() == 0 {
        assert(b =~= Seq::<char>::empty());
        assert(key.drop_last() =~= a);
        lemma_split_dotless(a);
        assert(seq![a].push(Seq::<char>::empty()) =~= seq![a, b]);
    } else {
        assert forall|k: int| 0 <= k < b.drop_last().len() implies b.drop_last()[k] != '.' by {
            assert(b.drop_last()[k] == b[k]);
        }
        assert(b[b.len() - 1] != '.');
        lemma_split_pair(a, b.drop_last());
        assert(key.drop_last() =~= a + seq!['.'] + b.drop_last());
        assert(key.last() == b.last());
        assert(b.drop_last().push(b.last()) =~= b);
        assert(seq![a, b.drop_last()].update(1, b.drop_last().push(b.last())) =~= seq![a, b]);
    }
}

proof fn lemma_entry_lookup_at(entries: Seq<(String, TextNode)>, key: Seq<char>, i: int)
    requires
        0 <= i < entries.len(),
        entries[i].0@ == key,
        forall|k: int| 0 <= k < i ==> (#[trigger] entries[k]).0@ != key,
    ensures
        entry_lookup(entries, key) == Some(entries[i].1),
    decreases i,
{
    if i > 0 {
        assert(entries[0].0@ != key);
        let rest = entries.drop_first();
        assert forall|k: int| 0 <= k < i - 1 implies (#[trigger] rest[k]).0@ != key by {
            assert(rest[k] == entries[k + 1]);
        }
        lemma_entry_lookup_at(rest, key, i - 1);
    }
}

/// In a dictionary with well-formed keys, "section.entry" resolves to the
/// entry's text.
proof fn lemma_dictionary_key(
    dict: TextNode,
    sections: Seq<(Seq<char>, Seq<(Seq<char>, Seq<char>)>)>,
    i: int,
    j: int,
)
    requires
        dictionary_holds(dict, sections),
        keys_well_formed(sections),
        0 <= i < sections.len(),
        0 <= j < sections[i].1.len(),
    ensures
        resolve(dict, split_dots(sections[i].0 + seq!['.'] + sections[i].1[j].0)) matches Some(
            TextNode::Text(s),
        ) && s@ == sections[i].1[j].1,
{
    let a = sections[i].0;
    let b = sections[i].1[j].0;
    lemma_split_pair(a, b);
    let path = seq![a, b];
    assert(path.drop_last() =~= seq![a]);
    assert(seq![a].drop_last() =~= Seq::<Seq<char>>::empty());
    assert(resolve(dict, Seq::<Seq<char>>::empty()) == Some(dict));
    assert(resolve(dict, seq![a]) == child(dict, a));
    assert(resolve(dict, path) == match child(dict, a) {
        Some(n) => child(n, b),
        None => None,
    });
    match dict {
        TextNode::Table(v) => {
            assert(v@[i].0@ == a);
            assert forall|k: int| 0 <= k < i implies (#[trigger] v@[k]).0@ != a by {
                assert(v@[k].0@ == sections[k].0);
            }
            lemma_entry_lookup_at(v@, a, i);
            let sec = v@[i].1;
            assert(section_holds(sec, sections[i].1));
            match sec {
                TextNode::Table(w) => {
                    assert(w@[j].0@ == b);
                    assert forall|k: int| 0 <= k < j implies (#[trigger] w@[k]).0@ != b by {
                        assert(w@[k].0@ == sections[i].1[k].0);
                    }
                    lemma_entry_lookup_at(w@, b, j);
                },
                TextNode::Text(_) => {},
            }
        },
        TextNode::Text(_) => {},
    }
}

/// Two names differ when their lengths or the characters at `k` differ.
proof fn lemma_names_differ(a: Seq<char>, b: Seq<char>, k: int)
    requires
        a.len() != b.len() || (0 <= k < a.len() && k < b.len() && a[k] != b[k]),
    ensures
        a != b,
{
}

/// The names of the built-in tables are dot-free and distinct at each level.
proof fn lemma_builtin_names()
    ensures
        keys_well_formed(english_sections()),
        keys_well_formed(spanish_sections()),
{
    reveal_strlit("app");
    reveal_strlit("cpu");
    reveal_strlit("disk");
    reveal_strlit("error");
    reveal_strlit("feels_like");
    reveal_strlit("humidity");
    reveal_strlit("language");
    reveal_strlit("loading");
    reveal_strlit("media");
    reveal_strlit("memory");
    reveal_strlit("name");
    reveal_strlit("network");
    reveal_strlit("next");
    reveal_strlit("no_media");
    reveal_strlit("pause");
    reveal_strlit("play");
    reveal_strlit("previous");
    reveal_strlit("quit");
    reveal_strlit("settings");
    reveal_strlit("show_hide");
    reveal_strlit("stats");
    reveal_strlit("theme");
    reveal_strlit("theme_dark");
    reveal_strlit("theme_glass");
    reveal_strlit("theme_light");
    reveal_strlit("title");
    reveal_strlit("tray");
    reveal_strlit("weather");
    reveal_strlit("wind");
    assert(dotless("app"@));
    assert(dotless("cpu"@));
    assert(dotless("disk"@));
    assert(dotless("error"@));
    assert(dotless("feels_like"@));
    assert(dotless("humidity"@));
    assert(dotless("language"@));
    assert(dotless("loading"@));
    assert(dotless("media"@));
    assert(dotless("memory"@));
    assert(dotless("name"@));
    assert(dotless("network"@));
    assert(dotless("next"@));
    assert(dotless("no_media"@));
    assert(dotless("pause"@));
    assert(dotless("play"@));
    assert(dotless("previous"@));
    assert(dotless("quit"@));
    assert(dotless("settings"@));
    assert(dotless("show_hide"@));
    assert(dotless("stats"@));
    assert(dotless("theme"@));
    assert(dotless("theme_dark"@));
    assert(dotless("theme_glass"@));
    assert(dotless("theme_light"@));
    assert(dotless("title"@));
    assert(dotless("tray"@));
    assert(dotless("weather"@));
    assert(dotless("wind"@));
    lemma_names_differ("app"@, "weather"@, -1);
    lemma_names_differ("app"@, "media"@, -1);
    lemma_names_differ("weather"@, "media"@, -1);
    lemma_names_differ("app"@, "stats"@, -1);
    lemma_names_differ("weather"@, "stats"@, -1);
    lemma_names_differ("media"@, "stats"@, 0);
    lemma_names_differ("app"@, "tray"@, -1);
    lemma_names_differ("weather"@, "tray"@, -1);
    lemma_names_differ("media"@, "tray"@, -1);
    lemma_names_differ("stats"@, "tray"@, -1);
    lemma_names_differ("app"@, "settings"@, -1);
    lemma_names_differ("weather"@, "settings"@, -1);
    lemma_names_differ("media"@, "settings"@, -1);
    lemma_names_differ("stats"@, "settings"@, -1);
    lemma_names_differ("tray"@, "settings"@, -1);
    lemma_names_differ("name"@, "loading"@, -1);
    lemma_names_differ("name"@, "error"@, -1);
    lemma_names_differ("loading"@, "error"@, -1);
    lemma_names_differ("title"@, "feels_like"@, -1);
    lemma_names_differ("title"@, "humidity"@, -1);
    lemma_names_differ("feels_like"@, "humidity"@, -1);
    lemma_names_differ("title"@, "wind"@, -1);
    lemma_names_differ("feels_like"@, "wind"@, -1);
    lemma_names_differ("humidity"@, "wind"@, -1);
    lemma_names_differ("title"@, "loading"@, -1);
    lemma_names_differ("feels_like"@, "loading"@, -1);
    lemma_names_differ("humidity"@, "loading"@, -1);
    lemma_names_differ("wind"@, "loading"@, -1);
    lemma_names_differ("title"@, "error"@, 0);
    lemma_names_differ("feels_like"@, "error"@, -1);
    lemma_names_differ("humidity"@, "error"@, -1);
    lemma_names_differ("wind"@, "error"@, -1);
    lemma_names_differ("loading"@, "error"@, -1);
    lemma_names_differ("title"@, "no_media"@, -1);
    lemma_names_differ("title"@, "play"@, -1);
    lemma_names_differ("no_media"@, "play"@, -1);
    lemma_names_differ("title"@, "pause"@, 0);
    lemma_names_differ("no_media"@, "pause"@, -1);
    lemma_names_differ("play"@, "pause"@, -1);
    lemma_names_differ("title"@, "next"@, -1);
    lemma_names_differ("no_media"@, "next"@, -1);
    lemma_names_differ("play"@, "next"@, 0);
    lemma_names_differ("pause"@, "next"@, -1);
    lemma_names_differ("title"@, "previous"@, -1);
    lemma_names_differ("no_media"@, "previous"@, 0);
    lemma_names_differ("play"@, "previous"@, -1);
    lemma_names_differ("pause"@, "previous"@, -1);
    lemma_names_differ("next"@, "previous"@, -1);
    lemma_names_differ("title"@, "cpu"@, -1);
    lemma_names_differ("title"@, "memory"@, -1);
    lemma_names_differ("cpu"@, "memory"@, -1);
    lemma_names_differ("title"@, "disk"@, -1);
    lemma_names_differ("cpu"@, "disk"@, -1);
    lemma_names_differ("memory"@, "disk"@, -1);
    lemma_names_differ("title"@, "network"@, -1);
    lemma_names_differ("cpu"@, "network"@, -1);
    lemma_names_differ("memory"@, "network"@, -1);
    lemma_names_differ("disk"@, "network"@, -1);
    lemma_names_differ("show_hide"@, "quit"@, -1);
    lemma_names_differ("title"@, "language"@, -1);
    lemma_names_differ("title"@, "theme"@, 1);
    lemma_names_differ("language"@, "theme"@, -1);
    lemma_names_differ("title"@, "theme_light"@, -1);
    lemma_names_differ("language"@, "theme_light"@, -1);
    lemma_names_differ("theme"@, "theme_light"@, -1);
    lemma_names_differ("title"@, "theme_dark"@, -1);
    lemma_names_differ("language"@, "theme_dark"@, -1);
    lemma_names_differ("theme"@, "theme_dark"@, -1);
    lemma_names_differ("theme_light"@, "theme_dark"@, -1);
    lemma_names_differ("title"@, "theme_glass"@, -1);
    lemma_names_differ("language"@, "theme_glass"@, -1);
    lemma_names_differ("theme"@, "theme_glass"@, -1);
    lemma_names_differ("theme_light"@, "theme_glass"@, 6);
    lemma_names_differ("theme_dark"@, "theme_glass"@, -1);
    let en = english_sections();
    let es = spanish_sections();
    assert forall|i: int| 0 <= i < en.len() implies en[i].1.len() == es[i].1.len() && en[i].0 == es[i].0 by {
        assert(i == 0 || i == 1 || i == 2 || i == 3 || i == 4 || i == 5);
    }
    assert forall|i: int| 0 <= i < en.len() implies dotless(#[trigger] en[i].0) by {
        assert(i == 0 || i == 1 || i == 2 || i == 3 || i == 4 || i == 5);
    }
    assert forall|i: int, k: int| 0 <= k < i < en.len() implies #[trigger] en[k].0 != #[trigger] en[i].0 by {
        assert(i == 0 || i == 1 || i == 2 || i == 3 || i == 4 || i == 5);
        assert(k == 0 || k == 1 || k == 2 || k == 3 || k == 4);
    }
    assert forall|i: int, j: int| 0 <= i < en.len() && 0 <= j < en[i].1.len() implies dotless(#[trigger] en[i].1[j].0) by {
        assert(i == 0 || i == 1 || i == 2 || i == 3 || i == 4 || i == 5);
        assert(j == 0 || j == 1 || j == 2 || j == 3 || j == 4 || j == 5);
    }
    assert forall|i: int, j: int, k: int| 0 <= i < en.len() && 0 <= k < j < en[i].1.len() implies #[trigger] en[i].1[k].0 != #[trigger] en[i].1[j].0 by {
        assert(i == 0 || i == 1 || i == 2 || i == 3 || i == 4 || i == 5);
        assert(j == 0 || j == 1 || j == 2 || j == 3 || j == 4 || j == 5);
        assert(k == 0 || k == 1 || k == 2 || k == 3 || k == 4);
    }
    assert forall|i: int| 0 <= i < es.len() implies dotless(#[trigger] es[i].0) by {
        assert(i == 0 || i == 1 || i == 2 || i == 3 || i == 4 || i == 5);
    }
    assert forall|i: int, k: int| 0 <= k < i < es.len() implies #[trigger] es[k].0 != #[trigger] es[i].0 by {
        assert(i == 0 || i == 1 || i == 2 || i == 3 || i == 4 || i == 5);
        assert(k == 0 || k == 1 || k == 2 || k == 3 || k == 4);
    }
    assert forall|i: int, j: int| 0 <= i < es.len() && 0 <= j < es[i].1.len() implies dotless(#[trigger] es[i].1[j].0) by {
        assert(i == 0 || i == 1 || i == 2 || i == 3 || i == 4 || i == 5);
        assert(j == 0 || j == 1 || j == 2 || j == 3 || j == 4 || j == 5);
    }
    assert forall|i: int, j: int, k: int| 0 <= i < es.len() && 0 <= k < j < es[i].1.len() implies #[trigger] es[i].1[k].0 != #[trigger] es[i].1[j].0 by {
        assert(i == 0 || i == 1 || i == 2 || i == 3 || i == 4 || i == 5);
        assert(j == 0 || j == 1 || j == 2 || j == 3 || j == 4 || j == 5);
        assert(k == 0 || k == 1 || k == 2 || k == 3 || k == 4);
    }
}

/// Every entry of the built-in tables is found under its dotted key
/// "section.entry": `t` answers the Spanish text when the locale is "es",
/// and the English text for any other locale.
pub proof fn law_table_keys_resolve(locale: Seq<char>, en: TextNode, es: TextNode, i: int, j: int)
    requires
        dictionary_holds(en, english_sections()),
        dictionary_holds(es, spanish_sections()),
        0 <= i < english_sections().len(),
        0 <= j < english_sections()[i].1.len(),
    ensures
        localized_text(
            locale,
            en,
            es,
            english_sections()[i].0 + "."@ + english_sections()[i].1[j].0,
        ) == if locale == "es"@ {
            spanish_sections()[i].1[j].1
        } else {
            english_sections()[i].1[j].1
        },
{
    reveal_strlit(".");
    assert("."@ =~= seq!['.']);
    lemma_builtin_names();
    lemma_dictionary_key(en, english_sections(), i, j);
    assert(spanish_sections()[i].0 == english_sections()[i].0);
    assert(spanish_sections()[i].1[j].0 == english_sections()[i].1[j].0);
    lemma_dictionary_key(es, spanish_sections(), i, j);
}

/// What a lookup reaches: nothing, a table, or a text.
pub open spec fn reached(o: Option<TextNode>) -> Option<Option<Seq<char>>> {
    match o {
        None => None,
        Some(TextNode::Table(_)) => Some(None),
        Some(TextNode::Text(s)) => Some(Some(s@)),
    }
}

/// The node of entry `j` of a table.
pub open spec fn entry_node(n: TextNode, j: int) -> TextNode {
    match n {
        TextNode::Table(v) => v@[j].1,
        TextNode::Text(_) => n,
    }
}

proof fn lemma_lookups_agree(v1: Seq<(String, TextNode)>, v2: Seq<(String, TextNode)>, key: Seq<char>)
    requires
        v1.len() == v2.len(),
        forall|j: int| 0 <= j < v1.len() ==> (#[trigger] v1[j]).0@ == v2[j].0@,
    ensures
        (entry_lookup(v1, key) is None) == (entry_lookup(v2, key) is None),
        entry_lookup(v1, key) is Some ==> exists|j: int|
            0 <= j < v1.len() && entry_lookup(v1, key) == Some(v1[j].1) && entry_lookup(v2, key)
                == Some(#[trigger] v2[j].1),
    decreases v1.len(),
{
    if v1.len() > 0 {
        assert(v1[0].0@ == v2[0].0@);
        if v1[0].0@ != key {
            let r1 = v1.drop_first();
            let r2 = v2.drop_first();
            assert forall|j: int| 0 <= j < r1.len() implies (#[trigger] r1[j]).0@ == r2[j].0@ by {
                assert(r1[j] == v1[j + 1]);
                assert(r2[j] == v2[j + 1]);
            }
            lemma_lookups_agree(r1, r2, key);
            if entry_lookup(v1, key) is Some {
                let j = choose|j: int|
                    0 <= j < r1.len() && entry_lookup(r1, key) == Some(r1[j].1) && entry_lookup(r2, key)
                        == Some(#[trigger] r2[j].1);
                assert(v1[j + 1] == r1[j]);
                assert(v2[j + 1] == r2[j]);
            }
        } else {
            assert(entry_lookup(v2, key) == Some(v2[0].1));
        }
    }
}

/// Two tables of the same sections lead a key to matching sections.
proof fn lemma_sections_agree(
    n1: TextNode,
    n2: TextNode,
    sections: Seq<(Seq<char>, Seq<(Seq<char>, Seq<char>)>)>,
    key: Seq<char>,
)
    requires
        dictionary_holds(n1, sections),
        dictionary_holds(n2, sections),
    ensures
        (child(n1, key) is None) == (child(n2, key) is None),
        child(n1, key) is Some ==> exists|j: int|
            0 <= j < sections.len() && child(n1, key) == Some(entry_node(n1, j)) && child(n2, key)
                == Some(#[trigger] entry_node(n2, j)),
{
    match (n1, n2) {
        (TextNode::Table(v1), TextNode::Table(v2)) => {
            assert forall|j: int| 0 <= j < v1@.len() implies (#[trigger] v1@[j]).0@ == v2@[j].0@ by {
                assert(v1@[j].0@ == sections[j].0);
                assert(v2@[j].0@ == sections[j].0);
            }
            lemma_lookups_agree(v1@, v2@, key);
            if child(n1, key) is Some {
                let j = choose|j: int|
                    0 <= j < v1@.len() && entry_lookup(v1@, key) == Some(v1@[j].1) && entry_lookup(
                        v2@,
                        key,
                    ) == Some(#[trigger] v2@[j].1);
                assert(entry_node(n2, j) == v2@[j].1);
            }
        },
        _ => {},
    }
}

/// Two sections of the same texts lead a key to the same text, or to nothing.
proof fn lemma_texts_agree(
    m1: TextNode,
    m2: TextNode,
    pairs: Seq<(Seq<char>, Seq<char>)>,
    key: Seq<char>,
)
    requires
        section_holds(m1, pairs),
        section_holds(m2, pairs),
    ensures
        reached(child(m1, key)) == reached(child(m2, key)),
        child(m1, key) is None || child(m1, key) matches Some(TextNode::Text(_)),
        child(m2, key) is None || child(m2, key) matches Some(TextNode::Text(_)),
{
    match (m1, m2) {
        (TextNode::Table(w1), TextNode::Table(w2)) => {
            assert forall|j: int| 0 <= j < w1@.len() implies (#[trigger] w1@[j]).0@ == w2@[j].0@ by {
                assert(w1@[j].0@ == pairs[j].0);
                assert(w2@[j].0@ == pairs[j].0);
            }
            lemma_lookups_agree(w1@, w2@, key);
            if child(m1, key) is Some {
                let j = choose|j: int|
                    0 <= j < w1@.len() && entry_lookup(w1@, key) == Some(w1@[j].1) && entry_lookup(
                        w2@,
                        key,
                    ) == Some(#[trigger] w2@[j].1);
                assert(w1@[j].0@ == pairs[j].0);
                assert(w2@[j].0@ == pairs[j].0);
            }
        },
        _ => {},
    }
}

/// Two tables of the same sections and texts reach the same thing along any
/// path; past the second name nothing is reached.
proof fn lemma_paths_agree(
    n1: TextNode,
    n2: TextNode,
    sections: Seq<(Seq<char>, Seq<(Seq<char>, Seq<char>)>)>,
    path: Seq<Seq<char>>,
)
    requires
        dictionary_holds(n1, sections),
        dictionary_holds(n2, sections),
    ensures
        reached(resolve(n1, path)) == reached(resolve(n2, path)),
        path.len() >= 2 ==> (resolve(n1, path) is None || resolve(n1, path) matches Some(
            TextNode::Text(_),
        )),
        path.len() >= 2 ==> (resolve(n2, path) is None || resolve(n2, path) matches Some(
            TextNode::Text(_),
        )),
    decreases path.len(),
{
    if path.len() == 0 {
    } else if path.len() == 1 {
        assert(path.drop_last() =~= Seq::<Seq<char>>::empty());
        assert(resolve(n1, path.drop_last()) == Some(n1));
        assert(resolve(n2, path.drop_last()) == Some(n2));
        assert(resolve(n1, path) == child(n1, path.last()));
        assert(resolve(n2, path) == child(n2, path.last()));
        lemma_sections_agree(n1, n2, sections, path.last());
        if child(n1, path.last()) is Some {
            let j = choose|j: int|
                0 <= j < sections.len() && child(n1, path.last()) == Some(entry_node(n1, j)) && child(
                    n2,
                    path.last(),
                ) == Some(#[trigger] entry_node(n2, j));
            match (n1, n2) {
                (TextNode::Table(v1), TextNode::Table(v2)) => {
                    assert(section_holds(v1@[j].1, sections[j].1));
                    assert(section_holds(v2@[j].1, sections[j].1));
                },
                _ => {},
            }
        }
    } else if path.len() == 2 {
        let first = path.drop_last();
        assert(first.len() == 1);
        assert(first.drop_last() =~= Seq::<Seq<char>>::empty());
        assert(first.last() == path[0]);
        assert(resolve(n1, first.drop_last()) == Some(n1));
        assert(resolve(n2, first.drop_last()) == Some(n2));
        assert(resolve(n1, first) == child(n1, path[0]));
        assert(resolve(n2, first) == child(n2, path[0]));
        lemma_sections_agree(n1, n2, sections, path[0]);
        if child(n1, path[0]) is Some {
            let j = choose|j: int|
                0 <= j < sections.len() && child(n1, path[0]) == Some(entry_node(n1, j)) && child(
                    n2,
                    path[0],
                ) == Some(#[trigger] entry_node(n2, j));
            match (n1, n2) {
                (TextNode::Table(v1), TextNode::Table(v2)) => {
                    assert(section_holds(v1@[j].1, sections[j].1));
                    assert(section_holds(v2@[j].1, sections[j].1));
                    lemma_texts_agree(v1@[j].1, v2@[j].1, sections[j].1, path.last());
                },
                _ => {},
            }
        }
    } else {
        lemma_paths_agree(n1, n2, sections, path.drop_last());
        assert(resolve(n1, path) is None);
        assert(resolve(n2, path) is None);
    }
}

/// Setting the locale to `l` makes `t` answer, for every key, what a fresh
/// `I18n::new(l)` answers: every `I18n` holds the built-in tables (its type
/// invariant), so only the locale decides.
pub proof fn law_set_locale_matches_new(i: I18n, fresh: I18n, key: Seq<char>)
    requires
        i.tables_hold(),
        fresh.tables_hold(),
        i.locale_view() == fresh.locale_view(),
    ensures
        localized_text(i.locale_view(), i.english_table(), i.spanish_table(), key) == localized_text(
            fresh.locale_view(),
            fresh.english_table(),
            fresh.spanish_table(),
            key,
        ),
{
    let path = split_dots(key);
    lemma_paths_agree(i.english_table(), fresh.english_table(), english_sections(), path);
    lemma_paths_agree(i.spanish_table(), fresh.spanish_table(), spanish_sections(), path);
}

impl I18n {
    /// Every `I18n` holds the built-in English and Spanish tables.
    #[verifier::type_invariant]
    pub closed spec fn tables_hold(self) -> bool {
        &&& dictionary_holds(self.en, english_sections())
        &&& dictionary_holds(self.es, spanish_sections())
    }

    pub closed spec fn locale_view(&self) -> Seq<char> {
        self.locale@
    }

    pub closed spec fn english_table(&self) -> TextNode {
        self.en
    }

    pub closed spec fn spanish_table(&self) -> TextNode {
        self.es
    }

    /// The tables with `locale` active.
    pub fn new(locale: &str) -> (i: Self)
        ensures
            i.locale_view() == locale@,
            dictionary_holds(i.english_table(), english_sections()),
            dictionary_holds(i.spanish_table(), spanish_sections()),
    {
        I18n { locale: String::from_str(locale), en: english(), es: spanish() }
    }

    /// Looks up a dot-separated key (e.g. "weather.title") in the active
    /// locale's table, falls back to English, and returns the key itself when
    /// no text is found.
    pub fn t(&self, key: &str) -> (text: String)
        ensures
            text@ == localized_text(self.locale_view(), self.english_table(), self.spanish_table(), key@),
    {
        let dict = if str_eq(self.locale.as_str(), "es") {
            &self.es
        } else {
            &self.en
        };
        let found = match resolve_key(dict, key) {
            Some(v) => Some(v),
            None => resolve_key(&self.en, key),
        };
        match found {
            Some(TextNode::Text(s)) => s.clone(),
            _ => String::from_str(key),
        }
    }

    /// Makes `locale` the active locale.
    pub fn set_locale(&mut self, locale: &str)
        ensures
            final(self).locale_view() == locale@,
            final(self).english_table() == old(self).english_table(),
            final(self).spanish_table() == old(self).spanish_table(),
    {
        proof {
            use_type_invariant(&*self);
        }
        self.locale = String::from_str(locale);
    }

    /// The active locale.
    pub fn locale(&self) -> (l: &str)
        ensures
            l@ == self.locale_view(),
    {
        self.locale.as_str()
    }
}

impl Default for I18n {
    fn default() -> (i: Self)
        ensures
            i.locale_view() == "en"@,
            dictionary_holds(i.english_table(), english_sections()),
            dictionary_holds(i.spanish_table(), spanish_sections()),
    {
        I18n::new("en")
    }
}

} // verus!
