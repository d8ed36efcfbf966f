//! Plugins: what the app can be extended with, one folder each under `plugins/<id>/` in the
//! app's data directory. This build honours themes and broker layouts, plus one kind of compute,
//! the file reader; the rest of a manifest is read without being acted on, so a package built
//! for a later version is listed rather than rejected.
//!
//! What a manifest allows, which of its files may be touched, what the lists show and in which
//! order a file is offered to the readers is decided here; reading folders and copying files is
//! the host's.

use vstd::prelude::*;
use crate::error::UiError;
use crate::paths::{component_is_name, components_are_names, join, joined_path};
use crate::text::{all_ascii, ascii_lower, concat, debug_quoted, debug_text, digits, lowercased, number_text, owned, sentence, to_lowercase, chars_of, string_of};

verus! {

/// The folder under the data directory that holds one folder per plugin.
pub const FOLDER: &'static str = "plugins";

/// The manifest every package carries at its top.
pub const MANIFEST: &'static str = "plugin.json";

/// The plugin API this build speaks. A package naming another is listed and not loaded: half a
/// plugin is worse than none, and silence would look like the app itself failing.
pub const API: u32 = 1;

/// A character an id may hold: lowercase ASCII letters, digits, dot, dash and underscore.
pub open spec fn id_char(c: char) -> bool {
    ('a' <= c && c <= 'z') || ('0' <= c && c <= '9') || c == '.' || c == '-' || c == '_'
}

/// An id is a folder name on three platforms and a key in the vault, so it is deliberately
/// dull: one to 64 of those characters.
pub open spec fn is_valid_id(id: Seq<char>) -> bool {
    &&& 0 < id.len() <= 64
    &&& forall|i: int| 0 <= i < id.len() ==> id_char(#[trigger] id[i])
}

pub fn valid_id(id: &str) -> (r: bool)
    ensures
        r == is_valid_id(id@),
{
    let v = chars_of(id);
    if v.len() == 0 || v.len() > 64 {
        return false;
    }
    let mut i: usize = 0;
    while i < v.len()
        invariant
            v@ == id@,
            i <= v.len(),
            forall|k: int| 0 <= k < i ==> id_char(#[trigger] v@[k]),
        decreases v.len() - i,
    {
        let c = v[i];
        let allowed = ('a' <= c && c <= 'z') || ('0' <= c && c <= '9') || c == '.' || c == '-'
            || c == '_';
        if !allowed {
            return false;
        }
        i = i + 1;
    }
    true
}

/// A theme's colour scheme: what it does not redefine comes from this built-in one.
#[derive(Debug, Clone, Copy, PartialEq, Eq, Structural)]
pub enum Base {
    Light,
    Dark,
}

/// A theme is a stylesheet that redefines the app's own custom properties.
#[derive(Debug, Clone, PartialEq, Eq)]
pub struct ThemeDef {
    pub id: String,
    pub name: String,
    pub file: String,
    pub base: Base,
}

/// A broker layout: the preset file plus the sample export it was made from.
#[derive(Debug, Clone, PartialEq, Eq)]
pub struct LayoutDef {
    pub id: String,
    /// The layout file, holding one preset.
    pub file: String,
    /// A redacted export this layout must recognise and read without a question.
    pub sample: String,
}

/// A file reader: a WASM component that turns bytes this app cannot read into its own
/// transaction file, shipped with the sample it was written against and what that sample must
/// come out as.
#[derive(Debug, Clone, PartialEq, Eq)]
pub struct ReaderDef {
    pub id: String,
    /// The component, as a `.wasm` file inside the package.
    pub file: String,
    /// A redacted file of the kind this reader exists for.
    pub sample: String,
    /// What `sample` must read as.
    pub expected: String,
    /// The file endings this reader is offered, lower case and with the dot; empty means every
    /// file the shipped readers did not already recognise.
    pub extensions: Vec<String>,
}

#[derive(Debug, Clone, PartialEq, Eq)]
pub struct Provides {
    pub themes: Vec<ThemeDef>,
    pub layouts: Vec<LayoutDef>,
    pub readers: Vec<ReaderDef>,
}

/// What a package says it is.
#[derive(Debug, Clone, PartialEq, Eq)]
pub struct Manifest {
    pub id: String,
    pub api: u32,
    pub name: String,
    pub version: String,
    pub provides: Provides,
}

/// Why a plugin is not in use. A code, never a sentence: the wording is the frontend's.
#[derive(Debug, Clone, PartialEq, Eq)]
pub enum Status {
    /// Loaded and in use.
    Usable,
    /// Built for another plugin API than this build speaks.
    Api { wants: u32, speaks: u32 },
    /// The folder is there and its manifest is not readable.
    Broken { detail: String },
}

impl Status {
    pub fn is_ok(&self) -> (r: bool)
        ensures
            r == (*self is Usable),
    {
        match self {
            Status::Usable => true,
            _ => false,
        }
    }
}

/// One installed plugin as the list shows it.
#[derive(Debug, Clone, PartialEq, Eq)]
pub struct PluginInfo {
    pub id: String,
    pub name: String,
    pub version: String,
    pub themes: Vec<ThemeDef>,
    pub layouts: Vec<LayoutDef>,
    pub readers: Vec<ReaderDef>,
    pub status: Status,
}

/// One installed theme, addressed the way the stored preference addresses it.
#[derive(Debug, Clone, PartialEq, Eq)]
pub struct ThemeInfo {
    /// `<plugin id>/<theme id>`.
    pub key: String,
    pub name: String,
    pub plugin: String,
    pub base: Base,
}

/// Whether a manifest is one this build loads: it names this build's API.
pub open spec fn status_view(api: u32) -> Status {
    if api == API {
        Status::Usable
    } else {
        Status::Api { wants: api, speaks: API }
    }
}

pub fn status_of(manifest: &Manifest) -> (s: Status)
    ensures
        s == status_view(manifest.api),
{
    if manifest.api == API {
        Status::Usable
    } else {
        Status::Api { wants: manifest.api, speaks: API }
    }
}

/// A name a manifest gives for one of its files stays inside the package: it is not empty and
/// every component of it is a plain name — no root, no prefix, no `.` or `..`.
pub open spec fn stays_inside(name: Seq<char>) -> bool {
    &&& name.len() > 0
    &&& forall|i: int| 0 <= i < component_is_name(name).len() ==> #[trigger] component_is_name(name)[i]
}

pub open spec fn not_inside_message(name: Seq<char>) -> Seq<char> {
    debug_quoted(name) + " is not a file inside the plugin"@
}

/// A path a manifest names, resolved inside the package. A file name is data from a stranger,
/// so `../` and an absolute path are refused rather than followed.
pub fn safe_join(folder: &str, name: &str) -> (r: Result<String, UiError>)
    ensures
        match r {
            Ok(p) => stays_inside(name@) && p@ == joined_path(folder@, name@),
            Err(e) => !stays_inside(name@) && (e matches UiError::Invalid { message }
                && message@ == not_inside_message(name@)),
        },
{
    let flags = components_are_names(name);
    let mut sane = true;
    let mut i: usize = 0;
    while i < flags.len()
        invariant
            flags@ == component_is_name(name@),
            i <= flags.len(),
            sane == forall|k: int| 0 <= k < i ==> #[trigger] flags@[k],
        decreases flags.len() - i,
    {
        if !flags[i] {
            sane = false;
        }
        i = i + 1;
    }
    if name.unicode_len() == 0 || !sane {
        let quoted = debug_text(name);
        return Err(UiError::invalid(concat(quoted.as_str(), " is not a file inside the plugin")));
    }
    Ok(join(folder, name))
}

/// Where the plugins live: a root folder, with one folder per plugin under `plugins/`.
pub struct Plugins {
    root: String,
}

impl Plugins {
    pub closed spec fn view(&self) -> Seq<char> {
        self.root@
    }

    pub fn new(root: String) -> (p: Plugins)
        ensures
            p@ == root@,
    {
        Plugins { root }
    }

    /// `<root>/plugins`.
    pub fn folder(&self) -> (f: String)
        ensures
            f@ == joined_path(self@, FOLDER@),
    {
        join(self.root.as_str(), FOLDER)
    }

    /// `<root>/plugins/<id>`.
    pub fn folder_of(&self, id: &str) -> (f: String)
        ensures
            f@ == joined_path(joined_path(self@, FOLDER@), id@),
    {
        let folder = self.folder();
        join(folder.as_str(), id)
    }
}

/// One theme as the picker lists it: key, name, plugin and base.
pub open spec fn theme_entry(plugin: Seq<char>, t: ThemeDef) -> (Seq<char>, Seq<char>, Seq<char>, Base) {
    (plugin + seq!['/'] + t.id@, t.name@, plugin, t.base)
}

pub open spec fn themes_of(p: PluginInfo) -> Seq<(Seq<char>, Seq<char>, Seq<char>, Base)> {
    p.themes@.map_values(|t: ThemeDef| theme_entry(p.id@, t))
}

/// The themes on offer: those of the plugins this build can load, plugin after plugin.
pub open spec fn offered_themes(listed: Seq<PluginInfo>) -> Seq<(Seq<char>, Seq<char>, Seq<char>, Base)>
    decreases listed.len(),
{
    if listed.len() == 0 {
        Seq::empty()
    } else {
        offered_themes(listed.drop_last()) + if listed.last().status is Usable {
            themes_of(listed.last())
        } else {
            Seq::empty()
        }
    }
}

pub open spec fn theme_view(t: ThemeInfo) -> (Seq<char>, Seq<char>, Seq<char>, Base) {
    (t.key@, t.name@, t.plugin@, t.base)
}

pub open spec fn theme_views(v: Seq<ThemeInfo>) -> Seq<(Seq<char>, Seq<char>, Seq<char>, Base)> {
    v.map_values(|t: ThemeInfo| theme_view(t))
}

/// `<plugin>/<item>`, how a plugin's content is addressed.
pub fn address(plugin: &str, item: &str) -> (s: String)
    ensures
        s@ == plugin@ + seq!['/'] + item@,
{
    let mut s = owned(plugin);
    s.push('/');
    s.append(item);
    s
}

fn push_themes(out: &mut Vec<ThemeInfo>, p: &PluginInfo)
    ensures
        theme_views(final(out)@) == theme_views(old(out)@) + themes_of(*p),
{
    let ghost start = theme_views(out@);
    let mut j: usize = 0;
    while j < p.themes.len()
        invariant
            j <= p.themes.len(),
            theme_views(out@) == start + themes_of(*p).subrange(0, j as int),
        decreases p.themes.len() - j,
    {
        let t = &p.themes[j];
        let info = ThemeInfo {
            key: address(p.id.as_str(), t.id.as_str()),
            name: t.name.clone(),
            plugin: p.id.clone(),
            base: t.base,
        };
        let ghost before = out@;
        out.push(info);
        proof {
            assert(theme_views(out@) =~= theme_views(before).push(theme_view(info)));
            assert(themes_of(*p).subrange(0, j + 1) =~= themes_of(*p).subrange(0, j as int).push(
                theme_entry(p.id@, p.themes@[j as int]),
            ));
        }
        j = j + 1;
    }
    assert(themes_of(*p).subrange(0, p.themes@.len() as int) =~= themes_of(*p));
}

impl Plugins {
    /// The themes on offer: only from plugins this build can load, because a theme that cannot
    /// be applied has no business in a picker.
    pub fn themes(&self, listed: &Vec<PluginInfo>) -> (r: Vec<ThemeInfo>)
        ensures
            theme_views(r@) == offered_themes(listed@),
    {
        let mut out: Vec<ThemeInfo> = Vec::new();
        let mut i: usize = 0;
        while i < listed.len()
            invariant
                i <= listed.len(),
                theme_views(out@) == offered_themes(listed@.subrange(0, i as int)),
            decreases listed.len() - i,
        {
            let p = &listed[i];
            proof {
                assert(listed@.subrange(0, i + 1).drop_last() =~= listed@.subrange(0, i as int));
            }
            if p.status.is_ok() {
                push_themes(&mut out, p);
            } else {
                assert(theme_views(out@) =~= offered_themes(listed@.subrange(0, i + 1)));
            }
            i = i + 1;
        }
        assert(listed@.subrange(0, listed@.len() as int) =~= listed@);
        out
    }
}

/// How many themes the plugins this build can load declare between them.
pub open spec fn usable_theme_count(listed: Seq<PluginInfo>) -> nat
    decreases listed.len(),
{
    if listed.len() == 0 {
        0
    } else {
        usable_theme_count(listed.drop_last()) + if listed.last().status is Usable {
            listed.last().themes@.len()
        } else {
            0
        }
    }
}

/// Whether the picker holds theme `t` of plugin `p`, under the key `<plugin>/<theme>`.
pub open spec fn offers(offered: Seq<(Seq<char>, Seq<char>, Seq<char>, Base)>, p: PluginInfo, t: ThemeDef) -> bool {
    exists|k: int|
        0 <= k < offered.len() && #[trigger] offered[k] == (p.id@ + seq!['/'] + t.id@, t.name@, p.id@, t.base)
}

/// Whether a picker entry is a theme that a loadable plugin of the list declares, under that
/// plugin's `<plugin>/<theme>` key.
pub open spec fn declared_by_loadable(
    listed: Seq<PluginInfo>,
    entry: (Seq<char>, Seq<char>, Seq<char>, Base),
) -> bool {
    exists|i: int, j: int|
        #![trigger listed[i].themes@[j]]
        0 <= i < listed.len() && listed[i].status is Usable && 0 <= j < listed[i].themes@.len() && entry == (
            listed[i].id@ + seq!['/'] + listed[i].themes@[j].id@,
            listed[i].themes@[j].name@,
            listed[i].id@,
            listed[i].themes@[j].base,
        )
}

/// The picker offers every theme of every plugin this build can load, under its
/// `<plugin>/<theme>` key, and nothing else: as many entries as those plugins declare themes, each
/// one a theme some loadable plugin declares.
pub proof fn law_every_loadable_theme_is_offered(listed: Seq<PluginInfo>)
    ensures
        offered_themes(listed).len() == usable_theme_count(listed),
        forall|i: int, j: int|
            0 <= i < listed.len() && listed[i].status is Usable && 0 <= j < listed[i].themes@.len() ==> offers(
                offered_themes(listed),
                #[trigger] listed[i],
                #[trigger] listed[i].themes@[j],
            ),
        forall|k: int|
            0 <= k < offered_themes(listed).len() ==> declared_by_loadable(listed, #[trigger] offered_themes(listed)[k]),
    decreases listed.len(),
{
    if listed.len() > 0 {
        let pre = listed.drop_last();
        let p = listed.last();
        law_every_loadable_theme_is_offered(pre);
        let before = offered_themes(pre);
        let add = if p.status is Usable { themes_of(p) } else { Seq::empty() };
        let all = offered_themes(listed);
        assert(all == before + add);
        assert forall|i: int, j: int|
            0 <= i < listed.len() && listed[i].status is Usable && 0 <= j < listed[i].themes@.len() implies offers(
                all,
                #[trigger] listed[i],
                #[trigger] listed[i].themes@[j],
            ) by {
            if i < listed.len() - 1 {
                assert(listed[i] == pre[i]);
                assert(offers(before, pre[i], pre[i].themes@[j]));
                let k = choose|k: int|
                    0 <= k < before.len() && #[trigger] before[k] == (
                        pre[i].id@ + seq!['/'] + pre[i].themes@[j].id@,
                        pre[i].themes@[j].name@,
                        pre[i].id@,
                        pre[i].themes@[j].base,
                    );
                assert(all[k] == before[k]);
            } else {
                let k = before.len() + j;
                assert(all[k] == add[j]);
                assert(add[j] == theme_entry(p.id@, p.themes@[j]));
            }
        }
        assert forall|k: int| 0 <= k < all.len() implies declared_by_loadable(listed, #[trigger] all[k]) by {
            if k < before.len() {
                assert(all[k] == before[k]);
                assert(declared_by_loadable(pre, before[k]));
                let (i, j) = choose|i: int, j: int|
                    #![trigger pre[i].themes@[j]]
                    0 <= i < pre.len() && pre[i].status is Usable && 0 <= j < pre[i].themes@.len() && before[k] == (
                        pre[i].id@ + seq!['/'] + pre[i].themes@[j].id@,
                        pre[i].themes@[j].name@,
                        pre[i].id@,
                        pre[i].themes@[j].base,
                    );
                assert(listed[i] == pre[i]);
                assert(listed[i].themes@[j] == pre[i].themes@[j]);
            } else {
                let j = k - before.len();
                let i = listed.len() - 1;
                assert(all[k] == add[j]);
                assert(listed[i] == p);
                assert(listed[i].themes@[j] == p.themes@[j]);
                assert(add[j] == theme_entry(p.id@, p.themes@[j]));
            }
        }
    } else {
        assert(offered_themes(listed) =~= Seq::empty());
    }
}

/// Where the last dot of a name stands, or -1 when it has none.
pub open spec fn last_dot(s: Seq<char>) -> int
    decreases s.len(),
{
    if s.len() == 0 {
        -1
    } else if s.last() == '.' {
        s.len() - 1
    } else {
        last_dot(s.drop_last())
    }
}

/// A file's ending: a dot and, lower-cased, what follows the name's last dot.
pub open spec fn ending_of(name: Seq<char>) -> Option<Seq<char>> {
    let i = last_dot(name);
    if i < 0 {
        None
    } else {
        Some(seq!['.'] + lowercased(name.subrange(i + 1, name.len() as int)))
    }
}

proof fn lemma_last_dot(s: Seq<char>)
    ensures
        -1 <= last_dot(s) < s.len(),
        last_dot(s) >= 0 ==> s[last_dot(s)] == '.',
        forall|k: int| last_dot(s) < k < s.len() ==> s[k] != '.',
    decreases s.len(),
{
    if s.len() > 0 && s.last() != '.' {
        lemma_last_dot(s.drop_last());
        assert forall|k: int| last_dot(s) < k < s.len() implies s[k] != '.' by {
            if k < s.len() - 1 {
                assert(s[k] == s.drop_last()[k]);
            }
        }
        if last_dot(s) >= 0 {
            assert(s[last_dot(s)] == s.drop_last()[last_dot(s)]);
        }
    }
}

/// A file's ending is what follows the last dot of its name: the dot it starts from is a dot of
/// the name, no dot of the name comes after it, and a name without a dot has no ending. So
/// `statement.2024.pdf` ends in `.pdf`, and in an ASCII name nothing after the ending's own dot
/// is a dot.
pub proof fn law_ending_follows_the_last_dot(name: Seq<char>)
    ensures
        ending_of(name) is None <==> forall|k: int| 0 <= k < name.len() ==> name[k] != '.',
        ending_of(name) matches Some(e) ==> exists|j: int|
            0 <= j < name.len() && name[j] == '.' && (forall|k: int| j < k < name.len() ==> name[k] != '.')
                && e == seq!['.'] + lowercased(#[trigger] name.subrange(j + 1, name.len() as int)),
        all_ascii(name) ==> (ending_of(name) matches Some(e) ==> e[0] == '.' && forall|k: int|
            0 < k < e.len() ==> e[k] != '.'),
{
    lemma_last_dot(name);
    let j = last_dot(name);
    if j < 0 {
        assert(forall|k: int| 0 <= k < name.len() ==> name[k] != '.');
    } else {
        assert(name[j] == '.');
        let rest = name.subrange(j + 1, name.len() as int);
        assert(name.subrange(j + 1, name.len() as int) == rest);
        if all_ascii(name) {
            assert(all_ascii(rest)) by {
                assert forall|i: int| 0 <= i < rest.len() implies (#[trigger] rest[i]) <= '\u{7f}' by {
                    assert(rest[i] == name[j + 1 + i]);
                }
            }
            let e = seq!['.'] + lowercased(rest);
            assert forall|k: int| 0 < k < e.len() implies e[k] != '.' by {
                assert(e[k] == ascii_lower(rest[k - 1]));
                assert(rest[k - 1] == name[j + k]);
            }
        }
    }
}

/// A character's code with ASCII capitals taken as their small letters.
pub open spec fn ascii_folded(c: char) -> int {
    if 'A' <= c && c <= 'Z' {
        c as int + 32
    } else {
        c as int
    }
}

/// `eq_ignore_ascii_case`: the same text once ASCII capitals are taken as small letters.
pub open spec fn same_ignoring_ascii_case(a: Seq<char>, b: Seq<char>) -> bool {
    a.len() == b.len() && forall|i: int| 0 <= i < a.len() ==> #[trigger] ascii_folded(a[i]) == ascii_folded(b[i])
}

/// Whether a reader is offered a file with this ending: it names no ending at all, or names
/// this one.
pub open spec fn offered(def: ReaderDef, ending: Option<Seq<char>>) -> bool {
    def.extensions@.len() == 0 || match ending {
        Some(e) => names_ending(def, e),
        None => false,
    }
}

/// Whether a reader names this ending among its own.
pub open spec fn names_ending(def: ReaderDef, e: Seq<char>) -> bool {
    exists|k: int| 0 <= k < def.extensions@.len() && #[trigger] same_ignoring_ascii_case(def.extensions@[k]@, e)
}

fn folded(c: char) -> (n: u32)
    ensures
        n as int == ascii_folded(c),
{
    let code = c as u32;
    if 'A' <= c && c <= 'Z' {
        code + 32
    } else {
        code
    }
}

pub fn eq_ignore_ascii_case(a: &str, b: &str) -> (r: bool)
    ensures
        r == same_ignoring_ascii_case(a@, b@),
{
    let x = chars_of(a);
    let y = chars_of(b);
    if x.len() != y.len() {
        return false;
    }
    let mut i: usize = 0;
    while i < x.len()
        invariant
            x@ == a@,
            y@ == b@,
            x.len() == y.len(),
            i <= x.len(),
            forall|k: int| 0 <= k < i ==> #[trigger] ascii_folded(x@[k]) == ascii_folded(y@[k]),
        decreases x.len() - i,
    {
        if folded(x[i]) != folded(y[i]) {
            return false;
        }
        i = i + 1;
    }
    true
}

/// The ending a reader is offered a file by: `.pdf` for `Statement.PDF`, none without a dot.
pub fn ending(name: &str) -> (r: Option<String>)
    ensures
        match r {
            Some(e) => ending_of(name@) == Some(e@),
            None => ending_of(name@) is None,
        },
{
    let v = chars_of(name);
    let mut i: usize = v.len();
    assert(v@.subrange(0, v@.len() as int) =~= v@);
    while i > 0
        invariant
            v@ == name@,
            i <= v.len(),
            last_dot(name@) == last_dot(v@.subrange(0, i as int)),
        decreases i,
    {
        if v[i - 1] == '.' {
            let mut tail: Vec<char> = Vec::new();
            let mut k: usize = i;
            while k < v.len()
                invariant
                    i <= k <= v.len(),
                    tail@ == v@.subrange(i as int, k as int),
                decreases v.len() - k,
            {
                tail.push(v[k]);
                k = k + 1;
                assert(tail@ =~= v@.subrange(i as int, k as int));
            }
            let after = string_of(&tail);
            let lower = to_lowercase(after.as_str());
            let mut e = String::new();
            e.push('.');
            e.append(lower.as_str());
            proof {
                assert(v@.subrange(0, i as int).last() == '.');
                assert(last_dot(name@) == i - 1);
            }
            return Some(e);
        }
        proof {
            assert(v@.subrange(0, i as int).drop_last() =~= v@.subrange(0, i - 1));
        }
        i = i - 1;
    }
    assert(v@.subrange(0, 0) =~= Seq::<char>::empty());
    None
}

pub open spec fn text_of(o: Option<String>) -> Option<Seq<char>> {
    match o {
        Some(e) => Some(e@),
        None => None,
    }
}

/// Whether a reader is offered a file with this ending.
pub fn is_offered(def: &ReaderDef, ending: &Option<String>) -> (r: bool)
    ensures
        r == offered(*def, text_of(*ending)),
{
    if def.extensions.len() == 0 {
        return true;
    }
    match ending {
        None => false,
        Some(end) => {
            let mut k: usize = 0;
            while k < def.extensions.len()
                invariant
                    k <= def.extensions.len(),
                    def.extensions@.len() > 0,
                    text_of(*ending) == Some(end@),
                    forall|j: int| 0 <= j < k ==> !#[trigger] same_ignoring_ascii_case(def.extensions@[j]@, end@),
                decreases def.extensions.len() - k,
            {
                if eq_ignore_ascii_case(def.extensions[k].as_str(), end.as_str()) {
                    assert(same_ignoring_ascii_case(def.extensions@[k as int]@, end@));
                    assert(names_ending(*def, end@));
                    return true;
                }
                k = k + 1;
            }
            false
        },
    }
}

/// `<root>/plugins/<id>`.
pub open spec fn plugin_folder(root: Seq<char>, id: Seq<char>) -> Seq<char> {
    joined_path(joined_path(root, FOLDER@), id)
}

/// A reader one plugin offers for a file: its address and the module's path.
pub open spec fn reader_entries(
    folder: Seq<char>,
    plugin: Seq<char>,
    defs: Seq<ReaderDef>,
    ending: Option<Seq<char>>,
) -> Seq<(Seq<char>, Seq<char>)>
    decreases defs.len(),
{
    if defs.len() == 0 {
        Seq::empty()
    } else {
        let d = defs.last();
        reader_entries(folder, plugin, defs.drop_last(), ending) + if offered(d, ending)
            && stays_inside(d.file@) {
            seq![(plugin + seq!['/'] + d.id@, joined_path(folder, d.file@))]
        } else {
            Seq::empty()
        }
    }
}

/// The readers a file is offered to, in the order they are asked: plugin after plugin, and
/// within one in the order its manifest lists them; only plugins this build can load, only
/// readers that take this ending, only modules that lie inside their package.
pub open spec fn reader_candidates(
    root: Seq<char>,
    listed: Seq<PluginInfo>,
    ending: Option<Seq<char>>,
) -> Seq<(Seq<char>, Seq<char>)>
    decreases listed.len(),
{
    if listed.len() == 0 {
        Seq::empty()
    } else {
        let p = listed.last();
        reader_candidates(root, listed.drop_last(), ending) + if p.status is Usable {
            reader_entries(plugin_folder(root, p.id@), p.id@, p.readers@, ending)
        } else {
            Seq::empty()
        }
    }
}

/// A reader a file may be handed to: `<plugin id>/<reader id>` and the module to run.
#[derive(Debug, Clone, PartialEq, Eq)]
pub struct ReaderCandidate {
    pub id: String,
    pub module: String,
}

pub open spec fn candidate_views(v: Seq<ReaderCandidate>) -> Seq<(Seq<char>, Seq<char>)> {
    v.map_values(|c: ReaderCandidate| (c.id@, c.module@))
}

#[verifier::loop_isolation(false)]
fn push_readers(
    out: &mut Vec<ReaderCandidate>,
    folder: &str,
    p: &PluginInfo,
    ending: &Option<String>,
)
    ensures
        candidate_views(final(out)@) == candidate_views(old(out)@) + reader_entries(
            folder@,
            p.id@,
            p.readers@,
            text_of(*ending),
        ),
{
    let ghost start = candidate_views(out@);
    let mut j: usize = 0;
    while j < p.readers.len()
        invariant
            j <= p.readers.len(),
            candidate_views(out@) == start + reader_entries(
                folder@,
                p.id@,
                p.readers@.subrange(0, j as int),
                text_of(*ending),
            ),
        decreases p.readers.len() - j,
    {
        let def = &p.readers[j];
        proof {
            assert(p.readers@.subrange(0, j + 1).drop_last() =~= p.readers@.subrange(0, j as int));
        }
        let ok = is_offered(def, ending);
        match safe_join(folder, def.file.as_str()) {
            Ok(module) => {
                if ok {
                    let ghost before = out@;
                    out.push(ReaderCandidate { id: address(p.id.as_str(), def.id.as_str()), module });
                    assert(candidate_views(out@) =~= candidate_views(before) + seq![
                        (p.id@ + seq!['/'] + def.id@, joined_path(folder@, def.file@)),
                    ]);
                } else {
                    assert(reader_entries(folder@, p.id@, p.readers@.subrange(0, j + 1), text_of(*ending))
                        =~= reader_entries(folder@, p.id@, p.readers@.subrange(0, j as int), text_of(*ending)));
                }
            },
            Err(_) => {
                assert(reader_entries(folder@, p.id@, p.readers@.subrange(0, j + 1), text_of(*ending))
                    =~= reader_entries(folder@, p.id@, p.readers@.subrange(0, j as int), text_of(*ending)));
            },
        }
        j = j + 1;
    }
    assert(p.readers@.subrange(0, p.readers@.len() as int) =~= p.readers@);
}

impl Plugins {
    /// The readers a file with this name is offered to, in the order they are asked. Narrowed
    /// by the file's ending before anything is run: nothing hands twenty megabytes to every
    /// installed plugin in turn. The host skips a module that is not on disk.
    #[verifier::loop_isolation(false)]
    pub fn readers_for(&self, name: &str, listed: &Vec<PluginInfo>) -> (r: Vec<ReaderCandidate>)
        ensures
            candidate_views(r@) == reader_candidates(self@, listed@, ending_of(name@)),
    {
        let end = ending(name);
        assert(text_of(end) == ending_of(name@));
        let mut out: Vec<ReaderCandidate> = Vec::new();
        let mut i: usize = 0;
        while i < listed.len()
            invariant
                i <= listed.len(),
                candidate_views(out@) == reader_candidates(
                    self@,
                    listed@.subrange(0, i as int),
                    ending_of(name@),
                ),
            decreases listed.len() - i,
        {
            let p = &listed[i];
            proof {
                assert(listed@.subrange(0, i + 1).drop_last() =~= listed@.subrange(0, i as int));
            }
            if p.status.is_ok() {
                let folder = self.folder_of(p.id.as_str());
                push_readers(&mut out, folder.as_str(), p, &end);
            } else {
                assert(candidate_views(out@) =~= reader_candidates(
                    self@,
                    listed@.subrange(0, i + 1),
                    ending_of(name@),
                ));
            }
            i = i + 1;
        }
        assert(listed@.subrange(0, listed@.len() as int) =~= listed@);
        out
    }
}


impl ReaderCandidate {
    pub fn copy(&self) -> (c: ReaderCandidate)
        ensures
            c == *self,
    {
        ReaderCandidate { id: self.id.clone(), module: self.module.clone() }
    }
}

/// A file being offered to the readers, one after another. The host runs the reader
/// `next_reader` names (skipping one whose module is not on disk), hands its answer to
/// `reader::settle`, and asks for the next one while the answer is `Next`; a file no reader
/// claims is one none of them read.
pub struct FileRead {
    candidates: Vec<ReaderCandidate>,
    next: usize,
}

impl FileRead {
    #[verifier::type_invariant]
    spec fn within(self) -> bool {
        self.next <= self.candidates@.len()
    }

    /// The readers the file is offered to, in order.
    pub closed spec fn order(&self) -> Seq<(Seq<char>, Seq<char>)> {
        candidate_views(self.candidates@)
    }

    /// How many of them were handed out already.
    pub closed spec fn asked(&self) -> int {
        self.next as int
    }

    /// The next reader to run, or `None` once every one was asked.
    pub fn next_reader(&mut self) -> (c: Option<ReaderCandidate>)
        ensures
            final(self).order() == old(self).order(),
            final(self).asked() <= final(self).order().len(),
            match c {
                Some(r) => old(self).asked() < old(self).order().len() && (r.id@, r.module@) == old(self).order()[old(
                    self,
                ).asked()] && final(self).asked() == old(self).asked() + 1,
                None => old(self).asked() == old(self).order().len() && final(self).asked() == old(self).asked(),
            },
    {
        proof {
            use_type_invariant(&*self);
        }
        if self.next < self.candidates.len() {
            let c = self.candidates[self.next].copy();
            self.next = self.next + 1;
            Some(c)
        } else {
            None
        }
    }
}

impl Plugins {
    /// Starts reading a file: the loadable readers that are offered a file with this name, in
    /// the order they are asked. Narrowed by the file's ending before anything is run: nothing
    /// hands twenty megabytes to every installed plugin in turn. `not-mine` moves on to the
    /// next; a reader that claimed the file and then failed ends the attempt, because the
    /// reader after it would be reading a file somebody has already said is not theirs.
    pub fn read_file(&self, name: &str, listed: &Vec<PluginInfo>) -> (r: FileRead)
        ensures
            r.order() == reader_candidates(self@, listed@, ending_of(name@)),
            r.asked() == 0,
    {
        FileRead { candidates: self.readers_for(name, listed), next: 0 }
    }
}

/// Whether a package brings anything this build can use.
pub open spec fn declares_something(p: Provides) -> bool {
    p.themes@.len() > 0 || p.layouts@.len() > 0 || p.readers@.len() > 0
}

pub open spec fn bad_id_message(id: Seq<char>) -> Seq<char> {
    "plugin id "@ + debug_quoted(id) + " is not lowercase letters, digits, dot, dash or underscore"@
}

pub open spec fn declares_nothing_message(id: Seq<char>) -> Seq<char> {
    "plugin "@ + id
        + " declares nothing this build can use: expected `provides.themes`, `provides.layouts` or `provides.readers`"@
}

/// What a manifest must be before anything of its package is looked at: a dull id, and at least
/// one thing this build can use. A package that brings nothing is a typo far more often than it
/// is a package for a later version, and would otherwise install in silence.
pub fn check_manifest(manifest: &Manifest) -> (r: Result<(), UiError>)
    ensures
        r is Ok <==> is_valid_id(manifest.id@) && declares_something(manifest.provides),
        r matches Err(e) ==> (e matches UiError::Invalid { message } && message@ == if !is_valid_id(manifest.id@) {
            bad_id_message(manifest.id@)
        } else {
            declares_nothing_message(manifest.id@)
        }),
{
    if !valid_id(manifest.id.as_str()) {
        let quoted = debug_text(manifest.id.as_str());
        let m = sentence(&["plugin id ", quoted.as_str(), " is not lowercase letters, digits, dot, dash or underscore"]);
        proof {
            let parts = seq!["plugin id "@, quoted@, " is not lowercase letters, digits, dot, dash or underscore"@];
            reveal_with_fuel(crate::text::concat_all, 4);
            assert(parts.drop_last().drop_last().drop_last() =~= Seq::<Seq<char>>::empty());
        }
        return Err(UiError::invalid(m));
    }
    if manifest.provides.themes.len() == 0 && manifest.provides.layouts.len() == 0
        && manifest.provides.readers.len() == 0 {
        let m = sentence(&["plugin ", manifest.id.as_str(), " declares nothing this build can use: expected `provides.themes`, `provides.layouts` or `provides.readers`"]);
        proof {
            reveal_with_fuel(crate::text::concat_all, 4);
        }
        return Err(UiError::invalid(m));
    }
    Ok(())
}

pub open spec fn theme_files(themes: Seq<ThemeDef>) -> Seq<Seq<char>> {
    themes.map_values(|t: ThemeDef| t.file@)
}

pub open spec fn layout_files(layouts: Seq<LayoutDef>) -> Seq<Seq<char>>
    decreases layouts.len(),
{
    if layouts.len() == 0 {
        Seq::empty()
    } else {
        layout_files(layouts.drop_last()) + seq![layouts.last().file@, layouts.last().sample@]
    }
}

pub open spec fn reader_files(readers: Seq<ReaderDef>) -> Seq<Seq<char>>
    decreases readers.len(),
{
    if readers.len() == 0 {
        Seq::empty()
    } else {
        let d = readers.last();
        reader_files(readers.drop_last()) + seq![d.file@, d.sample@, d.expected@]
    }
}

/// The files a package declares, in the order they are copied: each theme's stylesheet, each
/// layout's file and sample, each reader's module, sample and expected result.
pub open spec fn declared_files(p: Provides) -> Seq<Seq<char>> {
    theme_files(p.themes@) + layout_files(p.layouts@) + reader_files(p.readers@)
}

proof fn lemma_layout_files(layouts: Seq<LayoutDef>)
    ensures
        layout_files(layouts).len() == 2 * layouts.len(),
        forall|i: int| 0 <= i < layouts.len() ==> layout_files(layouts)[2 * i] == (#[trigger] layouts[i]).file@
            && layout_files(layouts)[2 * i + 1] == layouts[i].sample@,
    decreases layouts.len(),
{
    if layouts.len() > 0 {
        let pre = layouts.drop_last();
        lemma_layout_files(pre);
        assert forall|i: int| 0 <= i < layouts.len() implies layout_files(layouts)[2 * i] == (
        #[trigger] layouts[i]).file@ && layout_files(layouts)[2 * i + 1] == layouts[i].sample@ by {
            if i < layouts.len() - 1 {
                assert(layouts[i] == pre[i]);
            }
        }
    }
}

proof fn lemma_reader_files(readers: Seq<ReaderDef>)
    ensures
        reader_files(readers).len() == 3 * readers.len(),
        forall|i: int| 0 <= i < readers.len() ==> reader_files(readers)[3 * i] == (#[trigger] readers[i]).file@
            && reader_files(readers)[3 * i + 1] == readers[i].sample@ && reader_files(readers)[3 * i + 2]
            == readers[i].expected@,
    decreases readers.len(),
{
    if readers.len() > 0 {
        let pre = readers.drop_last();
        lemma_reader_files(pre);
        assert forall|i: int| 0 <= i < readers.len() implies reader_files(readers)[3 * i] == (
        #[trigger] readers[i]).file@ && reader_files(readers)[3 * i + 1] == readers[i].sample@ && reader_files(
            readers,
        )[3 * i + 2] == readers[i].expected@ by {
            if i < readers.len() - 1 {
                assert(readers[i] == pre[i]);
            }
        }
    }
}

/// A package installs every file its manifest names, and only those: each theme's stylesheet,
/// each layout's file and sample, each reader's module, sample and expected result, one entry
/// apiece, so `themes + 2 * layouts + 3 * readers` of them.
pub proof fn law_every_named_file_is_installed(p: Provides)
    ensures
        declared_files(p).len() == p.themes@.len() + 2 * p.layouts@.len() + 3 * p.readers@.len(),
        forall|i: int| 0 <= i < p.themes@.len() ==> declared_files(p).contains((#[trigger] p.themes@[i]).file@),
        forall|i: int|
            0 <= i < p.layouts@.len() ==> declared_files(p).contains((#[trigger] p.layouts@[i]).file@)
                && declared_files(p).contains(p.layouts@[i].sample@),
        forall|i: int|
            0 <= i < p.readers@.len() ==> declared_files(p).contains((#[trigger] p.readers@[i]).file@)
                && declared_files(p).contains(p.readers@[i].sample@) && declared_files(p).contains(
                p.readers@[i].expected@,
            ),
{
    let t = theme_files(p.themes@);
    let l = layout_files(p.layouts@);
    let r = reader_files(p.readers@);
    let all = declared_files(p);
    lemma_layout_files(p.layouts@);
    lemma_reader_files(p.readers@);
    assert(all == t + l + r);
    assert forall|i: int| 0 <= i < p.themes@.len() implies all.contains((#[trigger] p.themes@[i]).file@) by {
        assert(all[i] == t[i]);
    }
    assert forall|i: int|
        0 <= i < p.layouts@.len() implies all.contains((#[trigger] p.layouts@[i]).file@) && all.contains(
            p.layouts@[i].sample@,
        ) by {
        assert(all[t.len() + 2 * i] == l[2 * i]);
        assert(all[t.len() + 2 * i + 1] == l[2 * i + 1]);
    }
    assert forall|i: int|
        0 <= i < p.readers@.len() implies all.contains((#[trigger] p.readers@[i]).file@) && all.contains(
            p.readers@[i].sample@,
        ) && all.contains(p.readers@[i].expected@) by {
        assert(all[t.len() + l.len() + 3 * i] == r[3 * i]);
        assert(all[t.len() + l.len() + 3 * i + 1] == r[3 * i + 1]);
        assert(all[t.len() + l.len() + 3 * i + 2] == r[3 * i + 2]);
    }
}

pub open spec fn string_views(v: Seq<String>) -> Seq<Seq<char>> {
    v.map_values(|s: String| s@)
}

/// Only the manifest and the files it names are installed: a package is what it declares, and
/// whatever else sits beside it is not ours to carry in.
pub fn declared(provides: &Provides) -> (files: Vec<String>)
    ensures
        string_views(files@) == declared_files(*provides),
{
    let mut files: Vec<String> = Vec::new();
    let mut i: usize = 0;
    while i < provides.themes.len()
        invariant
            i <= provides.themes.len(),
            string_views(files@) == theme_files(provides.themes@.subrange(0, i as int)),
        decreases provides.themes.len() - i,
    {
        let ghost before = files@;
        files.push(provides.themes[i].file.clone());
        assert(provides.themes@.subrange(0, i + 1) =~= provides.themes@.subrange(0, i as int).push(provides.themes@[i as int]));
        assert(string_views(files@) =~= string_views(before).push(provides.themes@[i as int].file@));
        assert(string_views(files@) =~= theme_files(provides.themes@.subrange(0, i + 1)));
        i = i + 1;
    }
    assert(provides.themes@.subrange(0, provides.themes@.len() as int) =~= provides.themes@);
    let ghost after_themes = string_views(files@);
    let mut j: usize = 0;
    while j < provides.layouts.len()
        invariant
            j <= provides.layouts.len(),
            after_themes == theme_files(provides.themes@),
            string_views(files@) == after_themes + layout_files(provides.layouts@.subrange(0, j as int)),
        decreases provides.layouts.len() - j,
    {
        let l = &provides.layouts[j];
        let ghost before = files@;
        files.push(l.file.clone());
        files.push(l.sample.clone());
        proof {
            assert(provides.layouts@.subrange(0, j + 1).drop_last() =~= provides.layouts@.subrange(0, j as int));
            assert(provides.layouts@.subrange(0, j + 1).last() == *l);
            assert(string_views(files@) =~= string_views(before) + seq![l.file@, l.sample@]);
        }
        assert(string_views(files@) =~= after_themes + layout_files(provides.layouts@.subrange(0, j + 1)));
        j = j + 1;
    }
    assert(provides.layouts@.subrange(0, provides.layouts@.len() as int) =~= provides.layouts@);
    let ghost after_layouts = string_views(files@);
    let mut k: usize = 0;
    while k < provides.readers.len()
        invariant
            k <= provides.readers.len(),
            after_layouts == theme_files(provides.themes@) + layout_files(provides.layouts@),
            string_views(files@) == after_layouts + reader_files(provides.readers@.subrange(0, k as int)),
        decreases provides.readers.len() - k,
    {
        let d = &provides.readers[k];
        let ghost before = files@;
        files.push(d.file.clone());
        files.push(d.sample.clone());
        files.push(d.expected.clone());
        proof {
            assert(provides.readers@.subrange(0, k + 1).drop_last() =~= provides.readers@.subrange(0, k as int));
            assert(provides.readers@.subrange(0, k + 1).last() == *d);
            assert(string_views(files@) =~= string_views(before) + seq![d.file@, d.sample@, d.expected@]);
        }
        assert(string_views(files@) =~= after_layouts + reader_files(provides.readers@.subrange(0, k + 1)));
        k = k + 1;
    }
    assert(provides.readers@.subrange(0, provides.readers@.len() as int) =~= provides.readers@);
    files
}

/// Where each declared file is copied from and to. The first name that would leave the package
/// refuses the whole installation, before anything is written.
pub fn copy_plan(source: &str, target: &str, files: &Vec<String>) -> (r: Result<Vec<(String, String)>, UiError>)
    ensures
        match r {
            Ok(pairs) => pairs@.len() == files@.len() && forall|i: int| 0 <= i < files@.len() ==> {
                &&& stays_inside(#[trigger] files@[i]@)
                &&& pairs@[i].0@ == joined_path(source@, files@[i]@)
                &&& pairs@[i].1@ == joined_path(target@, files@[i]@)
            },
            Err(e) => exists|i: int| 0 <= i < files@.len() && !stays_inside(#[trigger] files@[i]@)
                && (forall|j: int| 0 <= j < i ==> stays_inside(#[trigger] files@[j]@))
                && (e matches UiError::Invalid { message } && message@ == not_inside_message(files@[i]@)),
        },
{
    let mut pairs: Vec<(String, String)> = Vec::new();
    let mut i: usize = 0;
    while i < files.len()
        invariant
            i <= files.len(),
            pairs@.len() == i,
            forall|k: int| 0 <= k < i ==> {
                &&& stays_inside(#[trigger] files@[k]@)
                &&& pairs@[k].0@ == joined_path(source@, files@[k]@)
                &&& pairs@[k].1@ == joined_path(target@, files@[k]@)
            },
        decreases files.len() - i,
    {
        let from = match safe_join(source, files[i].as_str()) {
            Ok(p) => p,
            Err(e) => {
                assert(!stays_inside(files@[i as int]@));
                return Err(e);
            },
        };
        let to = match safe_join(target, files[i].as_str()) {
            Ok(p) => p,
            Err(e) => return Err(e),
        };
        pairs.push((from, to));
        i = i + 1;
    }
    Ok(pairs)
}

/// A plugin as the list shows it once its manifest has been read.
pub fn installed_info(manifest: Manifest) -> (p: PluginInfo)
    ensures
        p == (PluginInfo {
            id: manifest.id,
            name: manifest.name,
            version: manifest.version,
            themes: manifest.provides.themes,
            layouts: manifest.provides.layouts,
            readers: manifest.provides.readers,
            status: status_view(manifest.api),
        }),
{
    let status = status_of(&manifest);
    PluginInfo {
        status,
        id: manifest.id,
        name: manifest.name,
        version: manifest.version,
        themes: manifest.provides.themes,
        layouts: manifest.provides.layouts,
        readers: manifest.provides.readers,
    }
}

/// One folder under `plugins/` as the list shows it: what its manifest says, or, when the
/// manifest is not readable, the folder's name and why.
pub fn listed_info(folder_name: String, manifest: Result<Manifest, String>) -> (p: PluginInfo)
    ensures
        match manifest {
            Ok(m) => p == installed_info_view(m),
            Err(detail) => p.id@ == folder_name@ && p.name@ == folder_name@ && p.version@.len() == 0
                && p.themes@.len() == 0 && p.layouts@.len() == 0 && p.readers@.len() == 0
                && p.status == (Status::Broken { detail }),
        },
{
    match manifest {
        Ok(m) => installed_info(m),
        Err(detail) => PluginInfo {
            id: folder_name.clone(),
            name: folder_name,
            version: String::new(),
            themes: Vec::new(),
            layouts: Vec::new(),
            readers: Vec::new(),
            status: Status::Broken { detail },
        },
    }
}

pub open spec fn installed_info_view(manifest: Manifest) -> PluginInfo {
    PluginInfo {
        id: manifest.id,
        name: manifest.name,
        version: manifest.version,
        themes: manifest.provides.themes,
        layouts: manifest.provides.layouts,
        readers: manifest.provides.readers,
        status: status_view(manifest.api),
    }
}

/// The index of the first theme with this id.
pub open spec fn first_theme(themes: Seq<ThemeDef>, id: Seq<char>) -> int {
    choose|i: int| 0 <= i < themes.len() && themes[i].id@ == id && forall|j: int| 0 <= j < i ==> themes[j].id@ != id
}

pub open spec fn has_theme(themes: Seq<ThemeDef>, id: Seq<char>) -> bool {
    exists|i: int| 0 <= i < themes.len() && #[trigger] themes[i].id@ == id
}

pub open spec fn wrong_api_message(plugin: Seq<char>, api: u32) -> Seq<char> {
    "plugin "@ + plugin + " is built for plugin API "@ + digits(api as nat)
}

impl Plugins {
    /// Where a theme's stylesheet is, given what the plugin's manifest read as. The plugin must
    /// have a dull id, a readable manifest for this build's API and a theme of that id, whose
    /// file lies inside the package.
    #[verifier::loop_isolation(false)]
    pub fn theme_css_path(&self, plugin: &str, theme: &str, manifest: Result<Manifest, String>) -> (r: Result<String, UiError>)
        ensures
            !is_valid_id(plugin@) ==> (r matches Err(UiError::NotFound { message }) && message@ == "plugin "@ + plugin@),
            is_valid_id(plugin@) ==> match manifest {
                Err(detail) => r matches Err(UiError::NotFound { message }) && message@ == detail@,
                Ok(m) => if m.api != API {
                    r matches Err(UiError::Invalid { message }) && message@ == wrong_api_message(plugin@, m.api)
                } else if !has_theme(m.provides.themes@, theme@) {
                    r matches Err(UiError::NotFound { message }) && message@ == "theme "@ + plugin@ + seq!['/'] + theme@
                } else {
                    let file = m.provides.themes@[first_theme(m.provides.themes@, theme@)].file@;
                    match r {
                        Ok(path) => stays_inside(file) && path@ == joined_path(plugin_folder(self@, plugin@), file),
                        Err(e) => !stays_inside(file) && (e matches UiError::Invalid { message } && message@ == not_inside_message(file)),
                    }
                },
            },
    {
        if !valid_id(plugin) {
            return Err(UiError::not_found(concat("plugin ", plugin)));
        }
        let m = match manifest {
            Ok(m) => m,
            Err(detail) => return Err(UiError::not_found(detail)),
        };
        if m.api != API {
            let api = number_text(m.api as u64);
            let message = sentence(&["plugin ", plugin, " is built for plugin API ", api.as_str()]);
            proof {
                reveal_with_fuel(crate::text::concat_all, 5);
            }
            return Err(UiError::invalid(message));
        }
        let themes = &m.provides.themes;
        let mut i: usize = 0;
        while i < themes.len()
            invariant
                i <= themes.len(),
                forall|j: int| 0 <= j < i ==> themes@[j].id@ != theme@,
            decreases themes.len() - i,
        {
            if crate::text::same_text(themes[i].id.as_str(), theme) {
                assert(first_theme(themes@, theme@) == i as int);
                let folder = self.folder_of(plugin);
                return safe_join(folder.as_str(), themes[i].file.as_str());
            }
            i = i + 1;
        }
        let key = address(plugin, theme);
        Err(UiError::not_found(concat("theme ", key.as_str())))
    }

    /// The layouts loadable plugins bring: each addressed as `<plugin>/<layout>` with the path
    /// of its file, when that file lies inside the package.
    #[verifier::loop_isolation(false)]
    pub fn layout_files(&self, listed: &Vec<PluginInfo>) -> (r: Vec<(String, String)>)
        ensures
            pair_views(r@) == layout_addresses(self@, listed@),
    {
        let mut out: Vec<(String, String)> = Vec::new();
        let mut i: usize = 0;
        while i < listed.len()
            invariant
                i <= listed.len(),
                pair_views(out@) == layout_addresses(self@, listed@.subrange(0, i as int)),
            decreases listed.len() - i,
        {
            let p = &listed[i];
            proof {
                assert(listed@.subrange(0, i + 1).drop_last() =~= listed@.subrange(0, i as int));
            }
            if p.status.is_ok() {
                let folder = self.folder_of(p.id.as_str());
                push_layouts(&mut out, folder.as_str(), p);
            } else {
                assert(pair_views(out@) =~= layout_addresses(self@, listed@.subrange(0, i + 1)));
            }
            i = i + 1;
        }
        assert(listed@.subrange(0, listed@.len() as int) =~= listed@);
        out
    }
}

pub open spec fn pair_views(v: Seq<(String, String)>) -> Seq<(Seq<char>, Seq<char>)> {
    v.map_values(|p: (String, String)| (p.0@, p.1@))
}

/// One plugin's layouts whose files lie inside its package, addressed and located.
pub open spec fn layout_entries(folder: Seq<char>, plugin: Seq<char>, layouts: Seq<LayoutDef>) -> Seq<(Seq<char>, Seq<char>)>
    decreases layouts.len(),
{
    if layouts.len() == 0 {
        Seq::empty()
    } else {
        let l = layouts.last();
        layout_entries(folder, plugin, layouts.drop_last()) + if stays_inside(l.file@) {
            seq![(plugin + seq!['/'] + l.id@, joined_path(folder, l.file@))]
        } else {
            Seq::empty()
        }
    }
}

/// The layouts of every loadable plugin, plugin after plugin.
pub open spec fn layout_addresses(root: Seq<char>, listed: Seq<PluginInfo>) -> Seq<(Seq<char>, Seq<char>)>
    decreases listed.len(),
{
    if listed.len() == 0 {
        Seq::empty()
    } else {
        let p = listed.last();
        layout_addresses(root, listed.drop_last()) + if p.status is Usable {
            layout_entries(plugin_folder(root, p.id@), p.id@, p.layouts@)
        } else {
            Seq::empty()
        }
    }
}

#[verifier::loop_isolation(false)]
fn push_layouts(out: &mut Vec<(String, String)>, folder: &str, p: &PluginInfo)
    ensures
        pair_views(final(out)@) == pair_views(old(out)@) + layout_entries(folder@, p.id@, p.layouts@),
{
    let ghost start = pair_views(out@);
    let mut j: usize = 0;
    while j < p.layouts.len()
        invariant
            j <= p.layouts.len(),
            pair_views(out@) == start + layout_entries(folder@, p.id@, p.layouts@.subrange(0, j as int)),
        decreases p.layouts.len() - j,
    {
        let l = &p.layouts[j];
        proof {
            assert(p.layouts@.subrange(0, j + 1).drop_last() =~= p.layouts@.subrange(0, j as int));
        }
        match safe_join(folder, l.file.as_str()) {
            Ok(path) => {
                let ghost before = out@;
                out.push((address(p.id.as_str(), l.id.as_str()), path));
                assert(pair_views(out@) =~= pair_views(before) + seq![
                    (p.id@ + seq!['/'] + l.id@, joined_path(folder@, l.file@)),
                ]);
            },
            Err(_) => {
                assert(layout_entries(folder@, p.id@, p.layouts@.subrange(0, j + 1))
                    =~= layout_entries(folder@, p.id@, p.layouts@.subrange(0, j as int)));
            },
        }
        j = j + 1;
    }
    assert(p.layouts@.subrange(0, p.layouts@.len() as int) =~= p.layouts@);
}

/// Removing needs a dull id: anything else names no plugin this app could have installed.
pub fn check_removable(id: &str) -> (r: Result<(), UiError>)
    ensures
        r is Ok <==> is_valid_id(id@),
        r matches Err(e) ==> (e matches UiError::NotFound { message } && message@ == "plugin "@ + id@),
{
    if !valid_id(id) {
        return Err(missing(id));
    }
    Ok(())
}

/// The error for a plugin that is not installed.
pub fn missing(id: &str) -> (e: UiError)
    ensures
        e matches UiError::NotFound { message } && message@ == "plugin "@ + id@,
{
    UiError::not_found(concat("plugin ", id))
}


/// The plugins' names as the list orders them: lowercased.
pub open spec fn name_keys(v: Seq<PluginInfo>) -> Seq<Seq<char>> {
    v.map_values(|p: PluginInfo| lowercased(p.name@))
}

/// The order the plugin list shows what was found in: by name, letter case aside, and in the
/// order they were found where two names agree (a stable sort).
pub fn list_order(found: &Vec<PluginInfo>) -> (p: Vec<usize>)
    ensures
        crate::order::is_permutation(p@, found@.len() as int),
        crate::order::sorted_stably(name_keys(found@), p@),
{
    let mut keys: Vec<String> = Vec::new();
    let mut i: usize = 0;
    while i < found.len()
        invariant
            i <= found@.len(),
            keys@.len() == i,
            forall|j: int| 0 <= j < i ==> (#[trigger] keys@[j])@ == lowercased(found@[j].name@),
        decreases found.len() - i,
    {
        keys.push(to_lowercase(found[i].name.as_str()));
        i = i + 1;
    }
    assert(crate::order::key_texts(keys@) =~= name_keys(found@));
    crate::order::stable_order(&keys)
}

/// What the plugin screen shows: everything installed, the themes that can actually be applied,
/// and the API this build speaks, so the list can say what a refused package wanted.
#[derive(Debug)]
pub struct PluginList {
    pub plugins: Vec<PluginInfo>,
    pub themes: Vec<ThemeInfo>,
    pub api: u32,
}

} // verus!
