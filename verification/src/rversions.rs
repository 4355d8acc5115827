//! RStudio's `r-versions` file: extra R installations declared by an
//! administrator, with labels, modules, scripts, repositories and libraries.

use vstd::prelude::*;
use crate::lines::{lines, lines_spec};
use crate::locator::{first_present, pick_first_present};
use crate::manager::clone_opt_string;
use crate::path::{contains_path, join, join_spec, lemma_views_push, views};
use crate::r_installation::{opt_view, EnvVars, RVersionsOverlay};
use crate::text::{
    ascii_lower, ascii_lower_chars, chars_eq, chars_of, index_of_char, lemma_index_of_char,
    push_str, slice_chars, string_of, trim, trim_chars,
};

verus! {

broadcast use lemma_views_push;

/// One entry of an `r-versions` file.
#[derive(Debug)]
pub struct RVersionsEntry {
    pub path: Option<String>,
    pub label: Option<String>,
    pub module: Option<String>,
    pub script: Option<String>,
    pub repo: Option<String>,
    pub library: Option<String>,
}

/// An entry as plain values: path, label, module, script, repo, library.
pub type EntryView = (
    Option<Seq<char>>,
    Option<Seq<char>>,
    Option<Seq<char>>,
    Option<Seq<char>>,
    Option<Seq<char>>,
    Option<Seq<char>>,
);

pub open spec fn entry_view(e: RVersionsEntry) -> EntryView {
    (
        opt_view(e.path),
        opt_view(e.label),
        opt_view(e.module),
        opt_view(e.script),
        opt_view(e.repo),
        opt_view(e.library),
    )
}

pub open spec fn entries_view(v: Seq<RVersionsEntry>) -> Seq<EntryView> {
    v.map_values(|e: RVersionsEntry| entry_view(e))
}

pub open spec fn empty_entry() -> EntryView {
    (None, None, None, None, None, None)
}

/// The entry with the field named by `key` (lowercased) set to `value`;
/// unknown keys leave it unchanged.
pub open spec fn set_field(e: EntryView, key: Seq<char>, value: Seq<char>) -> EntryView {
    if key == "path"@ {
        (Some(value), e.1, e.2, e.3, e.4, e.5)
    } else if key == "label"@ {
        (e.0, Some(value), e.2, e.3, e.4, e.5)
    } else if key == "module"@ {
        (e.0, e.1, Some(value), e.3, e.4, e.5)
    } else if key == "script"@ {
        (e.0, e.1, e.2, Some(value), e.4, e.5)
    } else if key == "repo"@ {
        (e.0, e.1, e.2, e.3, Some(value), e.5)
    } else if key == "library"@ {
        (e.0, e.1, e.2, e.3, e.4, Some(value))
    } else {
        e
    }
}

/// The parser's state after one more line: a blank line ends the entry
/// (kept when it has a path or a module), comments and lines without a
/// colon are skipped, and `key: value` sets a field.
pub open spec fn step(state: (EntryView, Seq<EntryView>), line: Seq<char>) -> (EntryView, Seq<EntryView>) {
    let t = trim(line);
    let (cur, done) = state;
    if t.len() == 0 {
        if cur.0 is Some || cur.2 is Some {
            (empty_entry(), done.push(cur))
        } else {
            (empty_entry(), done)
        }
    } else if t[0] == '#' {
        state
    } else {
        match index_of_char(t, ':') {
            None => state,
            Some(k) => (
                set_field(cur, ascii_lower(trim(t.subrange(0, k))), trim(t.subrange(k + 1, t.len() as int))),
                done,
            ),
        }
    }
}

/// The state after the given lines.
pub open spec fn run(ls: Seq<Seq<char>>) -> (EntryView, Seq<EntryView>)
    decreases ls.len(),
{
    if ls.len() == 0 {
        (empty_entry(), Seq::empty())
    } else {
        step(run(ls.drop_last()), ls.last())
    }
}

/// The entries of a file's text: its lines and a final blank line.
pub open spec fn parse_spec(content: Seq<char>) -> Seq<EntryView> {
    run(lines_spec(content).push(Seq::empty())).1
}

/// Every entry has a path or a module.
pub open spec fn all_resolvable(es: Seq<EntryView>) -> bool {
    forall|i: int| 0 <= i < es.len() ==> (#[trigger] es[i]).0 is Some || es[i].2 is Some
}

proof fn lemma_run_resolvable(ls: Seq<Seq<char>>)
    ensures
        all_resolvable(run(ls).1),
    decreases ls.len(),
{
    if ls.len() > 0 {
        lemma_run_resolvable(ls.drop_last());
    }
}

impl RVersionsEntry {
    pub fn empty() -> (r: RVersionsEntry)
        ensures
            entry_view(r) == empty_entry(),
    {
        RVersionsEntry { path: None, label: None, module: None, script: None, repo: None, library: None }
    }

    /// Whether some field is set.
    pub fn has_any_fields(&self) -> (r: bool)
        ensures
            r == (self.path is Some || self.label is Some || self.module is Some || self.script is Some
                || self.repo is Some || self.library is Some),
    {
        self.path.is_some() || self.label.is_some() || self.module.is_some() || self.script.is_some()
            || self.repo.is_some() || self.library.is_some()
    }
}

fn eq_lit(a: &[char], lit: &str) -> (r: bool)
    ensures
        r == (a@ == lit@),
{
    let l = chars_of(lit);
    chars_eq(a, l.as_slice())
}

fn set_entry_field(cur: &mut RVersionsEntry, key: &[char], value: String)
    ensures
        entry_view(*final(cur)) == set_field(entry_view(*old(cur)), key@, value@),
{
    if eq_lit(key, "path") {
        cur.path = Some(value);
    } else if eq_lit(key, "label") {
        cur.label = Some(value);
    } else if eq_lit(key, "module") {
        cur.module = Some(value);
    } else if eq_lit(key, "script") {
        cur.script = Some(value);
    } else if eq_lit(key, "repo") {
        cur.repo = Some(value);
    } else if eq_lit(key, "library") {
        cur.library = Some(value);
    }
}

fn step_exec(cur: &mut RVersionsEntry, done: &mut Vec<RVersionsEntry>, line: &str)
    ensures
        (entry_view(*final(cur)), entries_view(final(done)@)) == step(
            (entry_view(*old(cur)), entries_view(old(done)@)),
            line@,
        ),
{
    let raw = chars_of(line);
    let t = trim_chars(raw.as_slice());
    if t.len() == 0 {
        if cur.path.is_some() || cur.module.is_some() {
            let mut finished = RVersionsEntry::empty();
            std::mem::swap(&mut finished, cur);
            let ghost before = done@;
            done.push(finished);
            assert(entries_view(done@) == entries_view(before).push(entry_view(finished)));
        } else {
            *cur = RVersionsEntry::empty();
        }
        return;
    }
    if t[0] == '#' {
        return;
    }
    let k = match crate::text::find_char(t.as_slice(), ':') {
        Some(k) => k,
        None => {
            proof {
                lemma_index_of_char(t@, ':', t@.len() as int);
            }
            return;
        },
    };
    proof {
        lemma_index_of_char(t@, ':', k as int);
    }
    let key_raw = slice_chars(t.as_slice(), 0, k);
    let key_t = trim_chars(key_raw.as_slice());
    let key = ascii_lower_chars(key_t.as_slice());
    let value_raw = slice_chars(t.as_slice(), k + 1, t.len());
    let value = trim_chars(value_raw.as_slice());
    set_entry_field(cur, key.as_slice(), string_of(value.as_slice()));
}

/// Reads the entries of an `r-versions` file: blocks of `Key: value` lines
/// separated by blank lines; keys are case-insensitive, values trimmed and
/// may hold colons; comments and lines without a colon are skipped, and a
/// block without a path or a module is dropped.
pub fn parse_rversions_file(content: &str) -> (r: Vec<RVersionsEntry>)
    ensures
        entries_view(r@) == parse_spec(content@),
        all_resolvable(entries_view(r@)),
{
    let ls = lines(content);
    let ghost lv = ls@.map_values(|l: String| l@).push(Seq::<char>::empty());
    let mut cur = RVersionsEntry::empty();
    let mut done: Vec<RVersionsEntry> = Vec::new();
    let mut i: usize = 0;
    while i < ls.len()
        invariant
            i <= ls.len(),
            lv == ls@.map_values(|l: String| l@).push(Seq::<char>::empty()),
            (entry_view(cur), entries_view(done@)) == run(lv.subrange(0, i as int)),
        decreases ls.len() - i,
    {
        assert(lv.subrange(0, i + 1).drop_last() == lv.subrange(0, i as int));
        assert(lv[i as int] == ls@[i as int]@);
        step_exec(&mut cur, &mut done, ls[i].as_str());
        i = i + 1;
    }
    assert(lv.subrange(0, ls.len() + 1).drop_last() == lv.subrange(0, ls.len() as int));
    assert(lv[ls.len() as int] == Seq::<char>::empty());
    step_exec(&mut cur, &mut done, "");
    proof {
        reveal_strlit("");
        assert(lv.subrange(0, ls.len() + 1) == lv);
        assert(lv == lines_spec(content@).push(Seq::<char>::empty()));
        lemma_run_resolvable(lv);
    }
    done
}


/// A line that ends an entry: blank once trimmed.
pub open spec fn is_blank(line: Seq<char>) -> bool {
    trim(line).len() == 0
}

proof fn lemma_step_appends(c: EntryView, d1: Seq<EntryView>, d: Seq<EntryView>, l: Seq<char>)
    ensures
        step((c, d1 + d), l) == (step((c, d), l).0, d1 + step((c, d), l).1),
{
    let t = trim(l);
    if t.len() == 0 && (c.0 is Some || c.2 is Some) {
        assert((d1 + d).push(c) =~= d1 + d.push(c));
    }
}

/// Entries never reach across a blank line: what follows it is read as if
/// the file began there, after the entries before it.
pub proof fn law_blank_line_separates_entries(before: Seq<Seq<char>>, blank: Seq<char>, after: Seq<Seq<char>>)
    requires
        is_blank(blank),
    ensures
        run(before.push(blank) + after) == (run(after).0, run(before.push(blank)).1 + run(after).1),
    decreases after.len(),
{
    let x = before.push(blank);
    if after.len() == 0 {
        assert(x + after =~= x);
        assert(x.drop_last() =~= before);
        assert(run(after).1 + Seq::empty() =~= run(after).1);
        assert(run(x).1 + Seq::<EntryView>::empty() =~= run(x).1);
    } else {
        let a = after.drop_last();
        law_blank_line_separates_entries(before, blank, a);
        assert((x + after).drop_last() =~= x + a);
        assert((x + after).last() == after.last());
        lemma_step_appends(run(a).0, run(x).1, run(a).1, after.last());
    }
}

/// Lines with no blank line among them make up one entry and emit none.
proof fn lemma_block_emits_nothing(block: Seq<Seq<char>>)
    requires
        forall|i: int| 0 <= i < block.len() ==> !is_blank(#[trigger] block[i]),
    ensures
        run(block).1.len() == 0,
    decreases block.len(),
{
    if block.len() > 0 {
        lemma_block_emits_nothing(block.drop_last());
        assert(!is_blank(block[block.len() - 1]));
    }
}

/// A block of lines with no blank line among them, ended by a blank line,
/// gives exactly one entry, the fields its lines set, when that entry has
/// a path or a module, and none otherwise.
pub proof fn law_block_gives_one_entry(block: Seq<Seq<char>>, blank: Seq<char>)
    requires
        forall|i: int| 0 <= i < block.len() ==> !is_blank(#[trigger] block[i]),
        is_blank(blank),
    ensures
        run(block.push(blank)).1 == (if run(block).0.0 is Some || run(block).0.2 is Some {
            seq![run(block).0]
        } else {
            Seq::empty()
        }),
        run(block.push(blank)).0 == empty_entry(),
{
    lemma_block_emits_nothing(block);
    assert(block.push(blank).drop_last() =~= block);
    assert(Seq::<EntryView>::empty().push(run(block).0) =~= seq![run(block).0]);
    assert(run(block).1 =~= Seq::<EntryView>::empty());
}

/// The sequence with only the first occurrence of each element kept.
pub open spec fn dedup_seq(s: Seq<Seq<char>>) -> Seq<Seq<char>>
    decreases s.len(),
{
    if s.len() == 0 {
        Seq::empty()
    } else {
        let d = dedup_seq(s.drop_last());
        if d.contains(s.last()) {
            d
        } else {
            d.push(s.last())
        }
    }
}

/// The configuration directories searched, in order: the XDG home (else
/// `~/.config`), the XDG directories (else `/etc/xdg`), then `/etc`.
pub open spec fn config_dirs_spec(
    user_home: Option<Seq<char>>,
    xdg_config_home: Option<Seq<char>>,
    xdg_config_dirs: Seq<Seq<char>>,
) -> Seq<Seq<char>> {
    (match xdg_config_home {
        Some(h) => seq![h],
        None => match user_home {
            Some(h) => seq![join_spec(h, ".config"@)],
            None => Seq::empty(),
        },
    }) + (if xdg_config_dirs.len() == 0 {
        seq!["/etc/xdg"@]
    } else {
        xdg_config_dirs
    }) + seq!["/etc"@]
}

/// `<dir>/rstudio/r-versions`.
pub open spec fn rversions_path_spec(dir: Seq<char>) -> Seq<char> {
    join_spec(join_spec(dir, "rstudio"@), "r-versions"@)
}

/// The places an `r-versions` file may be, most preferred first.
pub open spec fn rversions_candidates_spec(
    user_home: Option<Seq<char>>,
    xdg_config_home: Option<Seq<char>>,
    xdg_config_dirs: Seq<Seq<char>>,
) -> Seq<Seq<char>> {
    dedup_seq(config_dirs_spec(user_home, xdg_config_home, xdg_config_dirs)).map_values(
        |d: Seq<char>| rversions_path_spec(d),
    )
}

/// The candidate `r-versions` files, in search order, for the caller to probe.
pub fn rversions_file_candidates(
    user_home: &Option<String>,
    xdg_config_home: &Option<String>,
    xdg_config_dirs: &Vec<String>,
) -> (r: Vec<String>)
    ensures
        views(r@) == rversions_candidates_spec(
            opt_view(*user_home),
            opt_view(*xdg_config_home),
            views(xdg_config_dirs@),
        ),
{
    let mut dirs: Vec<String> = Vec::new();
    match xdg_config_home {
        Some(h) => dirs.push(h.clone()),
        None => match user_home {
            Some(h) => dirs.push(join(h.as_str(), ".config")),
            None => {},
        },
    }
    let ghost head = views(dirs@);
    if xdg_config_dirs.len() == 0 {
        dirs.push("/etc/xdg".to_string());
    } else {
        let mut i: usize = 0;
        while i < xdg_config_dirs.len()
            invariant
                i <= xdg_config_dirs.len(),
                views(dirs@) == head + views(xdg_config_dirs@).subrange(0, i as int),
            decreases xdg_config_dirs.len() - i,
        {
            assert(views(xdg_config_dirs@).subrange(0, i + 1) == views(xdg_config_dirs@).subrange(
                0,
                i as int,
            ).push(xdg_config_dirs@[i as int]@));
            dirs.push(xdg_config_dirs[i].clone());
            i = i + 1;
        }
        assert(views(xdg_config_dirs@).subrange(0, xdg_config_dirs.len() as int) == views(
            xdg_config_dirs@,
        ));
    }
    dirs.push("/etc".to_string());
    assert(views(dirs@) == config_dirs_spec(
        opt_view(*user_home),
        opt_view(*xdg_config_home),
        views(xdg_config_dirs@),
    ));
    let mut unique: Vec<String> = Vec::new();
    let mut i: usize = 0;
    while i < dirs.len()
        invariant
            i <= dirs.len(),
            views(unique@) == dedup_seq(views(dirs@).subrange(0, i as int)),
        decreases dirs.len() - i,
    {
        assert(views(dirs@).subrange(0, i + 1).drop_last() == views(dirs@).subrange(0, i as int));
        if !contains_path(&unique, dirs[i].as_str()) {
            unique.push(dirs[i].clone());
        }
        i = i + 1;
    }
    assert(views(dirs@).subrange(0, dirs.len() as int) == views(dirs@));
    let mut out: Vec<String> = Vec::new();
    let mut j: usize = 0;
    while j < unique.len()
        invariant
            j <= unique.len(),
            views(out@) == views(unique@).subrange(0, j as int).map_values(
                |d: Seq<char>| rversions_path_spec(d),
            ),
        decreases unique.len() - j,
    {
        let a = join(unique[j].as_str(), "rstudio");
        out.push(join(a.as_str(), "r-versions"));
        assert(views(unique@).subrange(0, j + 1) == views(unique@).subrange(0, j as int).push(
            unique@[j as int]@,
        ));
        j = j + 1;
    }
    assert(views(unique@).subrange(0, unique.len() as int) == views(unique@));
    out
}

/// The `r-versions` file in use: the first candidate that is a file
/// (`files` are the probed candidates that are files).
pub fn find_rversions_file(
    user_home: &Option<String>,
    xdg_config_home: &Option<String>,
    xdg_config_dirs: &Vec<String>,
    files: &Vec<String>,
) -> (r: Option<String>)
    ensures
        opt_view(r) == first_present(
            rversions_candidates_spec(
                opt_view(*user_home),
                opt_view(*xdg_config_home),
                views(xdg_config_dirs@),
            ),
            views(files@),
        ),
{
    let c = rversions_file_candidates(user_home, xdg_config_home, xdg_config_dirs);
    pick_first_present(&c, files)
}

/// The startup command of an entry: the module's, then its script sourced.
pub open spec fn combined_startup(module_command: Option<Seq<char>>, script: Option<Seq<char>>) -> Option<
    Seq<char>,
> {
    match module_command {
        Some(m) => match script {
            Some(s) => Some(m + " && . "@ + s),
            None => Some(m),
        },
        None => match script {
            Some(s) => Some(". "@ + s),
            None => None,
        },
    }
}

pub fn combine_startup_command(module_startup_command: &Option<String>, script: &Option<String>) -> (r:
    Option<String>)
    ensures
        opt_view(r) == combined_startup(opt_view(*module_startup_command), opt_view(*script)),
{
    match module_startup_command {
        Some(m) => match script {
            Some(s) => {
                let mut v: Vec<char> = Vec::new();
                push_str(&mut v, m.as_str());
                push_str(&mut v, " && . ");
                push_str(&mut v, s.as_str());
                Some(string_of(v.as_slice()))
            },
            None => Some(m.clone()),
        },
        None => match script {
            Some(s) => {
                let mut v: Vec<char> = Vec::new();
                push_str(&mut v, ". ");
                push_str(&mut v, s.as_str());
                Some(string_of(v.as_slice()))
            },
            None => None,
        },
    }
}

/// An overlay as plain values: label, script, repo, library, module and
/// the module's startup command.
pub type OverlayView = (
    Option<Seq<char>>,
    Option<Seq<char>>,
    Option<Seq<char>>,
    Option<Seq<char>>,
    Option<Seq<char>>,
    Option<Seq<char>>,
);

pub open spec fn overlay_view(o: Option<RVersionsOverlay>) -> Option<OverlayView> {
    match o {
        Some(o) => Some(
            (
                opt_view(o.label),
                opt_view(o.script),
                opt_view(o.repo),
                opt_view(o.library),
                opt_view(o.module),
                opt_view(o.module_startup_command),
            ),
        ),
        None => None,
    }
}

/// The overlay an entry adds, absent when it would be empty.
pub open spec fn overlay_spec(e: EntryView, module_command: Option<Seq<char>>) -> Option<OverlayView> {
    if e.1 is Some || e.3 is Some || e.4 is Some || e.5 is Some || e.2 is Some || module_command is Some {
        Some((e.1, e.3, e.4, e.5, e.2, module_command))
    } else {
        None
    }
}

pub fn build_rversions_overlay(entry: &RVersionsEntry, module_startup_command: Option<String>) -> (r:
    Option<RVersionsOverlay>)
    ensures
        overlay_view(r) == overlay_spec(entry_view(*entry), opt_view(module_startup_command)),
{
    let overlay = RVersionsOverlay {
        label: clone_opt_string(&entry.label),
        script: clone_opt_string(&entry.script),
        repo: clone_opt_string(&entry.repo),
        library: clone_opt_string(&entry.library),
        module: clone_opt_string(&entry.module),
        module_startup_command,
    };
    if overlay.label.is_some() || overlay.script.is_some() || overlay.repo.is_some()
        || overlay.library.is_some() || overlay.module.is_some()
        || overlay.module_startup_command.is_some() {
        Some(overlay)
    } else {
        None
    }
}

/// Variables as plain pairs.
pub open spec fn vars_view(v: Option<EnvVars>) -> Option<Seq<(Seq<char>, Seq<char>)>> {
    match v {
        Some(x) => Some(x@.map_values(|p: (String, String)| (p.0@, p.1@))),
        None => None,
    }
}

/// An entry's library becomes `R_LIBS`.
pub open spec fn library_vars(library: Option<Seq<char>>) -> Option<Seq<(Seq<char>, Seq<char>)>> {
    match library {
        Some(l) => Some(seq![("R_LIBS"@, l)]),
        None => None,
    }
}

pub fn library_variables(library: &Option<String>) -> (r: Option<EnvVars>)
    ensures
        vars_view(r) == library_vars(opt_view(*library)),
{
    match library {
        Some(l) => {
            let mut v: EnvVars = Vec::new();
            v.push(("R_LIBS".to_string(), l.clone()));
            proof {
                assert(v@.map_values(|p: (String, String)| (p.0@, p.1@)) =~= seq![("R_LIBS"@, l@)]);
            }
            Some(v)
        },
        None => None,
    }
}

/// `<path>/bin/R`.
pub open spec fn entry_executable_spec(path: Seq<char>) -> Seq<char> {
    join_spec(join_spec(path, "bin"@), "R"@)
}

/// The executable an entry with a path names, for the caller to check.
pub fn entry_executable(entry: &RVersionsEntry) -> (r: Option<String>)
    ensures
        opt_view(r) == (match opt_view(entry.path) {
            Some(p) => Some(entry_executable_spec(p)),
            None => None,
        }),
{
    match &entry.path {
        Some(p) => {
            let b = join(p.as_str(), "bin");
            Some(join(b.as_str(), "R"))
        },
        None => None,
    }
}

proof fn lemma_dedup_contains(s: Seq<Seq<char>>, x: Seq<char>)
    ensures
        dedup_seq(s).contains(x) <==> s.contains(x),
    decreases s.len(),
{
    if s.len() > 0 {
        lemma_dedup_contains(s.drop_last(), x);
        let d = dedup_seq(s.drop_last());
        if s.contains(x) && !s.drop_last().contains(x) {
            let k = choose|k: int| 0 <= k < s.len() && s[k] == x;
            if k < s.len() - 1 {
                assert(s.drop_last()[k] == x);
            }
            assert(s.last() == x);
            if !d.contains(x) {
                assert(d.push(x)[d.len() as int] == x);
            }
        }
        if s.drop_last().contains(x) {
            let k = choose|k: int| 0 <= k < s.drop_last().len() && s.drop_last()[k] == x;
            assert(s[k] == x);
        }
        if !d.contains(s.last()) {
            if d.push(s.last()).contains(x) && !d.contains(x) {
                let k = choose|k: int| 0 <= k < d.push(s.last()).len() && d.push(s.last())[k] == x;
                assert(k == d.len());
                assert(s[s.len() - 1] == x);
            }
            if d.contains(x) {
                let k = choose|k: int| 0 <= k < d.len() && d[k] == x;
                assert(d.push(s.last())[k] == x);
            }
        }
    }
}

/// `/etc/rstudio/r-versions`, RStudio's system-wide file.
proof fn lemma_etc_candidate()
    ensures
        rversions_path_spec("/etc"@) == "/etc/rstudio/r-versions"@,
{
    reveal_strlit("/etc");
    reveal_strlit("rstudio");
    reveal_strlit("r-versions");
    reveal_strlit("/etc/rstudio/r-versions");
    assert(join_spec("/etc"@, "rstudio"@) =~= "/etc/rstudio"@) by {
        reveal_strlit("/etc/rstudio");
    }
    reveal_strlit("/etc/rstudio");
    assert(join_spec("/etc/rstudio"@, "r-versions"@) =~= "/etc/rstudio/r-versions"@);
}

/// Whatever the home and the XDG variables are, RStudio's system-wide
/// `/etc/rstudio/r-versions` is a candidate; when no configuration
/// directory before it is `/etc` itself, it is the last candidate, after
/// the user's and the XDG directories'.
pub proof fn law_etc_rversions_is_always_a_candidate(
    user_home: Option<Seq<char>>,
    xdg_config_home: Option<Seq<char>>,
    xdg_config_dirs: Seq<Seq<char>>,
)
    ensures
        rversions_candidates_spec(user_home, xdg_config_home, xdg_config_dirs).contains("/etc/rstudio/r-versions"@),
        !xdg_config_dirs.contains("/etc"@) && xdg_config_home != Some("/etc"@) && (xdg_config_home is None
            ==> user_home is None || join_spec(user_home.unwrap(), ".config"@) != "/etc"@) ==> rversions_candidates_spec(
            user_home,
            xdg_config_home,
            xdg_config_dirs,
        ).last() == "/etc/rstudio/r-versions"@,
{
    lemma_etc_candidate();
    let dirs = config_dirs_spec(user_home, xdg_config_home, xdg_config_dirs);
    let etc = "/etc"@;
    assert(dirs.last() == etc);
    assert(dirs.contains(etc)) by {
        assert(dirs[dirs.len() - 1] == etc);
    }
    lemma_dedup_contains(dirs, etc);
    let d = dedup_seq(dirs);
    let k = choose|k: int| 0 <= k < d.len() && d[k] == etc;
    let c = d.map_values(|x: Seq<char>| rversions_path_spec(x));
    assert(c[k] == "/etc/rstudio/r-versions"@);
    let front = dirs.drop_last();
    if !xdg_config_dirs.contains(etc) && xdg_config_home != Some(etc) && (xdg_config_home is None ==> user_home is None
        || join_spec(user_home.unwrap(), ".config"@) != etc) {
        let a: Seq<Seq<char>> = match xdg_config_home {
            Some(h) => seq![h],
            None => match user_home {
                Some(h) => seq![join_spec(h, ".config"@)],
                None => Seq::empty(),
            },
        };
        let b: Seq<Seq<char>> = if xdg_config_dirs.len() == 0 {
            seq!["/etc/xdg"@]
        } else {
            xdg_config_dirs
        };
        assert(dirs == a + b + seq![etc]);
        assert(front =~= a + b);
        assert(!front.contains(etc)) by {
            reveal_strlit("/etc/xdg");
            reveal_strlit("/etc");
            if front.contains(etc) {
                let m = choose|m: int| 0 <= m < front.len() && front[m] == etc;
                if m < a.len() {
                    assert(a[m] == etc);
                } else {
                    assert(b[m - a.len()] == etc);
                    if xdg_config_dirs.len() == 0 {
                        assert("/etc/xdg"@.len() != etc.len());
                    } else {
                        assert(xdg_config_dirs.contains(etc));
                    }
                }
            }
        }
        lemma_dedup_contains(front, etc);
        assert(d == dedup_seq(front).push(etc));
        assert(c.last() == rversions_path_spec(etc));
    }
}

/// RStudio's system-wide `r-versions` file is found whenever it exists:
/// the search then always finds some file.
pub proof fn law_existing_etc_rversions_is_found(
    user_home: Option<Seq<char>>,
    xdg_config_home: Option<Seq<char>>,
    xdg_config_dirs: Seq<Seq<char>>,
    files: Seq<Seq<char>>,
)
    requires
        files.contains("/etc/rstudio/r-versions"@),
    ensures
        first_present(rversions_candidates_spec(user_home, xdg_config_home, xdg_config_dirs), files) is Some,
{
    law_etc_rversions_is_always_a_candidate(user_home, xdg_config_home, xdg_config_dirs);
    let c = rversions_candidates_spec(user_home, xdg_config_home, xdg_config_dirs);
    let k = choose|k: int| 0 <= k < c.len() && c[k] == "/etc/rstudio/r-versions"@;
    lemma_first_present_some(c, files, k);
}

proof fn lemma_first_present_some(c: Seq<Seq<char>>, present: Seq<Seq<char>>, k: int)
    requires
        0 <= k < c.len(),
        present.contains(c[k]),
    ensures
        first_present(c, present) is Some,
    decreases k,
{
    if k > 0 && !present.contains(c[0]) {
        assert(c.drop_first()[k - 1] == c[k]);
        lemma_first_present_some(c.drop_first(), present, k - 1);
    }
}

} // verus!
