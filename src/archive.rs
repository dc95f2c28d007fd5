//! The archive codec's decisions: which walked entries become archive entries
//! and under which names, and where each archive entry is extracted to.
//! Reading the tree, compressing and writing bytes happen around these.
use vstd::prelude::*;
use crate::exclude::{
    ascii_patterns, default_exclusion_texts, excluded, excluded_ascii, file_name, is_sep,
    lemma_default_exclusions_cover_logs, pattern_texts, should_exclude,
};
use crate::text::{all_ascii, ascii_lowered, is_infix};
use crate::text::{chars_of, string_from_chars};

verus! {

/// What a walked filesystem entry is.
#[derive(Clone, Copy, Debug, PartialEq, Eq, Structural)]
pub enum EntryKind {
    File,
    Dir,
    Other,
}

/// One entry met while walking an included folder: its path relative to the
/// source root, with the host's separators.
#[derive(Clone, Debug)]
pub struct WalkEntry {
    pub rel_path: String,
    pub kind: EntryKind,
}

/// One entry to write into an archive: its name inside the archive, the index
/// of the walked entry it comes from, and whether it is a directory entry.
#[derive(Clone, Debug)]
pub struct ArchiveEntry {
    pub name: String,
    pub source: usize,
    pub is_dir: bool,
}

/// An archive entry as plain values.
pub open spec fn entry_view(e: ArchiveEntry) -> (Seq<char>, int, bool) {
    (e.name@, e.source as int, e.is_dir)
}

/// A path with every backslash turned into a forward slash.
pub open spec fn normalized(p: Seq<char>) -> Seq<char> {
    p.map_values(|c: char| if c == '\\' { '/' } else { c })
}

/// The archive entries that the walked entry `e`, at index `i`, contributes.
pub open spec fn plan_step(e: WalkEntry, i: int, pats: Seq<Seq<char>>) -> Seq<(Seq<char>, int, bool)> {
    let n = normalized(e.rel_path@);
    if excluded(n, pats) {
        Seq::empty()
    } else if e.kind == EntryKind::File {
        seq![(n, i, false)]
    } else if e.kind == EntryKind::Dir && n.len() > 0 {
        seq![(n.push('/'), i, true)]
    } else {
        Seq::empty()
    }
}

/// The archive entries that the first `n` walked entries contribute, in order.
pub open spec fn plan_of(es: Seq<WalkEntry>, pats: Seq<Seq<char>>, n: int) -> Seq<(Seq<char>, int, bool)>
    decreases n,
{
    if n <= 0 {
        Seq::empty()
    } else {
        plan_of(es, pats, n - 1) + plan_step(es[n - 1], n - 1, pats)
    }
}

/// Every planned entry comes from a walked entry that the patterns do not
/// exclude, and is named by that entry's normalized path.
pub open spec fn planned_from(r: Seq<ArchiveEntry>, es: Seq<WalkEntry>, pats: Seq<Seq<char>>) -> bool {
    forall|k: int|
        0 <= k < r.len() ==> ({
            let e = #[trigger] r[k];
            let n = normalized(es[e.source as int].rel_path@);
            &&& e.source < es.len()
            &&& !excluded(n, pats)
            &&& (all_ascii(n) && ascii_patterns(pats) ==> !excluded_ascii(n, pats))
            &&& e.name@ == if e.is_dir {
                n.push('/')
            } else {
                n
            }
        })
}

/// With the default patterns, no ASCII entry of an archive is a file named
/// `server.log`, in any case, nor lies at or under a directory named `logs`,
/// at any depth.
pub proof fn lemma_archive_leaves_out_logs(r: Seq<ArchiveEntry>, es: Seq<WalkEntry>, k: int)
    requires
        planned_from(r, es, default_exclusion_texts()),
        0 <= k < r.len(),
        all_ascii(normalized(es[r[k].source as int].rel_path@)),
    ensures
        ({
            let n = normalized(es[r[k].source as int].rel_path@);
            &&& ascii_lowered(file_name(n)) != "server.log"@
            &&& !is_infix("logs"@, ascii_lowered(n))
        }),
{
    crate::exclude::lemma_default_exclusions_ascii();
    let n = normalized(es[r[k].source as int].rel_path@);
    if ascii_lowered(file_name(n)) == "server.log"@ || is_infix("logs"@, ascii_lowered(n)) {
        lemma_default_exclusions_cover_logs(n);
    }
}

/// `p` with forward slashes for separators.
pub fn normalize_separators(p: &str) -> (r: String)
    ensures
        r@ == normalized(p@),
{
    let cs = chars_of(p);
    let mut out: Vec<char> = Vec::new();
    let mut i: usize = 0;
    while i < cs.len()
        invariant
            i <= cs.len(),
            cs@ == p@,
            out@ == normalized(cs@.take(i as int)),
        decreases cs.len() - i,
    {
        let c = cs[i];
        out.push(if c == '\\' { '/' } else { c });
        i = i + 1;
        assert(out@ =~= normalized(cs@.take(i as int)));
    }
    assert(cs@.take(cs.len() as int) =~= cs@);
    string_from_chars(&out)
}

/// The entries to write for a walked tree, in walk order: every file, and every
/// directory but the source root itself, that the exclusions do not match.
/// Names are relative paths with forward slashes; directory names end in `/`.
pub fn plan_archive(entries: &Vec<WalkEntry>, exclusions: &[&str]) -> (r: Vec<ArchiveEntry>)
    ensures
        r@.map_values(|e: ArchiveEntry| entry_view(e)) == plan_of(
            entries@,
            pattern_texts(exclusions@),
            entries@.len() as int,
        ),
        planned_from(r@, entries@, pattern_texts(exclusions@)),
{
    let ghost pats = pattern_texts(exclusions@);
    let mut r: Vec<ArchiveEntry> = Vec::new();
    let mut i: usize = 0;
    while i < entries.len()
        invariant
            i <= entries.len(),
            pats == pattern_texts(exclusions@),
            r@.map_values(|e: ArchiveEntry| entry_view(e)) == plan_of(entries@, pats, i as int),
            planned_from(r@, entries@, pats),
            forall|k: int| 0 <= k < r@.len() ==> (#[trigger] r@[k]).source < i,
        decreases entries.len() - i,
    {
        let e = &entries[i];
        let n = normalize_separators(e.rel_path.as_str());
        let ghost before = r@.map_values(|e: ArchiveEntry| entry_view(e));
        if should_exclude(n.as_str(), exclusions) {
        } else if e.kind == EntryKind::File {
            r.push(ArchiveEntry { name: n, source: i, is_dir: false });
        } else if e.kind == EntryKind::Dir && !n.as_str().is_empty() {
            let mut cs = chars_of(n.as_str());
            cs.push('/');
            let name = string_from_chars(&cs);
            r.push(ArchiveEntry { name, source: i, is_dir: true });
        }
        assert(r@.map_values(|e: ArchiveEntry| entry_view(e)) =~= before + plan_step(
            entries@[i as int],
            i as int,
            pats,
        ));
        i = i + 1;
    }
    r
}

/// The state after folding the characters of an entry name: the components
/// kept so far, joined by `/`, and the component being read.
pub open spec fn fold_components(s: Seq<char>) -> (Seq<char>, Seq<char>)
    decreases s.len(),
{
    if s.len() == 0 {
        (Seq::empty(), Seq::empty())
    } else {
        let (out, cur) = fold_components(s.drop_last());
        if is_sep(s.last()) {
            (flush(out, cur), Seq::empty())
        } else {
            (out, cur.push(s.last()))
        }
    }
}

/// Can this component stand in an extracted path? Empty, `.` and `..`
/// components, and drive prefixes, cannot.
pub open spec fn safe_component(c: Seq<char>) -> bool {
    &&& c.len() > 0
    &&& c != seq!['.']
    &&& c != seq!['.', '.']
    &&& !c.contains(':')
}

/// `out` with the component `cur` appended, if it is safe.
pub open spec fn flush(out: Seq<char>, cur: Seq<char>) -> Seq<char> {
    if !safe_component(cur) {
        out
    } else if out.len() == 0 {
        cur
    } else {
        out.push('/') + cur
    }
}

/// An entry name made safe to extract under a root: its safe components, in
/// order, joined by `/`. It never climbs out of the root nor names an absolute
/// path (`lemma_extract_stays_under_root`).
pub open spec fn sanitized(name: Seq<char>) -> Seq<char> {
    let (out, cur) = fold_components(name);
    flush(out, cur)
}

/// What to do with one archive entry when extracting.
#[derive(Clone, Debug)]
pub enum ExtractStep {
    /// Create this directory, relative to the destination root.
    MakeDir(String),
    /// Create the parent directories of this path, relative to the destination
    /// root, then write the entry's content there.
    WriteFile(String),
    /// Nothing is left of the name once made safe.
    Skip,
}

/// The step that extracts an entry of name `name`.
pub open spec fn extract_step_of(name: Seq<char>) -> ExtractStepView {
    let t = sanitized(name);
    if t.len() == 0 {
        ExtractStepView::Skip
    } else if name.len() > 0 && name.last() == '/' {
        ExtractStepView::MakeDir(t)
    } else {
        ExtractStepView::WriteFile(t)
    }
}

/// An extraction step as plain values.
pub enum ExtractStepView {
    MakeDir(Seq<char>),
    WriteFile(Seq<char>),
    Skip,
}

impl View for ExtractStep {
    type V = ExtractStepView;

    open spec fn view(&self) -> ExtractStepView {
        match self {
            ExtractStep::MakeDir(p) => ExtractStepView::MakeDir(p@),
            ExtractStep::WriteFile(p) => ExtractStepView::WriteFile(p@),
            ExtractStep::Skip => ExtractStepView::Skip,
        }
    }
}

/// Can the component `c` stand in an extracted path?
fn component_is_safe(c: &Vec<char>) -> (r: bool)
    ensures
        r == safe_component(c@),
{
    if c.len() == 0 {
        return false;
    }
    if c.len() == 1 && c[0] == '.' {
        assert(c@ =~= seq!['.']);
        return false;
    }
    if c.len() == 2 && c[0] == '.' && c[1] == '.' {
        assert(c@ =~= seq!['.', '.']);
        return false;
    }
    let mut i: usize = 0;
    while i < c.len()
        invariant
            i <= c.len(),
            forall|j: int| 0 <= j < i ==> c@[j] != ':',
        decreases c.len() - i,
    {
        if c[i] == ':' {
            assert(c@.contains(':'));
            return false;
        }
        i = i + 1;
    }
    assert(c@.len() == 1 ==> c@ != seq!['.']);
    assert(c@.len() == 2 ==> c@ != seq!['.', '.']);
    true
}

/// Append the component `cur` to `out`, as `flush` says.
fn flush_into(out: &mut Vec<char>, cur: &Vec<char>)
    ensures
        final(out)@ == flush(old(out)@, cur@),
{
    if component_is_safe(cur) {
        if out.len() > 0 {
            out.push('/');
        }
        let mut i: usize = 0;
        let ghost start = out@;
        while i < cur.len()
            invariant
                i <= cur.len(),
                out@ == start + cur@.take(i as int),
            decreases cur.len() - i,
        {
            out.push(cur[i]);
            i = i + 1;
            assert(out@ =~= start + cur@.take(i as int));
        }
        assert(cur@.take(cur.len() as int) =~= cur@);
        assert(old(out)@.len() == 0 ==> start + cur@ =~= cur@);
    }
}

/// The safe relative path that an entry named `name` is extracted to.
pub fn sanitize_entry_name(name: &str) -> (r: String)
    ensures
        r@ == sanitized(name@),
{
    let cs = chars_of(name);
    let mut out: Vec<char> = Vec::new();
    let mut cur: Vec<char> = Vec::new();
    let mut i: usize = 0;
    while i < cs.len()
        invariant
            i <= cs.len(),
            cs@ == name@,
            (out@, cur@) == fold_components(cs@.take(i as int)),
        decreases cs.len() - i,
    {
        assert(cs@.take(i + 1).drop_last() =~= cs@.take(i as int));
        let c = cs[i];
        if c == '/' || c == '\\' {
            flush_into(&mut out, &cur);
            cur = Vec::new();
        } else {
            cur.push(c);
        }
        i = i + 1;
    }
    assert(cs@.take(cs.len() as int) =~= cs@);
    flush_into(&mut out, &cur);
    string_from_chars(&out)
}

/// What to do with the archive entry named `name` when extracting under a root.
pub fn extract_step(name: &str) -> (r: ExtractStep)
    ensures
        r@ == extract_step_of(name@),
{
    let t = sanitize_entry_name(name);
    let cs = chars_of(name);
    if t.as_str().is_empty() {
        ExtractStep::Skip
    } else if cs.len() > 0 && cs[cs.len() - 1] == '/' {
        ExtractStep::MakeDir(t)
    } else {
        ExtractStep::WriteFile(t)
    }
}

/// Components joined by `/`.
pub open spec fn join_components(cs: Seq<Seq<char>>) -> Seq<char>
    decreases cs.len(),
{
    if cs.len() == 0 {
        Seq::empty()
    } else if cs.len() == 1 {
        cs[0]
    } else {
        join_components(cs.drop_last()) + seq!['/'] + cs.last()
    }
}

/// A component that a walk can yield: safe, and without separators.
pub open spec fn plain_component(c: Seq<char>) -> bool {
    safe_component(c) && forall|i: int| 0 <= i < c.len() ==> !is_sep(#[trigger] c[i])
}

/// Are all of `cs` plain components?
pub open spec fn all_plain(cs: Seq<Seq<char>>) -> bool {
    forall|i: int| 0 <= i < cs.len() ==> plain_component(#[trigger] cs[i])
}

proof fn lemma_fold_plain_suffix(p: Seq<char>, c: Seq<char>)
    requires
        forall|i: int| 0 <= i < c.len() ==> !is_sep(#[trigger] c[i]),
    ensures
        fold_components(p + c) == (fold_components(p).0, fold_components(p).1 + c),
    decreases c.len(),
{
    if c.len() == 0 {
        assert(p + c =~= p);
        assert(fold_components(p).1 + c =~= fold_components(p).1);
    } else {
        let c0 = c.drop_last();
        lemma_fold_plain_suffix(p, c0);
        assert((p + c).drop_last() =~= p + c0);
        assert((p + c).last() == c.last());
        assert(fold_components(p).1 + c0 + seq![c.last()] =~= fold_components(p).1 + c);
        assert((fold_components(p).1 + c0).push(c.last()) =~= fold_components(p).1 + c);
    }
}

proof fn lemma_join_nonempty(cs: Seq<Seq<char>>)
    requires
        cs.len() > 0,
        all_plain(cs),
    ensures
        join_components(cs).len() > 0,
        join_components(cs).last() == cs.last().last(),
    decreases cs.len(),
{
    assert(plain_component(cs[cs.len() - 1]));
    if cs.len() > 1 {
        let cs0 = cs.drop_last();
        assert forall|i: int| 0 <= i < cs0.len() implies plain_component(#[trigger] cs0[i]) by {
            assert(cs0[i] == cs[i]);
        }
        lemma_join_nonempty(cs0);
    }
}

proof fn lemma_fold_join(cs: Seq<Seq<char>>)
    requires
        cs.len() > 0,
        all_plain(cs),
    ensures
        fold_components(join_components(cs)) == (join_components(cs.drop_last()), cs.last()),
    decreases cs.len(),
{
    assert(plain_component(cs[cs.len() - 1]));
    if cs.len() == 1 {
        lemma_fold_plain_suffix(Seq::empty(), cs[0]);
        assert(Seq::<char>::empty() + cs[0] =~= cs[0]);
        assert(Seq::<char>::empty() + cs[0] =~= cs.last());
    } else {
        let cs0 = cs.drop_last();
        assert forall|i: int| 0 <= i < cs0.len() implies plain_component(#[trigger] cs0[i]) by {
            assert(cs0[i] == cs[i]);
        }
        lemma_fold_join(cs0);
        let x = join_components(cs0);
        assert(plain_component(cs0[cs0.len() - 1]));
        assert(x.push('/').drop_last() =~= x);
        if cs0.len() > 1 {
            let cs1 = cs0.drop_last();
            assert forall|i: int| 0 <= i < cs1.len() implies plain_component(#[trigger] cs1[i]) by {
                assert(cs1[i] == cs0[i]);
            }
            lemma_join_nonempty(cs1);
        }
        assert(flush(join_components(cs0.drop_last()), cs0.last()) =~= x);
        assert(fold_components(x.push('/')) == (x, Seq::<char>::empty()));
        lemma_fold_plain_suffix(x.push('/'), cs.last());
        assert(x.push('/') + cs.last() =~= join_components(cs));
        assert(Seq::<char>::empty() + cs.last() =~= cs.last());
    }
}

/// A path made of plain components, archived under its name, is extracted
/// back to that same relative path: a file's name as is, a directory's name
/// without its trailing `/`.
pub proof fn lemma_round_trip_names(cs: Seq<Seq<char>>)
    requires
        cs.len() > 0,
        all_plain(cs),
    ensures
        extract_step_of(join_components(cs)) == ExtractStepView::WriteFile(join_components(cs)),
        extract_step_of(join_components(cs).push('/')) == ExtractStepView::MakeDir(
            join_components(cs),
        ),
{
    let x = join_components(cs);
    lemma_fold_join(cs);
    lemma_join_nonempty(cs);
    assert(plain_component(cs[cs.len() - 1]));
    if cs.len() > 1 {
        let cs0 = cs.drop_last();
        assert forall|i: int| 0 <= i < cs0.len() implies plain_component(#[trigger] cs0[i]) by {
            assert(cs0[i] == cs[i]);
        }
        lemma_join_nonempty(cs0);
    }
    assert(sanitized(x) =~= x);
    let c = cs.last();
    assert(c.last() == c[c.len() - 1]);
    assert(!is_sep(c[c.len() - 1]));
    assert(x.push('/').drop_last() =~= x);
    assert(fold_components(x.push('/')) == (x, Seq::<char>::empty()));
    assert(sanitized(x.push('/')) =~= x);
}

/// Is `t` made of plain components joined by `/`?
pub open spec fn joins_plain(t: Seq<char>) -> bool {
    exists|cs: Seq<Seq<char>>| all_plain(cs) && t == join_components(cs)
}

proof fn lemma_join_first(cs: Seq<Seq<char>>)
    requires
        cs.len() > 0,
        all_plain(cs),
    ensures
        join_components(cs).len() > 0,
        join_components(cs)[0] == cs[0][0],
    decreases cs.len(),
{
    assert(plain_component(cs[0]));
    if cs.len() > 1 {
        let cs0 = cs.drop_last();
        assert forall|i: int| 0 <= i < cs0.len() implies plain_component(#[trigger] cs0[i]) by {
            assert(cs0[i] == cs[i]);
        }
        lemma_join_first(cs0);
        assert(cs0[0] == cs[0]);
    }
}

proof fn lemma_flush_plain(out: Seq<char>, cur: Seq<char>, cs: Seq<Seq<char>>)
    requires
        all_plain(cs),
        out == join_components(cs),
        forall|i: int| 0 <= i < cur.len() ==> !is_sep(#[trigger] cur[i]),
    ensures
        joins_plain(flush(out, cur)),
{
    if !safe_component(cur) {
    } else if out.len() == 0 {
        let one = seq![cur];
        assert(all_plain(one)) by {
            assert forall|i: int| 0 <= i < one.len() implies plain_component(#[trigger] one[i]) by {
                assert(one[i] == cur);
            }
        }
        assert(flush(out, cur) == join_components(one));
    } else {
        let more = cs.push(cur);
        assert(cs.len() > 0);
        assert(more.drop_last() =~= cs);
        assert(all_plain(more)) by {
            assert forall|i: int| 0 <= i < more.len() implies plain_component(#[trigger] more[i]) by {
                if i < cs.len() {
                    assert(more[i] == cs[i]);
                }
            }
        }
        assert(out.push('/') + cur =~= out + seq!['/'] + cur);
        assert(flush(out, cur) == join_components(more));
    }
}

proof fn lemma_fold_plain(s: Seq<char>)
    ensures
        joins_plain(fold_components(s).0),
        forall|i: int|
            0 <= i < fold_components(s).1.len() ==> !is_sep(#[trigger] fold_components(s).1[i]),
    decreases s.len(),
{
    if s.len() == 0 {
        let none = Seq::<Seq<char>>::empty();
        assert(all_plain(none));
        assert(fold_components(s).0 == join_components(none));
    } else {
        lemma_fold_plain(s.drop_last());
        let (out, cur) = fold_components(s.drop_last());
        let cs = choose|cs: Seq<Seq<char>>| all_plain(cs) && out == join_components(cs);
        if is_sep(s.last()) {
            lemma_flush_plain(out, cur, cs);
        } else {
            assert forall|i: int| 0 <= i < cur.push(s.last()).len() implies !is_sep(
                #[trigger] cur.push(s.last())[i],
            ) by {
                if i < cur.len() {
                    assert(cur.push(s.last())[i] == cur[i]);
                }
            }
        }
    }
}

/// Extraction never leaves the destination root: every path an entry is
/// extracted to is made of plain components (none empty, `.`, `..`, a drive
/// prefix, or holding a separator) joined by `/`, and does not start with a
/// separator.
pub proof fn lemma_extract_stays_under_root(name: Seq<char>)
    ensures
        extract_step_of(name) matches ExtractStepView::MakeDir(t) ==> t.len() > 0 && joins_plain(t)
            && !is_sep(t[0]),
        extract_step_of(name) matches ExtractStepView::WriteFile(t) ==> t.len() > 0 && joins_plain(
            t,
        ) && !is_sep(t[0]),
{
    lemma_fold_plain(name);
    let (out, cur) = fold_components(name);
    let cs = choose|cs: Seq<Seq<char>>| all_plain(cs) && out == join_components(cs);
    lemma_flush_plain(out, cur, cs);
    let t = sanitized(name);
    if t.len() > 0 {
        let ts = choose|ts: Seq<Seq<char>>| all_plain(ts) && t == join_components(ts);
        assert(ts.len() > 0);
        lemma_join_first(ts);
        assert(plain_component(ts[0]));
        assert(ts[0].len() > 0);
    }
}

} // verus!
