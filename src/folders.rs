//! Which top-level folders and files of a managed directory can be selected
//! for archiving.
use vstd::prelude::*;
use crate::exclude::pattern_texts;
use crate::text::{chars_of, is_prefix, same_chars, starts_with_chars};

verus! {

/// The texts of a list of strings.
pub open spec fn texts(v: Seq<String>) -> Seq<Seq<char>> {
    v.map_values(|s: String| s@)
}

/// The conventional folders and files of a managed directory.
pub open spec fn candidate_texts() -> Seq<Seq<char>> {
    seq![
        "world"@,
        "world_nether"@,
        "world_the_end"@,
        "plugins"@,
        "mods"@,
        "config"@,
        "datapacks"@,
        "crash-reports"@,
        "logs"@,
        "ops.json"@,
        "whitelist.json"@,
        "banned-players.json"@,
        "banned-ips.json"@,
        "server.properties"@,
    ]
}

/// The conventional folders and files of a managed directory.
pub fn candidate_folders() -> (r: Vec<&'static str>)
    ensures
        pattern_texts(r@) == candidate_texts(),
{
    let r = vec![
        "world",
        "world_nether",
        "world_the_end",
        "plugins",
        "mods",
        "config",
        "datapacks",
        "crash-reports",
        "logs",
        "ops.json",
        "whitelist.json",
        "banned-players.json",
        "banned-ips.json",
        "server.properties",
    ];
    assert(pattern_texts(r@) =~= candidate_texts());
    r
}

/// The first `n` candidates that are among `entries`, in candidate order.
pub open spec fn present_candidates(entries: Seq<Seq<char>>, n: int) -> Seq<Seq<char>>
    decreases n,
{
    if n <= 0 {
        Seq::empty()
    } else {
        let a = present_candidates(entries, n - 1);
        if entries.contains(candidate_texts()[n - 1]) {
            a.push(candidate_texts()[n - 1])
        } else {
            a
        }
    }
}

/// `acc`, then each of the first `n` of `dirs` whose name starts with `world`
/// and is not listed yet.
pub open spec fn with_worlds(acc: Seq<Seq<char>>, dirs: Seq<Seq<char>>, n: int) -> Seq<Seq<char>>
    decreases n,
{
    if n <= 0 {
        acc
    } else {
        let a = with_worlds(acc, dirs, n - 1);
        if is_prefix("world"@, dirs[n - 1]) && !a.contains(dirs[n - 1]) {
            a.push(dirs[n - 1])
        } else {
            a
        }
    }
}

/// Is `s` among the texts of `v`?
pub(crate) fn contains_text(v: &Vec<String>, s: &Vec<char>) -> (r: bool)
    ensures
        r == texts(v@).contains(s@),
{
    let mut i: usize = 0;
    while i < v.len()
        invariant
            i <= v.len(),
            forall|j: int| 0 <= j < i ==> texts(v@)[j] != s@,
        decreases v.len() - i,
    {
        let c = chars_of(v[i].as_str());
        if same_chars(&c, s) {
            assert(texts(v@)[i as int] == s@);
            return true;
        }
        i = i + 1;
    }
    false
}

/// Do the two lists hold the same texts, in the same order?
pub fn same_texts(a: &Vec<String>, b: &Vec<String>) -> (r: bool)
    ensures
        r == (texts(a@) == texts(b@)),
{
    if a.len() != b.len() {
        assert(texts(a@).len() != texts(b@).len());
        return false;
    }
    let mut i: usize = 0;
    while i < a.len()
        invariant
            i <= a.len(),
            a.len() == b.len(),
            forall|j: int| 0 <= j < i ==> texts(a@)[j] == texts(b@)[j],
        decreases a.len() - i,
    {
        let x = chars_of(a[i].as_str());
        let y = chars_of(b[i].as_str());
        if !same_chars(&x, &y) {
            assert(texts(a@)[i as int] != texts(b@)[i as int]);
            return false;
        }
        i = i + 1;
    }
    assert(texts(a@) =~= texts(b@));
    true
}

/// The selectable names of a managed directory whose top-level entries are
/// `entries`, of which `dirs` are directories: the conventional folders and
/// files that are present, in their fixed order, then every directory whose
/// name starts with `world` that is not listed yet, in the order given.
pub fn discover_folders(entries: &Vec<String>, dirs: &Vec<String>) -> (r: Vec<String>)
    ensures
        texts(r@) == with_worlds(
            present_candidates(texts(entries@), candidate_texts().len() as int),
            texts(dirs@),
            dirs@.len() as int,
        ),
{
    let cands = candidate_folders();
    let mut r: Vec<String> = Vec::new();
    let mut i: usize = 0;
    while i < cands.len()
        invariant
            i <= cands.len(),
            pattern_texts(cands@) == candidate_texts(),
            texts(r@) == present_candidates(texts(entries@), i as int),
        decreases cands.len() - i,
    {
        let c = chars_of(cands[i]);
        assert(c@ == candidate_texts()[i as int]);
        if contains_text(entries, &c) {
            r.push(cands[i].to_owned());
        }
        i = i + 1;
        assert(texts(r@) =~= present_candidates(texts(entries@), i as int));
    }
    let ghost acc = texts(r@);
    let world = chars_of("world");
    let mut k: usize = 0;
    while k < dirs.len()
        invariant
            k <= dirs.len(),
            world@ == "world"@,
            texts(r@) == with_worlds(acc, texts(dirs@), k as int),
        decreases dirs.len() - k,
    {
        let d = chars_of(dirs[k].as_str());
        assert(d@ == texts(dirs@)[k as int]);
        if starts_with_chars(&d, &world) && !contains_text(&r, &d) {
            r.push(dirs[k].clone());
        }
        k = k + 1;
        assert(texts(r@) =~= with_worlds(acc, texts(dirs@), k as int));
    }
    r
}

} // verus!
