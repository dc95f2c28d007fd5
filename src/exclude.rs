//! The exclusion filter: which entries of a tree are left out of an archive.
use vstd::prelude::*;
use crate::text::{
    all_ascii, ascii_lowered, chars_of, contains_chars, ends_with_chars, is_infix, is_suffix,
    lower_of, lowercase, same_chars,
};

verus! {

/// A path separator, on any host.
pub open spec fn is_sep(c: char) -> bool {
    c == '/' || c == '\\'
}

/// The last component of a path: what follows its last separator.
pub open spec fn file_name(p: Seq<char>) -> Seq<char>
    decreases p.len(),
{
    if p.len() == 0 {
        Seq::empty()
    } else if is_sep(p.last()) {
        Seq::empty()
    } else {
        file_name(p.drop_last()).push(p.last())
    }
}

/// Does one lower-cased pattern exclude an entry, given its lower-cased name and path?
pub open spec fn excluded_by(name: Seq<char>, path: Seq<char>, pat: Seq<char>) -> bool {
    is_suffix(pat, name) || name == pat || is_infix(pat, path)
}

/// Is the entry at `path` excluded by any of `pats`? Matching ignores case.
pub open spec fn excluded(path: Seq<char>, pats: Seq<Seq<char>>) -> bool {
    exists|k: int|
        0 <= k < pats.len() && excluded_by(
            lower_of(file_name(path)),
            lower_of(path),
            lower_of(#[trigger] pats[k]),
        )
}

/// `excluded` for ASCII text, where ignoring case is ASCII lowering.
pub open spec fn excluded_ascii(path: Seq<char>, pats: Seq<Seq<char>>) -> bool {
    exists|k: int|
        0 <= k < pats.len() && excluded_by(
            ascii_lowered(file_name(path)),
            ascii_lowered(path),
            ascii_lowered(#[trigger] pats[k]),
        )
}

/// Are all the patterns ASCII?
pub open spec fn ascii_patterns(pats: Seq<Seq<char>>) -> bool {
    forall|k: int| 0 <= k < pats.len() ==> all_ascii(#[trigger] pats[k])
}

/// The file name is the tail of the path after some position.
pub proof fn lemma_file_name_is_tail(p: Seq<char>)
    ensures
        exists|start: int| 0 <= start <= p.len() && file_name(p) == p.subrange(start, p.len() as int),
    decreases p.len(),
{
    if p.len() == 0 {
        assert(file_name(p) =~= p.subrange(0, 0));
    } else if is_sep(p.last()) {
        assert(file_name(p) =~= p.subrange(p.len() as int, p.len() as int));
    } else {
        lemma_file_name_is_tail(p.drop_last());
        let start = choose|start: int|
            0 <= start <= p.drop_last().len() && file_name(p.drop_last()) == p.drop_last().subrange(
                start,
                p.drop_last().len() as int,
            );
        assert(file_name(p) =~= p.subrange(start, p.len() as int));
    }
}

/// The file name of an ASCII path is ASCII.
pub proof fn lemma_file_name_ascii(p: Seq<char>)
    requires
        all_ascii(p),
    ensures
        all_ascii(file_name(p)),
{
    lemma_file_name_is_tail(p);
    let start = choose|start: int|
        0 <= start <= p.len() && file_name(p) == p.subrange(start, p.len() as int);
    assert forall|i: int| 0 <= i < file_name(p).len() implies (file_name(p)[i] as u32) < 128 by {
        assert(file_name(p)[i] == p[start + i]);
    }
}

/// The default patterns leave out a file named `server.log`, in any case,
/// and everything at or under a directory named `logs`, at any depth: of an
/// ASCII path whose file name lowers to `server.log`, or that holds `logs`.
pub proof fn lemma_default_exclusions_cover_logs(path: Seq<char>)
    requires
        all_ascii(path),
        ascii_lowered(file_name(path)) == "server.log"@ || is_infix("logs"@, ascii_lowered(path)),
    ensures
        excluded_ascii(path, default_exclusion_texts()),
{
    reveal_strlit(".log");
    reveal_strlit("logs");
    reveal_strlit("server.log");
    let pats = default_exclusion_texts();
    assert(ascii_lowered(".log"@) =~= ".log"@);
    assert(ascii_lowered("logs"@) =~= "logs"@);
    if ascii_lowered(file_name(path)) == "server.log"@ {
        let n = ascii_lowered(file_name(path));
        assert(n.subrange(n.len() - 4, n.len() as int) =~= ".log"@);
        assert(excluded_by(n, ascii_lowered(path), ascii_lowered(pats[0])));
    } else {
        assert(excluded_by(
            ascii_lowered(file_name(path)),
            ascii_lowered(path),
            ascii_lowered(pats[4]),
        ));
    }
}

/// The default patterns are ASCII.
pub proof fn lemma_default_exclusions_ascii()
    ensures
        ascii_patterns(default_exclusion_texts()),
{
    reveal_strlit(".log");
    reveal_strlit(".log.gz");
    reveal_strlit("crash-reports");
    reveal_strlit(".mixin.out");
    reveal_strlit("logs");
    reveal_strlit(".cache");
    reveal_strlit("libraries");
}

/// The patterns of `pats` as texts.
pub open spec fn pattern_texts(pats: Seq<&str>) -> Seq<Seq<char>> {
    pats.map_values(|p: &str| p@)
}

/// The default exclusions: log files, crash reports, caches and libraries.
pub open spec fn default_exclusion_texts() -> Seq<Seq<char>> {
    seq![
        ".log"@,
        ".log.gz"@,
        "crash-reports"@,
        ".mixin.out"@,
        "logs"@,
        ".cache"@,
        "libraries"@,
    ]
}

/// The default exclusion patterns.
pub fn default_exclusions() -> (r: Vec<&'static str>)
    ensures
        pattern_texts(r@) == default_exclusion_texts(),
{
    let r = vec![".log", ".log.gz", "crash-reports", ".mixin.out", "logs", ".cache", "libraries"];
    assert(pattern_texts(r@) =~= default_exclusion_texts());
    r
}

/// The last component of `p`.
pub fn file_name_of(p: &Vec<char>) -> (r: Vec<char>)
    ensures
        r@ == file_name(p@),
{
    let mut start: usize = 0;
    let mut i: usize = 0;
    while i < p.len()
        invariant
            start <= i <= p.len(),
            file_name(p@.take(i as int)) == p@.subrange(start as int, i as int),
        decreases p.len() - i,
    {
        assert(p@.take(i + 1).drop_last() == p@.take(i as int));
        if p[i] == '/' || p[i] == '\\' {
            start = i + 1;
        }
        i = i + 1;
        assert(p@.subrange(start as int, i as int) =~= if start == i {
            Seq::empty()
        } else {
            p@.subrange(start as int, i - 1).push(p@[i - 1])
        });
    }
    assert(p@.take(p.len() as int) =~= p@);
    let mut r: Vec<char> = Vec::new();
    let mut k: usize = start;
    while k < p.len()
        invariant
            start <= k <= p.len(),
            r@ == p@.subrange(start as int, k as int),
        decreases p.len() - k,
    {
        r.push(p[k]);
        k = k + 1;
        assert(r@ =~= p@.subrange(start as int, k as int));
    }
    r
}

/// Should the entry at `path` be left out of an archive? It is when, ignoring
/// case, its file name ends with or equals a pattern, or its path contains one.
pub fn should_exclude(path: &str, exclusions: &[&str]) -> (r: bool)
    ensures
        r == excluded(path@, pattern_texts(exclusions@)),
        all_ascii(path@) && ascii_patterns(pattern_texts(exclusions@)) ==> r == excluded_ascii(
            path@,
            pattern_texts(exclusions@),
        ),
{
    proof {
        if all_ascii(path@) {
            lemma_file_name_ascii(path@);
        }
    }
    let path_lower = chars_of(lowercase(path).as_str());
    let name = string_of_name(path);
    let name_lower = chars_of(lowercase(name.as_str()).as_str());
    let ghost pats = pattern_texts(exclusions@);
    let mut k: usize = 0;
    while k < exclusions.len()
        invariant
            k <= exclusions@.len(),
            pats == pattern_texts(exclusions@),
            path_lower@ == lower_of(path@),
            name_lower@ == lower_of(file_name(path@)),
            all_ascii(path@) ==> path_lower@ == ascii_lowered(path@),
            all_ascii(path@) ==> all_ascii(file_name(path@)),
            all_ascii(file_name(path@)) ==> name_lower@ == ascii_lowered(file_name(path@)),
            forall|j: int|
                0 <= j < k && all_ascii(pats[j]) ==> lower_of(#[trigger] pats[j]) == ascii_lowered(
                    pats[j],
                ),
            forall|j: int|
                0 <= j < k ==> !excluded_by(
                    lower_of(file_name(path@)),
                    lower_of(path@),
                    lower_of(#[trigger] pats[j]),
                ),
        decreases exclusions.len() - k,
    {
        let pat = chars_of(lowercase(exclusions[k]).as_str());
        assert(pats[k as int] == exclusions@[k as int]@);
        if ends_with_chars(&name_lower, &pat) || same_chars(&name_lower, &pat) || contains_chars(
            &path_lower,
            &pat,
        ) {
            proof {
                if all_ascii(path@) && ascii_patterns(pats) {
                    assert(all_ascii(pats[k as int]));
                    assert(pat@ == ascii_lowered(pats[k as int]));
                    assert(excluded_by(
                        ascii_lowered(file_name(path@)),
                        ascii_lowered(path@),
                        ascii_lowered(pats[k as int]),
                    ));
                }
            }
            return true;
        }
        k = k + 1;
    }
    proof {
        if all_ascii(path@) && ascii_patterns(pats) {
            assert forall|j: int| 0 <= j < pats.len() implies !excluded_by(
                ascii_lowered(file_name(path@)),
                ascii_lowered(path@),
                ascii_lowered(#[trigger] pats[j]),
            ) by {
                assert(lower_of(pats[j]) == ascii_lowered(pats[j]));
            }
        }
    }
    false
}

/// The file name of `path`, as a `String`.
fn string_of_name(path: &str) -> (r: String)
    ensures
        r@ == file_name(path@),
{
    let p = chars_of(path);
    let n = file_name_of(&p);
    crate::text::string_from_chars(&n)
}

} // verus!
