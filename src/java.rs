//! Java runtimes: reading what `java -version` prints, validating a runtime
//! from that, and naming the runtime files and downloads for a host.
use vstd::prelude::*;
use crate::numbers::{parse_u32, parsed_u32};
use crate::clock::in_base;
use crate::folders::{contains_text, texts};
use crate::order::{text_at_or_before, text_le};
use crate::text::{chars_of, contains_chars, is_infix, lower_of, lowercase, string_from_chars};

verus! {

/// A Java runtime found on this machine.
#[derive(Debug)]
pub struct JavaInstallation {
    pub path: String,
    pub version: Option<String>,
    pub major: Option<u32>,
    pub vendor: Option<String>,
    pub arch: Option<String>,
    pub is_valid: bool,
}

/// The outcome of checking a path as a Java runtime.
#[derive(Debug)]
pub struct JavaValidation {
    pub is_valid: bool,
    pub version: Option<String>,
    pub major: Option<u32>,
    pub vendor: Option<String>,
    pub arch: Option<String>,
    pub error: Option<String>,
}

/// The latest release of a Java major version offered for download.
#[derive(Debug)]
pub struct AdoptiumRelease {
    pub version: String,
    pub major: u32,
    pub download_url: String,
    pub filename: String,
    pub size: u64,
    pub checksum: Option<String>,
}

/// What `java -version` says of a runtime.
#[derive(Debug)]
pub struct JavaVersionInfo {
    pub version: String,
    pub major: u32,
    pub vendor: Option<String>,
    pub arch: Option<String>,
}

/// The text of an optional string.
pub open spec fn opt_text(o: Option<String>) -> Option<Seq<char>> {
    match o {
        Some(s) => Some(s@),
        None => None,
    }
}

/// The first index at or after `i` where `s` holds `c`, or -1.
pub open spec fn find_from(s: Seq<char>, c: char, i: int) -> int
    decreases s.len() - i,
{
    if i < 0 || i >= s.len() {
        -1
    } else if s[i] == c {
        i
    } else {
        find_from(s, c, i + 1)
    }
}

/// The first line of `s`, without its line ending.
pub open spec fn first_line(s: Seq<char>) -> Seq<char> {
    let e = find_from(s, '\n', 0);
    if e < 0 {
        s
    } else if e > 0 && s[e - 1] == '\r' {
        s.take(e - 1)
    } else {
        s.take(e)
    }
}

/// The text between the first two double quotes of `line`, if it has two.
pub open spec fn quoted(line: Seq<char>) -> Option<Seq<char>> {
    let a = find_from(line, '"', 0);
    let b = find_from(line, '"', a + 1);
    if a < 0 || b < 0 {
        None
    } else {
        Some(line.subrange(a + 1, b))
    }
}

/// The major version of a version string: its first dot-separated number,
/// or, for the old `1.x` scheme, its second; 0 when the first is no number.
pub open spec fn major_of(v: Seq<char>) -> u32 {
    let d1 = find_from(v, '.', 0);
    let first = if d1 < 0 {
        v
    } else {
        v.take(d1)
    };
    let d2 = find_from(v, '.', d1 + 1);
    let second = if d2 < 0 {
        v.subrange(d1 + 1, v.len() as int)
    } else {
        v.subrange(d1 + 1, d2)
    };
    match parsed_u32(first) {
        None => 0,
        Some(n) => if n == 1 && d1 >= 0 {
            match parsed_u32(second) {
                Some(m) => m,
                None => n,
            }
        } else {
            n
        },
    }
}

/// The vendor named in a lower-cased `java -version` output.
pub open spec fn vendor_of(lower: Seq<char>) -> Option<Seq<char>> {
    if is_infix("temurin"@, lower) || is_infix("adoptium"@, lower) {
        Some("Eclipse Temurin"@)
    } else if is_infix("zulu"@, lower) {
        Some("Azul Zulu"@)
    } else if is_infix("corretto"@, lower) {
        Some("Amazon Corretto"@)
    } else if is_infix("graalvm"@, lower) {
        Some("GraalVM"@)
    } else if is_infix("microsoft"@, lower) {
        Some("Microsoft"@)
    } else if is_infix("openjdk"@, lower) {
        Some("OpenJDK"@)
    } else if is_infix("oracle"@, lower) || is_infix("java(tm)"@, lower) {
        Some("Oracle"@)
    } else {
        None
    }
}

/// The architecture named in a lower-cased `java -version` output.
pub open spec fn arch_of(lower: Seq<char>) -> Option<Seq<char>> {
    if is_infix("aarch64"@, lower) || is_infix("arm64"@, lower) {
        Some("aarch64"@)
    } else if is_infix("x86_64"@, lower) || is_infix("amd64"@, lower) {
        Some("x86_64"@)
    } else if is_infix("x86"@, lower) || is_infix("i386"@, lower) || is_infix("i686"@, lower) {
        Some("x86"@)
    } else {
        None
    }
}

/// The first index at or after `from` where `s` holds `c`.
fn find_char(s: &Vec<char>, c: char, from: usize) -> (r: Option<usize>)
    ensures
        r matches Some(i) ==> i as int == find_from(s@, c, from as int),
        r is None ==> find_from(s@, c, from as int) == -1,
{
    let mut i: usize = from;
    while i < s.len()
        invariant
            from <= i,
            find_from(s@, c, from as int) == find_from(s@, c, i as int),
        decreases s.len() - i,
    {
        if s[i] == c {
            return Some(i);
        }
        i = i + 1;
    }
    None
}

/// The characters of `s` from `a` up to `b`.
fn slice_chars(s: &Vec<char>, a: usize, b: usize) -> (r: Vec<char>)
    requires
        a <= b <= s.len(),
    ensures
        r@ == s@.subrange(a as int, b as int),
{
    let mut r: Vec<char> = Vec::new();
    let mut i: usize = a;
    while i < b
        invariant
            a <= i <= b,
            b <= s.len(),
            r@ == s@.subrange(a as int, i as int),
        decreases b - i,
    {
        r.push(s[i]);
        i = i + 1;
        assert(r@ =~= s@.subrange(a as int, i as int));
    }
    r
}

proof fn lemma_find_from_range(s: Seq<char>, c: char, i: int)
    ensures
        find_from(s, c, i) == -1 || (i <= find_from(s, c, i) < s.len() && s[find_from(s, c, i)]
            == c),
    decreases s.len() - i,
{
    if 0 <= i < s.len() && s[i] != c {
        lemma_find_from_range(s, c, i + 1);
    }
}

/// The first line of `s`.
fn first_line_of(s: &Vec<char>) -> (r: Vec<char>)
    ensures
        r@ == first_line(s@),
{
    proof {
        lemma_find_from_range(s@, '\n', 0);
    }
    assert(s@.subrange(0, s@.len() as int) =~= s@);
    match find_char(s, '\n', 0) {
        None => slice_chars(s, 0, s.len()),
        Some(e) => if e > 0 && s[e - 1] == '\r' {
            slice_chars(s, 0, e - 1)
        } else {
            slice_chars(s, 0, e)
        },
    }
}

/// The version string quoted in a `java -version` line, if any.
pub fn extract_version_string(line: &str) -> (r: Option<String>)
    ensures
        opt_text(r) == quoted(line@),
{
    let s = chars_of(line);
    proof {
        lemma_find_from_range(s@, '"', 0);
    }
    match find_char(&s, '"', 0) {
        None => None,
        Some(a) => {
            proof {
                lemma_find_from_range(s@, '"', a + 1);
            }
            match find_char(&s, '"', a + 1) {
                None => None,
                Some(b) => Some(string_from_chars(&slice_chars(&s, a + 1, b))),
            }
        },
    }
}

/// The major version of a version string, as `major_of` says.
pub fn parse_major_version(version: &str) -> (r: u32)
    ensures
        r == major_of(version@),
{
    let v = chars_of(version);
    proof {
        lemma_find_from_range(v@, '.', 0);
    }
    let d1 = find_char(&v, '.', 0);
    let first = match d1 {
        None => slice_chars(&v, 0, v.len()),
        Some(d) => slice_chars(&v, 0, d),
    };
    assert(first@ =~= if d1 is None {
        v@
    } else {
        v@.take(d1->0 as int)
    });
    match parse_u32(&first) {
        None => 0,
        Some(n) => {
            match d1 {
                Some(d) => {
                    if n == 1 {
                        proof {
                            lemma_find_from_range(v@, '.', d + 1);
                        }
                        let second = match find_char(&v, '.', d + 1) {
                            None => slice_chars(&v, d + 1, v.len()),
                            Some(e) => slice_chars(&v, d + 1, e),
                        };
                        match parse_u32(&second) {
                            Some(m) => m,
                            None => n,
                        }
                    } else {
                        n
                    }
                },
                None => n,
            }
        },
    }
}

/// Does the text `hay` contain the literal `lit`?
fn has(hay: &Vec<char>, lit: &str) -> (r: bool)
    ensures
        r == is_infix(lit@, hay@),
{
    contains_chars(hay, &chars_of(lit))
}

/// The vendor that a `java -version` output names, ignoring case.
pub fn detect_vendor(output: &str) -> (r: Option<String>)
    ensures
        opt_text(r) == vendor_of(lower_of(output@)),
{
    let lower = chars_of(lowercase(output).as_str());
    if has(&lower, "temurin") || has(&lower, "adoptium") {
        Some("Eclipse Temurin".to_owned())
    } else if has(&lower, "zulu") {
        Some("Azul Zulu".to_owned())
    } else if has(&lower, "corretto") {
        Some("Amazon Corretto".to_owned())
    } else if has(&lower, "graalvm") {
        Some("GraalVM".to_owned())
    } else if has(&lower, "microsoft") {
        Some("Microsoft".to_owned())
    } else if has(&lower, "openjdk") {
        Some("OpenJDK".to_owned())
    } else if has(&lower, "oracle") || has(&lower, "java(tm)") {
        Some("Oracle".to_owned())
    } else {
        None
    }
}

/// The architecture that a `java -version` output names, ignoring case.
pub fn detect_architecture(output: &str) -> (r: Option<String>)
    ensures
        opt_text(r) == arch_of(lower_of(output@)),
{
    let lower = chars_of(lowercase(output).as_str());
    if has(&lower, "aarch64") || has(&lower, "arm64") {
        Some("aarch64".to_owned())
    } else if has(&lower, "x86_64") || has(&lower, "amd64") {
        Some("x86_64".to_owned())
    } else if has(&lower, "x86") || has(&lower, "i386") || has(&lower, "i686") {
        Some("x86".to_owned())
    } else {
        None
    }
}

/// What a `java -version` output says: the version quoted on its first line,
/// its major version, and the vendor and architecture it names. Fails when
/// the first line quotes no version.
pub fn parse_java_version_output(output: &str) -> (r: Result<JavaVersionInfo, String>)
    ensures
        quoted(first_line(output@)) is None ==> (r matches Err(e) && e@
            == "Could not parse Java version"@),
        quoted(first_line(output@)) matches Some(v) ==> (r matches Ok(info) && info.version@ == v
            && info.major == major_of(v) && opt_text(info.vendor) == vendor_of(lower_of(output@))
            && opt_text(info.arch) == arch_of(lower_of(output@))),
{
    let s = chars_of(output);
    let line = string_from_chars(&first_line_of(&s));
    match extract_version_string(line.as_str()) {
        None => Err("Could not parse Java version".to_owned()),
        Some(version) => {
            let major = parse_major_version(version.as_str());
            let vendor = detect_vendor(output);
            let arch = detect_architecture(output);
            Ok(JavaVersionInfo { version, major, vendor, arch })
        },
    }
}

/// Validate a Java runtime from what was learnt of its path: whether the
/// path exists, and the output of running it with `-version` or why that
/// failed. Valid exactly when the path exists, it ran, and its output parses.
pub fn validate_java_path(path_exists: bool, version_output: Result<String, String>) -> (r:
    JavaValidation)
    ensures
        !path_exists ==> !r.is_valid && opt_text(r.error) == Some("Path does not exist"@),
        path_exists ==> (version_output matches Err(e) ==> !r.is_valid && opt_text(r.error)
            == Some(e@)),
        path_exists ==> (version_output matches Ok(out) ==> (quoted(first_line(out@)) is None
            ==> !r.is_valid && opt_text(r.error) == Some("Could not parse Java version"@))),
        path_exists ==> (version_output matches Ok(out) ==> (quoted(first_line(out@)) matches Some(
            v,
        ) ==> r.is_valid && r.error is None && opt_text(r.version) == Some(v) && r.major == Some(
            major_of(v),
        ) && opt_text(r.vendor) == vendor_of(lower_of(out@)) && opt_text(r.arch) == arch_of(
            lower_of(out@),
        ))),
        !r.is_valid ==> r.version is None && r.major is None && r.vendor is None && r.arch is None,
{
    if !path_exists {
        return JavaValidation {
            is_valid: false,
            version: None,
            major: None,
            vendor: None,
            arch: None,
            error: Some("Path does not exist".to_owned()),
        };
    }
    let parsed = match version_output {
        Ok(out) => parse_java_version_output(out.as_str()),
        Err(e) => Err(e),
    };
    match parsed {
        Ok(info) => JavaValidation {
            is_valid: true,
            version: Some(info.version),
            major: Some(info.major),
            vendor: info.vendor,
            arch: info.arch,
            error: None,
        },
        Err(e) => JavaValidation {
            is_valid: false,
            version: None,
            major: None,
            vendor: None,
            arch: None,
            error: Some(e),
        },
    }
}

/// The installation at `path`, from the output of running it with
/// `-version` or why that failed; none unless that output parses.
pub fn validate_and_create_installation(path: &str, version_output: Result<String, String>) -> (r:
    Option<JavaInstallation>)
    ensures
        version_output is Err ==> r is None,
        version_output matches Ok(out) ==> (quoted(first_line(out@)) is None ==> r is None),
        version_output matches Ok(out) ==> (quoted(first_line(out@)) matches Some(v) ==> (r matches Some(
            inst,
        ) && inst.path@ == path@ && inst.is_valid && opt_text(inst.version) == Some(v)
            && inst.major == Some(major_of(v)) && opt_text(inst.vendor) == vendor_of(
            lower_of(out@),
        ) && opt_text(inst.arch) == arch_of(lower_of(out@)))),
{
    match version_output {
        Err(_) => None,
        Ok(out) => match parse_java_version_output(out.as_str()) {
            Ok(info) => Some(
                JavaInstallation {
                    path: path.to_owned(),
                    version: Some(info.version),
                    major: Some(info.major),
                    vendor: info.vendor,
                    arch: info.arch,
                    is_valid: true,
                },
            ),
            Err(_) => None,
        },
    }
}

/// The operating systems that runtimes are downloaded for.
#[derive(Clone, Copy, Debug, PartialEq, Eq, Structural)]
pub enum HostOs {
    Windows,
    Mac,
    Linux,
}

/// The processor architectures that runtimes are downloaded for.
#[derive(Clone, Copy, Debug, PartialEq, Eq, Structural)]
pub enum HostArch {
    X64,
    Aarch64,
    X86,
}

/// The file name of the Java launcher on a host.
pub fn java_executable_name(os: HostOs) -> (r: &'static str)
    ensures
        r@ == if os == HostOs::Windows {
            "java.exe"@
        } else {
            "java"@
        },
{
    match os {
        HostOs::Windows => "java.exe",
        _ => "java",
    }
}

/// The download service's name of an operating system.
pub open spec fn os_text(os: HostOs) -> Seq<char> {
    match os {
        HostOs::Windows => "windows"@,
        HostOs::Mac => "mac"@,
        HostOs::Linux => "linux"@,
    }
}

/// The download service's name of an architecture.
pub open spec fn arch_text(arch: HostArch) -> Seq<char> {
    match arch {
        HostArch::X64 => "x64"@,
        HostArch::Aarch64 => "aarch64"@,
        HostArch::X86 => "x32"@,
    }
}

/// The download service's name of an operating system.
pub fn get_adoptium_os(os: HostOs) -> (r: &'static str)
    ensures
        r@ == os_text(os),
{
    match os {
        HostOs::Windows => "windows",
        HostOs::Mac => "mac",
        HostOs::Linux => "linux",
    }
}

/// The download service's name of an architecture.
pub fn get_adoptium_arch(arch: HostArch) -> (r: &'static str)
    ensures
        r@ == arch_text(arch),
{
    match arch {
        HostArch::X64 => "x64",
        HostArch::Aarch64 => "aarch64",
        HostArch::X86 => "x32",
    }
}

/// The query for the latest JDK release of a major version on a host.
pub open spec fn release_url_text(major: u32, os: HostOs, arch: HostArch) -> Seq<char> {
    "https://api.adoptium.net/v3/assets/latest/"@ + in_base(major as nat, 10)
        + "/hotspot?architecture="@ + arch_text(arch) + "&image_type=jdk&os="@ + os_text(os)
        + "&vendor=eclipse"@
}

/// Append the characters of `s` to `out`.
fn append_text(out: &mut Vec<char>, s: &str)
    ensures
        final(out)@ == old(out)@ + s@,
{
    let cs = chars_of(s);
    let ghost start = out@;
    let mut i: usize = 0;
    while i < cs.len()
        invariant
            i <= cs.len(),
            cs@ == s@,
            out@ == start + cs@.take(i as int),
        decreases cs.len() - i,
    {
        out.push(cs[i]);
        i = i + 1;
        assert(out@ =~= start + cs@.take(i as int));
    }
    assert(cs@.take(cs.len() as int) =~= cs@);
}

/// The query for the latest JDK release of `major` on a host.
pub fn adoptium_release_url(major: u32, os: HostOs, arch: HostArch) -> (r: String)
    ensures
        r@ == release_url_text(major, os, arch),
{
    let mut out: Vec<char> = Vec::new();
    append_text(&mut out, "https://api.adoptium.net/v3/assets/latest/");
    let n = crate::clock::decimal_string(major as u64);
    append_text(&mut out, n.as_str());
    append_text(&mut out, "/hotspot?architecture=");
    append_text(&mut out, get_adoptium_arch(arch));
    append_text(&mut out, "&image_type=jdk&os=");
    append_text(&mut out, get_adoptium_os(os));
    append_text(&mut out, "&vendor=eclipse");
    assert(out@ =~= release_url_text(major, os, arch));
    string_from_chars(&out)
}

/// The fields of a release's description that a release is made from.
#[derive(Debug)]
pub struct ReleaseFields {
    pub semver: Option<String>,
    pub link: Option<String>,
    pub name: Option<String>,
    pub size: Option<u64>,
    pub checksum: Option<String>,
}

/// The release of `major` described by `f`: fails without a download link or
/// a file name; an absent version reads `unknown` and an absent size 0.
pub fn release_from_fields(major: u32, f: ReleaseFields) -> (r: Result<AdoptiumRelease, String>)
    ensures
        f.link is None ==> (r matches Err(e) && e@ == "No download link"@),
        f.link is Some && f.name is None ==> (r matches Err(e) && e@ == "No filename"@),
        f.link is Some && f.name is Some ==> (r matches Ok(rel) && rel.major == major
            && rel.download_url@ == f.link->0@ && rel.filename@ == f.name->0@
            && rel.version@ == (if f.semver is Some { f.semver->0@ } else { "unknown"@ })
            && rel.size == (if f.size is Some { f.size->0 } else { 0 })
            && opt_text(rel.checksum) == opt_text(f.checksum)),
{
    match f.link {
        None => Err("No download link".to_owned()),
        Some(link) => match f.name {
            None => Err("No filename".to_owned()),
            Some(name) => Ok(
                AdoptiumRelease {
                    version: match f.semver {
                        Some(v) => v,
                        None => "unknown".to_owned(),
                    },
                    major,
                    download_url: link,
                    filename: name,
                    size: match f.size {
                        Some(n) => n,
                        None => 0,
                    },
                    checksum: f.checksum,
                },
            ),
        },
    }
}

/// The first `n` of `s`, each only at its first occurrence.
pub open spec fn first_occurrences(s: Seq<Seq<char>>, n: int) -> Seq<Seq<char>>
    decreases n,
{
    if n <= 0 {
        Seq::empty()
    } else {
        let a = first_occurrences(s, n - 1);
        if a.contains(s[n - 1]) {
            a
        } else {
            a.push(s[n - 1])
        }
    }
}

/// The candidate paths, each only at its first occurrence, in order.
pub fn unique_paths(candidates: &Vec<String>) -> (r: Vec<String>)
    ensures
        texts(r@) == first_occurrences(texts(candidates@), candidates@.len() as int),
{
    let mut r: Vec<String> = Vec::new();
    let mut i: usize = 0;
    while i < candidates.len()
        invariant
            i <= candidates.len(),
            texts(r@) == first_occurrences(texts(candidates@), i as int),
        decreases candidates.len() - i,
    {
        let c = chars_of(candidates[i].as_str());
        assert(c@ == texts(candidates@)[i as int]);
        if !contains_text(&r, &c) {
            r.push(candidates[i].clone());
        }
        i = i + 1;
        assert(texts(r@) =~= first_occurrences(texts(candidates@), i as int));
    }
    r
}

/// Does `a` come at or before `b` among found runtimes? Those without a
/// major version come first, by path; then the rest, newest major first.
pub open spec fn ranks_before(a: JavaInstallation, b: JavaInstallation) -> bool {
    match (a.major, b.major) {
        (None, None) => text_le(a.path@, b.path@),
        (None, Some(_)) => true,
        (Some(_), None) => false,
        (Some(x), Some(y)) => x >= y,
    }
}

/// `s` with `b` placed after every runtime that ranks at or before it.
pub open spec fn insert_ranked(s: Seq<JavaInstallation>, b: JavaInstallation) -> Seq<JavaInstallation>
    decreases s.len(),
{
    if s.len() == 0 {
        seq![b]
    } else if ranks_before(s.last(), b) {
        s.push(b)
    } else {
        insert_ranked(s.drop_last(), b).push(s.last())
    }
}

/// `s` stably sorted by `ranks_before`.
pub open spec fn ranked(s: Seq<JavaInstallation>) -> Seq<JavaInstallation>
    decreases s.len(),
{
    if s.len() == 0 {
        s
    } else {
        insert_ranked(ranked(s.drop_last()), s.last())
    }
}

fn ranks_before_exec(a: &JavaInstallation, b: &JavaInstallation) -> (r: bool)
    ensures
        r == ranks_before(*a, *b),
{
    match (a.major, b.major) {
        (None, None) => text_at_or_before(a.path.as_str(), b.path.as_str()),
        (None, Some(_)) => true,
        (Some(_), None) => false,
        (Some(x), Some(y)) => x >= y,
    }
}

fn insert_by_rank(r: &mut Vec<JavaInstallation>, b: JavaInstallation)
    ensures
        final(r)@ == insert_ranked(old(r)@, b),
{
    let mut j: usize = r.len();
    let ghost s = r@;
    assert(s.take(s.len() as int) =~= s);
    assert(s.skip(s.len() as int) =~= Seq::<JavaInstallation>::empty());
    while j > 0 && !ranks_before_exec(&r[j - 1], &b)
        invariant
            j <= r.len(),
            r@ == s,
            insert_ranked(s, b) == insert_ranked(s.take(j as int), b) + s.skip(j as int),
        decreases j,
    {
        let ghost t = s.take(j as int);
        assert(t.drop_last() =~= s.take(j - 1));
        assert(t.last() == s[j - 1]);
        assert(s.skip(j - 1) =~= seq![s[j - 1]] + s.skip(j as int));
        assert(insert_ranked(s.take(j - 1), b).push(s[j - 1]) + s.skip(j as int)
            =~= insert_ranked(s.take(j - 1), b) + s.skip(j - 1));
        j = j - 1;
    }
    proof {
        if j == 0 {
            assert(s.take(0) =~= Seq::<JavaInstallation>::empty());
            assert(seq![b] + s.skip(0) =~= s.insert(0, b));
        } else {
            assert(s.take(j as int).last() == s[j - 1]);
            assert(s.take(j as int).push(b) + s.skip(j as int) =~= s.insert(j as int, b));
        }
    }
    r.insert(j, b);
}

/// The found runtimes in the order they are offered: stably sorted by
/// `ranks_before`, so the newest major versions lead.
pub fn order_installations(found: Vec<JavaInstallation>) -> (r: Vec<JavaInstallation>)
    ensures
        r@ == ranked(found@),
{
    let ghost s = found@;
    let mut rest = found;
    let mut sorted: Vec<JavaInstallation> = Vec::new();
    let mut i: usize = 0;
    assert(s.skip(0) =~= s);
    assert(s.len() == rest.len());
    while rest.len() > 0
        invariant
            i <= s.len(),
            s.len() <= usize::MAX,
            rest@ == s.skip(i as int),
            sorted@ == ranked(s.take(i as int)),
        decreases rest.len(),
    {
        let b = rest.remove(0);
        assert(s.take(i + 1).drop_last() =~= s.take(i as int));
        assert(s.take(i + 1).last() == b);
        insert_by_rank(&mut sorted, b);
        i = i + 1;
        assert(rest@ =~= s.skip(i as int));
    }
    assert(s.take(s.len() as int) =~= s);
    sorted
}

} // verus!
