//! Self-update decisions: which release asset this platform uses, how
//! versions compare, where a release's files are, and whether a downloaded
//! binary matches its published checksum. Downloading, swapping the binary
//! and restarting services stay with the caller.

use vstd::prelude::*;

use crate::senseface::{hex_lower, sha256, sha256_digest, to_hex};
use crate::text::{
    all_digits, chars_of, contains_chars, contains_text, find_char, find_chars, find_from,
    find_uword, first_index, is_digit, lines_of, nat_text, next_uword, parse_u64_chars, push_str,
    slice_chars, split_chars, split_on, str_eq, string_of, text_lines, to_lowercase, unicode_lower,
    decode_utf8_lossy, utf8_lossy,
};

verus! {

/// Options of `fbsy update`.
#[derive(Debug, Default, Clone, Copy)]
pub struct UpdateOpts {
    /// Only report whether an update exists; do not install.
    pub check_only: bool,
    /// Skip the confirmation prompt.
    pub assume_yes: bool,
    /// Non-interactive (the auto-update trigger).
    pub auto: bool,
}

/// Result of a version check.
pub struct UpdateStatus {
    pub current: String,
    pub latest: String,
    pub newer: bool,
}

/// The version of this build.
pub open spec fn version_text() -> Seq<char> {
    "0.1.0"@
}

pub fn current_version() -> (r: &'static str)
    ensures
        r@ == version_text(),
{
    proof {
        reveal_strlit("0.1.0");
    }
    "0.1.0"
}

/// The release asset of a platform, by `std::env::consts::{OS, ARCH}`; empty
/// where no release is built.
pub open spec fn asset_for(os: Seq<char>, arch: Seq<char>) -> Seq<char> {
    if os == "linux"@ && arch == "x86_64"@ {
        "fbsy-linux-x86_64"@
    } else if os == "linux"@ && arch == "aarch64"@ {
        "fbsy-linux-aarch64"@
    } else if os == "windows"@ && arch == "x86_64"@ {
        "fbsy-windows-x86_64.exe"@
    } else if os == "macos"@ && arch == "x86_64"@ {
        "fbsy-macos-intel"@
    } else if os == "macos"@ && arch == "aarch64"@ {
        "fbsy-macos-arm64"@
    } else {
        ""@
    }
}

pub fn asset_name(os: &str, arch: &str) -> (r: &'static str)
    ensures
        r@ == asset_for(os@, arch@),
{
    proof {
        reveal_strlit("linux");
        reveal_strlit("windows");
        reveal_strlit("macos");
        reveal_strlit("x86_64");
        reveal_strlit("aarch64");
        reveal_strlit("");
    }
    let linux = str_eq(os, "linux");
    let windows = str_eq(os, "windows");
    let macos = str_eq(os, "macos");
    let x86 = str_eq(arch, "x86_64");
    let arm = str_eq(arch, "aarch64");
    if linux && x86 {
        "fbsy-linux-x86_64"
    } else if linux && arm {
        "fbsy-linux-aarch64"
    } else if windows && x86 {
        "fbsy-windows-x86_64.exe"
    } else if macos && x86 {
        "fbsy-macos-intel"
    } else if macos && arm {
        "fbsy-macos-arm64"
    } else {
        ""
    }
}

// ── Versions ─────────────────────────────────────────────────────────────────

/// A version without its leading `v`s.
pub open spec fn strip_v(s: Seq<char>) -> Seq<char>
    decreases s.len(),
{
    if s.len() > 0 && s[0] == 'v' {
        strip_v(s.drop_first())
    } else {
        s
    }
}

/// One dotted part as a number; a part that is not a `u64` counts as 0.
pub open spec fn part_value(p: Seq<char>) -> u64 {
    match nat_text(p) {
        Some(n) => if n <= u64::MAX {
            n as u64
        } else {
            0
        },
        None => 0,
    }
}

/// The numbers of a dotted version.
pub open spec fn version_parts(s: Seq<char>) -> Seq<u64> {
    split_on(strip_v(s), '.').map_values(|p: Seq<char>| part_value(p))
}

/// Part `i` of a version, 0 past its end.
pub open spec fn part_at(v: Seq<u64>, i: int) -> u64 {
    if 0 <= i < v.len() {
        v[i]
    } else {
        0
    }
}

/// Whether `l` is higher than `c` at the first part from `i` on where they
/// differ (missing parts count as 0).
pub open spec fn newer_from(l: Seq<u64>, c: Seq<u64>, i: int) -> bool
    decreases (if l.len() > c.len() {
        l.len()
    } else {
        c.len()
    }) - i,
{
    let n = if l.len() > c.len() {
        l.len() as int
    } else {
        c.len() as int
    };
    if i < 0 || i >= n {
        false
    } else if part_at(l, i) != part_at(c, i) {
        part_at(l, i) > part_at(c, i)
    } else {
        newer_from(l, c, i + 1)
    }
}

/// Whether `latest` is a strictly higher dotted version than `current`.
pub open spec fn is_newer(latest: Seq<char>, current: Seq<char>) -> bool {
    newer_from(version_parts(latest), version_parts(current), 0)
}

fn strip_v_chars(s: &[char]) -> (r: Vec<char>)
    ensures
        r@ == strip_v(s@),
{
    let mut i: usize = 0;
    assert(s@.skip(0) =~= s@);
    while i < s.len() && s[i] == 'v'
        invariant
            i <= s.len(),
            strip_v(s@) == strip_v(s@.skip(i as int)),
        decreases s.len() - i,
    {
        assert(s@.skip(i as int).drop_first() =~= s@.skip(i + 1));
        i += 1;
    }
    let r = slice_chars(s, i, s.len());
    assert(r@ =~= s@.skip(i as int));
    r
}

fn version_numbers(s: &str) -> (r: Vec<u64>)
    ensures
        r@ == version_parts(s@),
{
    let cs = chars_of(s);
    let body = strip_v_chars(cs.as_slice());
    let parts = split_chars(body.as_slice(), '.');
    let ghost pv = parts@.map_values(|p: Vec<char>| p@);
    let mut out: Vec<u64> = Vec::new();
    let mut i: usize = 0;
    while i < parts.len()
        invariant
            i <= parts.len(),
            pv == parts@.map_values(|p: Vec<char>| p@),
            pv == split_on(body@, '.'),
            out@ == pv.take(i as int).map_values(|p: Seq<char>| part_value(p)),
        decreases parts.len() - i,
    {
        let v = match parse_u64_chars(parts[i].as_slice()) {
            Some(v) => v,
            None => 0,
        };
        assert(pv[i as int] == parts@[i as int]@);
        out.push(v);
        i += 1;
        assert(out@ =~= pv.take(i as int).map_values(|p: Seq<char>| part_value(p)));
    }
    assert(pv.take(i as int) =~= pv);
    out
}

/// True if `latest` is a strictly higher dotted version than `current`
/// (a leading `v` is ignored; missing or unreadable parts count as 0).
pub fn version_newer(latest: &str, current: &str) -> (r: bool)
    ensures
        r == is_newer(latest@, current@),
{
    let l = version_numbers(latest);
    let c = version_numbers(current);
    let n = if l.len() > c.len() {
        l.len()
    } else {
        c.len()
    };
    let mut i: usize = 0;
    while i < n
        invariant
            i <= n,
            n == if l@.len() > c@.len() {
                l@.len()
            } else {
                c@.len()
            },
            l@ == version_parts(latest@),
            c@ == version_parts(current@),
            newer_from(l@, c@, 0) == newer_from(l@, c@, i as int),
        decreases n - i,
    {
        let lv = if i < l.len() {
            l[i]
        } else {
            0
        };
        let cv = if i < c.len() {
            c[i]
        } else {
            0
        };
        assert(lv == part_at(l@, i as int));
        assert(cv == part_at(c@, i as int));
        if lv != cv {
            return lv > cv;
        }
        i += 1;
    }
    false
}

proof fn lemma_newer_from_asymmetric(l: Seq<u64>, c: Seq<u64>, i: int)
    ensures
        !(newer_from(l, c, i) && newer_from(c, l, i)),
    decreases (if l.len() > c.len() {
        l.len()
    } else {
        c.len()
    }) - i,
{
    let n = if l.len() > c.len() {
        l.len() as int
    } else {
        c.len() as int
    };
    if 0 <= i < n {
        lemma_newer_from_asymmetric(l, c, i + 1);
    }
    lemma_newer_from_self(l, i);
}

proof fn lemma_newer_from_self(l: Seq<u64>, i: int)
    ensures
        !newer_from(l, l, i),
    decreases l.len() - i,
{
    if 0 <= i < l.len() {
        lemma_newer_from_self(l, i + 1);
    }
}

/// No version is newer than itself, and of two versions at most one is
/// newer than the other.
pub proof fn law_version_newer_strict(a: Seq<char>, b: Seq<char>)
    ensures
        !is_newer(a, a),
        !(is_newer(a, b) && is_newer(b, a)),
{
    lemma_newer_from_self(version_parts(a), 0);
    lemma_newer_from_asymmetric(version_parts(a), version_parts(b), 0);
}

/// The version in a release download URL (`…/download/vX.Y.Z/asset`): the
/// digits and dots between `/download/v` and the next `/`.
pub open spec fn version_in_url(url: Seq<char>) -> Option<Seq<char>> {
    match find_from(url, "/download/v"@, 0) {
        None => None,
        Some(i) => {
            let rest = url.skip(i + 11);
            match first_index(rest, '/') {
                None => None,
                Some(j) => {
                    let v = rest.take(j);
                    if v.len() > 0 && forall|k: int| 0 <= k < v.len() ==> is_digit(#[trigger] v[k]) || v[k] == '.' {
                        Some(v)
                    } else {
                        None
                    }
                },
            }
        },
    }
}

pub fn parse_version_from_url(url: &str) -> (r: Option<String>)
    ensures
        match r {
            Some(v) => version_in_url(url@) == Some(v@),
            None => version_in_url(url@) is None,
        },
{
    proof {
        reveal_strlit("/download/v");
    }
    let cs = chars_of(url);
    let marker = chars_of("/download/v");
    let i = match find_chars(cs.as_slice(), marker.as_slice()) {
        Some(i) => i,
        None => {
            return None;
        },
    };
    proof {
        crate::text::lemma_find_from(cs@, marker@, 0);
    }
    let rest = slice_chars(cs.as_slice(), i + 11, cs.len());
    assert(rest@ =~= cs@.skip(i + 11));
    let j = match find_char(rest.as_slice(), '/') {
        Some(j) => j,
        None => {
            return None;
        },
    };
    let v = slice_chars(rest.as_slice(), 0, j);
    assert(v@ =~= rest@.take(j as int));
    if v.len() == 0 {
        return None;
    }
    let mut k: usize = 0;
    assert(version_in_url(url@) == (if forall|m: int| 0 <= m < v@.len() ==> is_digit(#[trigger] v@[m]) || v@[m] == '.' {
        Some(v@)
    } else {
        None
    }));
    while k < v.len()
        invariant
            k <= v.len(),
            version_in_url(url@) == (if forall|m: int| 0 <= m < v@.len() ==> is_digit(#[trigger] v@[m]) || v@[m] == '.' {
                Some(v@)
            } else {
                None
            }),
            forall|m: int| 0 <= m < k ==> is_digit(#[trigger] v@[m]) || v@[m] == '.',
        decreases v.len() - k,
    {
        let ch = v[k];
        let u = ch as u32;
        if !((48 <= u && u <= 57) || ch == '.') {
            assert(!(is_digit(v@[k as int]) || v@[k as int] == '.'));
            return None;
        }
        k += 1;
    }
    Some(string_of(v.as_slice()))
}

/// A release's tag without its leading `v`s (`str::trim_start_matches`).
pub fn tag_version(tag: &str) -> (r: String)
    ensures
        r@ == strip_v(tag@),
{
    let cs = chars_of(tag);
    string_of(strip_v_chars(cs.as_slice()).as_slice())
}

/// Whether the version a new binary reports names the expected release.
pub fn reports_version(reported: &str, latest: &str) -> (r: bool)
    ensures
        r == contains_text(reported@, latest@),
{
    let a = chars_of(reported);
    let b = chars_of(latest);
    contains_chars(a.as_slice(), b.as_slice())
}

/// Status of the installed version against the latest release.
pub fn update_status(current: &str, latest: &str) -> (r: UpdateStatus)
    ensures
        r.current@ == current@,
        r.latest@ == latest@,
        r.newer == is_newer(latest@, current@),
{
    UpdateStatus {
        current: String::from_str(current),
        latest: String::from_str(latest),
        newer: version_newer(latest, current),
    }
}

/// What `fbsy update` does after a version check.
#[derive(Debug, Clone, Copy, PartialEq, Eq)]
pub enum UpdateStep {
    /// Already on the latest release.
    UpToDate,
    /// Report the update and stop.
    ReportOnly,
    /// Ask the user before installing.
    Confirm,
    /// Install now.
    Install,
}

pub open spec fn step_for(newer: bool, opts: UpdateOpts) -> UpdateStep {
    if !newer {
        UpdateStep::UpToDate
    } else if opts.check_only {
        UpdateStep::ReportOnly
    } else if !opts.assume_yes && !opts.auto {
        UpdateStep::Confirm
    } else {
        UpdateStep::Install
    }
}

pub fn next_step(status: &UpdateStatus, opts: UpdateOpts) -> (r: UpdateStep)
    ensures
        r == step_for(status.newer, opts),
{
    if !status.newer {
        UpdateStep::UpToDate
    } else if opts.check_only {
        UpdateStep::ReportOnly
    } else if !opts.assume_yes && !opts.auto {
        UpdateStep::Confirm
    } else {
        UpdateStep::Install
    }
}

// ── Release files ────────────────────────────────────────────────────────────

/// `https://github.com/<REPO>/releases/download/v<version>/<file>`.
pub open spec fn release_file_url(version: Seq<char>, file: Seq<char>) -> Seq<char> {
    "https://github.com/anonto42/fbsy/releases/download/v"@ + version + "/"@ + file
}

pub fn release_url(version: &str, file: &str) -> (r: String)
    ensures
        r@ == release_file_url(version@, file@),
{
    let mut s = String::from_str("https://github.com/anonto42/fbsy/releases/download/v");
    push_str(&mut s, version);
    push_str(&mut s, "/");
    push_str(&mut s, file);
    s
}

/// The URL that redirects to the latest release's asset.
pub open spec fn latest_redirect_text(asset: Seq<char>) -> Seq<char> {
    "https://github.com/anonto42/fbsy/releases/latest/download/"@ + asset
}

pub fn latest_redirect_url(asset: &str) -> (r: String)
    ensures
        r@ == latest_redirect_text(asset@),
{
    let mut s = String::from_str("https://github.com/anonto42/fbsy/releases/latest/download/");
    push_str(&mut s, asset);
    s
}

/// The releases API endpoint for the latest release.
pub fn latest_api_url() -> (r: &'static str)
    ensures
        r@ == "https://api.github.com/repos/anonto42/fbsy/releases/latest"@,
{
    "https://api.github.com/repos/anonto42/fbsy/releases/latest"
}

// ── Checksums ────────────────────────────────────────────────────────────────

/// The first two whitespace-separated words of a line.
pub open spec fn line_entry(line: Seq<char>) -> Option<(Seq<char>, Seq<char>)> {
    match next_uword(line, 0) {
        None => None,
        Some((a, b)) => match next_uword(line, b) {
            None => None,
            Some((c, d)) => Some((line.subrange(a, b), line.subrange(c, d))),
        },
    }
}

/// The hash listed for `asset` (lower-cased): the first line whose second
/// word is the asset's name.
pub open spec fn expected_hash(lines: Seq<Seq<char>>, asset: Seq<char>) -> Option<Seq<char>>
    decreases lines.len(),
{
    if lines.len() == 0 {
        None
    } else {
        match line_entry(lines[0]) {
            Some((h, n)) => if n == asset {
                Some(unicode_lower(h))
            } else {
                expected_hash(lines.drop_first(), asset)
            },
            None => expected_hash(lines.drop_first(), asset),
        }
    }
}

/// Whether `bytes` match the checksum `text` lists for `asset`; the error
/// says why not. Fails closed: no entry is an error.
pub open spec fn checksum_result(text: Seq<char>, asset: Seq<char>, bytes: Seq<u8>) -> Result<(), Seq<char>> {
    match expected_hash(text_lines(text), asset) {
        None => Err("no SHA-256 entry for '"@ + asset + "' in checksums.txt — update aborted"@),
        Some(e) => {
            let actual = hex_lower(sha256(bytes));
            if actual == e {
                Ok(())
            } else {
                Err(
                    "checksum mismatch for '"@ + asset + "' (expected "@ + e + ", got "@ + actual + ")"@,
                )
            }
        },
    }
}

fn entry_of(line: &[char]) -> (r: Option<(Vec<char>, Vec<char>)>)
    ensures
        match r {
            Some((h, n)) => line_entry(line@) == Some((h@, n@)),
            None => line_entry(line@) is None,
        },
{
    let (a, b) = match find_uword(line, 0) {
        Some(w) => w,
        None => {
            return None;
        },
    };
    let (c, d) = match find_uword(line, b) {
        Some(w) => w,
        None => {
            return None;
        },
    };
    let h = slice_chars(line, a, b);
    let n = slice_chars(line, c, d);
    Some((h, n))
}

fn find_expected(lines: &Vec<Vec<char>>, asset: &[char]) -> (r: Option<String>)
    ensures
        match r {
            Some(e) => expected_hash(lines@.map_values(|l: Vec<char>| l@), asset@) == Some(e@),
            None => expected_hash(lines@.map_values(|l: Vec<char>| l@), asset@) is None,
        },
{
    let ghost ls = lines@.map_values(|l: Vec<char>| l@);
    let mut i: usize = 0;
    assert(ls.skip(0) =~= ls);
    while i < lines.len()
        invariant
            i <= lines.len(),
            ls == lines@.map_values(|l: Vec<char>| l@),
            expected_hash(ls, asset@) == expected_hash(ls.skip(i as int), asset@),
        decreases lines.len() - i,
    {
        let ghost rest = ls.skip(i as int);
        assert(rest[0] == lines@[i as int]@);
        assert(rest.drop_first() =~= ls.skip(i + 1));
        match entry_of(lines[i].as_slice()) {
            Some((h, n)) => {
                if crate::text::chars_eq(n.as_slice(), asset) {
                    let hs = string_of(h.as_slice());
                    return Some(to_lowercase(hs.as_str()));
                }
            },
            None => {},
        }
        i += 1;
    }
    None
}

/// Checks `bytes` against the SHA-256 that the checksum file `text` lists
/// for `asset`.
pub fn check_hash_in_text(text: &str, asset: &str, bytes: &[u8]) -> (r: Result<(), String>)
    ensures
        match r {
            Ok(()) => checksum_result(text@, asset@, bytes@) == Ok::<(), Seq<char>>(()),
            Err(m) => checksum_result(text@, asset@, bytes@) == Err::<(), Seq<char>>(m@),
        },
{
    let tc = chars_of(text);
    let lines = lines_of(tc.as_slice());
    let ac = chars_of(asset);
    let expected = match find_expected(&lines, ac.as_slice()) {
        Some(e) => e,
        None => {
            let mut m = String::from_str("no SHA-256 entry for '");
            push_str(&mut m, asset);
            push_str(&mut m, "' in checksums.txt — update aborted");
            return Err(m);
        },
    };
    let digest = sha256_digest(bytes);
    let actual = to_hex(digest.as_slice());
    if str_eq(actual.as_str(), expected.as_str()) {
        Ok(())
    } else {
        let mut m = String::from_str("checksum mismatch for '");
        push_str(&mut m, asset);
        push_str(&mut m, "' (expected ");
        push_str(&mut m, expected.as_str());
        push_str(&mut m, ", got ");
        push_str(&mut m, actual.as_str());
        push_str(&mut m, ")");
        Err(m)
    }
}

/// Checks `bytes` against a downloaded checksum file (decoded lossily).
pub fn check_checksum_file(raw: &[u8], asset: &str, bytes: &[u8]) -> (r: Result<(), String>)
    ensures
        match r {
            Ok(()) => checksum_result(utf8_lossy(raw@), asset@, bytes@) == Ok::<(), Seq<char>>(()),
            Err(m) => checksum_result(utf8_lossy(raw@), asset@, bytes@) == Err::<(), Seq<char>>(m@),
        },
{
    let text = decode_utf8_lossy(raw);
    check_hash_in_text(text.as_str(), asset, bytes)
}

} // verus!
