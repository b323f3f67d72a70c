//! Config-sync status logic: counting the synced entries of a settings
//! file's custom-model list, assembling the sync status report, and
//! pulling a version number out of a CLI tool's `--version` output.
//! Reading and writing the settings file is the surrounding process's
//! work; the entries come here as plain values.

use vstd::prelude::*;
use crate::strutil::{has_prefix, str_starts_with};

verus! {

/// What this layer reads of one entry of the settings file's
/// custom-model list.
#[derive(Clone, Debug, PartialEq)]
pub struct CustomModelEntry {
    pub id: String,
    pub base_url: Option<String>,
}

/// The entry was synced by this tool: its id carries the marker prefix.
pub open spec fn is_synced_entry(e: CustomModelEntry) -> bool {
    has_prefix(e.id@, "custom:AG-"@)
}

/// Count the synced entries and report the base URL of the first synced
/// entry that has one.
pub fn count_synced_models(entries: &Vec<CustomModelEntry>) -> (r: (usize, Option<String>))
    ensures
        r.0 == entries@.filter(|e: CustomModelEntry| is_synced_entry(e)).len(),
        ({
            let with_url = entries@.filter(
                |e: CustomModelEntry| is_synced_entry(e) && e.base_url is Some,
            );
            match r.1 {
                Some(u) => with_url.len() > 0 && Some(u) == with_url[0].base_url,
                None => with_url.len() == 0,
            }
        }),
{
    let n = entries.len();
    let mut count: usize = 0;
    let mut first_url: Option<String> = None;
    let mut i: usize = 0;
    proof {
        assert(entries@.take(0).filter(|e: CustomModelEntry| is_synced_entry(e)) =~= Seq::<
            CustomModelEntry,
        >::empty());
        assert(entries@.take(0).filter(
            |e: CustomModelEntry| is_synced_entry(e) && e.base_url is Some,
        ) =~= Seq::<CustomModelEntry>::empty());
    }
    while i < n
        invariant
            i <= n,
            n == entries@.len(),
            count == entries@.take(i as int).filter(
                |e: CustomModelEntry| is_synced_entry(e),
            ).len(),
            ({
                let with_url = entries@.take(i as int).filter(
                    |e: CustomModelEntry| is_synced_entry(e) && e.base_url is Some,
                );
                match first_url {
                    Some(u) => with_url.len() > 0 && Some(u) == with_url[0].base_url,
                    None => with_url.len() == 0,
                }
            }),
        decreases n - i,
    {
        proof {
            broadcast use Seq::lemma_filter_push;

            assert(entries@.take(i as int + 1) =~= entries@.take(i as int).push(
                entries@[i as int],
            ));
        }
        let e = &entries[i];
        if str_starts_with(e.id.as_str(), "custom:AG-") {
            count += 1;
            if matches!(first_url, None) {
                match &e.base_url {
                    Some(u) => {
                        first_url = Some(u.clone());
                    },
                    None => {},
                }
            }
        }
        i += 1;
    }
    proof {
        assert(entries@.take(n as int) =~= entries@);
    }
    (count, first_url)
}

/// The report handed to the front end about the synced tool.
#[derive(Clone, Debug, PartialEq)]
pub struct DroidStatus {
    pub installed: bool,
    pub version: Option<String>,
    pub is_synced: bool,
    pub has_backup: bool,
    pub current_base_url: Option<String>,
    pub files: Vec<String>,
    pub synced_count: usize,
}

/// Assemble the status report. A tool that is not installed reports no
/// sync state at all, whatever the probe of the settings file found.
pub fn droid_status(
    installed: bool,
    version: Option<String>,
    has_backup: bool,
    current_base_url: Option<String>,
    synced_count: usize,
) -> (r: DroidStatus)
    ensures
        r.installed == installed,
        r.version == version,
        installed ==> r.is_synced == (synced_count > 0) && r.has_backup == has_backup
            && r.current_base_url == current_base_url && r.synced_count == synced_count,
        !installed ==> !r.is_synced && !r.has_backup && r.current_base_url is None
            && r.synced_count == 0,
        r.files@.len() == 1 && r.files@[0]@ == "settings.json"@,
{
    let mut files: Vec<String> = Vec::new();
    files.push("settings.json".to_owned());
    if installed {
        DroidStatus {
            installed,
            version,
            is_synced: synced_count > 0,
            has_backup,
            current_base_url,
            files,
            synced_count,
        }
    } else {
        DroidStatus {
            installed,
            version,
            is_synced: false,
            has_backup: false,
            current_base_url: None,
            files,
            synced_count: 0,
        }
    }
}

/// An ASCII whitespace character.
pub open spec fn is_ws(c: char) -> bool {
    c == ' ' || c == '\t' || c == '\n' || c == '\r'
}

/// An ASCII decimal digit.
pub open spec fn is_digit_char(c: char) -> bool {
    48 <= c as int <= 57
}

/// A digit or a dot: what a bare version number is made of.
pub open spec fn is_dd(c: char) -> bool {
    is_digit_char(c) || c == '.'
}

/// The end of the whitespace-free run starting at `a`.
pub open spec fn token_end(s: Seq<char>, a: int) -> int
    decreases s.len() - a,
{
    if a < 0 || a >= s.len() || is_ws(s[a]) {
        a
    } else {
        token_end(s, a + 1)
    }
}

pub proof fn lemma_token_end_bounds(s: Seq<char>, a: int)
    requires
        0 <= a <= s.len(),
    ensures
        a <= token_end(s, a) <= s.len(),
        a < s.len() && !is_ws(s[a]) ==> token_end(s, a) >= a + 1,
    decreases s.len() - a,
{
    if a < s.len() && !is_ws(s[a]) {
        lemma_token_end_bounds(s, a + 1);
    }
}

/// The first position in `[a, b)` holding `c`, or `b` when none does.
pub open spec fn find_char(s: Seq<char>, a: int, b: int, c: char) -> int
    decreases b - a,
{
    if a < 0 || a >= b || a >= s.len() {
        b
    } else if s[a] == c {
        a
    } else {
        find_char(s, a + 1, b, c)
    }
}

/// The first position in `[a, b)` holding neither digit nor dot, or `b`.
pub open spec fn find_non_dd(s: Seq<char>, a: int, b: int) -> int
    decreases b - a,
{
    if a < 0 || a >= b || a >= s.len() {
        b
    } else if !is_dd(s[a]) {
        a
    } else {
        find_non_dd(s, a + 1, b)
    }
}

/// The first digit position at or after `i`, or the length when none.
pub open spec fn find_digit(s: Seq<char>, i: int) -> int
    decreases s.len() - i,
{
    if i < 0 || i >= s.len() {
        s.len() as int
    } else if is_digit_char(s[i]) {
        i
    } else {
        find_digit(s, i + 1)
    }
}

/// The token `[a, b)` is a bare version number: non-empty, it starts
/// with a digit, holds a dot, and is made of digits and dots only.
pub open spec fn bare_ok(s: Seq<char>, a: int, b: int) -> bool {
    &&& a < b
    &&& is_digit_char(s[a])
    &&& find_char(s, a, b, '.') < b
    &&& find_non_dd(s, a, b) == b
}

/// What one whitespace-separated token yields: the part after its first
/// slash when that part starts with a digit and holds a dot, else the
/// token itself when it is a bare version number.
pub open spec fn token_result(s: Seq<char>, a: int, b: int) -> Option<Seq<char>> {
    let si = find_char(s, a, b, '/');
    if si < b && si + 1 < b && is_digit_char(s[si + 1]) && find_char(s, si + 1, b, '.') < b {
        Some(s.subrange(si + 1, b))
    } else if bare_ok(s, a, b) {
        Some(s.subrange(a, b))
    } else {
        None
    }
}

/// The result of the first token from position `i` on that yields one.
pub open spec fn phase1_from(s: Seq<char>, i: int) -> Option<Seq<char>>
    decreases s.len() - i,
    when 0 <= i
    via phase1_from_decreases
{
    if i >= s.len() {
        None
    } else if is_ws(s[i]) {
        phase1_from(s, i + 1)
    } else {
        match token_result(s, i, token_end(s, i)) {
            Some(v) => Some(v),
            None => phase1_from(s, token_end(s, i)),
        }
    }
}

#[via_fn]
proof fn phase1_from_decreases(s: Seq<char>, i: int) {
    if 0 <= i < s.len() && !is_ws(s[i]) {
        lemma_token_end_bounds(s, i);
    }
}

/// The fallback: from the first digit, the longest digit-and-dot run —
/// taken only when it holds a dot.
pub open spec fn phase2(s: Seq<char>) -> Option<Seq<char>> {
    let d = find_digit(s, 0);
    if d < s.len() {
        let e = find_non_dd(s, d, s.len() as int);
        if find_char(s, d, e, '.') < e {
            Some(s.subrange(d, e))
        } else {
            None
        }
    } else {
        None
    }
}

/// The version number `extract_version` reads out of `s`.
pub open spec fn extract_version_spec(s: Seq<char>) -> Seq<char> {
    match phase1_from(s, 0) {
        Some(v) => v,
        None => match phase2(s) {
            Some(v) => v,
            None => "unknown"@,
        },
    }
}

fn is_ws_exec(c: char) -> (r: bool)
    ensures
        r == is_ws(c),
{
    c == ' ' || c == '\t' || c == '\n' || c == '\r'
}

fn is_digit_exec(c: char) -> (r: bool)
    ensures
        r == is_digit_char(c),
{
    let u = c as u32;
    48 <= u && u <= 57
}

fn is_dd_exec(c: char) -> (r: bool)
    ensures
        r == is_dd(c),
{
    is_digit_exec(c) || c == '.'
}

/// The end of the whitespace-free run starting at `a`.
fn scan_token_end(s: &str, a: usize) -> (b: usize)
    requires
        a <= s@.len(),
    ensures
        b == token_end(s@, a as int),
        a <= b <= s@.len(),
{
    let n = s.unicode_len();
    let mut j: usize = a;
    while j < n && !is_ws_exec(s.get_char(j))
        invariant
            a <= j <= n,
            n == s@.len(),
            token_end(s@, a as int) == token_end(s@, j as int),
        decreases n - j,
    {
        j += 1;
    }
    j
}

/// The first position in `[a, b)` holding `c`, or `b` when none does.
fn find_char_in(s: &str, a: usize, b: usize, c: char) -> (r: usize)
    requires
        a <= b <= s@.len(),
    ensures
        r == find_char(s@, a as int, b as int, c),
        a <= r <= b,
        r < b ==> s@[r as int] == c,
{
    let mut j: usize = a;
    while j < b && s.get_char(j) != c
        invariant
            a <= j <= b,
            b <= s@.len(),
            find_char(s@, a as int, b as int, c) == find_char(s@, j as int, b as int, c),
        decreases b - j,
    {
        j += 1;
    }
    j
}

/// The first position in `[a, b)` holding neither digit nor dot, or `b`.
fn find_non_dd_in(s: &str, a: usize, b: usize) -> (r: usize)
    requires
        a <= b <= s@.len(),
    ensures
        r == find_non_dd(s@, a as int, b as int),
        a <= r <= b,
{
    let mut j: usize = a;
    while j < b && is_dd_exec(s.get_char(j))
        invariant
            a <= j <= b,
            b <= s@.len(),
            find_non_dd(s@, a as int, b as int) == find_non_dd(s@, j as int, b as int),
        decreases b - j,
    {
        j += 1;
    }
    j
}

/// The first digit position at or after `i`, or the length when none.
fn find_digit_from(s: &str, i: usize) -> (r: usize)
    requires
        i <= s@.len(),
    ensures
        r == find_digit(s@, i as int),
        i <= r <= s@.len(),
{
    let n = s.unicode_len();
    let mut j: usize = i;
    while j < n && !is_digit_exec(s.get_char(j))
        invariant
            i <= j <= n,
            n == s@.len(),
            find_digit(s@, i as int) == find_digit(s@, j as int),
        decreases n - j,
    {
        j += 1;
    }
    j
}

/// Pull a version number out of a tool's `--version` output: the first
/// whitespace-separated token that is a version (either after a slash,
/// as in `tool/1.2.3`, or bare digits-and-dots starting with a digit),
/// else the first digit-led digits-and-dots run holding a dot, else
/// `"unknown"`.
pub fn extract_version(raw: &str) -> (r: String)
    ensures
        r@ == extract_version_spec(raw@),
{
    let n = raw.unicode_len();
    let mut i: usize = 0;
    while i < n
        invariant
            i <= n,
            n == raw@.len(),
            phase1_from(raw@, 0) == phase1_from(raw@, i as int),
        decreases n - i,
    {
        let c = raw.get_char(i);
        if is_ws_exec(c) {
            i += 1;
        } else {
            let b = scan_token_end(raw, i);
            proof {
                lemma_token_end_bounds(raw@, i as int);
            }
            let si = find_char_in(raw, i, b, '/');
            if si < b && si + 1 < b {
                let after_first = raw.get_char(si + 1);
                if is_digit_exec(after_first) && find_char_in(raw, si + 1, b, '.') < b {
                    let out = raw.substring_char(si + 1, b);
                    proof {
                        assert(token_result(raw@, i as int, b as int) == Some(
                            raw@.subrange(si as int + 1, b as int),
                        ));
                    }
                    return out.to_owned();
                }
            }
            let has_dot = find_char_in(raw, i, b, '.') < b;
            let all_dd = find_non_dd_in(raw, i, b) == b;
            if has_dot && is_digit_exec(c) && all_dd {
                let out = raw.substring_char(i, b);
                proof {
                    assert(bare_ok(raw@, i as int, b as int));
                    assert(token_result(raw@, i as int, b as int) == Some(
                        raw@.subrange(i as int, b as int),
                    ));
                }
                return out.to_owned();
            }
            proof {
                assert(token_result(raw@, i as int, b as int) is None);
                assert(phase1_from(raw@, i as int) == phase1_from(raw@, b as int));
            }
            i = b;
        }
    }
    proof {
        assert(phase1_from(raw@, 0) is None);
    }
    let d = find_digit_from(raw, 0);
    if d < n {
        let e = find_non_dd_in(raw, d, n);
        if find_char_in(raw, d, e, '.') < e {
            let out = raw.substring_char(d, e);
            proof {
                assert(phase2(raw@) == Some(raw@.subrange(d as int, e as int)));
            }
            return out.to_owned();
        }
        proof {
            assert(phase2(raw@) is None);
        }
    }
    "unknown".to_owned()
}

} // verus!
