use vstd::prelude::*;
use crate::strutil::{is_space, lower_chars, upper_chars};

verus! {

/// Where a requested GIF lives in the store, and the caption text derived
/// from its name.
#[derive(Debug, Clone)]
pub struct GifConfig {
    pub bucket_path: String,
    pub file_name: String,
    pub text: String,
}

/// The index of the first non-whitespace character at or after `k`, or the
/// length when none follows.
pub open spec fn first_non_space(s: Seq<char>, k: int) -> int
    decreases s.len() - k,
{
    if k < 0 || k >= s.len() {
        s.len() as int
    } else if is_space(s[k]) {
        first_non_space(s, k + 1)
    } else {
        k
    }
}

/// The index of the last non-whitespace character strictly below `k`, or -1
/// when none precedes.
pub open spec fn last_non_space(s: Seq<char>, k: int) -> int
    decreases k,
{
    if k <= 0 {
        -1
    } else if is_space(s[k - 1]) {
        last_non_space(s, k - 1)
    } else {
        k - 1
    }
}

/// The sequence with leading and trailing whitespace removed.
pub open spec fn trim_chars(s: Seq<char>) -> Seq<char> {
    let a = first_non_space(s, 0);
    let b = last_non_space(s, s.len() as int);
    if a > b {
        Seq::empty()
    } else {
        s.subrange(a, b + 1)
    }
}

/// The sequence with every occurrence of `from` replaced by `to`.
pub open spec fn replace_char(s: Seq<char>, from: char, to: char) -> Seq<char> {
    Seq::new(s.len(), |i: int| if s[i] == from {
        to
    } else {
        s[i]
    })
}

/// At most the first `k` characters.
pub open spec fn take_up_to(s: Seq<char>, k: int) -> Seq<char> {
    if s.len() <= k {
        s
    } else {
        s.take(k)
    }
}

/// A path with its leading slash and four-character extension removed.
pub open spec fn strip_slash_ext(p: Seq<char>) -> Seq<char> {
    if p.len() <= 5 {
        Seq::empty()
    } else {
        p.subrange(1, p.len() - 4)
    }
}

/// The store key derived from a request path: strip slash and extension,
/// trim, spaces to underscores, lowercase, at most 30 characters.
pub open spec fn file_name_spec(p: Seq<char>) -> Seq<char> {
    take_up_to(lower_chars(replace_char(trim_chars(strip_slash_ext(p)), ' ', '_')), 30)
}

/// The caption derived from the store key: underscores back to spaces,
/// trim, uppercase.
pub open spec fn text_spec(p: Seq<char>) -> Seq<char> {
    upper_chars(trim_chars(replace_char(file_name_spec(p), '_', ' ')))
}

/// Whether a string equals a given literal, character for character.
fn str_eq_chars(s: &str, t: &str) -> (r: bool)
    ensures
        r == (s@ == t@),
{
    let n: usize = s.unicode_len();
    let m: usize = t.unicode_len();
    if n != m {
        proof {
            assert(s@.len() != t@.len());
        }
        return false;
    }
    let mut i: usize = 0;
    while i < n
        invariant
            i <= n,
            n == s@.len(),
            n == t@.len(),
            forall|j: int| 0 <= j < i ==> s@[j] == t@[j],
        decreases n - i,
    {
        if s.get_char(i) != t.get_char(i) {
            return false;
        }
        i = i + 1;
    }
    proof {
        assert(s@ =~= t@);
    }
    true
}

/// The characters of a string, in order.
fn chars_of_str(s: &str) -> (r: Vec<char>)
    ensures
        r@ == s@,
{
    let n: usize = s.unicode_len();
    let mut out: Vec<char> = Vec::new();
    let mut i: usize = 0;
    while i < n
        invariant
            i <= n,
            n == s@.len(),
            out@ == s@.take(i as int),
        decreases n - i,
    {
        out.push(s.get_char(i));
        proof {
            assert(out@ =~= s@.take(i + 1));
        }
        i = i + 1;
    }
    proof {
        assert(out@ =~= s@);
    }
    out
}

/// A string holding exactly the given characters.
fn string_of_chars(v: &Vec<char>) -> (r: String)
    ensures
        r@ == v@,
{
    let mut out = String::new();
    let n: usize = v.len();
    let mut i: usize = 0;
    while i < n
        invariant
            i <= n,
            n == v@.len(),
            out@ == v@.take(i as int),
        decreases n - i,
    {
        out.push(v[i]);
        proof {
            assert(out@ =~= v@.take(i + 1));
        }
        i = i + 1;
    }
    proof {
        assert(out@ =~= v@);
    }
    out
}

/// Removes leading and trailing whitespace.
fn trim_chars_exec(v: &Vec<char>) -> (r: Vec<char>)
    ensures
        r@ == trim_chars(v@),
{
    let n: usize = v.len();
    let mut a: usize = 0;
    while a < n && v[a].is_whitespace()
        invariant
            a <= n,
            n == v@.len(),
            first_non_space(v@, 0) == first_non_space(v@, a as int),
        decreases n - a,
    {
        a = a + 1;
    }
    proof {
        assert(first_non_space(v@, 0) == a as int);
    }
    let mut b: usize = n;
    while b > a && v[b - 1].is_whitespace()
        invariant
            a <= b <= n,
            n == v@.len(),
            first_non_space(v@, 0) == a as int,
            a < n ==> !is_space(v@[a as int]),
            a < n ==> b > a,
            last_non_space(v@, n as int) == last_non_space(v@, b as int),
        decreases b,
    {
        b = b - 1;
    }
    let mut out: Vec<char> = Vec::new();
    let mut i: usize = a;
    while i < b
        invariant
            a <= i <= b <= n,
            n == v@.len(),
            out@ == v@.subrange(a as int, i as int),
        decreases b - i,
    {
        out.push(v[i]);
        proof {
            assert(out@ =~= v@.subrange(a as int, i + 1));
        }
        i = i + 1;
    }
    proof {
        let fa: int = first_non_space(v@, 0);
        let lb: int = last_non_space(v@, n as int);
        if b > a {
            assert(lb == b - 1);
            assert(fa == a as int);
            assert(out@ =~= trim_chars(v@));
        } else {
            assert(b == a && a == n);
            lemma_first_all_space(v@, 0);
            lemma_last_all_space(v@, n as int);
            assert(fa > lb);
            assert(out@ =~= trim_chars(v@));
        }
    }
    out
}

/// When the first-non-space scan runs off the end, everything it passed is
/// whitespace.
proof fn lemma_first_all_space(s: Seq<char>, k: int)
    requires
        0 <= k,
        first_non_space(s, k) == s.len(),
    ensures
        forall|j: int| k <= j < s.len() ==> is_space(#[trigger] s[j]),
    decreases s.len() - k,
{
    if k < s.len() {
        lemma_first_all_space(s, k + 1);
    }
}

/// Over a run of whitespace, the last-non-space scan finds nothing.
proof fn lemma_last_all_space(s: Seq<char>, k: int)
    requires
        k <= s.len(),
        forall|j: int| 0 <= j < k ==> is_space(#[trigger] s[j]),
    ensures
        last_non_space(s, k) == -1,
    decreases k,
{
    if k > 0 {
        lemma_last_all_space(s, k - 1);
    }
}

/// Replaces every occurrence of one character with another.
fn replace_char_exec(v: &Vec<char>, from: char, to: char) -> (r: Vec<char>)
    ensures
        r@ == replace_char(v@, from, to),
{
    let n: usize = v.len();
    let mut out: Vec<char> = Vec::new();
    let mut i: usize = 0;
    while i < n
        invariant
            i <= n,
            n == v@.len(),
            out@.len() == i,
            forall|j: int| 0 <= j < i ==> out@[j] == (if v@[j] == from {
                to
            } else {
                v@[j]
            }),
        decreases n - i,
    {
        if v[i] == from {
            out.push(to);
        } else {
            out.push(v[i]);
        }
        i = i + 1;
    }
    proof {
        assert(out@ =~= replace_char(v@, from, to));
    }
    out
}

/// Keeps at most the first `k` characters.
fn take_chars(v: &Vec<char>, k: usize) -> (r: Vec<char>)
    ensures
        r@ == take_up_to(v@, k as int),
{
    let n: usize = v.len();
    let m: usize = if n <= k {
        n
    } else {
        k
    };
    let mut out: Vec<char> = Vec::new();
    let mut i: usize = 0;
    while i < m
        invariant
            i <= m <= n,
            n == v@.len(),
            out@ == v@.take(i as int),
        decreases m - i,
    {
        out.push(v[i]);
        proof {
            assert(out@ =~= v@.take(i + 1));
        }
        i = i + 1;
    }
    proof {
        assert(out@ =~= take_up_to(v@, k as int));
    }
    out
}

/// Maps a request path to the store key, the caption text and the bucket
/// path. The fixed path `/base.gif` maps to the unmodified base animation;
/// any other path loses its leading slash and four-character extension, is
/// trimmed, has spaces turned to underscores, is lowercased and capped at 30
/// characters to form the key, from which the caption is recovered by the
/// reverse substitution, trimmed and uppercased.
pub fn parse_gif_path(pathname: &str) -> (r: GifConfig)
    ensures
        pathname@ == "/base.gif"@ ==> r.bucket_path@ == "base.gif"@ && r.file_name@ == "base"@
            && r.text@ == "base"@,
        pathname@ != "/base.gif"@ ==> r.file_name@ == file_name_spec(pathname@)
            && r.text@ == text_spec(pathname@)
            && r.bucket_path@ == "generated/"@ + file_name_spec(pathname@) + ".gif"@,
{
    if str_eq_chars(pathname, "/base.gif") {
        return GifConfig {
            bucket_path: String::from_str("base.gif"),
            file_name: String::from_str("base"),
            text: String::from_str("base"),
        };
    }
    let chars: Vec<char> = chars_of_str(pathname);
    let char_count: usize = chars.len();
    let mut stripped: Vec<char> = Vec::new();
    if char_count > 5 {
        let end: usize = char_count - 4;
        let mut i: usize = 1;
        while i < end
            invariant
                1 <= i <= end,
                end == char_count - 4,
                5 < char_count == chars@.len(),
                stripped@ == chars@.subrange(1, i as int),
            decreases end - i,
        {
            stripped.push(chars[i]);
            proof {
                assert(stripped@ =~= chars@.subrange(1, i + 1));
            }
            i = i + 1;
        }
    }
    proof {
        assert(stripped@ =~= strip_slash_ext(pathname@));
    }
    let trimmed: Vec<char> = trim_chars_exec(&stripped);
    let replaced: Vec<char> = replace_char_exec(&trimmed, ' ', '_');
    let pre: String = string_of_chars(&replaced);
    let lowered: String = pre.as_str().to_lowercase();
    let lowered_chars: Vec<char> = chars_of_str(lowered.as_str());
    let taken: Vec<char> = take_chars(&lowered_chars, 30);
    let file_name: String = string_of_chars(&taken);
    let restored: Vec<char> = replace_char_exec(&taken, '_', ' ');
    let retrimmed: Vec<char> = trim_chars_exec(&restored);
    let pre_text: String = string_of_chars(&retrimmed);
    let text: String = pre_text.as_str().to_uppercase();
    let mut bucket_path: String = String::from_str("generated/");
    bucket_path.append(file_name.as_str());
    bucket_path.append(".gif");
    GifConfig { bucket_path, file_name, text }
}

} // verus!
