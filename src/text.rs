//! Character-level string helpers, and the small text rules built on them:
//! colour names turned into file names, initials, and a username hash.
use vstd::prelude::*;
use vstd::utf8::encode_utf8;

verus! {

/// Relies on `String::push`: the character is appended at the end.
pub assume_specification[ String::push ](s: &mut String, ch: char)
    ensures
        final(s)@ == old(s)@.push(ch),
;

/// What `char::is_uppercase` answers for a character (the Unicode
/// `Uppercase` property).
pub uninterp spec fn is_uppercase_char(c: char) -> bool;

/// What `str::to_lowercase` returns for a string (full Unicode lowercasing).
pub uninterp spec fn lowercase_of(s: Seq<char>) -> Seq<char>;

/// Relies on `char::is_uppercase`: the answer depends on the character alone.
#[verifier::external_body]
fn char_is_uppercase(c: char) -> (r: bool)
    ensures
        r == is_uppercase_char(c),
{
    c.is_uppercase()
}

/// Relies on `str::to_lowercase`: the result depends on the characters alone.
#[verifier::external_body]
pub(crate) fn to_lowercase(s: &str) -> (r: String)
    ensures
        r@ == lowercase_of(s@),
{
    s.to_lowercase()
}

pub open spec fn is_ascii_upper(c: char) -> bool {
    'A' <= c && c <= 'Z'
}

pub open spec fn is_ascii_lower(c: char) -> bool {
    'a' <= c && c <= 'z'
}

/// `char::to_ascii_uppercase`: `a..=z` move to `A..=Z`, every other character stays.
pub open spec fn ascii_upper(c: char) -> char {
    if is_ascii_lower(c) {
        ((c as u32) - 32) as char
    } else {
        c
    }
}

pub fn to_ascii_upper(c: char) -> (r: char)
    ensures
        r == ascii_upper(c),
{
    if 'a' <= c && c <= 'z' {
        let v: u32 = (c as u32) - 32;
        proof {
            assert(0x41 <= v <= 0x5a);
        }
        char_from_ascii(v)
    } else {
        c
    }
}

/// An ASCII code point as a character.
fn char_from_ascii(v: u32) -> (r: char)
    requires
        v < 128,
    ensures
        r == v as char,
{
    let b: u8 = v as u8;
    b as char
}

/// The characters of a string slice, in order.
pub fn chars_of(s: &str) -> (r: Vec<char>)
    ensures
        r@ == s@,
{
    let n = s.unicode_len();
    let mut out: Vec<char> = Vec::new();
    let mut i: usize = 0;
    while i < n
        invariant
            n == s@.len(),
            i <= n,
            out@ == s@.subrange(0, i as int),
        decreases n - i,
    {
        let c = s.get_char(i);
        out.push(c);
        i = i + 1;
        proof {
            assert(out@ =~= s@.subrange(0, i as int));
        }
    }
    proof {
        assert(out@ =~= s@);
    }
    out
}

/// Whether two character sequences are equal.
pub fn chars_eq(a: &Vec<char>, b: &Vec<char>) -> (r: bool)
    ensures
        r == (a@ == b@),
{
    if a.len() != b.len() {
        return false;
    }
    let mut i: usize = 0;
    while i < a.len()
        invariant
            a@.len() == b@.len(),
            i <= a@.len(),
            forall|j: int| 0 <= j < i ==> a@[j] == b@[j],
        decreases a.len() - i,
    {
        if a[i] != b[i] {
            return false;
        }
        i = i + 1;
    }
    proof {
        assert(a@ =~= b@);
    }
    true
}

/// Whether two string slices hold the same characters.
pub fn str_eq(a: &str, b: &str) -> (r: bool)
    ensures
        r == (a@ == b@),
{
    let ca = chars_of(a);
    let cb = chars_of(b);
    chars_eq(&ca, &cb)
}

/// `p` occurs in `h` starting at position `i`.
pub open spec fn occurs_at(h: Seq<char>, p: Seq<char>, i: int) -> bool {
    0 <= i && i + p.len() <= h.len() && h.subrange(i, i + p.len()) == p
}

/// `p` occurs somewhere in `h` (an empty `p` occurs everywhere).
pub open spec fn has_substring(h: Seq<char>, p: Seq<char>) -> bool {
    exists|i: int| #[trigger] occurs_at(h, p, i)
}

fn matches_at(h: &Vec<char>, p: &Vec<char>, i: usize) -> (r: bool)
    requires
        i + p@.len() <= h@.len(),
    ensures
        r == occurs_at(h@, p@, i as int),
{
    let hl: usize = h.len();
    let mut j: usize = 0;
    while j < p.len()
        invariant
            i + p@.len() <= h@.len(),
            h@.len() == hl,
            j <= p@.len(),
            forall|k: int| 0 <= k < j ==> h@[i + k] == p@[k],
        decreases p.len() - j,
    {
        if h[i + j] != p[j] {
            proof {
                let sub = h@.subrange(i as int, i + p@.len());
                assert(sub[j as int] != p@[j as int]);
            }
            return false;
        }
        j = j + 1;
    }
    proof {
        assert(h@.subrange(i as int, i + p@.len()) =~= p@);
    }
    true
}

/// Whether `p` occurs in `h`.
pub fn contains_chars(h: &Vec<char>, p: &Vec<char>) -> (r: bool)
    ensures
        r == has_substring(h@, p@),
{
    if p.len() > h.len() {
        proof {
            assert forall|i: int| !occurs_at(h@, p@, i) by {}
        }
        return false;
    }
    let last: usize = h.len() - p.len();
    let mut i: usize = 0;
    while i <= last
        invariant
            last == h@.len() - p@.len(),
            p@.len() <= h@.len(),
            forall|k: int| 0 <= k < i ==> !occurs_at(h@, p@, k),
        decreases last + 1 - i,
    {
        if matches_at(h, p, i) {
            return true;
        }
        if i == last {
            proof {
                assert forall|k: int| !occurs_at(h@, p@, k) by {
                    if occurs_at(h@, p@, k) {
                        assert(k < i || k == i);
                    }
                }
            }
            return false;
        }
        i = i + 1;
    }
    false
}

/// Whether the string slice `h` contains `p`.
pub fn str_contains(h: &str, p: &str) -> (r: bool)
    ensures
        r == has_substring(h@, p@),
{
    let ch = chars_of(h);
    let cp = chars_of(p);
    contains_chars(&ch, &cp)
}

/// Whether `h` begins with `p`.
pub fn str_starts_with(h: &str, p: &str) -> (r: bool)
    ensures
        r == occurs_at(h@, p@, 0),
{
    let ch = chars_of(h);
    let cp = chars_of(p);
    if cp.len() > ch.len() {
        return false;
    }
    matches_at(&ch, &cp, 0)
}

/// `h` ends with `p`.
pub open spec fn has_suffix(h: Seq<char>, p: Seq<char>) -> bool {
    p.len() <= h.len() && occurs_at(h, p, h.len() - p.len())
}

/// Whether `h` ends with `p`.
pub fn str_ends_with(h: &str, p: &str) -> (r: bool)
    ensures
        r == has_suffix(h@, p@),
{
    let ch = chars_of(h);
    let cp = chars_of(p);
    if cp.len() > ch.len() {
        return false;
    }
    matches_at(&ch, &cp, ch.len() - cp.len())
}

/// A string holding the given characters.
pub fn string_from_chars(cs: &Vec<char>) -> (r: String)
    ensures
        r@ == cs@,
{
    let mut out = String::new();
    let mut i: usize = 0;
    while i < cs.len()
        invariant
            i <= cs@.len(),
            out@ == cs@.subrange(0, i as int),
        decreases cs.len() - i,
    {
        out.push(cs[i]);
        i = i + 1;
        proof {
            assert(out@ =~= cs@.subrange(0, i as int));
        }
    }
    proof {
        assert(out@ =~= cs@);
    }
    out
}

/// `s` cut at every `d`, left to right: the pieces between separators, always at
/// least one piece (`""` gives `[""]`, `"a."` gives `["a", ""]`).
pub open spec fn split_on(s: Seq<char>, d: char) -> Seq<Seq<char>>
    decreases s.len(),
{
    if s.len() == 0 {
        seq![Seq::<char>::empty()]
    } else {
        let p = split_on(s.drop_last(), d);
        if s.last() == d {
            p.push(Seq::<char>::empty())
        } else {
            p.update(p.len() - 1, p.last().push(s.last()))
        }
    }
}

pub open spec fn views_of(v: Seq<String>) -> Seq<Seq<char>> {
    v.map_values(|x: String| x@)
}

/// The pieces of `s` between the separator `d` (as `str::split` with a character).
pub fn split_char(s: &str, d: char) -> (r: Vec<String>)
    ensures
        views_of(r@) == split_on(s@, d),
        r@.len() >= 1,
{
    let cs = chars_of(s);
    let mut done: Vec<String> = Vec::new();
    let mut cur = String::new();
    let mut i: usize = 0;
    while i < cs.len()
        invariant
            cs@ == s@,
            i <= cs@.len(),
            views_of(done@).push(cur@) == split_on(cs@.subrange(0, i as int), d),
        decreases cs.len() - i,
    {
        let c = cs[i];
        proof {
            let pre = cs@.subrange(0, i as int + 1);
            assert(pre.drop_last() =~= cs@.subrange(0, i as int));
            assert(pre.last() == c);
        }
        if c == d {
            let ghost before = done@;
            let old_cur = cur;
            done.push(old_cur);
            cur = String::new();
            proof {
                assert(views_of(done@) =~= views_of(before).push(old_cur@));
            }
        } else {
            cur.push(c);
        }
        i = i + 1;
        proof {
            let pre = cs@.subrange(0, i as int);
            let p = split_on(pre.drop_last(), d);
            assert(views_of(done@).push(cur@) =~= split_on(pre, d));
        }
    }
    proof {
        assert(cs@.subrange(0, cs@.len() as int) =~= cs@);
    }
    done.push(cur);
    proof {
        assert(views_of(done@) =~= views_of(done@.drop_last()).push(done@.last()@));
    }
    done
}

/// A colour name in camel case as a file name: an underscore goes before every
/// uppercase character but the first (`BrownDark` becomes `Brown_Dark`).
pub open spec fn snake_case_of(s: Seq<char>) -> Seq<char>
    decreases s.len(),
{
    if s.len() == 0 {
        Seq::<char>::empty()
    } else {
        let p = snake_case_of(s.drop_last());
        if is_uppercase_char(s.last()) && s.len() > 1 {
            p.push('_').push(s.last())
        } else {
            p.push(s.last())
        }
    }
}

/// Convert a camel-case colour name to its file form (`BrownDark` to `Brown_Dark`).
pub fn camel_to_snake_case(s: &str) -> (r: String)
    ensures
        r@ == snake_case_of(s@),
{
    let cs = chars_of(s);
    let mut result = String::new();
    let mut i: usize = 0;
    while i < cs.len()
        invariant
            cs@ == s@,
            i <= cs@.len(),
            result@ == snake_case_of(cs@.subrange(0, i as int)),
        decreases cs.len() - i,
    {
        let c = cs[i];
        if char_is_uppercase(c) && i != 0 {
            result.push('_');
        }
        result.push(c);
        i = i + 1;
        proof {
            let pre = cs@.subrange(0, i as int);
            assert(pre.drop_last() =~= cs@.subrange(0, i as int - 1));
            assert(pre.last() == c);
        }
    }
    proof {
        assert(cs@.subrange(0, cs@.len() as int) =~= cs@);
    }
    result
}

/// Number of bytes that a character takes in UTF-8.
pub open spec fn utf8_width(c: char) -> nat {
    if (c as u32) < 0x80 {
        1
    } else if (c as u32) < 0x800 {
        2
    } else if (c as u32) < 0x10000 {
        3
    } else {
        4
    }
}

fn char_utf8_width(c: char) -> (r: usize)
    ensures
        r == utf8_width(c),
{
    let v: u32 = c as u32;
    if v < 0x80 {
        1
    } else if v < 0x800 {
        2
    } else if v < 0x10000 {
        3
    } else {
        4
    }
}

/// The state of the initials scan: initials so far, their UTF-8 length, whether
/// the previous character was a lowercase ASCII letter, and whether the scan stopped.
pub struct InitialsScan {
    pub initials: Seq<char>,
    pub bytes: nat,
    pub prev_lower: bool,
    pub stopped: bool,
}

/// One step of the scan over character `c` at position `i`.
pub open spec fn initials_step(st: InitialsScan, i: int, c: char) -> InitialsScan {
    if st.stopped {
        st
    } else {
        let next = if i == 0 {
            InitialsScan {
                initials: st.initials.push(ascii_upper(c)),
                bytes: st.bytes + utf8_width(ascii_upper(c)),
                prev_lower: is_ascii_lower(c),
                stopped: false,
            }
        } else if is_ascii_upper(c) && st.prev_lower && st.bytes < 2 {
            InitialsScan {
                initials: st.initials.push(c),
                bytes: st.bytes + utf8_width(c),
                prev_lower: st.prev_lower,
                stopped: false,
            }
        } else {
            InitialsScan { prev_lower: is_ascii_lower(c), ..st }
        };
        InitialsScan { stopped: next.bytes >= 2, ..next }
    }
}

/// The scan state after the first `k` characters of `s`.
pub open spec fn initials_scan(s: Seq<char>, k: int) -> InitialsScan
    decreases k,
{
    if k <= 0 {
        InitialsScan { initials: Seq::<char>::empty(), bytes: 0, prev_lower: false, stopped: false }
    } else {
        initials_step(initials_scan(s, k - 1), k - 1, s[k - 1])
    }
}

/// Initials of a username: `?` when it is empty; the whole name in ASCII
/// uppercase when it has at most two characters; otherwise its first character
/// (uppercased) followed by the first uppercase letter that comes right after a
/// lowercase one, as long as the initials stay under two bytes.
pub open spec fn initials_of(s: Seq<char>) -> Seq<char> {
    if s.len() == 0 {
        seq!['?']
    } else if s.len() <= 2 {
        s.map_values(|c: char| ascii_upper(c))
    } else {
        initials_scan(s, s.len() as int).initials
    }
}

/// The initials shown on a text avatar ("CherryJimbo" gives "CJ", "james" gives "J").
pub fn extract_initials(username: &str) -> (r: String)
    ensures
        r@ == initials_of(username@),
{
    let chars = chars_of(username);
    if chars.len() == 0 {
        let mut q = String::new();
        q.push('?');
        proof {
            assert(q@ =~= seq!['?']);
        }
        return q;
    }
    if chars.len() <= 2 {
        let mut out = String::new();
        let mut i: usize = 0;
        while i < chars.len()
            invariant
                i <= chars@.len(),
                out@ == chars@.subrange(0, i as int).map_values(|c: char| ascii_upper(c)),
            decreases chars.len() - i,
        {
            let u = to_ascii_upper(chars[i]);
            out.push(u);
            i = i + 1;
            proof {
                assert(out@ =~= chars@.subrange(0, i as int).map_values(|c: char| ascii_upper(c)));
            }
        }
        proof {
            assert(chars@.subrange(0, chars@.len() as int) =~= chars@);
        }
        return out;
    }
    let mut initials = String::new();
    let mut bytes: usize = 0;
    let mut prev_was_lower = false;
    let mut i: usize = 0;
    while i < chars.len()
        invariant
            chars@ == username@,
            chars@.len() > 2,
            i <= chars@.len(),
            bytes <= 8,
            ({
                let st = initials_scan(chars@, i as int);
                &&& initials@ == st.initials
                &&& bytes == st.bytes
                &&& prev_was_lower == st.prev_lower
                &&& !st.stopped
            }),
        decreases chars.len() - i,
    {
        let c = chars[i];
        if i == 0 {
            let u = to_ascii_upper(c);
            initials.push(u);
            bytes = bytes + char_utf8_width(u);
            prev_was_lower = 'a' <= c && c <= 'z';
        } else if 'A' <= c && c <= 'Z' && prev_was_lower && bytes < 2 {
            initials.push(c);
            bytes = bytes + char_utf8_width(c);
        } else {
            prev_was_lower = 'a' <= c && c <= 'z';
        }
        i = i + 1;
        proof {
            assert(initials_scan(chars@, i as int) == initials_step(
                initials_scan(chars@, i as int - 1),
                i as int - 1,
                c,
            ));
        }
        if bytes >= 2 {
            proof {
                lemma_scan_stays(chars@, i as int, chars@.len() as int);
            }
            return initials;
        }
    }
    initials
}

proof fn lemma_scan_stays(s: Seq<char>, k: int, n: int)
    requires
        0 <= k <= n,
        initials_scan(s, k).stopped,
    ensures
        initials_scan(s, n) == initials_scan(s, k),
    decreases n - k,
{
    if k < n {
        lemma_scan_stays(s, k, n - 1);
    }
}

/// The username hash over bytes: `h = h * 31 + b` from `0`, modulo `2^32`.
pub open spec fn hash_bytes(b: Seq<u8>) -> u32
    decreases b.len(),
{
    if b.len() == 0 {
        0
    } else {
        ((hash_bytes(b.drop_last()) as int * 31 + b.last() as int) % 0x1_0000_0000) as u32
    }
}

/// A deterministic hash of a username, case-insensitive: `hash_bytes` over the
/// UTF-8 bytes of its lowercase form.
pub fn hash_username(username: &str) -> (r: u32)
    ensures
        r == hash_bytes(encode_utf8(lowercase_of(username@))),
{
    let lower = to_lowercase(username);
    let bytes = lower.as_str().as_bytes();
    let mut hash: u32 = 0;
    let mut i: usize = 0;
    while i < bytes.len()
        invariant
            bytes@ == encode_utf8(lowercase_of(username@)),
            i <= bytes@.len(),
            hash == hash_bytes(bytes@.subrange(0, i as int)),
        decreases bytes.len() - i,
    {
        let b = bytes[i];
        let wide: u64 = (hash as u64) * 31 + (b as u64);
        hash = (wide % 0x1_0000_0000) as u32;
        i = i + 1;
        proof {
            let pre = bytes@.subrange(0, i as int);
            assert(pre.drop_last() =~= bytes@.subrange(0, i as int - 1));
            assert(pre.last() == b);
        }
    }
    proof {
        assert(bytes@.subrange(0, bytes@.len() as int) =~= bytes@);
    }
    hash
}

/// The 5x7 bitmap font of text avatars: seven rows of five bits (leftmost pixel
/// in bit 4) for each uppercase letter and digit.
pub open spec fn font_glyph(c: char) -> Option<[u8; 7]> {
    match c {
        'A' => Some([14u8, 17u8, 17u8, 31u8, 17u8, 17u8, 17u8]),
        'B' => Some([30u8, 17u8, 30u8, 17u8, 17u8, 17u8, 30u8]),
        'C' => Some([14u8, 17u8, 16u8, 16u8, 16u8, 17u8, 14u8]),
        'D' => Some([30u8, 17u8, 17u8, 17u8, 17u8, 17u8, 30u8]),
        'E' => Some([31u8, 16u8, 30u8, 16u8, 16u8, 16u8, 31u8]),
        'F' => Some([31u8, 16u8, 30u8, 16u8, 16u8, 16u8, 16u8]),
        'G' => Some([14u8, 17u8, 16u8, 23u8, 17u8, 17u8, 14u8]),
        'H' => Some([17u8, 17u8, 31u8, 17u8, 17u8, 17u8, 17u8]),
        'I' => Some([14u8, 4u8, 4u8, 4u8, 4u8, 4u8, 14u8]),
        'J' => Some([7u8, 2u8, 2u8, 2u8, 2u8, 18u8, 12u8]),
        'K' => Some([17u8, 18u8, 28u8, 18u8, 17u8, 17u8, 17u8]),
        'L' => Some([16u8, 16u8, 16u8, 16u8, 16u8, 16u8, 31u8]),
        'M' => Some([17u8, 27u8, 21u8, 21u8, 17u8, 17u8, 17u8]),
        'N' => Some([17u8, 25u8, 21u8, 19u8, 17u8, 17u8, 17u8]),
        'O' => Some([14u8, 17u8, 17u8, 17u8, 17u8, 17u8, 14u8]),
        'P' => Some([30u8, 17u8, 17u8, 30u8, 16u8, 16u8, 16u8]),
        'Q' => Some([14u8, 17u8, 17u8, 17u8, 21u8, 18u8, 13u8]),
        'R' => Some([30u8, 17u8, 17u8, 30u8, 20u8, 18u8, 17u8]),
        'S' => Some([14u8, 17u8, 16u8, 14u8, 1u8, 17u8, 14u8]),
        'T' => Some([31u8, 4u8, 4u8, 4u8, 4u8, 4u8, 4u8]),
        'U' => Some([17u8, 17u8, 17u8, 17u8, 17u8, 17u8, 14u8]),
        'V' => Some([17u8, 17u8, 17u8, 17u8, 17u8, 10u8, 4u8]),
        'W' => Some([17u8, 17u8, 17u8, 21u8, 21u8, 21u8, 10u8]),
        'X' => Some([17u8, 17u8, 10u8, 4u8, 10u8, 17u8, 17u8]),
        'Y' => Some([17u8, 17u8, 10u8, 4u8, 4u8, 4u8, 4u8]),
        'Z' => Some([31u8, 1u8, 2u8, 4u8, 8u8, 16u8, 31u8]),
        '0' => Some([14u8, 17u8, 19u8, 21u8, 25u8, 17u8, 14u8]),
        '1' => Some([4u8, 12u8, 4u8, 4u8, 4u8, 4u8, 14u8]),
        '2' => Some([14u8, 17u8, 1u8, 6u8, 8u8, 16u8, 31u8]),
        '3' => Some([14u8, 17u8, 1u8, 6u8, 1u8, 17u8, 14u8]),
        '4' => Some([2u8, 6u8, 10u8, 18u8, 31u8, 2u8, 2u8]),
        '5' => Some([31u8, 16u8, 30u8, 1u8, 1u8, 17u8, 14u8]),
        '6' => Some([6u8, 8u8, 16u8, 30u8, 17u8, 17u8, 14u8]),
        '7' => Some([31u8, 1u8, 2u8, 4u8, 8u8, 8u8, 8u8]),
        '8' => Some([14u8, 17u8, 17u8, 14u8, 17u8, 17u8, 14u8]),
        '9' => Some([14u8, 17u8, 17u8, 15u8, 1u8, 2u8, 12u8]),
        _ => None,
    }
}

/// The glyph of a character, looked up case-insensitively; `None` for
/// characters the font lacks.
pub fn get_char_data(c: char) -> (r: Option<[u8; 7]>)
    ensures
        r == font_glyph(ascii_upper(c)),
{
    let upper = to_ascii_upper(c);
    match upper {
        'A' => Some([14u8, 17u8, 17u8, 31u8, 17u8, 17u8, 17u8]),
        'B' => Some([30u8, 17u8, 30u8, 17u8, 17u8, 17u8, 30u8]),
        'C' => Some([14u8, 17u8, 16u8, 16u8, 16u8, 17u8, 14u8]),
        'D' => Some([30u8, 17u8, 17u8, 17u8, 17u8, 17u8, 30u8]),
        'E' => Some([31u8, 16u8, 30u8, 16u8, 16u8, 16u8, 31u8]),
        'F' => Some([31u8, 16u8, 30u8, 16u8, 16u8, 16u8, 16u8]),
        'G' => Some([14u8, 17u8, 16u8, 23u8, 17u8, 17u8, 14u8]),
        'H' => Some([17u8, 17u8, 31u8, 17u8, 17u8, 17u8, 17u8]),
        'I' => Some([14u8, 4u8, 4u8, 4u8, 4u8, 4u8, 14u8]),
        'J' => Some([7u8, 2u8, 2u8, 2u8, 2u8, 18u8, 12u8]),
        'K' => Some([17u8, 18u8, 28u8, 18u8, 17u8, 17u8, 17u8]),
        'L' => Some([16u8, 16u8, 16u8, 16u8, 16u8, 16u8, 31u8]),
        'M' => Some([17u8, 27u8, 21u8, 21u8, 17u8, 17u8, 17u8]),
        'N' => Some([17u8, 25u8, 21u8, 19u8, 17u8, 17u8, 17u8]),
        'O' => Some([14u8, 17u8, 17u8, 17u8, 17u8, 17u8, 14u8]),
        'P' => Some([30u8, 17u8, 17u8, 30u8, 16u8, 16u8, 16u8]),
        'Q' => Some([14u8, 17u8, 17u8, 17u8, 21u8, 18u8, 13u8]),
        'R' => Some([30u8, 17u8, 17u8, 30u8, 20u8, 18u8, 17u8]),
        'S' => Some([14u8, 17u8, 16u8, 14u8, 1u8, 17u8, 14u8]),
        'T' => Some([31u8, 4u8, 4u8, 4u8, 4u8, 4u8, 4u8]),
        'U' => Some([17u8, 17u8, 17u8, 17u8, 17u8, 17u8, 14u8]),
        'V' => Some([17u8, 17u8, 17u8, 17u8, 17u8, 10u8, 4u8]),
        'W' => Some([17u8, 17u8, 17u8, 21u8, 21u8, 21u8, 10u8]),
        'X' => Some([17u8, 17u8, 10u8, 4u8, 10u8, 17u8, 17u8]),
        'Y' => Some([17u8, 17u8, 10u8, 4u8, 4u8, 4u8, 4u8]),
        'Z' => Some([31u8, 1u8, 2u8, 4u8, 8u8, 16u8, 31u8]),
        '0' => Some([14u8, 17u8, 19u8, 21u8, 25u8, 17u8, 14u8]),
        '1' => Some([4u8, 12u8, 4u8, 4u8, 4u8, 4u8, 14u8]),
        '2' => Some([14u8, 17u8, 1u8, 6u8, 8u8, 16u8, 31u8]),
        '3' => Some([14u8, 17u8, 1u8, 6u8, 1u8, 17u8, 14u8]),
        '4' => Some([2u8, 6u8, 10u8, 18u8, 31u8, 2u8, 2u8]),
        '5' => Some([31u8, 16u8, 30u8, 1u8, 1u8, 17u8, 14u8]),
        '6' => Some([6u8, 8u8, 16u8, 30u8, 17u8, 17u8, 14u8]),
        '7' => Some([31u8, 1u8, 2u8, 4u8, 8u8, 8u8, 8u8]),
        '8' => Some([14u8, 17u8, 17u8, 14u8, 17u8, 17u8, 14u8]),
        '9' => Some([14u8, 17u8, 17u8, 15u8, 1u8, 2u8, 12u8]),
        _ => None,
    }
}

} // verus!
