use vstd::prelude::*;

use crate::text::{chars_of, contains_chars, contains_seq};

verus! {

// ---------------------------------------------------------------------------
// Choosing the desktop file of an application installed under a prefix.
// ---------------------------------------------------------------------------

/// Whether `s` ends with `suffix`.
pub open spec fn has_suffix(s: Seq<char>, suffix: Seq<char>) -> bool {
    suffix.len() <= s.len() && s.skip(s.len() - suffix.len()) == suffix
}

/// The number of bytes of a character in UTF-8.
pub open spec fn utf8_width(c: char) -> nat {
    if (c as u32) < 0x80 {
        1
    } else if (c as u32) < 0x800 {
        2
    } else if (c as u32) < 0x10000 {
        3
    } else {
        4
    }
}

/// The number of bytes of a text in UTF-8.
pub open spec fn utf8_len(s: Seq<char>) -> nat
    decreases s.len(),
{
    if s.len() == 0 {
        0
    } else {
        utf8_len(s.drop_last()) + utf8_width(s.last())
    }
}

/// The stems of desktop files as plain values (`None` for a stem that is not text).
pub open spec fn stems_view(v: Seq<Option<String>>) -> Seq<Option<Seq<char>>> {
    v.map_values(|o: Option<String>| match o {
        Some(s) => Some(s@),
        None => None,
    })
}

/// Texts as plain values.
pub open spec fn texts_view(v: Seq<String>) -> Seq<Seq<char>> {
    v.map_values(|s: String| s@)
}

/// Whether the stem is one of the candidate names.
pub open spec fn stem_is_candidate(stem: Option<Seq<char>>, cands: Seq<Seq<char>>) -> bool {
    stem matches Some(x) && cands.contains(x)
}

/// Whether the stem ends in a dot and one of the candidate names, as a reverse-DNS name does.
pub open spec fn stem_ends_with_candidate(stem: Option<Seq<char>>, cands: Seq<Seq<char>>) -> bool {
    stem matches Some(x) && exists|i: int| 0 <= i < cands.len() && has_suffix(x, seq!['.'] + #[trigger] cands[i])
}

/// Whether the text contains one of the candidate names.
pub open spec fn mentions_candidate(x: Seq<char>, cands: Seq<Seq<char>>) -> bool {
    exists|i: int| 0 <= i < cands.len() && contains_seq(x, #[trigger] cands[i])
}

/// How unlikely a desktop file is to be the application's main one (lower is likelier):
/// 100, less 50 when its stem contains a candidate name, plus 30 for an underscore (a
/// handler of a file type), plus 10 for a dash, plus the stem's length in bytes. A stem
/// that is not text counts as empty.
pub open spec fn desktop_penalty(stem: Option<Seq<char>>, cands: Seq<Seq<char>>) -> int {
    let x = match stem {
        Some(x) => x,
        None => Seq::empty(),
    };
    100 - (if mentions_candidate(x, cands) { 50int } else { 0int }) + (if x.contains('_') { 30int } else { 0int })
        + (if x.contains('-') { 10int } else { 0int }) + utf8_len(x)
}

/// Whether `k` is the first position whose stem is one of the candidate names.
pub open spec fn first_named(s: Seq<Option<Seq<char>>>, cands: Seq<Seq<char>>, k: int) -> bool {
    &&& 0 <= k < s.len()
    &&& stem_is_candidate(s[k], cands)
    &&& forall|j: int| 0 <= j < k ==> !stem_is_candidate(#[trigger] s[j], cands)
}

/// Whether `k` is the first position whose stem ends in a dot and a candidate name.
pub open spec fn first_suffixed(s: Seq<Option<Seq<char>>>, cands: Seq<Seq<char>>, k: int) -> bool {
    &&& 0 <= k < s.len()
    &&& stem_ends_with_candidate(s[k], cands)
    &&& forall|j: int| 0 <= j < k ==> !stem_ends_with_candidate(#[trigger] s[j], cands)
}

/// Whether `k` is the first position of the lowest penalty.
pub open spec fn first_lowest(s: Seq<Option<Seq<char>>>, cands: Seq<Seq<char>>, k: int) -> bool {
    &&& 0 <= k < s.len()
    &&& forall|j: int| 0 <= j < s.len() ==> desktop_penalty(s[k], cands) <= desktop_penalty(#[trigger] s[j], cands)
    &&& forall|j: int| 0 <= j < k ==> desktop_penalty(#[trigger] s[j], cands) > desktop_penalty(s[k], cands)
}

/// The desktop file chosen among those with the given stems: none when there are none;
/// with candidate names, the first whose stem is one of them, else the first whose stem
/// ends in a dot and one of them; otherwise the first of the lowest penalty.
pub open spec fn chosen_desktop_file(s: Seq<Option<Seq<char>>>, cands: Seq<Seq<char>>, r: Option<int>) -> bool {
    if s.len() == 0 {
        r is None
    } else {
        r matches Some(k) && if cands.len() > 0 && exists|i: int| 0 <= i < s.len() && stem_is_candidate(#[trigger] s[i], cands) {
            first_named(s, cands, k)
        } else if cands.len() > 0 && exists|i: int| 0 <= i < s.len() && stem_ends_with_candidate(#[trigger] s[i], cands) {
            first_suffixed(s, cands, k)
        } else {
            first_lowest(s, cands, k)
        }
    }
}

fn stem_chars(stem: &Option<String>) -> (r: Vec<char>)
    ensures
        r@ == match stem {
            Some(s) => s@,
            None => Seq::<char>::empty(),
        },
{
    match stem {
        Some(s) => chars_of(s.as_str()),
        None => Vec::new(),
    }
}

fn candidate_chars(cands: &Vec<String>) -> (r: Vec<Vec<char>>)
    ensures
        r@.map_values(|v: Vec<char>| v@) == texts_view(cands@),
{
    let mut r: Vec<Vec<char>> = Vec::new();
    let mut i: usize = 0;
    while i < cands.len()
        invariant
            i <= cands@.len(),
            r@.map_values(|v: Vec<char>| v@) == texts_view(cands@).take(i as int),
        decreases cands@.len() - i,
    {
        let ghost prev = r@;
        r.push(chars_of(cands[i].as_str()));
        assert(r@.map_values(|v: Vec<char>| v@) =~= prev.map_values(|v: Vec<char>| v@).push(cands@[i as int]@));
        assert(texts_view(cands@).take(i + 1) =~= texts_view(cands@).take(i as int).push(cands@[i as int]@));
        i = i + 1;
    }
    assert(texts_view(cands@).take(cands@.len() as int) =~= texts_view(cands@));
    r
}

fn same_chars(a: &[char], b: &[char]) -> (r: bool)
    ensures
        r == (a@ == b@),
{
    crate::text::chars_eq(a, b)
}

fn ends_with_chars(s: &[char], suffix: &[char]) -> (r: bool)
    ensures
        r == has_suffix(s@, suffix@),
{
    if suffix.len() > s.len() {
        return false;
    }
    let n = s.len();
    let start = n - suffix.len();
    let mut i: usize = 0;
    while i < suffix.len()
        invariant
            i <= suffix@.len(),
            n == s@.len(),
            start + suffix@.len() == s@.len(),
            forall|j: int| 0 <= j < i ==> s@[start + j] == suffix@[j],
        decreases suffix@.len() - i,
    {
        if s[start + i] != suffix[i] {
            assert(s@.skip(start as int)[i as int] != suffix@[i as int]);
            return false;
        }
        i = i + 1;
    }
    assert(s@.skip(start as int) =~= suffix@);
    true
}

fn has_char(s: &[char], c: char) -> (r: bool)
    ensures
        r == s@.contains(c),
{
    let mut i: usize = 0;
    while i < s.len()
        invariant
            i <= s@.len(),
            forall|j: int| 0 <= j < i ==> s@[j] != c,
        decreases s@.len() - i,
    {
        if s[i] == c {
            assert(s@[i as int] == c);
            return true;
        }
        i = i + 1;
    }
    false
}

fn utf8_length(s: &[char]) -> (n: u128)
    ensures
        n == utf8_len(s@),
        n <= 4 * (usize::MAX as int),
{
    let mut n: u128 = 0;
    let mut i: usize = 0;
    while i < s.len()
        invariant
            i <= s@.len(),
            n == utf8_len(s@.take(i as int)),
            n <= 4 * i,
            i <= usize::MAX,
        decreases s@.len() - i,
    {
        assert(s@.take(i + 1).drop_last() =~= s@.take(i as int));
        let u: u32 = s[i] as u32;
        let w: u128 = if u < 0x80 {
            1
        } else if u < 0x800 {
            2
        } else if u < 0x10000 {
            3
        } else {
            4
        };
        n = n + w;
        i = i + 1;
    }
    assert(s@.take(s@.len() as int) =~= s@);
    n
}

fn is_candidate(x: &[char], cs: &Vec<Vec<char>>, Ghost(cands): Ghost<Seq<Seq<char>>>) -> (r: bool)
    requires
        cs@.map_values(|v: Vec<char>| v@) == cands,
    ensures
        r == cands.contains(x@),
{
    let mut i: usize = 0;
    while i < cs.len()
        invariant
            i <= cs@.len(),
            cs@.map_values(|v: Vec<char>| v@) == cands,
            forall|j: int| 0 <= j < i ==> cands[j] != x@,
        decreases cs@.len() - i,
    {
        assert(cands[i as int] == cs@[i as int]@);
        if same_chars(x, cs[i].as_slice()) {
            return true;
        }
        i = i + 1;
    }
    false
}

fn ends_with_candidate(x: &[char], cs: &Vec<Vec<char>>, Ghost(cands): Ghost<Seq<Seq<char>>>) -> (r: bool)
    requires
        cs@.map_values(|v: Vec<char>| v@) == cands,
    ensures
        r == exists|i: int| 0 <= i < cands.len() && has_suffix(x@, seq!['.'] + #[trigger] cands[i]),
{
    let mut i: usize = 0;
    while i < cs.len()
        invariant
            i <= cs@.len(),
            cs@.map_values(|v: Vec<char>| v@) == cands,
            forall|j: int| 0 <= j < i ==> !has_suffix(x@, seq!['.'] + #[trigger] cands[j]),
        decreases cs@.len() - i,
    {
        assert(cands[i as int] == cs@[i as int]@);
        let mut dotted: Vec<char> = Vec::new();
        dotted.push('.');
        let mut k: usize = 0;
        while k < cs[i].len()
            invariant
                i < cs@.len(),
                k <= cs@[i as int]@.len(),
                dotted@ == seq!['.'] + cs@[i as int]@.take(k as int),
            decreases cs@[i as int]@.len() - k,
        {
            dotted.push(cs[i][k]);
            assert(cs@[i as int]@.take(k + 1) =~= cs@[i as int]@.take(k as int).push(cs@[i as int]@[k as int]));
            k = k + 1;
        }
        assert(cs@[i as int]@.take(cs@[i as int]@.len() as int) =~= cs@[i as int]@);
        if ends_with_chars(x, dotted.as_slice()) {
            return true;
        }
        i = i + 1;
    }
    false
}

fn mentions(x: &[char], cs: &Vec<Vec<char>>, Ghost(cands): Ghost<Seq<Seq<char>>>) -> (r: bool)
    requires
        cs@.map_values(|v: Vec<char>| v@) == cands,
    ensures
        r == mentions_candidate(x@, cands),
{
    let mut i: usize = 0;
    while i < cs.len()
        invariant
            i <= cs@.len(),
            cs@.map_values(|v: Vec<char>| v@) == cands,
            forall|j: int| 0 <= j < i ==> !contains_seq(x@, #[trigger] cands[j]),
        decreases cs@.len() - i,
    {
        assert(cands[i as int] == cs@[i as int]@);
        if contains_chars(x, cs[i].as_slice()) {
            return true;
        }
        i = i + 1;
    }
    false
}

fn penalty(stem: &Option<String>, cs: &Vec<Vec<char>>, Ghost(cands): Ghost<Seq<Seq<char>>>) -> (p: u128)
    requires
        cs@.map_values(|v: Vec<char>| v@) == cands,
    ensures
        p == desktop_penalty(match stem {
            Some(s) => Some(s@),
            None => None,
        }, cands),
{
    let x = stem_chars(stem);
    let len = utf8_length(x.as_slice());
    let base: u128 = if mentions(x.as_slice(), cs, Ghost(cands)) { 50 } else { 100 };
    let underscore: u128 = if has_char(x.as_slice(), '_') { 30 } else { 0 };
    let dash: u128 = if has_char(x.as_slice(), '-') { 10 } else { 0 };
    base + underscore + dash + len
}

/// The position of the desktop file to use among those found under an application's
/// prefix, given their stems (`None` for one that is not text) and the names the
/// application may go by.
pub fn choose_desktop_file(stems: &Vec<Option<String>>, candidates: &Vec<String>) -> (r: Option<usize>)
    ensures
        chosen_desktop_file(stems_view(stems@), texts_view(candidates@), match r {
            Some(k) => Some(k as int),
            None => None,
        }),
{
    let ghost s = stems_view(stems@);
    let ghost cands = texts_view(candidates@);
    let n = stems.len();
    if n == 0 {
        return None;
    }
    let cs = candidate_chars(candidates);
    if cs.len() > 0 {
        let mut i: usize = 0;
        while i < n
            invariant
                i <= n,
                n == stems@.len(),
                s == stems_view(stems@),
                cands == texts_view(candidates@),
                cs@.map_values(|v: Vec<char>| v@) == cands,
                forall|j: int| 0 <= j < i ==> !stem_is_candidate(#[trigger] s[j], cands),
            decreases n - i,
        {
            let hit = match &stems[i] {
                Some(x) => {
                    let xc = chars_of(x.as_str());
                    is_candidate(xc.as_slice(), &cs, Ghost(cands))
                },
                None => false,
            };
            if hit {
                assert(stem_is_candidate(s[i as int], cands));
                assert(cands.len() > 0);
                assert(first_named(s, cands, i as int));
                return Some(i);
            }
            i = i + 1;
        }
        assert(!exists|i: int| 0 <= i < s.len() && stem_is_candidate(#[trigger] s[i], cands));
        let mut i: usize = 0;
        while i < n
            invariant
                i <= n,
                n == stems@.len(),
                s == stems_view(stems@),
                cands == texts_view(candidates@),
                cs@.map_values(|v: Vec<char>| v@) == cands,
                forall|j: int| 0 <= j < i ==> !stem_ends_with_candidate(#[trigger] s[j], cands),
                !exists|j: int| 0 <= j < s.len() && stem_is_candidate(#[trigger] s[j], cands),
            decreases n - i,
        {
            let hit = match &stems[i] {
                Some(x) => {
                    let xc = chars_of(x.as_str());
                    ends_with_candidate(xc.as_slice(), &cs, Ghost(cands))
                },
                None => false,
            };
            if hit {
                assert(stem_ends_with_candidate(s[i as int], cands));
                assert(cands.len() > 0);
                assert(first_suffixed(s, cands, i as int));
                return Some(i);
            }
            i = i + 1;
        }
        assert(!exists|i: int| 0 <= i < s.len() && stem_ends_with_candidate(#[trigger] s[i], cands));
    }
    let mut best: usize = 0;
    let mut best_p = penalty(&stems[0], &cs, Ghost(cands));
    let mut i: usize = 1;
    while i < n
        invariant
            1 <= i <= n,
            n == stems@.len(),
            s == stems_view(stems@),
            cs@.map_values(|v: Vec<char>| v@) == cands,
            best < i,
            best_p == desktop_penalty(s[best as int], cands),
            forall|j: int| 0 <= j < i ==> desktop_penalty(s[best as int], cands) <= desktop_penalty(#[trigger] s[j], cands),
            forall|j: int| 0 <= j < best ==> desktop_penalty(#[trigger] s[j], cands) > desktop_penalty(s[best as int], cands),
        decreases n - i,
    {
        let p = penalty(&stems[i], &cs, Ghost(cands));
        if p < best_p {
            best = i;
            best_p = p;
        }
        i = i + 1;
    }
    Some(best)
}

// ---------------------------------------------------------------------------
// Recognising Xwayland clients.
// ---------------------------------------------------------------------------

/// The ASCII lower-case form of a byte.
pub open spec fn ascii_lower_byte(b: u8) -> u8 {
    if 65 <= b <= 90 { (b + 32) as u8 } else { b }
}

/// Whether the bytes contain `xwayland` in any ASCII case.
pub open spec fn mentions_xwayland(s: Seq<u8>) -> bool {
    let lower = s.map_values(|b: u8| ascii_lower_byte(b));
    exists|i: int| 0 <= i && i + 8 <= lower.len() && #[trigger] lower.subrange(i, i + 8) == "xwayland"@.map_values(|c: char| c as u8)
}

/// The arguments read so far and the argument being read, after the bytes `s` of a
/// command line whose arguments end in NUL bytes.
pub open spec fn args_state(s: Seq<u8>) -> (Seq<Seq<u8>>, Seq<u8>)
    decreases s.len(),
{
    if s.len() == 0 {
        (Seq::empty(), Seq::empty())
    } else {
        let (done, cur) = args_state(s.drop_last());
        if s.last() == 0 {
            (if cur.len() > 0 { done.push(cur) } else { done }, Seq::empty())
        } else {
            (done, cur.push(s.last()))
        }
    }
}

/// The nonempty arguments of a command line, the runs of bytes between NUL bytes.
pub open spec fn cmdline_args_spec(s: Seq<u8>) -> Seq<Seq<u8>> {
    let (done, cur) = args_state(s);
    if cur.len() > 0 { done.push(cur) } else { done }
}

/// The nonempty arguments of a process's command line as the kernel gives it.
pub fn cmdline_args(cmdline: &[u8]) -> (r: Vec<Vec<u8>>)
    ensures
        r@.map_values(|a: Vec<u8>| a@) == cmdline_args_spec(cmdline@),
{
    let mut done: Vec<Vec<u8>> = Vec::new();
    let mut cur: Vec<u8> = Vec::new();
    let mut i: usize = 0;
    while i < cmdline.len()
        invariant
            i <= cmdline@.len(),
            (done@.map_values(|a: Vec<u8>| a@), cur@) == args_state(cmdline@.take(i as int)),
        decreases cmdline@.len() - i,
    {
        assert(cmdline@.take(i + 1).drop_last() =~= cmdline@.take(i as int));
        let b = cmdline[i];
        let ghost before = done@.map_values(|a: Vec<u8>| a@);
        if b == 0 {
            if cur.len() > 0 {
                let ghost c = cur@;
                let mut next: Vec<u8> = Vec::new();
                std::mem::swap(&mut next, &mut cur);
                done.push(next);
                assert(done@.map_values(|a: Vec<u8>| a@) =~= before.push(c));
            }
        } else {
            cur.push(b);
        }
        i = i + 1;
    }
    assert(cmdline@.take(cmdline@.len() as int) =~= cmdline@);
    if cur.len() > 0 {
        let ghost before = done@.map_values(|a: Vec<u8>| a@);
        let ghost c = cur@;
        done.push(cur);
        assert(done@.map_values(|a: Vec<u8>| a@) =~= before.push(c));
    }
    done
}

fn lower_byte(b: u8) -> (r: u8)
    ensures
        r == ascii_lower_byte(b),
{
    if 65 <= b && b <= 90 { b + 32 } else { b }
}

fn bytes_mention_xwayland(s: &[u8]) -> (r: bool)
    ensures
        r == mentions_xwayland(s@),
{
    let ghost lower = s@.map_values(|b: u8| ascii_lower_byte(b));
    let needle: [u8; 8] = [120, 119, 97, 121, 108, 97, 110, 100];
    proof {
        reveal_strlit("xwayland");
        assert(needle@ =~= "xwayland"@.map_values(|c: char| c as u8));
    }
    if s.len() < 8 {
        return false;
    }
    let n = s.len();
    let last = n - 8;
    let mut i: usize = 0;
    loop
        invariant
            n == s@.len(),
            last + 8 == s@.len(),
            i <= last,
            lower == s@.map_values(|b: u8| ascii_lower_byte(b)),
            needle@ == "xwayland"@.map_values(|c: char| c as u8),
            forall|j: int| 0 <= j < i ==> #[trigger] lower.subrange(j, j + 8) != needle@,
        decreases last - i,
    {
        let mut k: usize = 0;
        let mut same = true;
        while k < 8
            invariant
                k <= 8,
                i <= last,
                n == s@.len(),
                last + 8 == s@.len(),
                lower == s@.map_values(|b: u8| ascii_lower_byte(b)),
                same == forall|j: int| 0 <= j < k ==> lower[i + j] == needle@[j],
            decreases 8 - k,
        {
            if lower_byte(s[i + k]) != needle[k] {
                same = false;
            }
            k = k + 1;
        }
        if same {
            assert(lower.subrange(i as int, i + 8) =~= needle@);
            return true;
        }
        proof {
            let j0 = choose|j: int| 0 <= j < 8 && lower[i + j] != needle@[j];
            assert(lower.subrange(i as int, i + 8)[j0] == lower[i + j0]);
        }
        if i == last {
            return false;
        }
        i = i + 1;
    }
}

/// Whether a process is an Xwayland client: its executable's path or one of its arguments
/// mentions `xwayland` in any ASCII case.
pub fn is_xwayland(exe: &[u8], args: &Vec<Vec<u8>>) -> (r: bool)
    ensures
        r == (mentions_xwayland(exe@) || exists|k: int| 0 <= k < args@.len() && mentions_xwayland(#[trigger] args@[k]@)),
{
    if bytes_mention_xwayland(exe) {
        return true;
    }
    let mut k: usize = 0;
    while k < args.len()
        invariant
            k <= args@.len(),
            forall|j: int| 0 <= j < k ==> !mentions_xwayland(#[trigger] args@[j]@),
        decreases args@.len() - k,
    {
        if bytes_mention_xwayland(args[k].as_slice()) {
            return true;
        }
        k = k + 1;
    }
    false
}

} // verus!
