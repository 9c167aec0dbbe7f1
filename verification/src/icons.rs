use vstd::prelude::*;

use crate::text::{chars_eq, chars_of, has_prefix, string_of};

verus! {

/// The ASCII lower-case form of a character: `A` to `Z` become `a` to `z`, any other
/// character stays.
pub open spec fn ascii_lower_char(c: char) -> char {
    if 'A' <= c <= 'Z' { ((c as u32) + 32) as char } else { c }
}

/// The ASCII lower-case form of a text.
pub open spec fn ascii_lower(s: Seq<char>) -> Seq<char> {
    s.map_values(|c: char| ascii_lower_char(c))
}

/// `s` with every `from` replaced by `to`.
pub open spec fn replace_char(s: Seq<char>, from: char, to: char) -> Seq<char> {
    s.map_values(|c: char| if c == from { to } else { c })
}

/// The part of `s` after its last `.` (all of `s` when it has none).
pub open spec fn last_segment(s: Seq<char>) -> Seq<char>
    decreases s.len(),
{
    if s.len() == 0 {
        s
    } else if s.last() == '.' {
        Seq::empty()
    } else {
        last_segment(s.drop_last()).push(s.last())
    }
}

/// `v` with `x` added at the end, unless `x` is empty or already in `v`.
pub open spec fn push_unique(v: Seq<Seq<char>>, x: Seq<char>) -> Seq<Seq<char>> {
    if x.len() == 0 || v.contains(x) { v } else { v.push(x) }
}

/// The names under which an application's icon is looked for, in order and without
/// repeats: the application id, its ASCII lower-case form, that form with spaces and
/// with underscores turned into dashes, and the last dot-separated segment of the
/// lower-case form when it is not the whole of it. Empty names are left out.
pub open spec fn app_id_candidates_spec(app_id: Seq<char>) -> Seq<Seq<char>> {
    let lower = ascii_lower(app_id);
    let v = push_unique(
        push_unique(
            push_unique(push_unique(Seq::empty(), app_id), lower),
            replace_char(lower, ' ', '-'),
        ),
        replace_char(lower, '_', '-'),
    );
    if last_segment(lower) != lower { push_unique(v, last_segment(lower)) } else { v }
}

fn lower_char(c: char) -> (r: char)
    ensures
        r == ascii_lower_char(c),
{
    if 'A' <= c && c <= 'Z' {
        let b: u8 = c as u8;
        assert(b == c as u32);
        ((b + 32) as char)
    } else {
        c
    }
}

/// The ASCII lower-case form of the characters.
pub fn ascii_lowercase(s: &[char]) -> (r: Vec<char>)
    ensures
        r@ == ascii_lower(s@),
{
    let mut r: Vec<char> = Vec::new();
    let mut i: usize = 0;
    while i < s.len()
        invariant
            i <= s@.len(),
            r@ == ascii_lower(s@.take(i as int)),
        decreases s@.len() - i,
    {
        r.push(lower_char(s[i]));
        assert(ascii_lower(s@.take(i + 1)) =~= ascii_lower(s@.take(i as int)).push(ascii_lower_char(s@[i as int])));
        i = i + 1;
    }
    assert(s@.take(s@.len() as int) == s@);
    r
}

fn replaced(s: &[char], from: char, to: char) -> (r: Vec<char>)
    ensures
        r@ == replace_char(s@, from, to),
{
    let mut r: Vec<char> = Vec::new();
    let mut i: usize = 0;
    while i < s.len()
        invariant
            i <= s@.len(),
            r@ == replace_char(s@.take(i as int), from, to),
        decreases s@.len() - i,
    {
        let c = s[i];
        r.push(if c == from { to } else { c });
        assert(replace_char(s@.take(i + 1), from, to) =~= replace_char(s@.take(i as int), from, to).push(
            if c == from { to } else { c },
        ));
        i = i + 1;
    }
    assert(s@.take(s@.len() as int) == s@);
    r
}

fn after_last_dot(s: &[char]) -> (r: Vec<char>)
    ensures
        r@ == last_segment(s@),
{
    let mut start: usize = 0;
    let mut i: usize = 0;
    while i < s.len()
        invariant
            i <= s@.len(),
            start <= i,
            last_segment(s@.take(i as int)) == s@.subrange(start as int, i as int),
        decreases s@.len() - i,
    {
        assert(s@.take(i + 1).drop_last() == s@.take(i as int));
        if s[i] == '.' {
            start = i + 1;
            assert(s@.subrange(start as int, i + 1) =~= Seq::<char>::empty());
        } else {
            assert(s@.subrange(start as int, i + 1) =~= s@.subrange(start as int, i as int).push(s@[i as int]));
        }
        i = i + 1;
    }
    assert(s@.take(s@.len() as int) == s@);
    let mut r: Vec<char> = Vec::new();
    let mut k: usize = start;
    while k < s.len()
        invariant
            start <= k <= s@.len(),
            r@ == s@.subrange(start as int, k as int),
        decreases s@.len() - k,
    {
        r.push(s[k]);
        assert(s@.subrange(start as int, k + 1) =~= s@.subrange(start as int, k as int).push(s@[k as int]));
        k = k + 1;
    }
    r
}

fn push_candidate(v: &mut Vec<Vec<char>>, x: Vec<char>)
    ensures
        final(v)@.map_values(|c: Vec<char>| c@) == push_unique(old(v)@.map_values(|c: Vec<char>| c@), x@),
{
    let ghost vs = v@.map_values(|c: Vec<char>| c@);
    if x.len() == 0 {
        return;
    }
    let mut i: usize = 0;
    while i < v.len()
        invariant
            i <= v@.len(),
            vs == v@.map_values(|c: Vec<char>| c@),
            forall|j: int| 0 <= j < i ==> vs[j] != x@,
        decreases v@.len() - i,
    {
        if chars_eq(v[i].as_slice(), x.as_slice()) {
            assert(vs[i as int] == x@);
            return;
        }
        i = i + 1;
    }
    assert(!vs.contains(x@));
    v.push(x);
    assert(v@.map_values(|c: Vec<char>| c@) =~= vs.push(x@));
}

/// The names under which the icon of the application `app_id` is looked for.
pub fn app_id_candidates(app_id: &str) -> (r: Vec<String>)
    ensures
        r@.map_values(|s: String| s@) == app_id_candidates_spec(app_id@),
{
    let id = chars_of(app_id);
    let lower = ascii_lowercase(id.as_slice());
    let mut v: Vec<Vec<char>> = Vec::new();
    push_candidate(&mut v, id.clone());
    push_candidate(&mut v, lower.clone());
    push_candidate(&mut v, replaced(lower.as_slice(), ' ', '-'));
    push_candidate(&mut v, replaced(lower.as_slice(), '_', '-'));
    let last = after_last_dot(lower.as_slice());
    if !chars_eq(last.as_slice(), lower.as_slice()) {
        push_candidate(&mut v, last);
    }
    assert(Seq::<Vec<char>>::empty().map_values(|c: Vec<char>| c@) =~= Seq::<Seq<char>>::empty());
    let mut r: Vec<String> = Vec::new();
    let mut i: usize = 0;
    while i < v.len()
        invariant
            i <= v@.len(),
            r@.map_values(|s: String| s@) == v@.map_values(|c: Vec<char>| c@).take(i as int),
        decreases v@.len() - i,
    {
        let ghost prev = r@;
        let st = string_of(v[i].as_slice());
        r.push(st);
        assert(r@.map_values(|s: String| s@) =~= prev.map_values(|s: String| s@).push(v@[i as int]@));
        assert(r@.map_values(|s: String| s@) =~= v@.map_values(|c: Vec<char>| c@).take(i + 1));
        i = i + 1;
    }
    assert(v@.map_values(|c: Vec<char>| c@).take(v@.len() as int) =~= v@.map_values(|c: Vec<char>| c@));
    r
}

/// The desktop file of a desktop entry: the entry itself when it ends in `.desktop`,
/// else the entry with `.desktop` appended.
pub open spec fn desktop_file_name_spec(entry: Seq<char>) -> Seq<char> {
    let suffix = ".desktop"@;
    if suffix.len() <= entry.len() && entry.skip(entry.len() - suffix.len()) == suffix {
        entry
    } else {
        entry + suffix
    }
}

/// The desktop file of a desktop entry.
pub fn desktop_file_name(entry: &str) -> (r: String)
    ensures
        r@ == desktop_file_name_spec(entry@),
{
    let e = chars_of(entry);
    let suffix = chars_of(".desktop");
    let mut ends = false;
    if suffix.len() <= e.len() {
        let start = e.len() - suffix.len();
        let mut tail: Vec<char> = Vec::new();
        let mut k: usize = start;
        while k < e.len()
            invariant
                start <= k <= e@.len(),
                tail@ == e@.subrange(start as int, k as int),
            decreases e@.len() - k,
        {
            tail.push(e[k]);
            assert(e@.subrange(start as int, k + 1) =~= e@.subrange(start as int, k as int).push(e@[k as int]));
            k = k + 1;
        }
        assert(tail@ =~= e@.skip(start as int));
        ends = chars_eq(tail.as_slice(), suffix.as_slice());
    }
    if ends {
        entry.to_owned()
    } else {
        let mut r = entry.to_owned();
        crate::text::push_str(&mut r, ".desktop");
        r
    }
}

/// How an icon name is resolved.
#[derive(Debug, Clone, Copy, PartialEq, Eq, Structural)]
pub enum CandidateKind {
    /// An empty name names nothing.
    Empty,
    /// A name with a `/` is a file.
    File,
    /// Any other name is looked up in the icon theme.
    ThemeIcon,
}

/// How an icon name is resolved.
pub fn candidate_kind(candidate: &str) -> (k: CandidateKind)
    ensures
        k == if candidate@.len() == 0 {
            CandidateKind::Empty
        } else if candidate@.contains('/') {
            CandidateKind::File
        } else {
            CandidateKind::ThemeIcon
        },
{
    let c = chars_of(candidate);
    if c.len() == 0 {
        return CandidateKind::Empty;
    }
    let mut i: usize = 0;
    while i < c.len()
        invariant
            i <= c@.len(),
            forall|j: int| 0 <= j < i ==> c@[j] != '/',
            c@ == candidate@,
        decreases c@.len() - i,
    {
        if c[i] == '/' {
            assert(candidate@[i as int] == '/');
            return CandidateKind::File;
        }
        i = i + 1;
    }
    CandidateKind::ThemeIcon
}

/// An installed application is taken for an application id when its id, its executable's
/// file name or its window class equals the id, ignoring ASCII case.
pub fn fallback_matches(app_id: &str, id: Option<&str>, executable: Option<&str>, wm_class: Option<&str>) -> (r: bool)
    ensures
        r == ((id matches Some(x) && ascii_lower(x@) == ascii_lower(app_id@))
            || (executable matches Some(x) && ascii_lower(x@) == ascii_lower(app_id@))
            || (wm_class matches Some(x) && ascii_lower(x@) == ascii_lower(app_id@))),
{
    let a = chars_of(app_id);
    let needle = ascii_lowercase(a.as_slice());
    let m1 = match id {
        Some(x) => {
            let c = chars_of(x);
            let l = ascii_lowercase(c.as_slice());
            chars_eq(l.as_slice(), needle.as_slice())
        },
        None => false,
    };
    let m2 = match executable {
        Some(x) => {
            let c = chars_of(x);
            let l = ascii_lowercase(c.as_slice());
            chars_eq(l.as_slice(), needle.as_slice())
        },
        None => false,
    };
    let m3 = match wm_class {
        Some(x) => {
            let c = chars_of(x);
            let l = ascii_lowercase(c.as_slice());
            chars_eq(l.as_slice(), needle.as_slice())
        },
        None => false,
    };
    m1 || m2 || m3
}

/// Every candidate name is non-empty and none is listed twice.
pub proof fn lemma_candidates_distinct_nonempty(app_id: Seq<char>)
    ensures
        app_id_candidates_spec(app_id).no_duplicates(),
        forall|i: int| 0 <= i < app_id_candidates_spec(app_id).len()
            ==> #[trigger] app_id_candidates_spec(app_id)[i].len() > 0,
{
    let lower = ascii_lower(app_id);
    let e = Seq::<Seq<char>>::empty();
    let v1 = push_unique(e, app_id);
    let v2 = push_unique(v1, lower);
    let v3 = push_unique(v2, replace_char(lower, ' ', '-'));
    let v4 = push_unique(v3, replace_char(lower, '_', '-'));
    lemma_push_unique_keeps(e, app_id);
    lemma_push_unique_keeps(v1, lower);
    lemma_push_unique_keeps(v2, replace_char(lower, ' ', '-'));
    lemma_push_unique_keeps(v3, replace_char(lower, '_', '-'));
    lemma_push_unique_keeps(v4, last_segment(lower));
}

proof fn lemma_push_unique_keeps(v: Seq<Seq<char>>, x: Seq<char>)
    requires
        v.no_duplicates(),
        forall|i: int| 0 <= i < v.len() ==> #[trigger] v[i].len() > 0,
    ensures
        push_unique(v, x).no_duplicates(),
        forall|i: int| 0 <= i < push_unique(v, x).len() ==> #[trigger] push_unique(v, x)[i].len() > 0,
{
    if !(x.len() == 0 || v.contains(x)) {
        let w = v.push(x);
        assert forall|i: int, j: int| 0 <= i < w.len() && 0 <= j < w.len() && i != j implies w[i] != w[j] by {
            if i == v.len() as int {
                assert(w[j] == v[j]);
            } else if j == v.len() as int {
                assert(w[i] == v[i]);
            }
        }
    }
}

/// A lookup to try, in turn, for a notification's icon.
#[derive(Debug, Clone, PartialEq, Eq)]
pub enum NotificationIconStep {
    /// An icon name or path, looked up in the icon theme.
    Candidate(String),
    /// A desktop entry, whose `Icon` is used.
    DesktopEntry(String),
}

/// A notification icon lookup as plain values: whether it is a desktop entry, and its text.
pub open spec fn step_view(s: NotificationIconStep) -> (bool, Seq<char>) {
    match s {
        NotificationIconStep::Candidate(x) => (false, x@),
        NotificationIconStep::DesktopEntry(x) => (true, x@),
    }
}

/// The lookups for a notification's icon, in order: its app icon and its image as
/// candidates; then, with a desktop entry, that entry's icon and the entry's name as a
/// candidate; then, with an application name, that name in ASCII lower case with spaces
/// turned into dashes.
pub open spec fn notification_icon_steps_spec(app_icon: Seq<char>, image: Seq<char>, desktop_entry: Seq<char>, app_name: Seq<char>) -> Seq<(bool, Seq<char>)> {
    seq![(false, app_icon), (false, image)]
        + (if desktop_entry.len() > 0 { seq![(true, desktop_entry), (false, desktop_entry)] } else { Seq::empty() })
        + (if app_name.len() > 0 { seq![(false, replace_char(ascii_lower(app_name), ' ', '-'))] } else { Seq::empty() })
}

fn push_step(v: &mut Vec<NotificationIconStep>, s: NotificationIconStep)
    ensures
        final(v)@.map_values(|x: NotificationIconStep| step_view(x)) == old(v)@.map_values(|x: NotificationIconStep| step_view(x)).push(step_view(s)),
{
    let ghost before = v@.map_values(|x: NotificationIconStep| step_view(x));
    let ghost sv = step_view(s);
    v.push(s);
    assert(v@.map_values(|x: NotificationIconStep| step_view(x)) =~= before.push(sv));
}

/// The lookups to try, in turn, for the icon of a notification with the given app icon,
/// image, desktop entry and application name.
pub fn notification_icon_steps(app_icon: &str, image: &str, desktop_entry: &str, app_name: &str) -> (r: Vec<NotificationIconStep>)
    ensures
        r@.map_values(|x: NotificationIconStep| step_view(x))
            == notification_icon_steps_spec(app_icon@, image@, desktop_entry@, app_name@),
{
    let mut r: Vec<NotificationIconStep> = Vec::new();
    assert(r@.map_values(|x: NotificationIconStep| step_view(x)) =~= Seq::<(bool, Seq<char>)>::empty());
    push_step(&mut r, NotificationIconStep::Candidate(app_icon.to_owned()));
    push_step(&mut r, NotificationIconStep::Candidate(image.to_owned()));
    let entry = chars_of(desktop_entry);
    if entry.len() > 0 {
        push_step(&mut r, NotificationIconStep::DesktopEntry(desktop_entry.to_owned()));
        push_step(&mut r, NotificationIconStep::Candidate(desktop_entry.to_owned()));
    }
    let name = chars_of(app_name);
    if name.len() > 0 {
        let lower = ascii_lowercase(name.as_slice());
        let dashed = replaced(lower.as_slice(), ' ', '-');
        push_step(&mut r, NotificationIconStep::Candidate(string_of(dashed.as_slice())));
    }
    assert(r@.map_values(|x: NotificationIconStep| step_view(x))
        =~= notification_icon_steps_spec(app_icon@, image@, desktop_entry@, app_name@));
    r
}

} // verus!
