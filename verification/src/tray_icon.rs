use vstd::prelude::*;

verus! {

/// The size, in pixels, that tray icons are drawn at.
pub const ICON_SIZE: i32 = 24;

/// A pixmap of a tray item as plain values: width, height and ARGB32 pixel bytes.
pub open spec fn pixmap_view(p: (i32, i32, Vec<u8>)) -> (i32, i32, Seq<u8>) {
    (p.0, p.1, p.2@)
}

/// The pixmaps of a tray item as plain values.
pub open spec fn pixmaps_view(v: Seq<(i32, i32, Vec<u8>)>) -> Seq<(i32, i32, Seq<u8>)> {
    v.map_values(|p: (i32, i32, Vec<u8>)| pixmap_view(p))
}

/// How far `a` lies from `b`.
pub open spec fn distance(a: int, b: int) -> int {
    if a >= b { a - b } else { b - a }
}

/// Whether a pixmap can be drawn: a positive size and at least four bytes per pixel.
pub open spec fn pixmap_usable(p: (i32, i32, Seq<u8>)) -> bool {
    p.0 > 0 && p.1 > 0 && p.2.len() >= p.0 * p.1 * 4
}

/// Whether pixmap `a` is strictly nearer the icon size than `b`: by the distance of the
/// widths, then by that of the heights.
pub open spec fn nearer(a: (i32, i32, Seq<u8>), b: (i32, i32, Seq<u8>)) -> bool {
    let (wa, wb) = (distance(a.0 as int, ICON_SIZE as int), distance(b.0 as int, ICON_SIZE as int));
    wa < wb || (wa == wb && distance(a.1 as int, ICON_SIZE as int) < distance(b.1 as int, ICON_SIZE as int))
}

/// Whether `k` is the first usable pixmap of those nearest the icon size.
pub open spec fn best_pixmap(s: Seq<(i32, i32, Seq<u8>)>, k: int) -> bool {
    &&& 0 <= k < s.len()
    &&& pixmap_usable(s[k])
    &&& forall|j: int| 0 <= j < s.len() && pixmap_usable(#[trigger] s[j]) ==> !nearer(s[j], s[k])
    &&& forall|j: int| 0 <= j < k && pixmap_usable(#[trigger] s[j]) ==> nearer(s[k], s[j])
}

/// The first `n` pixels of ARGB32 bytes turned into RGBA bytes, pixel by pixel.
pub open spec fn argb_to_rgba(p: Seq<u8>, n: nat) -> Seq<u8>
    decreases n,
{
    if n == 0 {
        Seq::empty()
    } else {
        let k = 4 * (n - 1);
        argb_to_rgba(p, (n - 1) as nat) + seq![p[k + 1], p[k + 2], p[k + 3], p[k]]
    }
}

fn distance_to_icon_size(x: i32) -> (d: i64)
    ensures
        d == distance(x as int, ICON_SIZE as int),
{
    let x: i64 = x as i64;
    if x >= 24 { x - 24 } else { 24 - x }
}

fn is_nearer(a: &(i32, i32, Vec<u8>), b: &(i32, i32, Vec<u8>)) -> (r: bool)
    ensures
        r == nearer(pixmap_view(*a), pixmap_view(*b)),
{
    let wa = distance_to_icon_size(a.0);
    let wb = distance_to_icon_size(b.0);
    wa < wb || (wa == wb && distance_to_icon_size(a.1) < distance_to_icon_size(b.1))
}

fn is_usable(p: &(i32, i32, Vec<u8>)) -> (r: bool)
    ensures
        r == pixmap_usable(pixmap_view(*p)),
{
    if p.0 <= 0 || p.1 <= 0 {
        return false;
    }
    let w: u128 = p.0 as u128;
    let h: u128 = p.1 as u128;
    assert(w * h <= 0x8000_0000 * 0x8000_0000) by (nonlinear_arith)
        requires
            w <= 0x8000_0000,
            h <= 0x8000_0000,
    ;
    let need = w * h * 4;
    (p.2.len() as u128) >= need
}

/// The pixmap to draw a tray item's icon from, the first usable one of those nearest the
/// icon size, as its width, height and RGBA bytes; none when no pixmap is usable.
pub fn decode_pixmaps(pixmaps: &Vec<(i32, i32, Vec<u8>)>) -> (r: Option<(u32, u32, Vec<u8>)>)
    ensures
        match r {
            None => forall|j: int| 0 <= j < pixmaps@.len() ==> !pixmap_usable(#[trigger] pixmaps_view(pixmaps@)[j]),
            Some(d) => exists|k: int| #[trigger] best_pixmap(pixmaps_view(pixmaps@), k)
                && d.0 == pixmaps_view(pixmaps@)[k].0 && d.1 == pixmaps_view(pixmaps@)[k].1
                && d.2@ == argb_to_rgba(pixmaps_view(pixmaps@)[k].2, (pixmaps_view(pixmaps@)[k].0 * pixmaps_view(pixmaps@)[k].1) as nat),
        },
{
    let ghost s = pixmaps_view(pixmaps@);
    let mut best: Option<usize> = None;
    let mut i: usize = 0;
    while i < pixmaps.len()
        invariant
            i <= pixmaps@.len(),
            s == pixmaps_view(pixmaps@),
            match best {
                None => forall|j: int| 0 <= j < i ==> !pixmap_usable(#[trigger] s[j]),
                Some(k) => k < i && pixmap_usable(s[k as int])
                    && (forall|j: int| 0 <= j < i && pixmap_usable(#[trigger] s[j]) ==> !nearer(s[j], s[k as int]))
                    && (forall|j: int| 0 <= j < k && pixmap_usable(#[trigger] s[j]) ==> nearer(s[k as int], s[j])),
            },
        decreases pixmaps@.len() - i,
    {
        assert(s[i as int] == pixmap_view(pixmaps@[i as int]));
        if is_usable(&pixmaps[i]) {
            match best {
                None => {
                    best = Some(i);
                },
                Some(k) => {
                    assert(s[k as int] == pixmap_view(pixmaps@[k as int]));
                    if is_nearer(&pixmaps[i], &pixmaps[k]) {
                        best = Some(i);
                    }
                },
            }
        }
        i = i + 1;
    }
    match best {
        None => None,
        Some(k) => {
            let p = &pixmaps[k];
            assert(s[k as int] == pixmap_view(pixmaps@[k as int]));
            assert(best_pixmap(s, k as int));
            let w: u128 = p.0 as u128;
            let h: u128 = p.1 as u128;
            assert(w * h <= 0x8000_0000 * 0x8000_0000) by (nonlinear_arith)
                requires
                    w <= 0x8000_0000,
                    h <= 0x8000_0000,
            ;
            let len = p.2.len();
            assert(w * h * 4 <= len);
            let count: usize = (w * h) as usize;
            let mut rgba: Vec<u8> = Vec::new();
            let mut n: usize = 0;
            while n < count
                invariant
                    n <= count,
                    count == p.0 * p.1,
                    len == p.2@.len(),
                    len >= 4 * count,
                    rgba@ == argb_to_rgba(p.2@, n as nat),
                decreases count - n,
            {
                let b = 4 * n;
                rgba.push(p.2[b + 1]);
                rgba.push(p.2[b + 2]);
                rgba.push(p.2[b + 3]);
                rgba.push(p.2[b]);
                n = n + 1;
            }
            Some((p.0 as u32, p.1 as u32, rgba))
        },
    }
}

} // verus!
