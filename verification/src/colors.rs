//! Colors for the now-playing card: hex notation, the fallback theme, the
//! artwork palette (buckets of pixels ranked by frequency), the seeded
//! generator that lays out the background, and the background mesh markup.
use vstd::prelude::*;
use image::GenericImageView;
use crate::text::{decimal, has_infix, hex_byte, hex_char, push_decimal, push_hex_byte};

verus! {

#[derive(Clone, Copy, Debug, PartialEq, Eq, Hash)]
pub struct Rgb {
    pub r: u8,
    pub g: u8,
    pub b: u8,
}

/// `#rrggbb` in lower-case hex.
pub open spec fn spec_hex(color: Rgb) -> Seq<char> {
    seq!['#'] + hex_byte(color.r) + hex_byte(color.g) + hex_byte(color.b)
}

/// `#rrggbb` notation of `color` (`format!("#{:02x}{:02x}{:02x}", ..)`).
pub fn rgb_to_hex(color: Rgb) -> (res: String)
    ensures
        res@ == spec_hex(color),
{
    let mut s = String::new();
    s.push('#');
    push_hex_byte(&mut s, color.r);
    push_hex_byte(&mut s, color.g);
    push_hex_byte(&mut s, color.b);
    assert(s@ =~= spec_hex(color));
    s
}

/// Background color of the card when there is no usable artwork.
pub const FALLBACK_BG: &'static str = "#121116";

/// Accent color of the progress bar when the artwork gives none.
pub open spec fn fallback_accent() -> Rgb {
    Rgb { r: 245, g: 208, b: 138 }
}

pub fn fallback_accent_color() -> (res: Rgb)
    ensures
        res == fallback_accent(),
{
    Rgb { r: 245, g: 208, b: 138 }
}

/// The three parts of the card's look: gradient definitions, background
/// markup and the accent color of the progress UI.
#[derive(Clone, Debug)]
pub struct SvgTheme {
    pub defs: String,
    pub markup: String,
    pub accent: String,
}

/// `<rect width="W" height="H" fill="#121116"/>`.
pub open spec fn spec_fallback_background(width: u32, height: u32) -> Seq<char> {
    "<rect width=\""@ + decimal(width as nat) + "\" height=\""@ + decimal(height as nat)
        + "\" fill=\""@ + FALLBACK_BG@ + "\"/>"@
}

/// A solid rectangle in the fallback background color.
pub fn fallback_background(width: u32, height: u32) -> (res: String)
    ensures
        res@ == spec_fallback_background(width, height),
{
    let mut s = String::from_str("<rect width=\"");
    push_decimal(&mut s, width as u64);
    s.append("\" height=\"");
    push_decimal(&mut s, height as u64);
    s.append("\" fill=\"");
    s.append(FALLBACK_BG);
    s.append("\"/>");
    s
}

/// The theme used without artwork, or when no palette can be taken from it:
/// no gradient definitions, a solid fallback background and the fallback accent.
pub fn fallback_theme(width: u32, height: u32) -> (res: SvgTheme)
    ensures
        res.defs@ == Seq::<char>::empty(),
        res.markup@ == spec_fallback_background(width, height),
        res.accent@ == spec_hex(fallback_accent()),
{
    SvgTheme {
        defs: String::new(),
        markup: fallback_background(width, height),
        accent: rgb_to_hex(fallback_accent_color()),
    }
}

/// The card's theme: the one derived from the artwork's palette, or the
/// fallback theme when there is no artwork or no palette could be taken.
pub fn theme_or_fallback(styled: Option<SvgTheme>, width: u32, height: u32) -> (res: SvgTheme)
    ensures
        match styled {
            Some(t) => res == t,
            None => res.defs@ == Seq::<char>::empty() && res.markup@
                == spec_fallback_background(width, height) && res.accent@ == spec_hex(
                fallback_accent(),
            ),
        },
{
    match styled {
        Some(t) => t,
        None => fallback_theme(width, height),
    }
}

} // verus!

verus! {

/// One pixel of a decoded thumbnail, with its alpha.
#[derive(Clone, Copy, Debug, PartialEq, Eq)]
pub struct Pixel {
    pub r: u8,
    pub g: u8,
    pub b: u8,
    pub a: u8,
}

/// Number of color buckets: 32 levels per channel.
pub const BUCKET_COUNT: usize = 32768;

/// A pixel takes part in the palette when it is at least half opaque.
pub open spec fn is_opaque(p: Pixel) -> bool {
    p.a >= 128
}

/// Bucket of a pixel: its channels cut to their top five bits, red first
/// (so the number order is the order of the `(r >> 3, g >> 3, b >> 3)` triples).
pub open spec fn bucket_key(p: Pixel) -> int {
    (p.r / 8) as int * 1024 + (p.g / 8) as int * 32 + (p.b / 8) as int
}

/// (hits, red sum, green sum, blue sum) of the opaque pixels of `px` in bucket `k`.
pub open spec fn bucket_stats(px: Seq<Pixel>, k: int) -> (nat, nat, nat, nat)
    decreases px.len(),
{
    if px.len() == 0 {
        (0, 0, 0, 0)
    } else {
        let prev = bucket_stats(px.drop_last(), k);
        let p = px.last();
        if is_opaque(p) && bucket_key(p) == k {
            (prev.0 + 1, prev.1 + p.r as nat, prev.2 + p.g as nat, prev.3 + p.b as nat)
        } else {
            prev
        }
    }
}

pub open spec fn bucket_hits(px: Seq<Pixel>, k: int) -> nat {
    bucket_stats(px, k).0
}

/// Average color of the pixels in bucket `k` (each channel rounded down).
pub open spec fn bucket_color(px: Seq<Pixel>, k: int) -> Rgb {
    let s = bucket_stats(px, k);
    Rgb { r: (s.1 / s.0) as u8, g: (s.2 / s.0) as u8, b: (s.3 / s.0) as u8 }
}

/// Bucket `a` ranks before bucket `b`: more hits, or as many and a smaller key.
pub open spec fn ranks_before(px: Seq<Pixel>, a: int, b: int) -> bool {
    bucket_hits(px, a) > bucket_hits(px, b) || (bucket_hits(px, a) == bucket_hits(px, b) && a
        < b)
}

/// `ranked` lists every non-empty bucket of `px`, most hits first (ties by key).
pub open spec fn is_ranking(px: Seq<Pixel>, ranked: Seq<u32>) -> bool {
    &&& forall|i: int|
        0 <= i < ranked.len() ==> #[trigger] ranked[i] < BUCKET_COUNT && bucket_hits(
            px,
            ranked[i] as int,
        ) > 0
    &&& forall|k: int|
        0 <= k < BUCKET_COUNT && bucket_hits(px, k) > 0 ==> #[trigger] ranked.contains(k as u32)
    &&& forall|i: int, j: int|
        0 <= i < j < ranked.len() ==> ranks_before(px, #[trigger] ranked[i] as int, #[trigger] ranked[j] as int)
}

/// Two colors are too close to both be in the palette: their distance, with
/// channels scaled to 0..1, is below 0.12. For channel differences `dr`, `dg`,
/// `db` that is `dr² + dg² + db² < 936.36`, i.e. `<= 936` for integers.
pub open spec fn too_close(a: Rgb, b: Rgb) -> bool {
    (a.r - b.r) * (a.r - b.r) + (a.g - b.g) * (a.g - b.g) + (a.b - b.b) * (a.b - b.b) <= 936
}

/// One step of the palette selection: once `count` colors are taken nothing
/// changes; a candidate too close to a taken color is
/// skipped; otherwise it is taken.
pub open spec fn palette_step(pal: Seq<Rgb>, c: Rgb, count: nat) -> Seq<Rgb> {
    if pal.len() >= count {
        pal
    } else if exists|i: int| 0 <= i < pal.len() && too_close(#[trigger] pal[i], c) {
        pal
    } else {
        pal.push(c)
    }
}

/// Colors taken from the candidates in order.
pub open spec fn pick_distinct(cands: Seq<Rgb>, count: nat) -> Seq<Rgb>
    decreases cands.len(),
{
    if cands.len() == 0 {
        Seq::empty()
    } else {
        palette_step(pick_distinct(cands.drop_last(), count), cands.last(), count)
    }
}

/// Average colors of the ranked buckets.
pub open spec fn ranked_colors(px: Seq<Pixel>, ranked: Seq<u32>) -> Seq<Rgb> {
    ranked.map_values(|k: u32| bucket_color(px, k as int))
}

/// The palette of `px`: the distinct colors taken from the ranked buckets.
pub open spec fn spec_palette(px: Seq<Pixel>, ranked: Seq<u32>, count: nat) -> Seq<Rgb> {
    pick_distinct(ranked_colors(px, ranked), count)
}

} // verus!

verus! {

proof fn lemma_bucket_sums_bounded(px: Seq<Pixel>, k: int)
    ensures
        bucket_stats(px, k).0 <= px.len(),
        bucket_stats(px, k).1 <= 255 * bucket_stats(px, k).0,
        bucket_stats(px, k).2 <= 255 * bucket_stats(px, k).0,
        bucket_stats(px, k).3 <= 255 * bucket_stats(px, k).0,
    decreases px.len(),
{
    if px.len() > 0 {
        lemma_bucket_sums_bounded(px.drop_last(), k);
    }
}

/// Hits and channel sums of every bucket.
struct BucketTable {
    hits: Vec<u32>,
    sum_r: Vec<u64>,
    sum_g: Vec<u64>,
    sum_b: Vec<u64>,
}

impl BucketTable {
    spec fn matches(&self, px: Seq<Pixel>) -> bool {
        &&& self.hits@.len() == BUCKET_COUNT
        &&& self.sum_r@.len() == BUCKET_COUNT
        &&& self.sum_g@.len() == BUCKET_COUNT
        &&& self.sum_b@.len() == BUCKET_COUNT
        &&& forall|k: int|
            0 <= k < BUCKET_COUNT ==> {
                &&& #[trigger] self.hits@[k] == bucket_stats(px, k).0
                &&& self.sum_r@[k] == bucket_stats(px, k).1
                &&& self.sum_g@[k] == bucket_stats(px, k).2
                &&& self.sum_b@[k] == bucket_stats(px, k).3
            }
    }
}

fn pixel_bucket(p: Pixel) -> (res: usize)
    ensures
        res == bucket_key(p),
        res < BUCKET_COUNT,
{
    ((p.r / 8) as usize) * 1024 + ((p.g / 8) as usize) * 32 + ((p.b / 8) as usize)
}

fn count_buckets(pixels: &Vec<Pixel>) -> (res: BucketTable)
    requires
        pixels@.len() <= u32::MAX,
    ensures
        res.matches(pixels@),
{
    let mut hits: Vec<u32> = Vec::new();
    let mut sum_r: Vec<u64> = Vec::new();
    let mut sum_g: Vec<u64> = Vec::new();
    let mut sum_b: Vec<u64> = Vec::new();
    let mut k: usize = 0;
    while k < BUCKET_COUNT
        invariant
            k <= BUCKET_COUNT,
            hits@.len() == k && sum_r@.len() == k && sum_g@.len() == k && sum_b@.len() == k,
            forall|j: int|
                0 <= j < k ==> #[trigger] hits@[j] == 0 && sum_r@[j] == 0 && sum_g@[j] == 0
                    && sum_b@[j] == 0,
        decreases BUCKET_COUNT - k,
    {
        hits.push(0);
        sum_r.push(0);
        sum_g.push(0);
        sum_b.push(0);
        k = k + 1;
    }
    let mut table = BucketTable { hits, sum_r, sum_g, sum_b };
    assert(pixels@.take(0) =~= Seq::<Pixel>::empty());
    let mut i: usize = 0;
    while i < pixels.len()
        invariant
            i <= pixels@.len(),
            pixels@.len() <= u32::MAX,
            table.matches(pixels@.take(i as int)),
        decreases pixels.len() - i,
    {
        let p = pixels[i];
        let ghost before = pixels@.take(i as int);
        let ghost after = pixels@.take(i + 1);
        assert(after.drop_last() =~= before);
        assert(after.last() == p);
        let ghost old_hits = table.hits@;
        let ghost old_r = table.sum_r@;
        let ghost old_g = table.sum_g@;
        let ghost old_b = table.sum_b@;
        if p.a >= 128 {
            let key: usize = pixel_bucket(p);
            proof {
                lemma_bucket_sums_bounded(before, key as int);
            }
            let h: u32 = table.hits[key];
            let sr: u64 = table.sum_r[key];
            let sg: u64 = table.sum_g[key];
            let sb: u64 = table.sum_b[key];
            table.hits.set(key, h + 1);
            table.sum_r.set(key, sr + p.r as u64);
            table.sum_g.set(key, sg + p.g as u64);
            table.sum_b.set(key, sb + p.b as u64);
        }
        assert forall|k: int| 0 <= k < BUCKET_COUNT implies {
            &&& #[trigger] table.hits@[k] == bucket_stats(after, k).0
            &&& table.sum_r@[k] == bucket_stats(after, k).1
            &&& table.sum_g@[k] == bucket_stats(after, k).2
            &&& table.sum_b@[k] == bucket_stats(after, k).3
        } by {
            assert(old_hits[k] == bucket_stats(before, k).0);
            assert(old_r[k] == bucket_stats(before, k).1);
            assert(old_g[k] == bucket_stats(before, k).2);
            assert(old_b[k] == bucket_stats(before, k).3);
            assert(bucket_stats(after, k) == (if is_opaque(p) && bucket_key(p) == k {
                (bucket_stats(before, k).0 + 1, bucket_stats(before, k).1 + p.r as nat,
                bucket_stats(before, k).2 + p.g as nat, bucket_stats(before, k).3 + p.b as nat)
            } else {
                bucket_stats(before, k)
            }));
        }
        i = i + 1;
    }
    assert(pixels@.take(pixels@.len() as int) =~= pixels@);
    table
}

} // verus!

verus! {

fn rank_buckets(table: &BucketTable, Ghost(px): Ghost<Seq<Pixel>>) -> (ranked: Vec<u32>)
    requires
        table.matches(px),
    ensures
        is_ranking(px, ranked@),
{
    let mut ranked: Vec<u32> = Vec::new();
    let mut k: usize = 0;
    while k < BUCKET_COUNT
        invariant
            table.matches(px),
            k <= BUCKET_COUNT,
            forall|i: int|
                0 <= i < ranked@.len() ==> #[trigger] ranked@[i] < k && bucket_hits(
                    px,
                    ranked@[i] as int,
                ) > 0,
            forall|kk: int|
                0 <= kk < k && bucket_hits(px, kk) > 0 ==> #[trigger] ranked@.contains(kk as u32),
            forall|i: int, j: int|
                0 <= i < j < ranked@.len() ==> ranks_before(
                    px,
                    #[trigger] ranked@[i] as int,
                    #[trigger] ranked@[j] as int,
                ),
        decreases BUCKET_COUNT - k,
    {
        let h: u32 = table.hits[k];
        assert(h == bucket_hits(px, k as int));
        if h > 0 {
            let mut pos: usize = 0;
            while pos < ranked.len() && table.hits[ranked[pos] as usize] >= h
                invariant
                    table.matches(px),
                    k < BUCKET_COUNT,
                    h == bucket_hits(px, k as int),
                    pos <= ranked@.len(),
                    forall|i: int|
                        0 <= i < ranked@.len() ==> #[trigger] ranked@[i] < k && bucket_hits(
                            px,
                            ranked@[i] as int,
                        ) > 0,
                    forall|i: int|
                        0 <= i < pos ==> bucket_hits(px, #[trigger] ranked@[i] as int) >= h,
                decreases ranked@.len() - pos,
            {
                assert(table.hits@[ranked@[pos as int] as int] == bucket_hits(px, ranked@[pos as int] as int));
                pos = pos + 1;
            }
            if pos < ranked.len() {
                assert(table.hits@[ranked@[pos as int] as int] == bucket_hits(px, ranked@[pos as int] as int));
            }
            let ghost old_ranked = ranked@;
            ranked.insert(pos, k as u32);
            assert(ranked@ == old_ranked.insert(pos as int, k as u32));
            assert forall|i: int| 0 <= i < ranked@.len() implies #[trigger] ranked@[i] < k + 1
                && bucket_hits(px, ranked@[i] as int) > 0 by {
                if i < pos {
                    assert(ranked@[i] == old_ranked[i]);
                } else if i > pos {
                    assert(ranked@[i] == old_ranked[i - 1]);
                }
            }
            assert forall|kk: int| 0 <= kk < k + 1 && bucket_hits(px, kk) > 0 implies #[trigger] ranked@.contains(kk as u32) by {
                if kk == k {
                    assert(ranked@[pos as int] == k as u32);
                } else {
                    assert(old_ranked.contains(kk as u32));
                    let idx = choose|idx: int| 0 <= idx < old_ranked.len() && old_ranked[idx] == kk as u32;
                    if idx < pos {
                        assert(ranked@[idx] == kk as u32);
                    } else {
                        assert(ranked@[idx + 1] == kk as u32);
                    }
                }
            }
            assert forall|i: int, j: int| 0 <= i < j < ranked@.len() implies ranks_before(
                px,
                #[trigger] ranked@[i] as int,
                #[trigger] ranked@[j] as int,
            ) by {
                if j < pos {
                    assert(ranked@[i] == old_ranked[i] && ranked@[j] == old_ranked[j]);
                } else if j == pos {
                    assert(ranked@[i] == old_ranked[i]);
                    assert(bucket_hits(px, old_ranked[i] as int) >= h);
                    assert(old_ranked[i] < k);
                } else if i == pos {
                    assert(ranked@[j] == old_ranked[j - 1]);
                    assert(bucket_hits(px, old_ranked[pos as int] as int) < h);
                    if j - 1 > pos {
                        assert(ranks_before(px, old_ranked[pos as int] as int, old_ranked[j - 1] as int));
                    }
                } else if i < pos {
                    assert(ranked@[i] == old_ranked[i] && ranked@[j] == old_ranked[j - 1]);
                } else {
                    assert(ranked@[i] == old_ranked[i - 1] && ranked@[j] == old_ranked[j - 1]);
                }
            }
        } else {
            assert forall|kk: int| 0 <= kk < k + 1 && bucket_hits(px, kk) > 0 implies #[trigger] ranked@.contains(kk as u32) by {
                if kk < k {
                }
            }
        }
        k = k + 1;
    }
    ranked
}

} // verus!

verus! {

fn too_close_colors(a: Rgb, b: Rgb) -> (res: bool)
    ensures
        res == too_close(a, b),
{
    let dr: i32 = a.r as i32 - b.r as i32;
    let dg: i32 = a.g as i32 - b.g as i32;
    let db: i32 = a.b as i32 - b.b as i32;
    assert(dr * dr <= 65025 && dg * dg <= 65025 && db * db <= 65025) by (nonlinear_arith)
        requires
            -255 <= dr <= 255,
            -255 <= dg <= 255,
            -255 <= db <= 255,
    ;
    assert(dr * dr >= 0 && dg * dg >= 0 && db * db >= 0) by (nonlinear_arith);
    dr * dr + dg * dg + db * db <= 936
}

proof fn lemma_pick_settled(cands: Seq<Rgb>, count: nat, i: int, j: int)
    requires
        0 <= i <= j <= cands.len(),
        pick_distinct(cands.take(i), count).len() >= count,
    ensures
        pick_distinct(cands.take(j), count) == pick_distinct(cands.take(i), count),
    decreases j - i,
{
    if j > i {
        lemma_pick_settled(cands, count, i, j - 1);
        assert(cands.take(j).drop_last() =~= cands.take(j - 1));
    }
}

/// `res` is the palette of `pixels` for `count` colors: `None` when no color
/// can be taken, else the colors taken, in rank order.
pub open spec fn is_palette_of(pixels: Seq<Pixel>, count: nat, res: Option<Vec<Rgb>>) -> bool {
    exists|ranked: Seq<u32>|
        #[trigger] is_ranking(pixels, ranked) && match res {
            Some(p) => p@ == spec_palette(pixels, ranked, count) && p@.len() > 0,
            None => spec_palette(pixels, ranked, count).len() == 0,
        }
}

/// The `count` most frequent distinct colors of the opaque pixels (none, so
/// `None`, when `count` is zero). Pixels are grouped by their top
/// five bits per channel; buckets are taken by decreasing number of pixels
/// (ties by bucket), each as its average color, skipping colors too close to
/// one already taken.
pub fn palette_from_pixels(pixels: &Vec<Pixel>, count: usize) -> (res: Option<Vec<Rgb>>)
    requires
        pixels@.len() <= u32::MAX,
    ensures
        is_palette_of(pixels@, count as nat, res),
        res matches Some(p) ==> p@.len() <= count,
        count == 0 ==> res is None,
        palette_colors(res).len() < count ==> forall|k: int|
            0 <= k < BUCKET_COUNT && bucket_hits(pixels@, k) > 0 ==> covered(
                palette_colors(res),
                #[trigger] bucket_color(pixels@, k),
            ),
{
    let table = count_buckets(pixels);
    let ranked = rank_buckets(&table, Ghost(pixels@));
    let ghost px = pixels@;
    let ghost cands = ranked_colors(px, ranked@);
    let mut palette: Vec<Rgb> = Vec::new();
    let mut i: usize = 0;
    assert(cands.take(0) =~= Seq::<Rgb>::empty());
    while i < ranked.len() && palette.len() < count
        invariant
            table.matches(px),
            is_ranking(px, ranked@),
            cands == ranked_colors(px, ranked@),
            cands.len() == ranked@.len(),
            i <= ranked@.len(),
            palette@ == pick_distinct(cands.take(i as int), count as nat),
            palette@.len() <= count,
        decreases ranked@.len() - i,
    {
        let key: usize = ranked[i] as usize;
        let hits: u32 = table.hits[key];
        proof {
            lemma_bucket_sums_bounded(px, key as int);
        }
        assert(hits > 0);
        let candidate = Rgb {
            r: (table.sum_r[key] / (hits as u64)) as u8,
            g: (table.sum_g[key] / (hits as u64)) as u8,
            b: (table.sum_b[key] / (hits as u64)) as u8,
        };
        assert(table.sum_r[key as int] / (hits as u64) <= 255) by (nonlinear_arith)
            requires table.sum_r[key as int] <= 255 * hits, hits > 0;
        assert(table.sum_g[key as int] / (hits as u64) <= 255) by (nonlinear_arith)
            requires table.sum_g[key as int] <= 255 * hits, hits > 0;
        assert(table.sum_b[key as int] / (hits as u64) <= 255) by (nonlinear_arith)
            requires table.sum_b[key as int] <= 255 * hits, hits > 0;
        assert(candidate == cands[i as int]);
        let mut found = false;
        let mut j: usize = 0;
        while j < palette.len()
            invariant
                j <= palette@.len(),
                found == exists|t: int| 0 <= t < j && too_close(#[trigger] palette@[t], candidate),
            decreases palette@.len() - j,
        {
            if too_close_colors(palette[j], candidate) {
                found = true;
            }
            j = j + 1;
        }
        assert(cands.take(i + 1).drop_last() =~= cands.take(i as int));
        if !found {
            palette.push(candidate);
        }
        i = i + 1;
    }
    proof {
        if i < ranked@.len() {
            lemma_pick_settled(cands, count as nat, i as int, cands.len() as int);
        }
        assert(cands.take(cands.len() as int) =~= cands);
    }
    let res = if palette.len() == 0 {
        None
    } else {
        Some(palette)
    };
    proof {
        lemma_palette_covers_buckets(pixels@, count as nat, res);
    }
    res
}

} // verus!

verus! {

proof fn lemma_ranking_prefix_equal(px: Seq<Pixel>, r1: Seq<u32>, r2: Seq<u32>, n: int)
    requires
        is_ranking(px, r1),
        is_ranking(px, r2),
        0 <= n <= r1.len(),
        n <= r2.len(),
    ensures
        forall|i: int| 0 <= i < n ==> r1[i] == r2[i],
    decreases n,
{
    if n > 0 {
        lemma_ranking_prefix_equal(px, r1, r2, n - 1);
        let i = n - 1;
        let a = r1[i];
        let b = r2[i];
        if a != b {
            assert(bucket_hits(px, a as int) > 0);
            assert(bucket_hits(px, b as int) > 0);
            assert(r2.contains((a as int) as u32));
            assert(r1.contains((b as int) as u32));
            let m2 = choose|m: int| 0 <= m < r2.len() && r2[m] == a;
            let m1 = choose|m: int| 0 <= m < r1.len() && r1[m] == b;
            if m2 < i {
                assert(r1[m2] == r2[m2]);
                assert(ranks_before(px, r1[m2] as int, r1[i] as int));
            } else if m1 < i {
                assert(r2[m1] == r1[m1]);
                assert(ranks_before(px, r2[m1] as int, r2[i] as int));
            } else {
                assert(m2 > i && m1 > i);
                assert(ranks_before(px, r2[i] as int, r2[m2] as int));
                assert(ranks_before(px, r1[i] as int, r1[m1] as int));
            }
        }
    }
}

/// `c` is too close to some color of `pal`.
pub open spec fn covered(pal: Seq<Rgb>, c: Rgb) -> bool {
    exists|i: int| 0 <= i < pal.len() && #[trigger] too_close(pal[i], c)
}

/// The colors of a palette, none when there is no palette.
pub open spec fn palette_colors(res: Option<Vec<Rgb>>) -> Seq<Rgb> {
    match res {
        Some(p) => p@,
        None => Seq::empty(),
    }
}

proof fn lemma_pick_len(cands: Seq<Rgb>, count: nat)
    ensures
        pick_distinct(cands, count).len() <= count,
    decreases cands.len(),
{
    if cands.len() > 0 {
        lemma_pick_len(cands.drop_last(), count);
    }
}

proof fn lemma_pick_covers(cands: Seq<Rgb>, count: nat)
    ensures
        pick_distinct(cands, count).len() < count ==> forall|j: int|
            0 <= j < cands.len() ==> covered(pick_distinct(cands, count), #[trigger] cands[j]),
        forall|i: int|
            0 <= i < pick_distinct(cands, count).len() ==> cands.contains(
                #[trigger] pick_distinct(cands, count)[i],
            ),
    decreases cands.len(),
{
    if cands.len() > 0 {
        let rest = cands.drop_last();
        let c = cands.last();
        lemma_pick_covers(rest, count);
        let prev = pick_distinct(rest, count);
        let cur = pick_distinct(cands, count);
        assert(cur == palette_step(prev, c, count));
        assert(prev.len() <= cur.len());
        assert forall|i: int| 0 <= i < prev.len() implies cur[i] == prev[i] by {
            if cur != prev {
                assert(cur =~= prev.push(c));
            }
        }
        assert forall|i: int| 0 <= i < cur.len() implies cands.contains(#[trigger] cur[i]) by {
            if i < prev.len() {
                assert(rest.contains(prev[i]));
                let j = choose|j: int| 0 <= j < rest.len() && rest[j] == prev[i];
                assert(cands[j] == rest[j]);
            } else {
                assert(cur =~= prev.push(c));
                assert(cands[cands.len() - 1] == c);
            }
        }
        if cur.len() < count {
            assert forall|j: int| 0 <= j < cands.len() implies covered(cur, #[trigger] cands[j]) by {
                if j < rest.len() {
                    assert(cands[j] == rest[j]);
                    assert(covered(prev, rest[j]));
                    let i = choose|i: int| 0 <= i < prev.len() && #[trigger] too_close(prev[i], rest[j]);
                    assert(cur[i] == prev[i]);
                    assert(too_close(cur[i], cands[j]));
                } else {
                    assert(cands[j] == c);
                    if cur == prev {
                        let i = choose|i: int| 0 <= i < prev.len() && #[trigger] too_close(prev[i], c);
                        assert(too_close(cur[i], c));
                    } else {
                        assert(cur =~= prev.push(c));
                        assert(cur[prev.len() as int] == c);
                        assert(too_close(c, c)) by {
                            assert((c.r - c.r) == 0 && (c.g - c.g) == 0 && (c.b - c.b) == 0);
                        }
                        assert(too_close(cur[prev.len() as int], c));
                    }
                }
            }
        }
    }
}

/// What a palette is: each of its colors is the average color of a non-empty
/// bucket of the opaque pixels, no two of them are too close, and when it
/// holds fewer than `count` colors, every non-empty bucket's average color is
/// too close to one of them (the search goes through all buckets, skipping
/// only colors too close to one already taken).
pub proof fn lemma_palette_covers_buckets(px: Seq<Pixel>, count: nat, res: Option<Vec<Rgb>>)
    requires
        is_palette_of(px, count, res),
    ensures
        palette_colors(res).len() <= count,
        forall|i: int|
            0 <= i < palette_colors(res).len() ==> exists|k: int|
                0 <= k < BUCKET_COUNT && bucket_hits(px, k) > 0 && #[trigger] palette_colors(res)[i]
                    == bucket_color(px, k),
        forall|i: int, j: int|
            0 <= i < j < palette_colors(res).len() ==> !too_close(
                #[trigger] palette_colors(res)[i],
                #[trigger] palette_colors(res)[j],
            ),
        palette_colors(res).len() < count ==> forall|k: int|
            0 <= k < BUCKET_COUNT && bucket_hits(px, k) > 0 ==> covered(
                palette_colors(res),
                #[trigger] bucket_color(px, k),
            ),
{
    let ranked = choose|ranked: Seq<u32>| #[trigger] is_ranking(px, ranked) && match res {
        Some(p) => p@ == spec_palette(px, ranked, count) && p@.len() > 0,
        None => spec_palette(px, ranked, count).len() == 0,
    };
    let cands = ranked_colors(px, ranked);
    let pal = pick_distinct(cands, count);
    assert(palette_colors(res) == pal);
    lemma_pick_covers(cands, count);
    lemma_palette_colors_distinct(cands, count);
    lemma_pick_len(cands, count);
    assert forall|i: int| 0 <= i < pal.len() implies exists|k: int|
        0 <= k < BUCKET_COUNT && bucket_hits(px, k) > 0 && #[trigger] pal[i] == bucket_color(px, k) by {
        assert(cands.contains(pal[i]));
        let j = choose|j: int| 0 <= j < cands.len() && cands[j] == pal[i];
        assert(cands[j] == bucket_color(px, ranked[j] as int));
        assert(ranked[j] < BUCKET_COUNT && bucket_hits(px, ranked[j] as int) > 0);
    }
    if pal.len() < count {
        assert forall|k: int| 0 <= k < BUCKET_COUNT && bucket_hits(px, k) > 0 implies covered(
            pal,
            #[trigger] bucket_color(px, k),
        ) by {
            assert(ranked.contains(k as u32));
            let j = choose|j: int| 0 <= j < ranked.len() && ranked[j] == k as u32;
            assert(cands[j] == bucket_color(px, k));
        }
    }
}

/// A ranking of the buckets of `px` is unique.
pub proof fn lemma_ranking_unique(px: Seq<Pixel>, r1: Seq<u32>, r2: Seq<u32>)
    requires
        is_ranking(px, r1),
        is_ranking(px, r2),
    ensures
        r1 == r2,
{
    if r1.len() <= r2.len() {
        lemma_ranking_prefix_equal(px, r1, r2, r1.len() as int);
        if r1.len() < r2.len() {
            let x = r2[r1.len() as int];
            assert(bucket_hits(px, x as int) > 0);
            assert(r1.contains((x as int) as u32));
            let m = choose|m: int| 0 <= m < r1.len() && r1[m] == x;
            assert(r2[m] == x);
            assert(ranks_before(px, r2[m] as int, r2[r1.len() as int] as int));
        }
    } else {
        lemma_ranking_prefix_equal(px, r1, r2, r2.len() as int);
        let x = r1[r2.len() as int];
        assert(bucket_hits(px, x as int) > 0);
        assert(r2.contains((x as int) as u32));
        let m = choose|m: int| 0 <= m < r2.len() && r2[m] == x;
        assert(r1[m] == x);
        assert(ranks_before(px, r1[m] as int, r1[r2.len() as int] as int));
    }
    assert(r1 =~= r2);
}

/// The palette is a function of the pixels: two palettes of the same pixels
/// for the same count are equal.
pub proof fn lemma_palette_deterministic(
    pixels: Seq<Pixel>,
    count: nat,
    a: Option<Vec<Rgb>>,
    b: Option<Vec<Rgb>>,
)
    requires
        is_palette_of(pixels, count, a),
        is_palette_of(pixels, count, b),
    ensures
        a is Some <==> b is Some,
        a is Some ==> a->0@ == b->0@,
{
    let ra = choose|ranked: Seq<u32>|
        #[trigger] is_ranking(pixels, ranked) && match a {
            Some(p) => p@ == spec_palette(pixels, ranked, count) && p@.len() > 0,
            None => spec_palette(pixels, ranked, count).len() == 0,
        };
    let rb = choose|ranked: Seq<u32>|
        #[trigger] is_ranking(pixels, ranked) && match b {
            Some(p) => p@ == spec_palette(pixels, ranked, count) && p@.len() > 0,
            None => spec_palette(pixels, ranked, count).len() == 0,
        };
    lemma_ranking_unique(pixels, ra, rb);
}

/// No two colors of a palette are too close to each other.
pub proof fn lemma_palette_colors_distinct(cands: Seq<Rgb>, count: nat)
    ensures
        forall|i: int, j: int|
            0 <= i < j < pick_distinct(cands, count).len() ==> !too_close(
                #[trigger] pick_distinct(cands, count)[i],
                #[trigger] pick_distinct(cands, count)[j],
            ),
    decreases cands.len(),
{
    if cands.len() > 0 {
        lemma_palette_colors_distinct(cands.drop_last(), count);
        let prev = pick_distinct(cands.drop_last(), count);
        let cur = pick_distinct(cands, count);
        let c = cands.last();
        assert(cur == palette_step(prev, c, count));
        if cur != prev {
            assert(cur =~= prev.push(c));
            assert(!(exists|i: int| 0 <= i < prev.len() && too_close(#[trigger] prev[i], c)));
            assert forall|i: int, j: int| 0 <= i < j < cur.len() implies !too_close(
                #[trigger] cur[i],
                #[trigger] cur[j],
            ) by {
                if j < prev.len() {
                    assert(cur[i] == prev[i] && cur[j] == prev[j]);
                } else {
                    assert(cur[i] == prev[i] && cur[j] == c);
                }
            }
        }
    }
}

} // verus!

verus! {

/// FNV-1a (64 bit) of a byte sequence.
pub open spec fn fnv1a(bytes: Seq<u8>) -> u64
    decreases bytes.len(),
{
    if bytes.len() == 0 {
        0xcbf29ce484222325u64
    } else {
        (((fnv1a(bytes.drop_last()) ^ (bytes.last() as u64)) as nat * 0x100000001b3nat)
            % 0x1_0000_0000_0000_0000nat) as u64
    }
}

/// One xorshift64 step (shifts 13, 7, 17).
pub open spec fn xorshift(s: u64) -> u64 {
    let a = s ^ ((s << 13u64) as u64);
    let b = a ^ (a >> 7u64);
    b ^ ((b << 17u64) as u64)
}

/// Seeded pseudo-random numbers: the same artwork lays out the same background.
pub struct DetRng {
    state: u64,
}

impl View for DetRng {
    type V = u64;

    closed spec fn view(&self) -> u64 {
        self.state
    }
}

impl DetRng {
    /// Seeds the generator with the FNV-1a hash of `bytes`.
    pub fn from_bytes(bytes: &[u8]) -> (res: DetRng)
        ensures
            res@ == fnv1a(bytes@),
    {
        let mut hash: u64 = 0xcbf29ce484222325;
        let mut i: usize = 0;
        assert(bytes@.take(0) =~= Seq::<u8>::empty());
        while i < bytes.len()
            invariant
                i <= bytes@.len(),
                hash == fnv1a(bytes@.take(i as int)),
            decreases bytes.len() - i,
        {
            assert(bytes@.take(i + 1).drop_last() =~= bytes@.take(i as int));
            hash = hash ^ (bytes[i] as u64);
            hash = hash.wrapping_mul(0x100000001b3);
            i = i + 1;
        }
        assert(bytes@.take(bytes.len() as int) =~= bytes@);
        DetRng { state: hash }
    }

    /// Advances the generator and returns the new state.
    pub fn next_u64(&mut self) -> (res: u64)
        ensures
            res == xorshift(old(self)@),
            final(self)@ == res,
    {
        self.state = self.state ^ (self.state << 13u64);
        self.state = self.state ^ (self.state >> 7u64);
        self.state = self.state ^ (self.state << 17u64);
        self.state
    }
}

/// Where one background blob sits: its center and radius as fractions of the
/// card, already written out with four decimals.
#[derive(Clone, Debug)]
pub struct BlobGeometry {
    pub cx: String,
    pub cy: String,
    pub radius: String,
}

/// Number of blobs in the background mesh.
pub const BLOB_COUNT: usize = 7;

/// Radial gradient of one blob, fading its color out from the center.
pub open spec fn spec_blob_gradient(index: nat, g: BlobGeometry, hex: Seq<char>) -> Seq<char> {
    "    <radialGradient id=\""@ + "bg-blob-"@ + decimal(index) + "\" cx=\""@ + g.cx@ + "\" cy=\""@ + g.cy@
        + "\" r=\""@ + g.radius@
        + "\" gradientUnits=\"objectBoundingBox\">\n      <stop offset=\"0%\" stop-color=\""@ + hex
        + "\" stop-opacity=\"0.92\"/>\n      <stop offset=\"45%\" stop-color=\""@ + hex
        + "\" stop-opacity=\"0.38\"/>\n      <stop offset=\"100%\" stop-color=\""@ + hex
        + "\" stop-opacity=\"0\"/>\n    </radialGradient>\n"@
}

/// Rectangle painted with one blob's gradient.
pub open spec fn spec_blob_layer(index: nat, width: u32, height: u32) -> Seq<char> {
    "      <rect width=\""@ + decimal(width as nat) + "\" height=\""@ + decimal(height as nat)
        + "\" fill=\"url(#"@ + "bg-blob-"@ + decimal(index) + ")\"/>"@
}

/// Gradients of the first `n` blobs; blob `i` takes shade `i mod len`.
pub open spec fn spec_blob_gradients(shades: Seq<Rgb>, blobs: Seq<BlobGeometry>, n: nat) -> Seq<char>
    decreases n,
{
    if n == 0 {
        Seq::empty()
    } else {
        spec_blob_gradients(shades, blobs, (n - 1) as nat) + spec_blob_gradient(
            (n - 1) as nat,
            blobs[n - 1],
            spec_hex(shades[(n - 1) % shades.len() as int]),
        )
    }
}

/// Layers of the first `n` blobs.
pub open spec fn spec_blob_layers(n: nat, width: u32, height: u32) -> Seq<char>
    decreases n,
{
    if n == 0 {
        Seq::empty()
    } else {
        spec_blob_layers((n - 1) as nat, width, height) + spec_blob_layer((n - 1) as nat, width, height)
    }
}

/// Gradient definitions of the mesh: the softening blur, then one gradient per blob.
pub open spec fn spec_mesh_defs(shades: Seq<Rgb>, blobs: Seq<BlobGeometry>) -> Seq<char> {
    "    <filter id=\"bg-soften\" x=\"-30%\" y=\"-30%\" width=\"160%\" height=\"160%\">\n      <feGaussianBlur stdDeviation=\"32\"/>\n    </filter>\n"@
        + spec_blob_gradients(shades, blobs, blobs.len())
}

/// Mesh markup: a solid base color under the blurred blob layers.
pub open spec fn spec_mesh_markup(base: Rgb, n: nat, width: u32, height: u32) -> Seq<char> {
    "    <rect width=\""@ + decimal(width as nat) + "\" height=\""@ + decimal(height as nat)
        + "\" fill=\""@ + spec_hex(base) + "\"/>\n    <g filter=\"url(#bg-soften)\">\n"@
        + spec_blob_layers(n, width, height) + "    </g>"@
}

/// Background of a card with artwork: blurred radial blobs in the given
/// shades (blob `i` in shade `i mod len`) over the base color.
#[verifier::rlimit(40)]
pub fn background_mesh(
    shades: &Vec<Rgb>,
    base: Rgb,
    blobs: &Vec<BlobGeometry>,
    width: u32,
    height: u32,
) -> (res: (String, String))
    requires
        shades@.len() > 0,
    ensures
        res.0@ == spec_mesh_defs(shades@, blobs@),
        res.1@ == spec_mesh_markup(base, blobs@.len(), width, height),
{
    let mut gradient_defs = String::new();
    let mut blob_layers = String::new();
    let mut index: usize = 0;
    while index < blobs.len()
        invariant
            index <= blobs@.len(),
            shades@.len() > 0,
            gradient_defs@ == spec_blob_gradients(shades@, blobs@, index as nat),
            blob_layers@ == spec_blob_layers(index as nat, width, height),
        decreases blobs.len() - index,
    {
        let color = shades[index % shades.len()];
        let hex = rgb_to_hex(color);
        let g = &blobs[index];
        gradient_defs.append("    <radialGradient id=\"");
        gradient_defs.append("bg-blob-");
        push_decimal(&mut gradient_defs, index as u64);
        gradient_defs.append("\" cx=\"");
        gradient_defs.append(g.cx.as_str());
        gradient_defs.append("\" cy=\"");
        gradient_defs.append(g.cy.as_str());
        gradient_defs.append("\" r=\"");
        gradient_defs.append(g.radius.as_str());
        gradient_defs.append("\" gradientUnits=\"objectBoundingBox\">\n      <stop offset=\"0%\" stop-color=\"");
        gradient_defs.append(hex.as_str());
        gradient_defs.append("\" stop-opacity=\"0.92\"/>\n      <stop offset=\"45%\" stop-color=\"");
        gradient_defs.append(hex.as_str());
        gradient_defs.append("\" stop-opacity=\"0.38\"/>\n      <stop offset=\"100%\" stop-color=\"");
        gradient_defs.append(hex.as_str());
        gradient_defs.append("\" stop-opacity=\"0\"/>\n    </radialGradient>\n");
        blob_layers.append("      <rect width=\"");
        push_decimal(&mut blob_layers, width as u64);
        blob_layers.append("\" height=\"");
        push_decimal(&mut blob_layers, height as u64);
        blob_layers.append("\" fill=\"url(#");
        blob_layers.append("bg-blob-");
        push_decimal(&mut blob_layers, index as u64);
        blob_layers.append(")\"/>");
        assert(gradient_defs@ =~= spec_blob_gradients(shades@, blobs@, (index + 1) as nat));
        assert(blob_layers@ =~= spec_blob_layers((index + 1) as nat, width, height));
        index = index + 1;
    }
    let mut defs = String::from_str(
        "    <filter id=\"bg-soften\" x=\"-30%\" y=\"-30%\" width=\"160%\" height=\"160%\">\n      <feGaussianBlur stdDeviation=\"32\"/>\n    </filter>\n",
    );
    defs.append(gradient_defs.as_str());
    let mut markup = String::from_str("    <rect width=\"");
    push_decimal(&mut markup, width as u64);
    markup.append("\" height=\"");
    push_decimal(&mut markup, height as u64);
    markup.append("\" fill=\"");
    let base_hex = rgb_to_hex(base);
    markup.append(base_hex.as_str());
    markup.append("\"/>\n    <g filter=\"url(#bg-soften)\">\n");
    markup.append(blob_layers.as_str());
    markup.append("    </g>");
    (defs, markup)
}

/// The rectangle that paints blob `i` over the whole `width`×`height` card.
pub open spec fn blob_layer_markup(i: nat, width: u32, height: u32) -> Seq<char> {
    "      <rect width=\""@ + decimal(width as nat) + "\" height=\""@ + decimal(height as nat)
        + "\" fill=\"url(#bg-blob-"@ + decimal(i) + ")\"/>"@
}

proof fn lemma_blob_layers_contain(n: nat, width: u32, height: u32, i: nat)
    requires
        i < n,
    ensures
        has_infix(spec_blob_layers(n, width, height), blob_layer_markup(i, width, height)),
        i + 1 < n ==> has_infix(
            spec_blob_layers(n, width, height),
            blob_layer_markup(i, width, height) + blob_layer_markup(i + 1, width, height),
        ),
    decreases n,
{
    broadcast use crate::text::group_infix;
    reveal_strlit("bg-blob-");
    reveal_strlit("\" fill=\"url(#");
    reveal_strlit("\" fill=\"url(#bg-blob-");
    assert forall|k: nat| #[trigger] spec_blob_layer(k, width, height) == blob_layer_markup(k, width, height) by {
        assert(spec_blob_layer(k, width, height) =~= blob_layer_markup(k, width, height));
    }
    if i + 1 < n {
        lemma_blob_layers_contain((n - 1) as nat, width, height, i);
        if i + 2 == n {
            let pre = spec_blob_layers(i as nat, width, height);
            assert(spec_blob_layers(n, width, height) == (pre + blob_layer_markup(i, width, height))
                + blob_layer_markup(i + 1, width, height));
        }
    } else {
        assert(spec_blob_layers(n, width, height) == spec_blob_layers(i, width, height)
            + blob_layer_markup(i, width, height));
    }
}

/// The mesh draws every blob: for each blob `i` its layer appears in the
/// markup, and the layers come in order, blob `i + 1` right after blob `i`.
pub proof fn lemma_mesh_draws_every_blob(base: Rgb, n: nat, width: u32, height: u32, i: nat)
    requires
        i < n,
    ensures
        has_infix(spec_mesh_markup(base, n, width, height), blob_layer_markup(i, width, height)),
        i + 1 < n ==> has_infix(
            spec_mesh_markup(base, n, width, height),
            blob_layer_markup(i, width, height) + blob_layer_markup(i + 1, width, height),
        ),
{
    broadcast use crate::text::group_infix;
    lemma_blob_layers_contain(n, width, height, i);
}

/// Every blob of the mesh is painted in one of the given shades: blob `i`
/// uses shade `i mod len`, and nothing else colors the gradients.
pub proof fn lemma_mesh_uses_shades_only(shades: Seq<Rgb>, blobs: Seq<BlobGeometry>, n: nat)
    requires
        shades.len() > 0,
        n <= blobs.len(),
    ensures
        n > 0 ==> exists|k: int|
            0 <= k < shades.len() && spec_blob_gradients(shades, blobs, n) == spec_blob_gradients(
                shades,
                blobs,
                (n - 1) as nat,
            ) + spec_blob_gradient((n - 1) as nat, blobs[n - 1], spec_hex(#[trigger] shades[k])),
{
    if n > 0 {
        let k = (n - 1) % shades.len() as int;
        assert(0 <= k < shades.len());
        assert(spec_blob_gradients(shades, blobs, n) == spec_blob_gradients(shades, blobs, (n - 1) as nat)
            + spec_blob_gradient((n - 1) as nat, blobs[n - 1], spec_hex(shades[k])));
    }
}

} // verus!

verus! {

/// Side of the square thumbnail that the palette is taken from.
pub const THUMBNAIL_SIDE: u32 = 64;

/// Whether `image::load_from_memory` decodes these bytes (it guesses the
/// format from the bytes and decodes them without any other input).
pub uninterp spec fn image_decodes(bytes: Seq<u8>) -> bool;

/// The pixels, row by row, of the picture that `image::load_from_memory`
/// decodes from `bytes`, scaled to `side`×`side` by
/// `DynamicImage::resize_exact` with the triangle filter (both are functions
/// of their inputs alone).
pub uninterp spec fn thumbnail_pixels(bytes: Seq<u8>, side: u32) -> Seq<Pixel>;

/// `image::load_from_memory(bytes)`, then `resize_exact(side, side,
/// FilterType::Triangle)` and `GenericImageView::pixels`, each pixel taken as
/// 8-bit RGBA. Claimed: it succeeds exactly when `image_decodes` holds of the
/// bytes; the pixels are then the name `thumbnail_pixels` of the bytes and
/// the side, and there are `side * side` of them (`resize_exact` returns a
/// picture of exactly that size, and `pixels` visits each pixel once).
#[verifier::external_body]
fn load_thumbnail(bytes: &[u8], side: u32) -> (res: Option<Vec<Pixel>>)
    requires
        side > 0,
    ensures
        res is Some <==> image_decodes(bytes@),
        res matches Some(p) ==> p@ == thumbnail_pixels(bytes@, side) && p@.len() == side * side,
{
    image::load_from_memory(bytes).ok().map(|img| {
        img.resize_exact(side, side, image::imageops::FilterType::Triangle)
            .pixels()
            .map(|(_, _, p)| Pixel { r: p.0[0], g: p.0[1], b: p.0[2], a: p.0[3] })
            .collect()
    })
}

/// Decodes encoded image bytes and scales them to the 64×64 thumbnail whose
/// pixels feed the palette; `None` when the bytes are not an image.
pub fn decode_thumbnail(bytes: &[u8]) -> (res: Option<Vec<Pixel>>)
    ensures
        res is Some <==> image_decodes(bytes@),
        res matches Some(p) ==> p@ == thumbnail_pixels(bytes@, THUMBNAIL_SIDE) && p@.len()
            == THUMBNAIL_SIDE * THUMBNAIL_SIDE,
{
    load_thumbnail(bytes, THUMBNAIL_SIDE)
}

} // verus!

verus! {

proof fn lemma_hex_char_injective(x: int, y: int)
    requires
        0 <= x < 16,
        0 <= y < 16,
        hex_char(x) == hex_char(y),
    ensures
        x == y,
{
    assert(hex_char(x) as int == if x < 10 { x + 48 } else { x + 87 });
    assert(hex_char(y) as int == if y < 10 { y + 48 } else { y + 87 });
}

/// Different colors have different hex notations.
pub proof fn lemma_hex_injective(a: Rgb, b: Rgb)
    requires
        spec_hex(a) == spec_hex(b),
    ensures
        a == b,
{
    let s = spec_hex(a);
    let t = spec_hex(b);
    assert(s =~= seq!['#', hex_char(a.r as int / 16), hex_char(a.r as int % 16), hex_char(a.g as int / 16), hex_char(a.g as int % 16), hex_char(a.b as int / 16), hex_char(a.b as int % 16)]);
    assert(t =~= seq!['#', hex_char(b.r as int / 16), hex_char(b.r as int % 16), hex_char(b.g as int / 16), hex_char(b.g as int % 16), hex_char(b.b as int / 16), hex_char(b.b as int % 16)]);
    assert(s[1] == t[1] && s[2] == t[2] && s[3] == t[3] && s[4] == t[4] && s[5] == t[5] && s[6] == t[6]);
    lemma_hex_char_injective(a.r as int / 16, b.r as int / 16);
    lemma_hex_char_injective(a.r as int % 16, b.r as int % 16);
    lemma_hex_char_injective(a.g as int / 16, b.g as int / 16);
    lemma_hex_char_injective(a.g as int % 16, b.g as int % 16);
    lemma_hex_char_injective(a.b as int / 16, b.b as int / 16);
    lemma_hex_char_injective(a.b as int % 16, b.b as int % 16);
}

} // verus!
