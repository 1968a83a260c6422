use vstd::prelude::*;

verus! {

/// An RGBA color with 8-bit channels.
#[derive(Clone, Copy, PartialEq, Eq, Structural, Debug)]
pub struct Color {
    pub red: u8,
    pub green: u8,
    pub blue: u8,
    pub alpha: u8,
}

/// `c * a / 255` with rounding, in 8-bit fixed point.
pub open spec fn premultiply(c: u8, a: u8) -> u8 {
    let p = (c as u32 * a as u32 + 128) as u32;
    (((p + (p >> 8u32)) as u32) >> 8u32) as u8
}

/// Returns `c * a / 255`, rounding any fractional bits.
pub fn multiply_a8(c: u8, a: u8) -> (r: u8)
    ensures
        r == premultiply(c, a),
{
    let c32: u32 = c as u32;
    let a32: u32 = a as u32;
    assert(c32 * a32 <= 65025) by (nonlinear_arith)
        requires
            c32 <= 255,
            a32 <= 255,
    ;
    let prod: u32 = c32 * a32 + 128;
    assert(prod + (prod >> 8) <= 65535 && ((prod + (prod >> 8)) as u32) >> 8 <= 255) by (bit_vector)
        requires
            prod <= 65153,
    ;
    ((prod + (prod >> 8)) >> 8) as u8
}

/// Premultiplying by full opacity keeps a channel, by zero clears it, and
/// 255 against half opacity gives 128.
pub proof fn lemma_premultiply_identities(x: u8)
    ensures
        premultiply(255, 128) == 128,
        premultiply(0, x) == 0,
        premultiply(x, 255) == x,
{
    assert(premultiply(255, 128) == 128) by (bit_vector);
    assert(premultiply(0, x) == 0) by (bit_vector);
    assert(premultiply(x, 255) == x) by (bit_vector);
}

/// Position of the first entry equal to `c` in `s`, or `s.len()` when there is none.
pub open spec fn first_index(s: Seq<Color>, c: Color) -> nat
    decreases s.len(),
{
    if s.len() == 0 {
        0
    } else if s[0] == c {
        0
    } else {
        1 + first_index(s.drop_first(), c)
    }
}

/// The palette after registering `c`: unchanged when `c` is present, else `c` appended.
pub open spec fn palette_push(s: Seq<Color>, c: Color) -> Seq<Color> {
    if first_index(s, c) == s.len() {
        s.push(c)
    } else {
        s
    }
}

/// The palette built by registering each color of `cs` in turn, from empty.
pub open spec fn palette_of(cs: Seq<Color>) -> Seq<Color>
    decreases cs.len(),
{
    if cs.len() == 0 {
        Seq::empty()
    } else {
        palette_push(palette_of(cs.drop_last()), cs.last())
    }
}

/// The index handed out for the `i`-th color of `cs`, registered after those before it.
pub open spec fn index_at(cs: Seq<Color>, i: int) -> nat {
    first_index(palette_of(cs.take(i)), cs[i])
}

pub proof fn lemma_first_index_bounds(s: Seq<Color>, c: Color)
    ensures
        first_index(s, c) <= s.len(),
        first_index(s, c) < s.len() ==> s[first_index(s, c) as int] == c,
        forall|j: int| 0 <= j < first_index(s, c) ==> s[j] != c,
    decreases s.len(),
{
    if s.len() > 0 && s[0] != c {
        lemma_first_index_bounds(s.drop_first(), c);
        assert forall|j: int| 0 <= j < first_index(s, c) implies s[j] != c by {
            if j > 0 {
                assert(s[j] == s.drop_first()[j - 1]);
            }
        }
    }
}

pub proof fn lemma_first_index_at(s: Seq<Color>, c: Color, i: int)
    requires
        0 <= i <= s.len(),
        i < s.len() ==> s[i] == c,
        forall|j: int| 0 <= j < i ==> s[j] != c,
    ensures
        first_index(s, c) == i,
    decreases s.len(),
{
    if s.len() > 0 && i > 0 {
        lemma_first_index_at(s.drop_first(), c, i - 1);
    }
}

/// Registering more colors keeps what the palette already holds, in place.
proof fn lemma_palette_prefix(cs: Seq<Color>, i: int)
    requires
        0 <= i <= cs.len(),
    ensures
        palette_of(cs.take(i)).len() <= palette_of(cs).len(),
        palette_of(cs.take(i)) == palette_of(cs).take(palette_of(cs.take(i)).len() as int),
    decreases cs.len() - i,
{
    if i < cs.len() {
        lemma_palette_prefix(cs, i + 1);
        let p = palette_of(cs.take(i));
        assert(cs.take(i + 1).drop_last() == cs.take(i));
        assert(cs.take(i + 1).last() == cs[i]);
        let q = palette_of(cs.take(i + 1));
        assert(p == q.take(p.len() as int));
    } else {
        assert(cs.take(i) == cs);
    }
}

/// The first index of a color already present does not change when entries follow it.
proof fn lemma_first_index_prefix(s: Seq<Color>, n: int, c: Color)
    requires
        0 <= n <= s.len(),
        first_index(s.take(n), c) < n,
    ensures
        first_index(s, c) == first_index(s.take(n), c),
{
    let k = first_index(s.take(n), c) as int;
    lemma_first_index_bounds(s.take(n), c);
    assert forall|j: int| 0 <= j < k implies s[j] != c by {
        assert(s[j] == s.take(n)[j]);
    }
    assert(s[k] == s.take(n)[k]);
    lemma_first_index_at(s, c, k);
}

/// After registering a color, it is present at the index that registration returned.
proof fn lemma_push_contains(s: Seq<Color>, c: Color)
    ensures
        first_index(s, c) < palette_push(s, c).len(),
        palette_push(s, c)[first_index(s, c) as int] == c,
        first_index(palette_push(s, c), c) == first_index(s, c),
{
    lemma_first_index_bounds(s, c);
    let p = palette_push(s, c);
    let k = first_index(s, c) as int;
    assert forall|j: int| 0 <= j < k implies p[j] != c by {}
    lemma_first_index_at(p, c, k);
}

/// Registering the same color twice hands out the same index both times.
pub proof fn lemma_same_color_same_index(cs: Seq<Color>, i: int, j: int)
    requires
        0 <= i < j < cs.len(),
        cs[i] == cs[j],
    ensures
        index_at(cs, i) == index_at(cs, j),
{
    let c = cs[i];
    let pi = palette_of(cs.take(i));
    assert(cs.take(i + 1).drop_last() == cs.take(i));
    assert(cs.take(i + 1).last() == c);
    lemma_push_contains(pi, c);
    let q = palette_of(cs.take(i + 1));
    let pj = palette_of(cs.take(j));
    let cj = cs.take(j);
    assert(cj.take(i + 1) == cs.take(i + 1));
    lemma_palette_prefix(cj, i + 1);
    lemma_first_index_prefix(pj, q.len() as int, c);
}

/// Registering pairwise distinct colors hands out `0, 1, 2, ...` in order, and the
/// palette is the colors themselves.
pub proof fn lemma_distinct_colors_in_order(cs: Seq<Color>)
    requires
        cs.no_duplicates(),
    ensures
        palette_of(cs) == cs,
        forall|i: int| 0 <= i < cs.len() ==> index_at(cs, i) == i,
    decreases cs.len(),
{
    if cs.len() > 0 {
        let init = cs.drop_last();
        assert(init.no_duplicates());
        lemma_distinct_colors_in_order(init);
        assert forall|j: int| 0 <= j < init.len() implies init[j] != cs.last() by {}
        lemma_first_index_at(init, cs.last(), init.len() as int);
        assert(palette_of(cs) =~= cs);
        assert forall|i: int| 0 <= i < cs.len() implies index_at(cs, i) == i by {
            let t = cs.take(i);
            assert(t.no_duplicates());
            lemma_distinct_colors_in_order(t);
            assert forall|j: int| 0 <= j < i implies t[j] != cs[i] by {}
            lemma_first_index_at(t, cs[i], i);
        }
    }
}

} // verus!
