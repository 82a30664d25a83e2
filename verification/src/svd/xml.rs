//! The small part of XML that SVD files need: the blocks `<tag ...>content</tag>` of a tag.
use crate::text::{chars_of, occurs_at, string_of, trim, trim_range};
use vstd::prelude::*;

verus! {

/// One `<tag attrs>content</tag>` block: its content and its attribute text, both without
/// surrounding white space.
#[derive(Clone, Debug)]
pub struct TagBlock {
    pub content: String,
    pub attrs: String,
}

/// The first position at or after `pos` where `p` occurs in `x`.
pub open spec fn first_at(x: Seq<char>, p: Seq<char>, pos: int) -> Option<int>
    decreases x.len() - pos,
{
    if pos < 0 || pos + p.len() > x.len() {
        None
    } else if occurs_at(x, p, pos) {
        Some(pos)
    } else if pos >= x.len() {
        None
    } else {
        first_at(x, p, pos + 1)
    }
}

/// The text that opens a `tag` block: `<` and the tag (attributes may follow).
pub open spec fn open_of(tag: Seq<char>) -> Seq<char> {
    seq!['<'] + tag
}

/// The text that closes a `tag` block: `</`, the tag and `>`.
pub open spec fn close_of(tag: Seq<char>) -> Seq<char> {
    seq!['<', '/'] + tag + seq!['>']
}

/// The `(content, attributes)` of the `tag` blocks of `x` from position `pos` on: each starts
/// at the next `<tag`, its attributes end at the next `>`, its content at the next `</tag>`;
/// the scan stops where one of these is missing.
#[verifier::opaque]
pub open spec fn tag_blocks(x: Seq<char>, tag: Seq<char>, pos: int) -> Seq<(Seq<char>, Seq<char>)>
    decreases x.len() - pos,
{
    if pos < 0 || pos > x.len() {
        Seq::empty()
    } else {
        match first_at(x, open_of(tag), pos) {
            None => Seq::empty(),
            Some(s) => {
                let os = s + open_of(tag).len();
                match first_at(x, seq!['>'], os) {
                    None => Seq::empty(),
                    Some(e) => {
                        let cs = e + 1;
                        match first_at(x, close_of(tag), cs) {
                            None => Seq::empty(),
                            Some(ce) => {
                                let next = ce + close_of(tag).len();
                                seq![(trim(x.subrange(cs, ce)), trim(x.subrange(os, e)))] + if pos < next <= x.len() {
                                    tag_blocks(x, tag, next)
                                } else {
                                    Seq::empty()
                                }
                            },
                        }
                    },
                }
            },
        }
    }
}

/// A found position lies at or after the start and leaves room for the pattern.
pub proof fn lemma_first_at_bounds(x: Seq<char>, p: Seq<char>, pos: int)
    ensures
        first_at(x, p, pos) matches Some(i) ==> pos <= i && i + p.len() <= x.len() && occurs_at(x, p, i),
    decreases x.len() - pos,
{
    if !(pos < 0 || pos + p.len() > x.len()) && !occurs_at(x, p, pos) && pos < x.len() {
        lemma_first_at_bounds(x, p, pos + 1);
    }
}

/// The first position at or after `pos` where `p` occurs in `x`.
pub fn find_from(x: &[char], p: &[char], pos: usize) -> (r: Option<usize>)
    ensures
        r matches Some(i) ==> first_at(x@, p@, pos as int) == Some(i as int),
        r is None ==> first_at(x@, p@, pos as int) is None,
{
    let n = x.len();
    let m = p.len();
    if pos > n || m > n - pos {
        return None;
    }
    let mut i: usize = pos;
    while i <= n - m
        invariant
            n == x@.len(),
            m == p@.len(),
            pos <= i <= n - m + 1,
            m <= n - pos,
            first_at(x@, p@, pos as int) == first_at(x@, p@, i as int),
        decreases n - i + 1,
    {
        let mut k: usize = 0;
        let mut hit = true;
        while k < m
            invariant
                n == x@.len(),
                m == p@.len(),
                i + m <= n,
                k <= m,
                hit == (forall|j: int| 0 <= j < k ==> x@[i + j] == p@[j]),
            decreases m - k,
        {
            if x[i + k] != p[k] {
                hit = false;
            }
            k = k + 1;
        }
        if hit {
            assert(x@.subrange(i as int, i + m) =~= p@);
            return Some(i);
        }
        assert(!occurs_at(x@, p@, i as int)) by {
            if occurs_at(x@, p@, i as int) {
                assert forall|j: int| 0 <= j < m implies x@[i + j] == p@[j] by {
                    assert(x@.subrange(i as int, i + m)[j] == x@[i + j]);
                }
            }
        }
        if i == n - m {
            assert(first_at(x@, p@, i + 1) is None);
            return None;
        }
        i = i + 1;
    }
    None
}

/// The bounds `(content start, content end, attributes start, attributes end, next)` of the
/// first `tag` block of `x` at or after `pos`.
fn next_block(x: &[char], open: &[char], close: &[char], pos: usize) -> (r: Option<(usize, usize, usize, usize, usize)>)
    requires
        pos <= x@.len(),
        close@.len() > 0,
    ensures
        match r {
            None => tag_blocks_step(x@, open@, close@, pos as int) is None,
            Some((cs, ce, os, e, next)) => tag_blocks_step(x@, open@, close@, pos as int) == Some(
                (cs as int, ce as int, os as int, e as int, next as int),
            ) && pos < next <= x@.len() && os <= e && e < cs && cs <= ce && ce < next,
        },
{
    let n = x.len();
    let gt: [char; 1] = ['>'];
    let s = match find_from(x, open, pos) {
        Some(s) => s,
        None => return None,
    };
    proof {
        lemma_first_at_bounds(x@, open@, pos as int);
    }
    let os = s + open.len();
    let e = match find_from(x, gt.as_slice(), os) {
        Some(e) => e,
        None => {
            assert(gt@ =~= seq!['>']);
            return None;
        },
    };
    proof {
        assert(gt@ =~= seq!['>']);
        lemma_first_at_bounds(x@, gt@, os as int);
    }
    let cs = e + 1;
    let ce = match find_from(x, close, cs) {
        Some(ce) => ce,
        None => return None,
    };
    proof {
        lemma_first_at_bounds(x@, close@, cs as int);
    }
    Some((cs, ce, os, e, ce + close.len()))
}

/// The bounds of the first block from `pos` (see `next_block`), with explicit open and close
/// texts.
pub open spec fn tag_blocks_step(x: Seq<char>, open: Seq<char>, close: Seq<char>, pos: int) -> Option<
    (int, int, int, int, int),
> {
    match first_at(x, open, pos) {
        None => None,
        Some(s) => {
            let os = s + open.len();
            match first_at(x, seq!['>'], os) {
                None => None,
                Some(e) => {
                    let cs = e + 1;
                    match first_at(x, close, cs) {
                        None => None,
                        Some(ce) => Some((cs, ce, os, e, ce + close.len())),
                    }
                },
            }
        },
    }
}

/// The `tag` blocks of `x` from `pos` on, as `(content, attributes)` character sequences.
fn blocks_of(x: &[char], tag: &[char]) -> (r: Vec<(Vec<char>, Vec<char>)>)
    ensures
        r@.map_values(|b: (Vec<char>, Vec<char>)| (b.0@, b.1@)) == tag_blocks(x@, tag@, 0),
{
    let mut open: Vec<char> = Vec::new();
    open.push('<');
    let mut close: Vec<char> = Vec::new();
    close.push('<');
    close.push('/');
    let mut k: usize = 0;
    while k < tag.len()
        invariant
            k <= tag@.len(),
            open@ == seq!['<'] + tag@.subrange(0, k as int),
            close@ == seq!['<', '/'] + tag@.subrange(0, k as int),
        decreases tag@.len() - k,
    {
        open.push(tag[k]);
        close.push(tag[k]);
        k = k + 1;
        assert(open@ =~= seq!['<'] + tag@.subrange(0, k as int));
        assert(close@ =~= seq!['<', '/'] + tag@.subrange(0, k as int));
    }
    close.push('>');
    assert(tag@.subrange(0, tag@.len() as int) =~= tag@);
    assert(open@ =~= open_of(tag@));
    assert(close@ =~= close_of(tag@));
    reveal(tag_blocks);
    let mut items: Vec<(Vec<char>, Vec<char>)> = Vec::new();
    let mut pos: usize = 0;
    assert(items@.map_values(|b: (Vec<char>, Vec<char>)| (b.0@, b.1@)) =~= Seq::empty());
    loop
        invariant
            pos <= x@.len(),
            open@ == open_of(tag@),
            close@ == close_of(tag@),
            items@.map_values(|b: (Vec<char>, Vec<char>)| (b.0@, b.1@)) + tag_blocks(x@, tag@, pos as int)
                == tag_blocks(x@, tag@, 0),
        decreases x@.len() - pos,
    {
        let ghost before = items@.map_values(|b: (Vec<char>, Vec<char>)| (b.0@, b.1@));
        proof {
            reveal(tag_blocks);
        }
        match next_block(x, open.as_slice(), close.as_slice(), pos) {
            None => {
                assert(tag_blocks(x@, tag@, pos as int) =~= Seq::empty());
                assert(before + Seq::<(Seq<char>, Seq<char>)>::empty() =~= before);
                return items;
            },
            Some((cs, ce, os, e, next)) => {
                let (c0, c1) = trim_range(x, cs, ce);
                let (a0, a1) = trim_range(x, os, e);
                let content = slice_chars(x, c0, c1);
                let attrs = slice_chars(x, a0, a1);
                items.push((content, attrs));
                let ghost item = (trim(x@.subrange(cs as int, ce as int)), trim(x@.subrange(os as int, e as int)));
                assert(tag_blocks(x@, tag@, pos as int) == seq![item] + tag_blocks(x@, tag@, next as int));
                assert(items@.map_values(|b: (Vec<char>, Vec<char>)| (b.0@, b.1@)) =~= before.push(item));
                assert(before.push(item) + tag_blocks(x@, tag@, next as int) =~= before + (seq![item]
                    + tag_blocks(x@, tag@, next as int)));
                pos = next;
            },
        }
    }
}

/// The characters `x[a..b]`.
pub fn slice_chars(x: &[char], a: usize, b: usize) -> (r: Vec<char>)
    requires
        a <= b <= x@.len(),
    ensures
        r@ == x@.subrange(a as int, b as int),
{
    let mut v: Vec<char> = Vec::new();
    let mut i: usize = a;
    while i < b
        invariant
            a <= i <= b,
            b <= x@.len(),
            v@ == x@.subrange(a as int, i as int),
        decreases b - i,
    {
        v.push(x[i]);
        i = i + 1;
        assert(v@ =~= x@.subrange(a as int, i as int));
    }
    v
}

/// Every `tag` block of `xml`, with its attributes.
pub fn collect_tag_blocks_with_attrs(xml: &str, tag: &str) -> (r: Vec<TagBlock>)
    ensures
        r@.map_values(|b: TagBlock| (b.content@, b.attrs@)) == tag_blocks(xml@, tag@, 0),
{
    let x = chars_of(xml);
    let t = chars_of(tag);
    let blocks = blocks_of(x.as_slice(), t.as_slice());
    let ghost spec_blocks = blocks@.map_values(|b: (Vec<char>, Vec<char>)| (b.0@, b.1@));
    let mut out: Vec<TagBlock> = Vec::new();
    let mut i: usize = 0;
    while i < blocks.len()
        invariant
            i <= blocks@.len(),
            spec_blocks == blocks@.map_values(|b: (Vec<char>, Vec<char>)| (b.0@, b.1@)),
            out@.map_values(|b: TagBlock| (b.content@, b.attrs@)) == spec_blocks.subrange(0, i as int),
        decreases blocks@.len() - i,
    {
        let content = string_of(blocks[i].0.as_slice());
        let attrs = string_of(blocks[i].1.as_slice());
        assert(spec_blocks[i as int] == (content@, attrs@));
        let ghost old_out = out@;
        let tb = TagBlock { content, attrs };
        out.push(tb);
        proof {
            assert(out@ == old_out.push(tb));
            assert(out@.map_values(|b: TagBlock| (b.content@, b.attrs@)) =~= old_out.map_values(
                |b: TagBlock| (b.content@, b.attrs@),
            ).push((tb.content@, tb.attrs@)));
            assert(spec_blocks.subrange(0, i + 1) =~= spec_blocks.subrange(0, i as int).push(spec_blocks[i as int]));
        }
        i = i + 1;
    }
    assert(spec_blocks.subrange(0, i as int) =~= spec_blocks);
    out
}

/// The contents of every `tag` block of `xml`.
pub fn collect_tag_blocks(xml: &str, tag: &str) -> (r: Vec<String>)
    ensures
        r@.map_values(|s: String| s@) == tag_blocks(xml@, tag@, 0).map_values(|b: (Seq<char>, Seq<char>)| b.0),
{
    let blocks = collect_tag_blocks_with_attrs(xml, tag);
    let mut out: Vec<String> = Vec::new();
    let mut i: usize = 0;
    while i < blocks.len()
        invariant
            i <= blocks@.len(),
            blocks@.map_values(|b: TagBlock| (b.content@, b.attrs@)) == tag_blocks(xml@, tag@, 0),
            out@.map_values(|s: String| s@) == blocks@.subrange(0, i as int).map_values(|b: TagBlock| b.content@),
        decreases blocks@.len() - i,
    {
        let c = blocks[i].content.clone();
        assert(c@ == blocks@[i as int].content@);
        let ghost old_out = out@;
        out.push(c);
        proof {
            assert(out@.map_values(|s: String| s@) =~= old_out.map_values(|s: String| s@).push(c@));
            assert(blocks@.subrange(0, i + 1).map_values(|b: TagBlock| b.content@) =~= blocks@.subrange(
                0,
                i as int,
            ).map_values(|b: TagBlock| b.content@).push(blocks@[i as int].content@));
        }
        i = i + 1;
    }
    assert(blocks@.subrange(0, i as int) =~= blocks@);
    assert(blocks@.map_values(|b: TagBlock| b.content@) =~= tag_blocks(xml@, tag@, 0).map_values(
        |b: (Seq<char>, Seq<char>)| b.0,
    ));
    out
}

/// The content of the first `tag` block of `xml`, if there is one.
pub open spec fn spec_first_block(xml: Seq<char>, tag: Seq<char>) -> Option<Seq<char>> {
    if tag_blocks(xml, tag, 0).len() > 0 {
        Some(tag_blocks(xml, tag, 0)[0].0)
    } else {
        None
    }
}

/// The content of the first `tag` block of `xml`.
pub fn first_tag_block(xml: &str, tag: &str) -> (r: Option<String>)
    ensures
        match r {
            Some(s) => spec_first_block(xml@, tag@) == Some(s@),
            None => spec_first_block(xml@, tag@) is None,
        },
{
    let blocks = collect_tag_blocks_with_attrs(xml, tag);
    if blocks.len() == 0 {
        return None;
    }
    Some(blocks[0].content.clone())
}

/// The text of the first `tag` element of `xml` (its content).
pub fn first_tag_text(xml: &str, tag: &str) -> (r: Option<String>)
    ensures
        match r {
            Some(s) => spec_first_block(xml@, tag@) == Some(s@),
            None => spec_first_block(xml@, tag@) is None,
        },
{
    first_tag_block(xml, tag)
}

} // verus!
