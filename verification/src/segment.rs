use vstd::prelude::*;
use vstd::string::*;

verus! {

/// The whitespace classification used by the segmenter: exactly the Unicode
/// `White_Space` code points, the same set that the standard library's
/// per-character whitespace test recognises.
pub open spec fn whitespace(c: char) -> bool {
    let u = c as int;
    ||| u == 0x20
    ||| 0x09 <= u <= 0x0D
    ||| u == 0x85
    ||| u == 0xA0
    ||| u == 0x1680
    ||| 0x2000 <= u <= 0x200A
    ||| u == 0x2028
    ||| u == 0x2029
    ||| u == 0x202F
    ||| u == 0x205F
    ||| u == 0x3000
}

/// Decides the `whitespace` classification for one character.
pub fn is_whitespace(c: char) -> (b: bool)
    ensures
        b == whitespace(c),
{
    let u = c as u32;
    u == 0x20 || (0x09 <= u && u <= 0x0D) || u == 0x85 || u == 0xA0 || u == 0x1680 || (0x2000 <= u
        && u <= 0x200A) || u == 0x2028 || u == 0x2029 || u == 0x202F || u == 0x205F || u == 0x3000
}

/// One unit of segmentation output: a maximal run of non-whitespace
/// characters (`Word`) or of whitespace characters (`Whitespace`), borrowed
/// from the segmented string. A part is valid only as long as that string
/// lives; nothing is copied.
#[derive(Debug, PartialEq)]
pub enum Part<'a> {
    Word(&'a str),
    Whitespace(&'a str),
}

impl<'a> Part<'a> {
    /// The characters of this part's span.
    pub open spec fn text(self) -> Seq<char> {
        match self {
            Part::Word(s) => s@,
            Part::Whitespace(s) => s@,
        }
    }

    /// Whether this part is a run of non-whitespace characters.
    pub open spec fn is_word(self) -> bool {
        self is Word
    }

    /// A part is well formed when its span is non-empty and every one of its
    /// characters matches the part's tag.
    pub open spec fn wf(self) -> bool {
        &&& self.text().len() >= 1
        &&& forall|j: int|
            0 <= j < self.text().len() ==> whitespace(#[trigger] self.text()[j]) == !self.is_word()
    }

    /// The span of this part, as it was taken from the segmented string.
    pub fn get_string(&self) -> (r: &'a str)
        ensures
            r@ == self.text(),
    {
        match self {
            Part::Word(s) => *s,
            Part::Whitespace(s) => *s,
        }
    }
}

/// The concatenation of the spans of `parts`, in order.
pub open spec fn parts_text<'a>(parts: Seq<Part<'a>>) -> Seq<char>
    decreases parts.len(),
{
    if parts.len() == 0 {
        Seq::empty()
    } else {
        parts_text(parts.drop_last()) + parts.last().text()
    }
}

/// No two adjacent parts of `parts` share a tag.
pub open spec fn alternating<'a>(parts: Seq<Part<'a>>) -> bool {
    forall|k: int|
        0 <= k && k + 1 < parts.len() ==> (#[trigger] parts[k]).is_word() != parts[k + 1].is_word()
}

proof fn lemma_parts_text_push<'a>(parts: Seq<Part<'a>>, p: Part<'a>)
    ensures
        parts_text(parts.push(p)) == parts_text(parts) + p.text(),
{
    assert(parts.push(p).drop_last() =~= parts);
    assert(parts.push(p).last() == p);
}

proof fn lemma_alternating_push<'a>(parts: Seq<Part<'a>>, p: Part<'a>)
    requires
        alternating(parts),
        parts.len() > 0 ==> parts.last().is_word() != p.is_word(),
    ensures
        alternating(parts.push(p)),
{
    assert forall|k: int| 0 <= k && k + 1 < parts.push(p).len() implies (#[trigger] parts.push(
        p,
    )[k]).is_word() != parts.push(p)[k + 1].is_word() by {
        if k + 1 < parts.len() {
            assert(parts.push(p)[k] == parts[k]);
            assert(parts.push(p)[k + 1] == parts[k + 1]);
            assert(parts[k].is_word() != parts[k + 1].is_word());
        } else {
            assert(parts.push(p)[k] == parts[k]);
            assert(parts[k] == parts.last());
            assert(parts.push(p)[k + 1] == p);
        }
    }
}

/// Splits `s` into its maximal runs of whitespace and of non-whitespace
/// characters, left to right. The parts cover `s` exactly, every part is
/// non-empty and uniformly classified, and adjacent parts alternate between
/// the two tags; the result is empty exactly when `s` is.
pub fn to_parts<'a>(s: &'a str) -> (parts: Vec<Part<'a>>)
    ensures
        parts_text(parts@) == s@,
        parts@.len() == 0 <==> s@.len() == 0,
        forall|k: int| 0 <= k < parts@.len() ==> (#[trigger] parts@[k]).wf(),
        alternating(parts@),
{
    let mut parts: Vec<Part<'a>> = Vec::new();
    let n: usize = s.unicode_len();
    if n == 0 {
        proof {
            assert(s@ =~= Seq::<char>::empty());
        }
        return parts;
    }
    let mut beg: usize = 0;
    let mut prev_white = is_whitespace(s.get_char(0));
    let mut i: usize = 1;
    while i < n
        invariant
            1 <= i <= n,
            beg < i,
            n == s@.len(),
            parts_text(parts@) == s@.subrange(0, beg as int),
            parts@.len() == 0 <==> beg == 0,
            forall|k: int| 0 <= k < parts@.len() ==> (#[trigger] parts@[k]).wf(),
            alternating(parts@),
            parts@.len() > 0 ==> parts@.last().is_word() == prev_white,
            forall|j: int| beg <= j < i ==> whitespace(#[trigger] s@[j]) == prev_white,
        decreases n - i,
    {
        let c = s.get_char(i);
        let cur_white = is_whitespace(c);
        if cur_white != prev_white {
            let sub = s.substring_char(beg, i);
            let part = if prev_white {
                Part::Whitespace(sub)
            } else {
                Part::Word(sub)
            };
            proof {
                lemma_parts_text_push(parts@, part);
                lemma_alternating_push(parts@, part);
                assert(s@.subrange(0, beg as int) + s@.subrange(beg as int, i as int) =~= s@
                    .subrange(0, i as int));
            }
            parts.push(part);
            beg = i;
            prev_white = cur_white;
        }
        i = i + 1;
    }
    let sub = s.substring_char(beg, n);
    let part = if prev_white {
        Part::Whitespace(sub)
    } else {
        Part::Word(sub)
    };
    proof {
        lemma_parts_text_push(parts@, part);
        lemma_alternating_push(parts@, part);
        assert(s@.subrange(0, beg as int) + s@.subrange(beg as int, n as int) =~= s@.subrange(
            0,
            n as int,
        ));
        assert(s@.subrange(0, n as int) =~= s@);
    }
    parts.push(part);
    parts
}

} // verus!
