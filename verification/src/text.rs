//! Greedy word-wrap over whitespace-delimited words, and the text element
//! built on it. The wrap operates on the sequence of word pixel lengths and a
//! target pixel width; a word longer than the width is placed at column 0 of
//! its own row rather than split.
use crate::buffer::Buffer;
use crate::element::Element;
use crate::element::Emitted;
use crate::font::Font;
use crate::font::FontType;
use crate::font::ImageFont;
use crate::layout::CalculatedLayout;
use crate::state_tree::State;
use crate::Input;
use vstd::prelude::*;

verus! {

broadcast use vstd::string::axiom_spec_iter, vstd::string::next_postcondition;

/// Where one word goes, given the cursor state: the first word of a row is
/// placed at column 0 unconditionally; otherwise the word starts a new row
/// when it (plus one inter-word space) would reach past the width, and is
/// placed one space further along the row otherwise.
pub open spec fn wrap_place(col: int, row: int, len: int, space: int, width: int) -> (int, int) {
    if col == 0 {
        (0, row)
    } else if col + len + space >= width {
        (0, row + 1)
    } else {
        (col + space, row)
    }
}

/// The cursor state (column, row) after greedily placing all the words.
pub open spec fn wrap_state(lens: Seq<usize>, space: int, width: int) -> (int, int)
    decreases lens.len(),
{
    if lens.len() == 0 {
        (0, 0)
    } else {
        let st = wrap_state(lens.drop_last(), space, width);
        let p = wrap_place(st.0, st.1, lens.last() as int, space, width);
        (p.0 + lens.last(), p.1)
    }
}

/// One `(start column, row)` pair per word, in word order.
pub open spec fn wrap_pairs(lens: Seq<usize>, space: int, width: int) -> Seq<(int, int)>
    decreases lens.len(),
{
    if lens.len() == 0 {
        Seq::empty()
    } else {
        let st = wrap_state(lens.drop_last(), space, width);
        wrap_pairs(lens.drop_last(), space, width).push(
            wrap_place(st.0, st.1, lens.last() as int, space, width),
        )
    }
}

/// Greedy word-wrap of a sequence of word pixel lengths into rows of at most
/// `width` pixels, with `space_width` pixels between words on a row.
pub fn wrap_words(lengths: &Vec<usize>, space_width: usize, width: usize) -> (r: Vec<
    (usize, usize),
>)
    ensures
        r@.len() == lengths@.len(),
        forall|i: int|
            0 <= i < r@.len() ==> ((#[trigger] r@[i]).0 as int, r@[i].1 as int) == wrap_pairs(
                lengths@,
                space_width as int,
                width as int,
            )[i],
{
    let mut r: Vec<(usize, usize)> = Vec::new();
    let mut col: usize = 0;
    let mut row: usize = 0;
    let mut i: usize = 0;
    while i < lengths.len()
        invariant
            0 <= i <= lengths@.len(),
            r@.len() == i,
            row <= i,
            (col as int, row as int) == wrap_state(
                lengths@.take(i as int),
                space_width as int,
                width as int,
            ),
            forall|j: int|
                0 <= j < i ==> ((#[trigger] r@[j]).0 as int, r@[j].1 as int) == wrap_pairs(
                    lengths@,
                    space_width as int,
                    width as int,
                )[j],
        decreases lengths@.len() - i,
    {
        let len = lengths[i];
        proof {
            assert(lengths@.take(i + 1).drop_last() =~= lengths@.take(i as int));
            lemma_wrap_pairs_prefix(lengths@, i as int, space_width as int, width as int);
        }
        let (start, new_row): (usize, usize) = if col == 0 {
            (0, row)
        } else if col.saturating_add(len).saturating_add(space_width) >= width {
            (0, row + 1)
        } else {
            (col + space_width, row)
        };
        r.push((start, new_row));
        col = start + len;
        row = new_row;
        i = i + 1;
    }
    proof {
        assert(lengths@.take(lengths@.len() as int) =~= lengths@);
    }
    r
}

/// The characters of a string, in order.
pub fn chars_of(s: &str) -> (r: Vec<char>)
    ensures
        r@ == s@,
{
    let chars_it = s.chars();
    let mut r: Vec<char> = Vec::new();
    for c in it: chars_it
        invariant
            r@ == it.history(),
            it.seq() == s@,
    {
        r.push(c);
    }
    proof {
        assert(r@ =~= s@);
    }
    r
}

/// The words of a character sequence, split on single spaces: a trailing or
/// doubled space yields an empty word, and the empty sequence holds one empty
/// word, as splitting a string on spaces does.
pub open spec fn words_of(cs: Seq<char>) -> Seq<Seq<char>>
    decreases cs.len(),
{
    if cs.len() == 0 {
        seq![Seq::empty()]
    } else {
        let prev = words_of(cs.drop_last());
        if cs.last() == ' ' {
            prev.push(Seq::empty())
        } else {
            prev.drop_last().push(prev.last().push(cs.last()))
        }
    }
}

/// There is always at least the one (possibly empty) word.
pub proof fn lemma_words_of_len(cs: Seq<char>)
    ensures
        words_of(cs).len() >= 1,
    decreases cs.len(),
{
    if cs.len() > 0 {
        lemma_words_of_len(cs.drop_last());
    }
}

/// Splits a string into its space-delimited words.
pub fn split_words(s: &str) -> (r: Vec<Vec<char>>)
    ensures
        r@.map_values(|w: Vec<char>| w@) == words_of(s@),
{
    let cs = chars_of(s);
    let mut r: Vec<Vec<char>> = Vec::new();
    let mut cur: Vec<char> = Vec::new();
    let mut i: usize = 0;
    while i < cs.len()
        invariant
            cs@ == s@,
            0 <= i <= cs@.len(),
            words_of(s@.take(i as int)) == r@.map_values(|w: Vec<char>| w@).push(cur@),
        decreases cs@.len() - i,
    {
        let c = cs[i];
        proof {
            assert(s@.take(i + 1).drop_last() =~= s@.take(i as int));
            assert(s@.take(i + 1).last() == s@[i as int]);
            lemma_words_of_len(s@.take(i as int));
        }
        if c == ' ' {
            let ghost old_r = r@;
            let ghost old_cur = cur@;
            r.push(cur);
            cur = Vec::new();
            proof {
                assert(r@.map_values(|w: Vec<char>| w@) =~= old_r.map_values(
                    |w: Vec<char>| w@,
                ).push(old_cur));
            }
        } else {
            proof {
                assert(r@.map_values(|w: Vec<char>| w@).push(cur@).drop_last() =~= r@.map_values(
                    |w: Vec<char>| w@,
                ));
            }
            cur.push(c);
        }
        i = i + 1;
    }
    proof {
        assert(s@.take(cs@.len() as int) =~= s@);
        let ghost old_r = r@;
        let ghost old_cur = cur@;
        assert(old_r.push(cur).map_values(|w: Vec<char>| w@) =~= old_r.map_values(
            |w: Vec<char>| w@,
        ).push(old_cur));
    }
    r.push(cur);
    r
}

/// The character count of each word of a string.
pub open spec fn unit_word_lens(cs: Seq<char>) -> Seq<usize> {
    words_of(cs).map_values(|w: Seq<char>| w.len() as usize)
}

/// Word-wraps text at the given width, counting one column per character and
/// one column for the space between two words on a row: one
/// `(start column, row)` pair per word. A word is placed on the current row
/// when it fits strictly within the width; the first word of a row always
/// stays there whole, however long.
pub fn wrap(content: &str, width: usize) -> (r: Vec<(usize, usize)>)
    requires
        width < usize::MAX,
    ensures
        r@.len() == words_of(content@).len(),
        forall|i: int|
            0 <= i < r@.len() ==> ((#[trigger] r@[i]).0 as int, r@[i].1 as int) == wrap_pairs(
                unit_word_lens(content@),
                1,
                width + 1,
            )[i],
{
    let words = split_words(content);
    let mut lens: Vec<usize> = Vec::new();
    let mut i: usize = 0;
    while i < words.len()
        invariant
            words@.map_values(|w: Vec<char>| w@) == words_of(content@),
            0 <= i <= words@.len(),
            lens@ == unit_word_lens(content@).take(i as int),
        decreases words@.len() - i,
    {
        lens.push(words[i].len());
        proof {
            assert(lens@ =~= unit_word_lens(content@).take(i + 1));
        }
        i = i + 1;
    }
    proof {
        assert(lens@ =~= unit_word_lens(content@));
    }
    wrap_words(&lens, 1, width + 1)
}

/// The wrap produces exactly one pair per word.
pub proof fn lemma_wrap_pairs_len(lens: Seq<usize>, space: int, width: int)
    ensures
        wrap_pairs(lens, space, width).len() == lens.len(),
    decreases lens.len(),
{
    if lens.len() > 0 {
        lemma_wrap_pairs_len(lens.drop_last(), space, width);
    }
}

/// The `(column, row)` pairs of the words of a prefix are those of the whole
/// sequence: placing a word never moves the words before it.
proof fn lemma_wrap_pairs_prefix(lens: Seq<usize>, i: int, space: int, width: int)
    requires
        0 <= i < lens.len(),
    ensures
        wrap_pairs(lens.take(i + 1), space, width) == wrap_pairs(lens.take(i), space, width).push(
            {
                let st = wrap_state(lens.take(i), space, width);
                wrap_place(st.0, st.1, lens[i] as int, space, width)
            },
        ),
        wrap_pairs(lens, space, width)[i] == {
            let st = wrap_state(lens.take(i), space, width);
            wrap_place(st.0, st.1, lens[i] as int, space, width)
        },
    decreases lens.len(),
{
    assert(lens.take(i + 1).drop_last() =~= lens.take(i));
    assert(lens.take(i + 1).last() == lens[i]);
    if i + 1 == lens.len() {
        assert(lens.take(i + 1) =~= lens);
        assert(lens.drop_last() =~= lens.take(i));
        lemma_wrap_pairs_len(lens.drop_last(), space, width);
    } else {
        lemma_wrap_pairs_prefix(lens.drop_last(), i, space, width);
        assert(lens.drop_last().take(i + 1) =~= lens.take(i + 1));
        assert(lens.drop_last().take(i) =~= lens.take(i));
        lemma_wrap_pairs_len(lens.drop_last(), space, width);
        assert(wrap_pairs(lens, space, width) == wrap_pairs(lens.drop_last(), space, width).push({
            let st = wrap_state(lens.drop_last(), space, width);
            wrap_place(st.0, st.1, lens.last() as int, space, width)
        }));
        assert(wrap_pairs(lens, space, width)[i] == wrap_pairs(lens.drop_last(), space, width)[i]);
    }
}

/// One word's pixel length: each glyph's advance width plus the
/// inter-character padding, accumulated left to right and clamped at what a
/// pixel count can hold.
pub open spec fn spec_word_px(font: FontType, word: Seq<char>, pad: int) -> int
    decreases word.len(),
{
    if word.len() == 0 {
        0
    } else {
        let rest = spec_word_px(font, word.drop_last(), pad);
        let step = font.spec_glyph_width(word.last()) + pad;
        if rest + step > usize::MAX {
            usize::MAX as int
        } else {
            rest + step
        }
    }
}

/// The pixel length of each word of a text under the given font.
pub open spec fn spec_text_word_lens(font: FontType, cs: Seq<char>, pad: int) -> Seq<usize> {
    words_of(cs).map_values(|w: Seq<char>| spec_word_px(font, w, pad) as usize)
}

/// One word's pixel length under a font: the sum of its glyphs' advance
/// widths, each followed by the inter-character padding.
pub fn word_length(font: &FontType, word: &Vec<char>, character_padding: usize) -> (r: usize)
    ensures
        r as int == spec_word_px(*font, word@, character_padding as int),
{
    let mut total: usize = 0;
    let mut i: usize = 0;
    while i < word.len()
        invariant
            0 <= i <= word@.len(),
            total as int == spec_word_px(*font, word@.take(i as int), character_padding as int),
        decreases word@.len() - i,
    {
        proof {
            assert(word@.take(i + 1).drop_last() =~= word@.take(i as int));
            assert(word@.take(i + 1).last() == word@[i as int]);
        }
        let g = font.glyph_width(word[i]);
        total = total.saturating_add(g.saturating_add(character_padding));
        i = i + 1;
    }
    proof {
        assert(word@.take(word@.len() as int) =~= word@);
    }
    total
}

/// Word-wraps a text under a font: one `(start column, row)` pair per
/// space-delimited word, using each word's pixel length and the font's
/// space width.
pub fn wrap_variable_width(
    font: &FontType,
    content: &str,
    character_padding: usize,
    width_px: usize,
) -> (r: Vec<(usize, usize)>)
    ensures
        r@.len() == words_of(content@).len(),
        forall|i: int|
            0 <= i < r@.len() ==> ((#[trigger] r@[i]).0 as int, r@[i].1 as int) == wrap_pairs(
                spec_text_word_lens(*font, content@, character_padding as int),
                font.spec_glyph_width(' ') as int,
                width_px as int,
            )[i],
{
    let words = split_words(content);
    let space_width = font.glyph_width(' ');
    let mut lens: Vec<usize> = Vec::new();
    let mut i: usize = 0;
    while i < words.len()
        invariant
            words@.map_values(|w: Vec<char>| w@) == words_of(content@),
            0 <= i <= words@.len(),
            lens@ == spec_text_word_lens(*font, content@, character_padding as int).take(i as int),
        decreases words@.len() - i,
    {
        let l = word_length(font, &words[i], character_padding);
        lens.push(l);
        proof {
            assert(words@.map_values(|w: Vec<char>| w@)[i as int] == words@[i as int]@);
            assert(lens@ =~= spec_text_word_lens(*font, content@, character_padding as int).take(
                i + 1,
            ));
        }
        i = i + 1;
    }
    proof {
        assert(lens@ =~= spec_text_word_lens(*font, content@, character_padding as int));
    }
    wrap_words(&lens, space_width, width_px)
}

/// No word is placed below its own row index: the row numbers the wrap
/// produces never outrun the word count.
pub proof fn lemma_wrap_row_bounds(lens: Seq<usize>, space: int, width: int)
    requires
        space >= 0,
    ensures
        0 <= wrap_state(lens, space, width).1,
        wrap_state(lens, space, width).1 <= if lens.len() == 0 {
            0int
        } else {
            lens.len() - 1
        },
        0 <= wrap_state(lens, space, width).0,
        forall|i: int|
            0 <= i < lens.len() ==> {
                let p = #[trigger] wrap_pairs(lens, space, width)[i];
                0 <= p.0 && 0 <= p.1 <= i
            },
    decreases lens.len(),
{
    lemma_wrap_pairs_len(lens, space, width);
    if lens.len() > 0 {
        lemma_wrap_row_bounds(lens.drop_last(), space, width);
        lemma_wrap_pairs_len(lens.drop_last(), space, width);
        assert(forall|i: int|
            0 <= i < lens.len() - 1 ==> wrap_pairs(lens, space, width)[i] == wrap_pairs(
                lens.drop_last(),
                space,
                width,
            )[i]);
    }
}

/// The lengths of the words the wrap assigned to row `r`, in order.
pub open spec fn row_words(lens: Seq<usize>, space: int, width: int, r: int) -> Seq<usize>
    decreases lens.len(),
{
    if lens.len() == 0 {
        Seq::empty()
    } else {
        let prev = row_words(lens.drop_last(), space, width, r);
        let st = wrap_state(lens.drop_last(), space, width);
        let p = wrap_place(st.0, st.1, lens.last() as int, space, width);
        if p.1 == r {
            prev.push(lens.last())
        } else {
            prev
        }
    }
}

/// The columns the wrap gave the words of row `r`, in order.
pub open spec fn row_columns(lens: Seq<usize>, space: int, width: int, r: int) -> Seq<int>
    decreases lens.len(),
{
    if lens.len() == 0 {
        Seq::empty()
    } else {
        let prev = row_columns(lens.drop_last(), space, width, r);
        let st = wrap_state(lens.drop_last(), space, width);
        let p = wrap_place(st.0, st.1, lens.last() as int, space, width);
        if p.1 == r {
            prev.push(p.0)
        } else {
            prev
        }
    }
}

/// The working form of the idempotence law, proved by induction over the
/// words: every finished or current row, re-wrapped alone, reproduces its
/// columns on row zero, and re-wrapping the current row also reproduces the
/// wrap's cursor column.
proof fn lemma_wrap_rows(lens: Seq<usize>, space: int, width: int)
    requires
        space >= 0,
    ensures
        forall|r: int|
            #![trigger row_words(lens, space, width, r)]
            {
                let rw = row_words(lens, space, width, r);
                let cols = row_columns(lens, space, width, r);
                &&& wrap_pairs(rw, space, width).len() == cols.len()
                &&& (forall|j: int|
                    0 <= j < cols.len() ==> wrap_pairs(rw, space, width)[j] == (cols[j], 0int))
                &&& (r == wrap_state(lens, space, width).1 ==> wrap_state(rw, space, width) == (
                wrap_state(lens, space, width).0,
                0int,
                ))
                &&& ((r > wrap_state(lens, space, width).1 || r < 0) ==> rw == Seq::<usize>::empty()
                    && cols == Seq::<int>::empty())
            },
    decreases lens.len(),
{
    lemma_wrap_row_bounds(lens, space, width);
    if lens.len() == 0 {
    } else {
        let prefix = lens.drop_last();
        let w = lens.last();
        lemma_wrap_rows(prefix, space, width);
        lemma_wrap_row_bounds(prefix, space, width);
        let stp = wrap_state(prefix, space, width);
        let p = wrap_place(stp.0, stp.1, w as int, space, width);
        assert forall|r: int| #![trigger row_words(lens, space, width, r)] true implies {
            let rw = row_words(lens, space, width, r);
            let cols = row_columns(lens, space, width, r);
            &&& wrap_pairs(rw, space, width).len() == cols.len()
            &&& (forall|j: int|
                0 <= j < cols.len() ==> wrap_pairs(rw, space, width)[j] == (cols[j], 0int))
            &&& (r == wrap_state(lens, space, width).1 ==> wrap_state(rw, space, width) == (
            wrap_state(lens, space, width).0,
            0int,
            ))
            &&& ((r > wrap_state(lens, space, width).1 || r < 0) ==> rw == Seq::<usize>::empty()
                && cols == Seq::<int>::empty())
        } by {
            let rw = row_words(lens, space, width, r);
            let cols = row_columns(lens, space, width, r);
            let rwp = row_words(prefix, space, width, r);
            let colsp = row_columns(prefix, space, width, r);
            if p.1 == r {
                assert(rw == rwp.push(w));
                assert(cols == colsp.push(p.0));
                assert(rw.drop_last() =~= rwp);
                assert(rw.last() == w);
                assert(wrap_state(Seq::<usize>::empty(), space, width) == (0int, 0int));
                if stp.0 == 0 {
                    // first word of its row: the prefix state sits at column
                    // zero, so re-wrapping places this word at zero as well
                    assert(wrap_state(rwp, space, width) == (0int, 0int));
                    assert(wrap_pairs(rw, space, width) == wrap_pairs(rwp, space, width).push(
                        (0int, 0int),
                    ));
                } else if stp.0 + w + space >= width {
                    // the word starts a fresh row, alone so far
                    assert(row_words(prefix, space, width, r) == Seq::<usize>::empty());
                    assert(row_columns(prefix, space, width, r) == Seq::<int>::empty());
                    assert(rw == Seq::<usize>::empty().push(w));
                    assert(rw.drop_last() =~= Seq::<usize>::empty());
                    assert(wrap_state(rw, space, width) == (w as int, 0int));
                    assert(wrap_pairs(rw, space, width) == Seq::<(int, int)>::empty().push(
                        (0int, 0int),
                    ));
                } else {
                    // the word continues the current row: the re-wrap cursor
                    // matches the full wrap's cursor, so it lands at the
                    // same column
                    assert(wrap_state(rwp, space, width) == (stp.0, 0int));
                    assert(wrap_pairs(rw, space, width) == wrap_pairs(rwp, space, width).push(
                        (stp.0 + space, 0int),
                    ));
                }
            } else {
                assert(rw == rwp);
                assert(cols == colsp);
            }
        }
    }
}

/// Word-wrap is idempotent on its own output: take the words the wrap put
/// on any one row and wrap them again at the same width, and every word
/// keeps its column, all on a single row.
pub proof fn lemma_wrap_idempotent(lens: Seq<usize>, space: int, width: int, r: int)
    requires
        space >= 0,
    ensures
        ({
            let again = wrap_pairs(row_words(lens, space, width, r), space, width);
            let cols = row_columns(lens, space, width, r);
            &&& again.len() == cols.len()
            &&& forall|j: int| 0 <= j < cols.len() ==> again[j] == (cols[j], 0int)
        }),
{
    lemma_wrap_rows(lens, space, width);
}

/// The text widget: a string, the font it renders in, and the pixel gaps
/// between characters and between lines.
pub struct Text {
    pub content: String,
    pub font: FontType,
    pub x_spacing: u32,
    pub y_spacing: u32,
}

impl Text {
    /// Text in the default font: the old-school 5x7 metrics with an empty
    /// glyph sheet, so layout behaves as with the full font and drawing
    /// paints nothing until a real font is supplied.
    pub fn new(content: String) -> (r: Text)
        ensures
            r.content == content,
            r.x_spacing == 1,
            r.y_spacing == 1,
            r.font matches FontType::Image(f) && f.character_width == 5 && f.character_height == 7,
    {
        Text {
            content,
            font: FontType::Image(ImageFont::oldschool_metrics()),
            x_spacing: 1,
            y_spacing: 1,
        }
    }

    pub fn with_font(self, font: FontType) -> (r: Text)
        ensures
            r.content == self.content,
            r.font == font,
            r.x_spacing == self.x_spacing,
            r.y_spacing == self.y_spacing,
    {
        Text { font, ..self }
    }
}

/// The height the text needs when wrapped at the given width: one line per
/// wrap row, each the font's line height plus the line spacing, clamped at
/// what a layout length can hold.
pub open spec fn spec_text_height(t: Text, width: int) -> int {
    let pairs = wrap_pairs(
        spec_text_word_lens(t.font, t.content@, t.x_spacing as int),
        t.font.spec_glyph_width(' ') as int,
        width,
    );
    let rows = if pairs.len() == 0 {
        0
    } else {
        pairs.last().1
    };
    let h = (rows + 1) * (t.font.spec_height() + t.y_spacing);
    if h > u32::MAX {
        u32::MAX as int
    } else {
        h
    }
}

impl<M> Element<M> for Text {
    open spec fn spec_message(&self, state: State, input: Input, region: CalculatedLayout) -> Option<
        Emitted<M>,
    > {
        None
    }

    open spec fn spec_state_after(&self, state: State, input: Input, region: CalculatedLayout) -> State {
        state
    }

    open spec fn spec_state_matches(&self, state: State) -> bool {
        true
    }

    open spec fn spec_min_width(&self) -> int {
        0
    }

    open spec fn spec_min_height(&self, width: u32) -> int {
        spec_text_height(*self, width as int)
    }

    open spec fn spec_wrap(&self, width: u32) -> Option<u32> {
        Some((spec_text_height(*self, width as int)) as u32)
    }

    open spec fn spec_initial_state(&self) -> State {
        State::Stateless
    }

    /// Draws the text word by word at the wrap's positions, each glyph
    /// through the font, clipped to the buffer.
    #[verifier::loop_isolation(false)]
    fn draw(&self, frame: &mut Buffer, region: CalculatedLayout) {
        let positions = wrap_variable_width(
            &self.font,
            self.content.as_str(),
            self.x_spacing as usize,
            region.w as usize,
        );
        let words = split_words(self.content.as_str());
        proof {
            assert(words@.map_values(|w: Vec<char>| w@).len() == words@.len());
        }
        let y_per_char: u128 = self.font.height() as u128 + self.y_spacing as u128;
        let mut k: usize = 0;
        while k < words.len() && k < positions.len()
            invariant
                frame.width == old(frame).width,
                frame.data@.len() == old(frame).data@.len(),
            decreases words@.len() - k,
        {
            let (start_x, row) = positions[k];
            let word = &words[k];
            if row > u32::MAX as usize || y_per_char > u32::MAX as u128 {
                // a row this far down can never land inside a buffer
                k = k + 1;
                continue ;
            }
            proof {
                assert((row as int) * (y_per_char as int) <= (u32::MAX as int) * (u32::MAX as int))
                    by (nonlinear_arith)
                    requires
                        0 <= row <= u32::MAX,
                        0 <= y_per_char <= u32::MAX,
                ;
            }
            let char_y: u128 = region.y as u128 + row as u128 * y_per_char;
            let mut x_cursor: usize = start_x;
            let mut c: usize = 0;
            while c < word.len()
                invariant
                    frame.width == old(frame).width,
                    frame.data@.len() == old(frame).data@.len(),
                decreases word@.len() - c,
            {
                let char_x: u128 = region.x as u128 + x_cursor as u128;
                let advance: usize = if char_x <= usize::MAX as u128 && char_y <= usize::MAX as u128
                {
                    self.font.draw_character(frame, char_x as usize, char_y as usize, word[c])
                } else {
                    self.font.glyph_width(word[c])
                };
                x_cursor = x_cursor.saturating_add(advance.saturating_add(
                    self.x_spacing as usize,
                ));
                c = c + 1;
            }
            k = k + 1;
        }
    }

    fn get_message(&self, state: &mut State, input: &Input, region: CalculatedLayout) -> (r:
        Option<Emitted<M>>) {
        None
    }

    fn min_width(&self) -> (r: u32) {
        0
    }

    fn min_height(&self, width: u32) -> (r: u32) {
        proof {
            lemma_text_height_bounds(*self, width as int);
        }
        match Element::<M>::wrap(self, width) {
            Some(h) => h,
            None => 0,
        }
    }

    fn wrap(&self, width: u32) -> (r: Option<u32>) {
        let positions = wrap_variable_width(
            &self.font,
            self.content.as_str(),
            self.x_spacing as usize,
            width as usize,
        );
        let num_rows: usize = if positions.len() == 0 {
            0
        } else {
            positions[positions.len() - 1].1
        };
        proof {
            lemma_wrap_row_bounds(
                spec_text_word_lens(self.font, self.content@, self.x_spacing as int),
                self.font.spec_glyph_width(' ') as int,
                width as int,
            );
            lemma_wrap_pairs_len(
                spec_text_word_lens(self.font, self.content@, self.x_spacing as int),
                self.font.spec_glyph_width(' ') as int,
                width as int,
            );
        }
        let per_row: u128 = self.font.height() as u128 + self.y_spacing as u128;
        if per_row == 0 {
            return Some(0);
        }
        if per_row > u32::MAX as u128 {
            proof {
                let rows = spec_text_height_rows(*self, width as int);
                assert((rows + 1) * (self.font.spec_height() + self.y_spacing) >= 1 * (
                self.font.spec_height() + self.y_spacing)) by (nonlinear_arith)
                    requires
                        rows >= 0,
                        self.font.spec_height() + self.y_spacing >= 0,
                ;
            }
            return Some(u32::MAX);
        }
        if num_rows >= u32::MAX as usize {
            proof {
                let per = self.font.spec_height() + self.y_spacing;
                assert((num_rows + 1) * per >= (num_rows + 1) * 1) by (nonlinear_arith)
                    requires
                        per >= 1,
                        num_rows >= 0,
                ;
            }
            return Some(u32::MAX);
        }
        proof {
            assert((num_rows as int + 1) * (per_row as int) <= (u32::MAX as int + 1) * (
            u32::MAX as int)) by (nonlinear_arith)
                requires
                    0 <= num_rows < u32::MAX,
                    0 <= per_row <= u32::MAX,
            ;
            assert((num_rows + 1) * (self.font.spec_height() + self.y_spacing) <= (u32::MAX as int
                + 1) * (u32::MAX as int)) by (nonlinear_arith)
                requires
                    0 <= num_rows < u32::MAX,
                    0 <= self.font.spec_height() + self.y_spacing <= u32::MAX,
            ;
        }
        let h: u128 = (num_rows as u128 + 1) * per_row;
        if h > u32::MAX as u128 {
            Some(u32::MAX)
        } else {
            Some(h as u32)
        }
    }

    fn get_initial_state(&self) -> (r: State) {
        State::Stateless
    }
}

/// The text height formula never leaves what a layout length can hold.
pub proof fn lemma_text_height_bounds(t: Text, width: int)
    ensures
        0 <= spec_text_height(t, width) <= u32::MAX,
{
    let lens = spec_text_word_lens(t.font, t.content@, t.x_spacing as int);
    let space = t.font.spec_glyph_width(' ') as int;
    lemma_wrap_row_bounds(lens, space, width);
    lemma_wrap_pairs_len(lens, space, width);
    let pairs = wrap_pairs(lens, space, width);
    let rows = if pairs.len() == 0 {
        0int
    } else {
        pairs.last().1
    };
    assert(rows >= 0);
    assert((rows + 1) * (t.font.spec_height() + t.y_spacing) >= 0) by (nonlinear_arith)
        requires
            rows >= 0,
            t.font.spec_height() + t.y_spacing >= 0,
    ;
}

/// The wrap row count that the text height formula is built on.
pub open spec fn spec_text_height_rows(t: Text, width: int) -> int {
    let pairs = wrap_pairs(
        spec_text_word_lens(t.font, t.content@, t.x_spacing as int),
        t.font.spec_glyph_width(' ') as int,
        width,
    );
    if pairs.len() == 0 {
        0
    } else {
        pairs.last().1
    }
}

} // verus!
