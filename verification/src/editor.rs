//! A framework-agnostic rich text editor for composing posts: text with a byte cursor and an
//! optional selection, grapheme counting, and mention/hashtag autocompletion.
use vstd::prelude::*;
use core::ops::Range;
use crate::posts::{facet_views, facets_in, facets_of, Facet, RichText};
use crate::text::{
    byte_to_char, char_index, char_width, char_width_exec, chars_of, concat3, has_ws, has_ws_exec,
    is_boundary, lemma_boundary_char, lemma_byte_to_char, lemma_utf8_concat, lemma_utf8_push,
    lemma_utf8_take_monotone, owned, skip_exec, string_of, take_exec, utf8_len, utf8_len_exec,
};

verus! {

/// Maximum length of a post, in graphemes.
pub const MAX_POST_LENGTH: usize = 300;

/// The number of extended grapheme clusters of `s`, as unicode-segmentation counts them.
pub uninterp spec fn grapheme_count(s: Seq<char>) -> usize;

/// `UnicodeSegmentation::graphemes(s, true).count()`: the number of extended grapheme clusters
/// of `s`, named by `grapheme_count`; the empty text has none, and nothing more is stated.
#[verifier::external_body]
pub(crate) fn count_graphemes(s: &str) -> (r: usize)
    ensures
        r == grapheme_count(s@),
        s@.len() == 0 ==> r == 0,
{
    unicode_segmentation::UnicodeSegmentation::graphemes(s, true).count()
}

/// What the editor holds: its text, the cursor and the selection (byte offsets).
pub struct EditorModel {
    pub text: Seq<char>,
    pub cursor: int,
    pub selection: Option<(int, int)>,
}

/// `x`, or `n` when `x` is larger.
pub open spec fn clamp(x: int, n: int) -> int {
    if x < n {
        x
    } else {
        n
    }
}

/// The model with no selection.
pub open spec fn unselected(m: EditorModel) -> EditorModel {
    EditorModel { text: m.text, cursor: m.cursor, selection: None }
}

/// The bytes from `a` to `b` (each clamped to the text's length) removed, with the cursor put
/// at the start of the removed range; nothing happens when the clamped range is empty.
pub open spec fn model_delete_range(m: EditorModel, a: int, b: int) -> EditorModel {
    let n = utf8_len(m.text) as int;
    let s = clamp(a, n);
    let e = clamp(b, n);
    if s < e {
        EditorModel {
            text: m.text.take(byte_to_char(m.text, s)) + m.text.skip(byte_to_char(m.text, e)),
            cursor: s,
            selection: m.selection,
        }
    } else {
        m
    }
}

/// The range `a..b` can be removed: when its clamped form is not empty, both ends are
/// character boundaries.
pub open spec fn range_deletable(m: EditorModel, a: int, b: int) -> bool {
    let n = utf8_len(m.text) as int;
    clamp(a, n) < clamp(b, n) ==> is_boundary(m.text, clamp(a, n)) && is_boundary(m.text, clamp(b, n))
}

/// The model once a selection has been taken away and deleted.
pub open spec fn model_before_insert(m: EditorModel) -> EditorModel {
    match m.selection {
        Some((a, b)) => model_delete_range(unselected(m), a, b),
        None => m,
    }
}

/// Text `t` typed at the cursor, replacing the selection if there is one; the cursor moves past
/// the inserted bytes.
pub open spec fn model_insert(m: EditorModel, t: Seq<char>) -> EditorModel {
    let m1 = model_before_insert(m);
    let k = byte_to_char(m1.text, m1.cursor);
    EditorModel { text: m1.text.take(k) + t + m1.text.skip(k), cursor: m1.cursor + utf8_len(t), selection: None }
}

/// Typing does not cut a character: the selection can be deleted and the cursor is then on a
/// character boundary.
pub open spec fn insert_ok(m: EditorModel) -> bool {
    &&& (m.selection matches Some((a, b)) ==> range_deletable(m, a, b))
    &&& is_boundary(model_before_insert(m).text, model_before_insert(m).cursor)
}

/// Backspace: deletes the selection if there is one, else the character before the cursor.
pub open spec fn model_delete_backward(m: EditorModel) -> EditorModel {
    match m.selection {
        Some((a, b)) => model_delete_range(unselected(m), a, b),
        None => if m.cursor > 0 {
            let k = byte_to_char(m.text, m.cursor);
            EditorModel { text: m.text.remove(k - 1), cursor: utf8_len(m.text.take(k - 1)) as int, selection: None }
        } else {
            m
        },
    }
}

/// Backspace does not cut a character.
pub open spec fn delete_backward_ok(m: EditorModel) -> bool {
    match m.selection {
        Some((a, b)) => range_deletable(m, a, b),
        None => m.cursor > 0 ==> is_boundary(m.text, m.cursor),
    }
}

/// Delete: deletes the selection if there is one, else the character after the cursor.
pub open spec fn model_delete_forward(m: EditorModel) -> EditorModel {
    match m.selection {
        Some((a, b)) => model_delete_range(unselected(m), a, b),
        None => if m.cursor < utf8_len(m.text) {
            EditorModel { text: m.text.remove(byte_to_char(m.text, m.cursor)), cursor: m.cursor, selection: None }
        } else {
            m
        },
    }
}

/// Delete does not cut a character.
pub open spec fn delete_forward_ok(m: EditorModel) -> bool {
    match m.selection {
        Some((a, b)) => range_deletable(m, a, b),
        None => m.cursor < utf8_len(m.text) ==> is_boundary(m.text, m.cursor),
    }
}

/// The index of the last `c` in `s`.
pub open spec fn last_index_of(s: Seq<char>, c: char) -> Option<int>
    decreases s.len(),
{
    if s.len() == 0 {
        None
    } else if s.last() == c {
        Some(s.len() - 1)
    } else {
        last_index_of(s.drop_last(), c)
    }
}

/// The byte position of the last `c` in `before` and the text after it, when that text holds no
/// whitespace.
pub open spec fn trigger_after(before: Seq<char>, c: char) -> Option<(int, Seq<char>)> {
    match last_index_of(before, c) {
        Some(i) => if !has_ws(before.skip(i + 1)) {
            Some((utf8_len(before.take(i)) as int, before.skip(i + 1)))
        } else {
            None
        },
        None => None,
    }
}

/// The autocompletion at the cursor: a mention after the last `@` before the cursor when no
/// whitespace follows it, else a hashtag after the last `#` likewise.
pub open spec fn autocomplete_of(m: EditorModel) -> Option<(SuggestionType, int, Seq<char>)> {
    if m.cursor == 0 {
        None
    } else {
        let before = m.text.take(byte_to_char(m.text, m.cursor));
        match trigger_after(before, '@') {
            Some((p, q)) => Some((SuggestionType::Mention, p, q)),
            None => match trigger_after(before, '#') {
                Some((p, q)) => Some((SuggestionType::Hashtag, p, q)),
                None => None,
            },
        }
    }
}

/// The text that completes a suggestion.
pub open spec fn completion_text(kind: SuggestionType, completion: Seq<char>) -> Seq<char> {
    match kind {
        SuggestionType::Mention => "@"@ + completion + " "@,
        SuggestionType::Hashtag => "#"@ + completion + " "@,
    }
}

/// Rich text editor state: the text, a cursor and an optional selection (byte offsets), and
/// the cached grapheme count.
#[derive(Debug, Clone, PartialEq)]
pub struct RichTextEditor {
    text: String,
    cursor: usize,
    selection: Option<Range<usize>>,
    grapheme_count: usize,
}

impl RichTextEditor {
    /// The text, cursor and selection.
    pub closed spec fn view(&self) -> EditorModel {
        EditorModel {
            text: self.text@,
            cursor: self.cursor as int,
            selection: match self.selection {
                Some(r) => Some((r.start as int, r.end as int)),
                None => None,
            },
        }
    }

    /// The cursor lies within the text, whose length fits in memory, and the count is the
    /// text's grapheme count.
    pub closed spec fn wf(&self) -> bool {
        &&& self.cursor <= utf8_len(self.text@)
        &&& utf8_len(self.text@) <= usize::MAX
        &&& self.grapheme_count == grapheme_count(self.text@)
    }

    /// An empty editor.
    pub fn new() -> (r: Self)
        ensures
            r.wf(),
            r@ == (EditorModel { text: Seq::empty(), cursor: 0, selection: None }),
            grapheme_count(r@.text) == 0,
    {
        let text = String::new();
        let n = count_graphemes(text.as_str());
        let r = RichTextEditor { text, cursor: 0, selection: None, grapheme_count: n };
        assert(r@.text =~= Seq::<char>::empty());
        r
    }

    /// An editor holding `text`, with the cursor at its end.
    pub fn with_text(text: &str) -> (r: Self)
        ensures
            r.wf(),
            r@ == (EditorModel { text: text@, cursor: utf8_len(text@) as int, selection: None }),
    {
        let n = crate::text::byte_len(text);
        let text = owned(text);
        let g = count_graphemes(text.as_str());
        RichTextEditor { text, cursor: n, selection: None, grapheme_count: g }
    }

    /// The text content.
    pub fn text(&self) -> (r: &str)
        ensures
            r@ == self@.text,
    {
        self.text.as_str()
    }

    /// The number of graphemes of the text.
    pub fn char_count(&self) -> (r: usize)
        requires
            self.wf(),
        ensures
            r == grapheme_count(self@.text),
    {
        self.grapheme_count
    }

    /// Whether the text has more graphemes than a post may hold.
    pub fn is_too_long(&self) -> (r: bool)
        requires
            self.wf(),
        ensures
            r == (grapheme_count(self@.text) > MAX_POST_LENGTH),
    {
        self.grapheme_count > MAX_POST_LENGTH
    }

    /// How many graphemes may still be added to a post (negative when it is too long). A text
    /// cannot hold more than `isize::MAX` graphemes; past that the result stays at `isize::MIN`.
    pub fn chars_remaining(&self) -> (r: isize)
        requires
            self.wf(),
        ensures
            grapheme_count(self@.text) <= isize::MAX ==> r == MAX_POST_LENGTH - grapheme_count(self@.text),
            grapheme_count(self@.text) > isize::MAX ==> r == isize::MIN,
    {
        let g = self.grapheme_count;
        if g <= isize::MAX as usize {
            300 - (g as isize)
        } else {
            isize::MIN
        }
    }

    /// The cursor position (a byte offset).
    pub fn cursor(&self) -> (r: usize)
        ensures
            r == self@.cursor,
    {
        self.cursor
    }

    /// Moves the cursor to `position`, or to the end of the text when that is shorter.
    pub fn set_cursor(&mut self, position: usize)
        requires
            old(self).wf(),
        ensures
            final(self).wf(),
            final(self)@ == (EditorModel {
                text: old(self)@.text,
                cursor: clamp(position as int, utf8_len(old(self)@.text) as int),
                selection: old(self)@.selection,
            }),
    {
        let n = self.byte_len();
        self.cursor = if position < n {
            position
        } else {
            n
        };
    }

    /// The selection, if any.
    pub fn selection(&self) -> (r: Option<Range<usize>>)
        ensures
            match r {
                Some(x) => self@.selection == Some((x.start as int, x.end as int)),
                None => self@.selection is None,
            },
    {
        match &self.selection {
            Some(r) => Some(r.start..r.end),
            None => None,
        }
    }

    /// Sets the selection, each end clamped to the text's length.
    pub fn set_selection(&mut self, range: Option<Range<usize>>)
        requires
            old(self).wf(),
        ensures
            final(self).wf(),
            final(self)@ == (EditorModel {
                text: old(self)@.text,
                cursor: old(self)@.cursor,
                selection: match range {
                    Some(r) => Some(
                        (
                            clamp(r.start as int, utf8_len(old(self)@.text) as int),
                            clamp(r.end as int, utf8_len(old(self)@.text) as int),
                        ),
                    ),
                    None => None,
                },
            }),
    {
        let n = self.byte_len();
        self.selection = match range {
            Some(r) => {
                let start = if r.start < n {
                    r.start
                } else {
                    n
                };
                let end = if r.end < n {
                    r.end
                } else {
                    n
                };
                Some(start..end)
            },
            None => None,
        };
    }

    /// The byte length of the text.
    fn byte_len(&self) -> (r: usize)
        requires
            self.wf(),
        ensures
            r == utf8_len(self@.text),
    {
        let t = chars_of(self.text.as_str());
        utf8_len_exec(t.as_slice())
    }

    /// Takes the selection away, as a pair of offsets.
    fn take_selection(&mut self) -> (r: Option<(usize, usize)>)
        requires
            old(self).wf(),
        ensures
            final(self).wf(),
            final(self)@ == unselected(old(self)@),
            match old(self)@.selection {
                Some((a, b)) => r == Some((a as usize, b as usize)),
                None => r is None,
            },
    {
        let r = match &self.selection {
            Some(x) => Some((x.start, x.end)),
            None => None,
        };
        self.selection = None;
        r
    }

    /// Types `text` at the cursor, replacing the selection if there is one.
    pub fn insert_text(&mut self, text: &str)
        requires
            old(self).wf(),
            insert_ok(old(self)@),
            utf8_len(old(self)@.text) + utf8_len(text@) <= usize::MAX,
        ensures
            final(self).wf(),
            final(self)@ == model_insert(old(self)@, text@),
    {
        let ghost m0 = self@;
        let sel = self.take_selection();
        match sel {
            Some((a, b)) => {
                self.delete_range(a..b);
            },
            None => {},
        }
        let ghost m1 = self@;
        assert(m1 == model_before_insert(m0));
        assert(utf8_len(m1.text) <= utf8_len(m0.text));
        let t = chars_of(self.text.as_str());
        let k = char_index(t.as_slice(), self.cursor);
        let ins = chars_of(text);
        let mut nt = take_exec(t.as_slice(), k);
        let mut mid = take_exec(ins.as_slice(), ins.len());
        let mut tail = skip_exec(t.as_slice(), k);
        proof {
            assert(ins@.take(ins@.len() as int) =~= ins@);
            assert(t@ =~= t@.take(k as int) + t@.skip(k as int));
            lemma_utf8_concat(t@.take(k as int), t@.skip(k as int));
            lemma_utf8_concat(t@.take(k as int), ins@);
            lemma_utf8_concat(t@.take(k as int) + ins@, t@.skip(k as int));
        }
        nt.append(&mut mid);
        nt.append(&mut tail);
        assert(utf8_len(ins@) <= usize::MAX);
        let il = utf8_len_exec(ins.as_slice());
        self.text = string_of(nt.as_slice());
        self.cursor = self.cursor + il;
        self.update_grapheme_count();
        assert(self@.text =~= model_insert(m0, text@).text);
    }

    /// Backspace: deletes the selection if there is one, else the character before the cursor.
    pub fn delete_backward(&mut self)
        requires
            old(self).wf(),
            delete_backward_ok(old(self)@),
        ensures
            final(self).wf(),
            final(self)@ == model_delete_backward(old(self)@),
    {
        let sel = self.take_selection();
        match sel {
            Some((a, b)) => {
                self.delete_range(a..b);
                return;
            },
            None => {},
        }
        if self.cursor > 0 {
            let t = chars_of(self.text.as_str());
            let k = char_index(t.as_slice(), self.cursor);
            assert(k > 0) by {
                assert(t@.take(0) =~= Seq::<char>::empty());
                if k == 0 {
                    assert(t@.take(k as int) =~= Seq::<char>::empty());
                }
            }
            let w = char_width_exec(t[k - 1]);
            proof {
                assert(t@.take(k as int) =~= t@.take(k - 1).push(t@[k - 1]));
                lemma_utf8_push(t@.take(k - 1), t@[k - 1]);
                assert(t@ =~= t@.take(k - 1) + t@.skip(k - 1));
                assert(t@.skip(k - 1) =~= seq![t@[k - 1]] + t@.skip(k as int));
                lemma_utf8_concat(t@.take(k - 1), t@.skip(k as int));
                assert(t@ =~= t@.take(k as int) + t@.skip(k as int));
                lemma_utf8_concat(t@.take(k as int), t@.skip(k as int));
                lemma_utf8_take_monotone(t@, k as int, t@.len() as int);
                assert(t@.take(t@.len() as int) =~= t@);
            }
            let mut nt = take_exec(t.as_slice(), k - 1);
            let mut tail = skip_exec(t.as_slice(), k);
            nt.append(&mut tail);
            assert(nt@ =~= t@.remove(k - 1));
            self.text = string_of(nt.as_slice());
            self.cursor = self.cursor - w;
            proof {
                lemma_utf8_concat(t@.take(k - 1), t@.skip(k as int));
            }
            self.update_grapheme_count();
        }
    }

    /// Delete: deletes the selection if there is one, else the character after the cursor.
    pub fn delete_forward(&mut self)
        requires
            old(self).wf(),
            delete_forward_ok(old(self)@),
        ensures
            final(self).wf(),
            final(self)@ == model_delete_forward(old(self)@),
    {
        let sel = self.take_selection();
        match sel {
            Some((a, b)) => {
                self.delete_range(a..b);
                return;
            },
            None => {},
        }
        let n = self.byte_len();
        if self.cursor < n {
            let t = chars_of(self.text.as_str());
            let k = char_index(t.as_slice(), self.cursor);
            assert(k < t@.len()) by {
                if k == t@.len() {
                    assert(t@.take(k as int) =~= t@);
                }
            }
            let mut nt = take_exec(t.as_slice(), k);
            let mut tail = skip_exec(t.as_slice(), k + 1);
            nt.append(&mut tail);
            assert(nt@ =~= t@.remove(k as int));
            proof {
                assert(t@ =~= t@.take(k as int) + t@.skip(k as int));
                assert(t@.skip(k as int) =~= seq![t@[k as int]] + t@.skip(k + 1));
                lemma_utf8_concat(t@.take(k as int), t@.skip(k as int));
                lemma_utf8_concat(seq![t@[k as int]], t@.skip(k + 1));
                lemma_utf8_concat(t@.take(k as int), t@.skip(k + 1));
                assert(seq![t@[k as int]] =~= Seq::<char>::empty().push(t@[k as int]));
                lemma_utf8_push(Seq::<char>::empty(), t@[k as int]);
                assert(utf8_len(Seq::<char>::empty()) == 0);
            }
            self.text = string_of(nt.as_slice());
            self.update_grapheme_count();
        }
    }

    /// Removes the bytes in `range` (each end clamped to the text's length) and puts the cursor
    /// at its start; nothing happens when the clamped range is empty.
    pub fn delete_range(&mut self, range: Range<usize>)
        requires
            old(self).wf(),
            range_deletable(old(self)@, range.start as int, range.end as int),
        ensures
            final(self).wf(),
            final(self)@ == model_delete_range(old(self)@, range.start as int, range.end as int),
            utf8_len(final(self)@.text) <= utf8_len(old(self)@.text),
    {
        let n = self.byte_len();
        let start = if range.start < n {
            range.start
        } else {
            n
        };
        let end = if range.end < n {
            range.end
        } else {
            n
        };
        if start < end {
            let t = chars_of(self.text.as_str());
            let ks = char_index(t.as_slice(), start);
            let ke = char_index(t.as_slice(), end);
            proof {
                if ke < ks {
                    lemma_utf8_take_monotone(t@, ke as int, ks as int);
                }
                assert(t@ =~= t@.take(ke as int) + t@.skip(ke as int));
                lemma_utf8_concat(t@.take(ke as int), t@.skip(ke as int));
                lemma_utf8_concat(t@.take(ks as int), t@.skip(ke as int));
            }
            let mut nt = take_exec(t.as_slice(), ks);
            let mut tail = skip_exec(t.as_slice(), ke);
            nt.append(&mut tail);
            self.text = string_of(nt.as_slice());
            self.cursor = start;
            self.update_grapheme_count();
        }
    }

    /// Removes all text, the cursor going back to the start and the selection away.
    pub fn clear(&mut self)
        ensures
            final(self).wf(),
            final(self)@ == (EditorModel { text: Seq::empty(), cursor: 0, selection: None }),
            grapheme_count(final(self)@.text) == 0,
    {
        self.text = String::new();
        self.cursor = 0;
        self.selection = None;
        self.update_grapheme_count();
        assert(self@.text =~= Seq::<char>::empty());
    }

    /// Types `@handle ` at the cursor (the DID is not used).
    pub fn insert_mention(&mut self, handle: &str, did: &str)
        requires
            old(self).wf(),
            insert_ok(old(self)@),
            utf8_len(old(self)@.text) + utf8_len(handle@) + 2 <= usize::MAX,
        ensures
            final(self).wf(),
            final(self)@ == model_insert(old(self)@, "@"@ + handle@ + " "@),
    {
        let t = concat3("@", handle, " ");
        proof {
            reveal_strlit("@");
            reveal_strlit(" ");
            assert("@"@ =~= seq!['@']);
            self.lemma_small_len(handle@, '@');
        }
        self.insert_text(t.as_str());
    }

    /// Types `#tag ` at the cursor.
    pub fn insert_hashtag(&mut self, tag: &str)
        requires
            old(self).wf(),
            insert_ok(old(self)@),
            utf8_len(old(self)@.text) + utf8_len(tag@) + 2 <= usize::MAX,
        ensures
            final(self).wf(),
            final(self)@ == model_insert(old(self)@, "#"@ + tag@ + " "@),
    {
        let t = concat3("#", tag, " ");
        proof {
            reveal_strlit("#");
            reveal_strlit(" ");
            assert("#"@ =~= seq!['#']);
            self.lemma_small_len(tag@, '#');
        }
        self.insert_text(t.as_str());
    }

    /// Types `url ` at the cursor.
    pub fn insert_link(&mut self, url: &str)
        requires
            old(self).wf(),
            insert_ok(old(self)@),
            utf8_len(old(self)@.text) + utf8_len(url@) + 1 <= usize::MAX,
        ensures
            final(self).wf(),
            final(self)@ == model_insert(old(self)@, url@ + " "@),
    {
        let t = crate::text::concat2(url, " ");
        proof {
            reveal_strlit(" ");
            lemma_utf8_concat(url@, " "@);
            assert(" "@ =~= Seq::<char>::empty().push(' '));
            lemma_utf8_push(Seq::<char>::empty(), ' ');
            assert(utf8_len(Seq::<char>::empty()) == 0);
        }
        self.insert_text(t.as_str());
    }

    proof fn lemma_small_len(&self, x: Seq<char>, c: char)
        requires
            (c as u32) < 0x80,
            " "@ =~= seq![' '],
        ensures
            utf8_len(seq![c] + x + " "@) == utf8_len(x) + 2,
    {
        assert(seq![c] =~= Seq::<char>::empty().push(c));
        lemma_utf8_push(Seq::<char>::empty(), c);
        assert(" "@ =~= Seq::<char>::empty().push(' '));
        lemma_utf8_push(Seq::<char>::empty(), ' ');
        assert(utf8_len(Seq::<char>::empty()) == 0);
        crate::text::lemma_char_width_bounds(c);
        crate::text::lemma_char_width_bounds(' ');
        lemma_utf8_concat(seq![c], x);
        lemma_utf8_concat(seq![c] + x, " "@);
    }

    /// The links, mentions and hashtags of the text (see `facets_of`).
    pub fn detect_facets(&self) -> (r: Vec<Facet>)
        ensures
            facet_views(r@) == facets_of(self@.text),
    {
        let mut rt = RichText::new(self.text.as_str());
        rt.detect_facets();
        match rt.facets {
            Some(f) => f,
            None => {
                let v: Vec<Facet> = Vec::new();
                assert(facet_views(v@) =~= Seq::empty());
                v
            },
        }
    }

    /// The text as rich text with its facets detected.
    pub fn to_rich_text(&self) -> (r: RichText)
        ensures
            r.text@ == self@.text,
            facets_of(self@.text).len() > 0 ==> (r.facets matches Some(f) && facet_views(f@) == facets_of(
                self@.text,
            )),
            facets_of(self@.text).len() == 0 ==> r.facets is None,
    {
        let mut rt = RichText::new(self.text.as_str());
        rt.detect_facets();
        rt
    }

    fn update_grapheme_count(&mut self)
        ensures
            final(self).text == old(self).text,
            final(self).cursor == old(self).cursor,
            final(self).selection == old(self).selection,
            final(self).grapheme_count == grapheme_count(old(self).text@),
            old(self).text@.len() == 0 ==> final(self).grapheme_count == 0,
    {
        self.grapheme_count = count_graphemes(self.text.as_str());
    }
}

impl Default for RichTextEditor {
    fn default() -> (r: Self)
        ensures
            r.wf(),
            r@ == (EditorModel { text: Seq::empty(), cursor: 0, selection: None }),
    {
        RichTextEditor::new()
    }
}

/// An autocomplete suggestion.
#[derive(Debug, Clone, PartialEq)]
pub struct AutocompleteSuggestion {
    /// The type of suggestion
    pub suggestion_type: SuggestionType,
    /// The trigger position in the text
    pub trigger_position: usize,
    /// The query string after the trigger
    pub query: String,
}

/// Type of autocomplete suggestion.
#[derive(Debug, Clone, Copy, PartialEq, Eq)]
pub enum SuggestionType {
    /// Mention suggestion (triggered by @)
    Mention,
    /// Hashtag suggestion (triggered by #)
    Hashtag,
}

/// The last index of `c` in `s` holds `c`, and no later index does.
pub proof fn lemma_last_index_of(s: Seq<char>, c: char)
    ensures
        match last_index_of(s, c) {
            Some(i) => 0 <= i < s.len() && s[i] == c && forall|j: int| i < j < s.len() ==> s[j] != c,
            None => forall|j: int| 0 <= j < s.len() ==> s[j] != c,
        },
    decreases s.len(),
{
    if s.len() > 0 && s.last() != c {
        lemma_last_index_of(s.drop_last(), c);
        assert forall|j: int| 0 <= j < s.len() - 1 implies s.drop_last()[j] == s[j] by {}
    }
}

/// The last index of `c` in `s[..n]`.
fn last_index_exec(s: &[char], n: usize, c: char) -> (r: Option<usize>)
    requires
        n <= s.len(),
    ensures
        match r {
            Some(i) => last_index_of(s@.take(n as int), c) == Some(i as int),
            None => last_index_of(s@.take(n as int), c) is None,
        },
{
    let mut j: usize = n;
    while j > 0
        invariant
            j <= n <= s.len(),
            last_index_of(s@.take(n as int), c) == last_index_of(s@.take(j as int), c),
        decreases j,
    {
        assert(s@.take(j as int).last() == s@[j - 1]);
        if s[j - 1] == c {
            return Some(j - 1);
        }
        assert(s@.take(j as int).drop_last() =~= s@.take(j - 1));
        j -= 1;
    }
    None
}

impl RichTextEditor {
    /// The autocompletion at the cursor (see `autocomplete_of`).
    pub fn detect_autocomplete(&self) -> (r: Option<AutocompleteSuggestion>)
        requires
            self.wf(),
            self@.cursor == 0 || is_boundary(self@.text, self@.cursor),
        ensures
            match r {
                Some(s) => autocomplete_of(self@) == Some(
                    (s.suggestion_type, s.trigger_position as int, s.query@),
                ),
                None => autocomplete_of(self@) is None,
            },
    {
        if self.cursor == 0 {
            return None;
        }
        let t = chars_of(self.text.as_str());
        let k = char_index(t.as_slice(), self.cursor);
        let before = take_exec(t.as_slice(), k);
        assert(before@.take(k as int) =~= before@);
        match self.trigger(before.as_slice(), '@') {
            Some((p, q)) => {
                return Some(
                    AutocompleteSuggestion { suggestion_type: SuggestionType::Mention, trigger_position: p, query: q },
                );
            },
            None => {},
        }
        match self.trigger(before.as_slice(), '#') {
            Some((p, q)) => Some(
                AutocompleteSuggestion { suggestion_type: SuggestionType::Hashtag, trigger_position: p, query: q },
            ),
            None => None,
        }
    }

    fn trigger(&self, before: &[char], c: char) -> (r: Option<(usize, String)>)
        requires
            self.wf(),
            before@.len() <= self@.text.len(),
            before@ == self@.text.take(before@.len() as int),
        ensures
            match r {
                Some((p, q)) => trigger_after(before@, c) == Some((p as int, q@)),
                None => trigger_after(before@, c) is None,
            },
    {
        assert(before@.take(before@.len() as int) =~= before@);
        match last_index_exec(before, before.len(), c) {
            Some(i) => {
                proof {
                    lemma_last_index_of(before@, c);
                }
                let after = skip_exec(before, i + 1);
                if !has_ws_exec(after.as_slice()) {
                    let head = take_exec(before, i);
                    proof {
                        assert(head@ =~= self@.text.take(i as int));
                        lemma_utf8_take_monotone(self@.text, i as int, self@.text.len() as int);
                        assert(self@.text.take(self@.text.len() as int) =~= self@.text);
                    }
                    let p = utf8_len_exec(head.as_slice());
                    Some((p, string_of(after.as_slice())))
                } else {
                    None
                }
            },
            None => None,
        }
    }

    /// Replaces the query of `suggestion` (from its trigger to the cursor) with the completion,
    /// typed as `@completion ` or `#completion `.
    pub fn apply_autocomplete(&mut self, suggestion: &AutocompleteSuggestion, completion: &str)
        requires
            old(self).wf(),
            range_deletable(old(self)@, suggestion.trigger_position as int, old(self)@.cursor),
            insert_ok(model_delete_range(old(self)@, suggestion.trigger_position as int, old(self)@.cursor)),
            utf8_len(old(self)@.text) + utf8_len(completion@) + 2 <= usize::MAX,
        ensures
            final(self).wf(),
            final(self)@ == model_insert(
                model_delete_range(old(self)@, suggestion.trigger_position as int, old(self)@.cursor),
                completion_text(suggestion.suggestion_type, completion@),
            ),
    {
        let c = self.cursor;
        self.delete_range(suggestion.trigger_position..c);
        proof {
            let m = old(self)@;
            let n = utf8_len(m.text) as int;
            let s = clamp(suggestion.trigger_position as int, n);
            let e = clamp(m.cursor, n);
            if s < e {
                lemma_boundary_char(m.text, s);
                lemma_boundary_char(m.text, e);
                let ks = byte_to_char(m.text, s);
                let ke = byte_to_char(m.text, e);
                if ke < ks {
                    lemma_utf8_take_monotone(m.text, ke, ks);
                }
                assert(m.text =~= m.text.take(ke) + m.text.skip(ke));
                lemma_utf8_concat(m.text.take(ke), m.text.skip(ke));
                lemma_utf8_concat(m.text.take(ks), m.text.skip(ke));
            }
        }
        match suggestion.suggestion_type {
            SuggestionType::Mention => self.insert_mention(completion, ""),
            SuggestionType::Hashtag => self.insert_hashtag(completion),
        }
    }
}

/// Typing one character and then pressing backspace gives back the editor as it was (with no
/// selection and the cursor on a character boundary).
pub proof fn law_backspace_undoes_typing(m: EditorModel, c: char)
    requires
        m.selection is None,
        is_boundary(m.text, m.cursor),
    ensures
        model_delete_backward(model_insert(m, seq![c])) == m,
{
    lemma_boundary_char(m.text, m.cursor);
    let k = byte_to_char(m.text, m.cursor);
    let m1 = model_insert(m, seq![c]);
    let t1 = m1.text;
    assert(t1 =~= m.text.take(k) + seq![c] + m.text.skip(k));
    assert(t1.take(k + 1) =~= m.text.take(k).push(c));
    assert(t1.take(k) =~= m.text.take(k));
    lemma_utf8_push(m.text.take(k), c);
    assert(seq![c] =~= Seq::<char>::empty().push(c));
    lemma_utf8_push(Seq::<char>::empty(), c);
    assert(utf8_len(Seq::<char>::empty()) == 0);
    crate::text::lemma_char_width_bounds(c);
    lemma_byte_to_char(t1, k + 1);
    assert(m1.cursor == utf8_len(t1.take(k + 1)));
    assert(t1.remove(k) =~= m.text);
}


/// Typing a text and then deleting the bytes it took gives back the editor as it was (with no
/// selection and the cursor on a character boundary).
pub proof fn law_delete_range_undoes_insert(m: EditorModel, t: Seq<char>)
    requires
        m.selection is None,
        is_boundary(m.text, m.cursor),
        t.len() > 0,
    ensures
        model_delete_range(model_insert(m, t), m.cursor, m.cursor + utf8_len(t)) == m,
{
    lemma_boundary_char(m.text, m.cursor);
    let k = byte_to_char(m.text, m.cursor);
    let a = m.text.take(k);
    let b = m.text.skip(k);
    let m1 = model_insert(m, t);
    let t1 = m1.text;
    assert(t1 =~= a + t + b);
    assert(m.text =~= a + b);
    lemma_utf8_concat(a, t);
    lemma_utf8_concat(a + t, b);
    lemma_utf8_concat(a, b);
    assert(t.drop_last().push(t.last()) =~= t);
    lemma_utf8_push(t.drop_last(), t.last());
    crate::text::lemma_char_width_bounds(t.last());
    assert(t1.take(k) =~= a);
    lemma_byte_to_char(t1, k);
    assert(t1.take(k + t.len()) =~= a + t);
    lemma_byte_to_char(t1, k + t.len());
    assert(t1.take(k) + t1.skip(k + t.len()) =~= m.text);
}

} // verus!
