//! A single-line text field with a cursor.
use vstd::prelude::*;
use vstd::view::View as _;
use vstd::string::StrSliceExecFns;
use crate::geom::{fits, Bounds, Point, Size};
use crate::input::{ArithmeticFault, TextAction};
use crate::util::{byte_len, FontMetrics};
use crate::text::string_from_chars;
use crate::view::{DrawKind, InputKind, View, ViewId, ViewState};

verus! {

/// The number of UTF-8 bytes of the character `c`.
pub open spec fn char_width(c: char) -> nat {
    vstd::utf8::encode_scalar(c as u32).len()
}

/// The index of the character at which the byte offset `b` of the UTF-8
/// encoding of `s` starts; none when `b` falls inside a character or past
/// the end. The end of the text counts as the start of no character, at
/// index `s.len()`.
pub open spec fn char_index(s: Seq<char>, b: int) -> Option<int> {
    if exists|i: int| 0 <= i <= s.len() && #[trigger] byte_len(s.take(i)) == b {
        Some(choose|i: int| 0 <= i <= s.len() && #[trigger] byte_len(s.take(i)) == b)
    } else {
        None
    }
}

proof fn lemma_width_range(c: char)
    ensures
        1 <= char_width(c) <= 4,
{
    vstd::utf8::char_is_scalar(c);
}

proof fn lemma_byte_len_concat(a: Seq<char>, b: Seq<char>)
    ensures
        byte_len(a + b) == byte_len(a) + byte_len(b),
    decreases a.len(),
{
    if a.len() == 0 {
        assert(a + b =~= b);
        assert(vstd::utf8::encode_utf8(a) =~= Seq::<u8>::empty());
    } else {
        assert((a + b).drop_first() =~= a.drop_first() + b);
        assert((a + b)[0] == a[0]);
        lemma_byte_len_concat(a.drop_first(), b);
    }
}

proof fn lemma_byte_len_one(c: char)
    ensures
        byte_len(seq![c]) == char_width(c),
{
    assert(seq![c].drop_first() =~= Seq::<char>::empty());
    assert(vstd::utf8::encode_utf8(Seq::<char>::empty()) =~= Seq::<u8>::empty());
}

/// The prefix of `i + 1` characters is one character longer than that of `i`.
proof fn lemma_prefix_step(s: Seq<char>, i: int)
    requires
        0 <= i < s.len(),
    ensures
        byte_len(s.take(i + 1)) == byte_len(s.take(i)) + char_width(s[i]),
{
    assert(s.take(i + 1) =~= s.take(i) + seq![s[i]]);
    lemma_byte_len_concat(s.take(i), seq![s[i]]);
    lemma_byte_len_one(s[i]);
}

/// Longer prefixes have strictly more bytes.
proof fn lemma_prefix_grows(s: Seq<char>, i: int, j: int)
    requires
        0 <= i <= j <= s.len(),
    ensures
        byte_len(s.take(i)) + (j - i) <= byte_len(s.take(j)),
    decreases j - i,
{
    if i < j {
        lemma_prefix_grows(s, i, j - 1);
        lemma_prefix_step(s, j - 1);
        lemma_width_range(s[j - 1]);
    }
}

/// The whole text has at least the bytes of any prefix.
proof fn lemma_prefix_whole(s: Seq<char>, i: int)
    requires
        0 <= i <= s.len(),
    ensures
        byte_len(s.take(i)) + byte_len(s.skip(i)) == byte_len(s),
{
    assert(s =~= s.take(i) + s.skip(i));
    lemma_byte_len_concat(s.take(i), s.skip(i));
}

/// Where the byte offset of a prefix is known, `char_index` finds it.
pub(crate) proof fn lemma_char_index_is(s: Seq<char>, b: int, i: int)
    requires
        0 <= i <= s.len(),
        byte_len(s.take(i)) == b,
    ensures
        char_index(s, b) == Some(i),
{
    let j = choose|j: int| 0 <= j <= s.len() && #[trigger] byte_len(s.take(j)) == b;
    if j < i {
        lemma_prefix_grows(s, j, i);
    } else if i < j {
        lemma_prefix_grows(s, i, j);
    }
}

/// What `char_index` finds is a prefix with that many bytes.
pub(crate) proof fn lemma_char_index_found(s: Seq<char>, b: int)
    requires
        char_index(s, b) is Some,
    ensures
        0 <= char_index(s, b)->0 <= s.len(),
        byte_len(s.take(char_index(s, b)->0)) == b,
{
}

pub(crate) proof fn lemma_byte_len_insert(s: Seq<char>, i: int, c: char)
    requires
        0 <= i <= s.len(),
    ensures
        byte_len(s.insert(i, c)) == byte_len(s) + char_width(c),
        s.insert(i, c).take(i) == s.take(i),
{
    assert(s.insert(i, c) =~= s.take(i) + (seq![c] + s.skip(i)));
    assert(s.insert(i, c).take(i) =~= s.take(i));
    lemma_byte_len_concat(s.take(i), seq![c] + s.skip(i));
    lemma_byte_len_concat(seq![c], s.skip(i));
    lemma_byte_len_one(c);
    lemma_prefix_whole(s, i);
}

proof fn lemma_byte_len_remove(s: Seq<char>, i: int)
    requires
        0 <= i < s.len(),
    ensures
        byte_len(s.remove(i)) + char_width(s[i]) == byte_len(s),
        byte_len(s.take(i)) + char_width(s[i]) <= byte_len(s),
        s.remove(i).take(i) == s.take(i),
{
    assert(s.remove(i) =~= s.take(i) + s.skip(i + 1));
    assert(s.remove(i).take(i) =~= s.take(i));
    lemma_byte_len_concat(s.take(i), s.skip(i + 1));
    lemma_prefix_step(s, i);
    lemma_prefix_whole(s, i + 1);
}

/// Every character of `s` is ASCII, one byte in UTF-8.
pub open spec fn ascii_text(s: Seq<char>) -> bool {
    forall|i: int| 0 <= i < s.len() ==> (#[trigger] s[i] as u32) < 128
}

/// In an ASCII text every byte offset up to the end starts a character:
/// the one of that index.
pub(crate) proof fn lemma_ascii_index(s: Seq<char>, i: int)
    requires
        ascii_text(s),
        0 <= i <= s.len(),
    ensures
        byte_len(s.take(i)) == i,
        char_index(s, i) == Some(i),
    decreases i,
{
    if i == 0 {
        assert(s.take(0) =~= Seq::<char>::empty());
        assert(vstd::utf8::encode_utf8(Seq::<char>::empty()) =~= Seq::<u8>::empty());
    } else {
        lemma_ascii_index(s, i - 1);
        lemma_prefix_step(s, i - 1);
        assert((s[i - 1] as u32) < 128);
    }
    lemma_char_index_is(s, i, i);
}

/// The number of UTF-8 bytes of `c`, which `char::len_utf8` gives.
fn width_of(c: char) -> (w: usize)
    ensures
        w == char_width(c),
        1 <= w <= 4,
{
    proof {
        vstd::utf8::char_is_scalar(c);
    }
    let u = c as u32;
    if u <= 0x7F {
        1
    } else if u <= 0x7FF {
        2
    } else if u <= 0xFFFF {
        3
    } else {
        4
    }
}

/// The text of a text field and the position of its cursor. The cursor is
/// a byte offset into the UTF-8 encoding of the text, as `String` indexes
/// are: moving it goes one byte at a time, so past a character of more than
/// one byte it can rest inside that character, where inserting or deleting
/// at the cursor would cut the character in two and so fails. It never
/// passes the end of the text.
#[derive(Debug)]
pub struct TextInputState {
    cursor: usize,
    text: Vec<char>,
    len: usize,
}

impl TextInputState {
    #[verifier::type_invariant]
    spec fn cursor_in_text(&self) -> bool {
        &&& self.len == byte_len(self.text@)
        &&& self.cursor <= self.len
    }

    /// The characters of the text.
    pub closed spec fn chars(&self) -> Seq<char> {
        self.text@
    }

    /// The cursor's byte offset.
    pub closed spec fn at(&self) -> nat {
        self.cursor as nat
    }

    /// A field holding `title`, with the cursor after its last byte. (The
    /// bytes of a text in memory always fit in `usize`.)
    pub fn new(title: &str) -> (r: TextInputState)
        requires
            byte_len(title@) <= usize::MAX,
        ensures
            r.chars() == title@,
            r.at() == byte_len(title@),
    {
        let n = title.unicode_len();
        let mut text: Vec<char> = Vec::new();
        let mut i: usize = 0;
        while i < n
            invariant
                n == title@.len(),
                i <= n,
                text@ == title@.subrange(0, i as int),
            decreases n - i,
        {
            let c = title.get_char(i);
            text.push(c);
            i += 1;
            assert(text@ =~= title@.subrange(0, i as int));
        }
        assert(text@ =~= title@);
        let len = title.len();
        TextInputState { cursor: len, text, len }
    }

    /// The text, as a string.
    pub fn text(&self) -> (r: String)
        ensures
            r@ == self.chars(),
    {
        string_from_chars(&self.text)
    }

    /// The cursor's byte offset.
    pub fn cursor(&self) -> (r: usize)
        ensures
            r == self.at(),
    {
        self.cursor
    }

    /// The length of the text in UTF-8 bytes.
    pub fn byte_len(&self) -> (r: usize)
        ensures
            r == byte_len(self.chars()),
    {
        proof {
            use_type_invariant(self);
        }
        self.len
    }

    /// The index of the character that starts at byte offset `b` (see
    /// `char_index`).
    pub fn index_at(&self, b: usize) -> (r: Option<usize>)
        ensures
            match (r, char_index(self.chars(), b as int)) {
                (Some(i), Some(j)) => i == j,
                (None, None) => true,
                _ => false,
            },
    {
        proof {
            use_type_invariant(self);
        }
        let ghost s = self.text@;
        let mut i: usize = 0;
        let mut acc: usize = 0;
        while i < self.text.len()
            invariant
                s == self.text@,
                i <= s.len(),
                acc == byte_len(s.take(i as int)),
                acc <= b,
                forall|j: int| 0 <= j < i ==> #[trigger] byte_len(s.take(j)) < b,
                self.len == byte_len(s),
            decreases s.len() - i,
        {
            if acc == b {
                proof {
                    lemma_char_index_is(s, b as int, i as int);
                }
                return Some(i);
            }
            proof {
                lemma_prefix_step(s, i as int);
                lemma_prefix_whole(s, i as int + 1);
            }
            let w = width_of(self.text[i]);
            if w > b - acc {
                proof {
                    assert forall|j: int| 0 <= j <= s.len() implies #[trigger] byte_len(s.take(j)) != b by {
                        if j > i {
                            lemma_prefix_grows(s, i as int + 1, j);
                        }
                    }
                }
                return None;
            }
            acc = acc + w;
            i += 1;
        }
        if acc == b {
            proof {
                lemma_char_index_is(s, b as int, i as int);
            }
            Some(i)
        } else {
            proof {
                assert forall|j: int| 0 <= j <= s.len() implies #[trigger] byte_len(s.take(j)) != b by {
                    if j == s.len() {
                        assert(s.take(j) =~= s.take(i as int));
                    }
                }
            }
            None
        }
    }

    /// Moves the cursor one byte back, unless it is at the start.
    pub fn cursor_back(&mut self)
        ensures
            final(self).chars() == old(self).chars(),
            final(self).at() == if old(self).at() > 0 { old(self).at() - 1 } else { old(self).at() as int },
    {
        proof {
            use_type_invariant(&*self);
        }
        if self.cursor > 0 {
            self.cursor -= 1;
        }
    }

    /// Moves the cursor one byte forward, unless it is at the end.
    pub fn cursor_forward(&mut self)
        ensures
            final(self).chars() == old(self).chars(),
            final(self).at() == if old(self).at() < byte_len(old(self).chars()) {
                (old(self).at() + 1) as int
            } else {
                old(self).at() as int
            },
    {
        proof {
            use_type_invariant(&*self);
        }
        if self.cursor < self.len {
            self.cursor += 1;
        }
    }

    /// Moves the cursor one byte back and deletes the character that starts
    /// there, unless the cursor is at the start. Where that byte is inside a
    /// character, the deletion would cut it, which `requires` leaves out.
    pub fn delete_back(&mut self)
        requires
            old(self).at() > 0 ==> char_index(old(self).chars(), old(self).at() - 1) is Some,
        ensures
            old(self).at() > 0 ==> final(self).chars() == old(self).chars().remove(
                char_index(old(self).chars(), old(self).at() - 1)->0,
            ) && final(self).at() == old(self).at() - 1,
            old(self).at() == 0 ==> final(self).chars() == old(self).chars() && final(self).at() == 0,
    {
        proof {
            use_type_invariant(&*self);
        }
        if self.cursor > 0 && self.cursor <= self.len {
            let c = self.cursor - 1;
            let i = self.index_at(c).unwrap();
            proof {
                lemma_char_index_found(self.text@, c as int);
                if i as int == self.text@.len() {
                    assert(self.text@.take(i as int) =~= self.text@);
                }
            }
            let w = width_of(self.text[i]);
            proof {
                lemma_byte_len_remove(self.text@, i as int);
            }
            let mut t = self.text.clone();
            t.remove(i);
            let len = self.len - w;
            *self = TextInputState { cursor: c, text: t, len };
        }
    }

    /// Deletes the character that starts at the cursor, if the cursor is not
    /// at the end. Where the cursor is inside a character, the deletion would
    /// cut it, which `requires` leaves out.
    pub fn delete_forward(&mut self)
        requires
            old(self).at() < byte_len(old(self).chars()) ==> char_index(old(self).chars(), old(self).at() as int) is Some,
        ensures
            old(self).at() < byte_len(old(self).chars()) ==> final(self).chars() == old(self).chars().remove(
                char_index(old(self).chars(), old(self).at() as int)->0,
            ),
            old(self).at() >= byte_len(old(self).chars()) ==> final(self).chars() == old(self).chars(),
            final(self).at() == old(self).at(),
    {
        proof {
            use_type_invariant(&*self);
        }
        if self.cursor < self.len {
            let i = self.index_at(self.cursor).unwrap();
            proof {
                lemma_char_index_found(self.text@, self.cursor as int);
                if i as int == self.text@.len() {
                    assert(self.text@.take(i as int) =~= self.text@);
                }
            }
            let w = width_of(self.text[i]);
            proof {
                lemma_byte_len_remove(self.text@, i as int);
            }
            let mut t = self.text.clone();
            t.remove(i);
            let len = self.len - w;
            *self = TextInputState { cursor: self.cursor, text: t, len };
        }
    }

    /// Inserts a character at the cursor and moves the cursor one byte on,
/// whatever the character's width in bytes.
    /// Where the cursor is inside a character, the insertion would cut it,
    /// which `requires` leaves out, as it does a text whose length in bytes
    /// would leave `usize`.
    pub fn insert_char(&mut self, key: char)
        requires
            char_index(old(self).chars(), old(self).at() as int) is Some,
            byte_len(old(self).chars()) + char_width(key) <= usize::MAX,
        ensures
            final(self).chars() == old(self).chars().insert(char_index(old(self).chars(), old(self).at() as int)->0, key),
            final(self).at() == old(self).at() + 1,
    {
        proof {
            use_type_invariant(&*self);
        }
        let i = self.index_at(self.cursor).unwrap();
        proof {
            lemma_char_index_found(self.text@, self.cursor as int);
            lemma_byte_len_insert(self.text@, i as int, key);
        }
        let w = width_of(key);
        let mut t = self.text.clone();
        t.insert(i, key);
        let len = self.len + w;
        *self = TextInputState { cursor: self.cursor + 1, text: t, len };
    }
}

/// Deleting back at a cursor inside a character would cut it.
pub open spec fn back_fails(s: TextInputState) -> bool {
    s.at() > 0 && char_index(s.chars(), s.at() - 1) is None
}

/// Whether the key `a` cannot be applied to `s`: it would insert or delete
/// at a byte inside a character, or make the text longer than `usize`
/// counts.
pub open spec fn edit_fails(s: TextInputState, a: TextAction) -> bool {
    match a {
        TextAction::TypedAscii(k) => if k == 8 {
            back_fails(s)
        } else {
            char_index(s.chars(), s.at() as int) is None || byte_len(s.chars()) + char_width(k as char) > usize::MAX
        },
        TextAction::BackDelete => back_fails(s),
        TextAction::ForwardDelete => s.at() < byte_len(s.chars()) && char_index(s.chars(), s.at() as int) is None,
        _ => false,
    }
}

/// The cursor moves one byte back and the character that starts there is
/// deleted, unless the cursor is at the start.
pub open spec fn deleted_back(s: TextInputState, s2: TextInputState) -> bool {
    &&& s.at() > 0 ==> s2.chars() == s.chars().remove(char_index(s.chars(), s.at() - 1)->0) && s2.at() == s.at() - 1
    &&& s.at() == 0 ==> s2.chars() == s.chars() && s2.at() == 0
}

/// How a key edits a text field: `s2` is `s` after the key. Byte 8 and
/// `BackDelete` delete back; any other typed byte is inserted, as the
/// character with that code, at the cursor, which moves one byte on;
/// `ForwardDelete` deletes the character at the cursor; `Left` and `Right`
/// move the cursor one byte within the text; other keys change nothing.
pub open spec fn text_edit(s: TextInputState, a: TextAction, s2: TextInputState) -> bool {
    match a {
        TextAction::TypedAscii(k) => if k == 8 {
            deleted_back(s, s2)
        } else {
            s2.chars() == s.chars().insert(char_index(s.chars(), s.at() as int)->0, k as char) && s2.at() == s.at() + 1
        },
        TextAction::BackDelete => deleted_back(s, s2),
        TextAction::ForwardDelete => {
            &&& s.at() < byte_len(s.chars()) ==> s2.chars() == s.chars().remove(char_index(s.chars(), s.at() as int)->0)
            &&& s.at() >= byte_len(s.chars()) ==> s2.chars() == s.chars()
            &&& s2.at() == s.at()
        },
        TextAction::Left => s2.chars() == s.chars() && s2.at() == (if s.at() > 0 {
            s.at() - 1
        } else {
            s.at() as int
        }),
        TextAction::Right => s2.chars() == s.chars() && s2.at() == (if s.at() < byte_len(s.chars()) {
            (s.at() + 1) as int
        } else {
            s.at() as int
        }),
        _ => s2.chars() == s.chars() && s2.at() == s.at(),
    }
}

impl TextInputState {
    /// Whether the key `a` cannot be applied (see `edit_fails`).
    pub fn edit_would_fail(&self, a: TextAction) -> (r: bool)
        ensures
            r == edit_fails(*self, a),
    {
        match a {
            TextAction::TypedAscii(k) => if k == 8 {
                self.cursor() > 0 && self.index_at(self.cursor() - 1).is_none()
            } else {
                let w = width_of(k as char);
                self.index_at(self.cursor()).is_none() || self.byte_len() > usize::MAX - w
            },
            TextAction::BackDelete => self.cursor() > 0 && self.index_at(self.cursor() - 1).is_none(),
            TextAction::ForwardDelete => self.cursor() < self.byte_len() && self.index_at(self.cursor()).is_none(),
            _ => false,
        }
    }

    /// Applies the key `a` (see `text_edit`).
    pub fn apply(&mut self, a: TextAction)
        requires
            !edit_fails(*old(self), a),
        ensures
            text_edit(*old(self), a, *final(self)),
    {
        match a {
            TextAction::TypedAscii(k) => if k == 8 {
                self.delete_back();
            } else {
                self.insert_char(k as char);
            },
            TextAction::BackDelete => self.delete_back(),
            TextAction::ForwardDelete => self.delete_forward(),
            TextAction::Left => self.cursor_back(),
            TextAction::Right => self.cursor_forward(),
            _ => {},
        }
    }
}

/// A text field named `name`, `100x30` at the origin, holding `title` with
/// the cursor after its last byte.
pub fn make_text_input(name: &'static str, title: &str) -> (r: View)
    requires
        byte_len(title@) <= usize::MAX,
    ensures
        r.name@ == name@,
        r.title@ == title@,
        r.bounds == (Bounds { position: Point { x: 0, y: 0 }, size: Size { w: 100, h: 30 } }),
        r.visible,
        r.h_flex == crate::view::Flex::Intrinsic,
        r.v_flex == crate::view::Flex::Intrinsic,
        r.h_align == crate::view::Align::Center,
        r.v_align == crate::view::Align::Center,
        r.state matches Some(ViewState::TextInput(s)) && s.chars() == title@ && s.at() == byte_len(title@),
        r.input == Some(InputKind::TextInput),
        r.layout is None,
        r.draw == Some(DrawKind::TextInput),
{
    let mut v = View::new_default();
    v.name = ViewId::new(name);
    v.title = String::from_str(title);
    v.bounds = Bounds::new(0, 0, 100, 30);
    v.state = Some(ViewState::TextInput(TextInputState::new(title)));
    v.input = Some(InputKind::TextInput);
    v.draw = Some(DrawKind::TextInput);
    v
}


/// The cursor bar of a text field drawn in `b` in `font`: one pixel wide,
/// four pixels taller than a character, five pixels in from the top left
/// corner and `cursor` character widths to the right (the cursor counts
/// bytes, one width each). None where the `i32`
/// arithmetic overflows.
pub open spec fn cursor_bar(b: Bounds, cursor: usize, font: FontMetrics) -> Option<Bounds> {
    let n = cursor as i32;
    let w = font.width as i32;
    let h = font.height as i32;
    if !fits(n * w) || !fits(b.position.x + n * w) || !fits(b.position.x + n * w + 5) || !fits(b.position.y + 5)
        || !fits(h + 4) {
        None
    } else {
        Some(
            Bounds {
                position: Point { x: (b.position.x + n * w + 5) as i32, y: (b.position.y + 5) as i32 },
                size: Size { w: 1, h: (h + 4) as i32 },
            },
        )
    }
}

/// The cursor bar of a text field (see `cursor_bar`); the error where it
/// cannot be computed.
pub fn cursor_bounds(b: Bounds, cursor: usize, font: FontMetrics) -> (r: Result<Bounds, ArithmeticFault>)
    ensures
        match (r, cursor_bar(b, cursor, font)) {
            (Ok(x), Some(y)) => x == y,
            (Err(_), None) => true,
            _ => false,
        },
{
    let n = cursor as i32;
    let w = font.width as i32;
    let h = font.height as i32;
    let nw = match n.checked_mul(w) {
        Some(v) => v,
        None => return Err(ArithmeticFault),
    };
    let x = match b.position.x.checked_add(nw) {
        Some(v) => match v.checked_add(5) {
            Some(x) => x,
            None => return Err(ArithmeticFault),
        },
        None => return Err(ArithmeticFault),
    };
    let y = match b.position.y.checked_add(5) {
        Some(y) => y,
        None => return Err(ArithmeticFault),
    };
    let hh = match h.checked_add(4) {
        Some(v) => v,
        None => return Err(ArithmeticFault),
    };
    Ok(Bounds { position: Point { x, y }, size: Size { w: 1, h: hh } })
}
} // verus!
