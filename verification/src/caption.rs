//! Burnt-in captions: the text FFmpeg's drawtext filter reloads from a file.

use vstd::prelude::*;

use crate::text::{chars_of, is_control_char, push_char, take_at_most};

verus! {

pub const MAX_CAPTION_CHARS: usize = 200;

/// Whether a caption keeps a character: control characters go, except the
/// line feed.
pub open spec fn caption_keeps(c: char) -> bool {
    !is_control_char(c) || c == '\n'
}

/// The characters of `s` a caption keeps, in order.
pub open spec fn caption_chars(s: Seq<char>) -> Seq<char>
    decreases s.len(),
{
    if s.len() == 0 {
        s
    } else if caption_keeps(s.last()) {
        caption_chars(s.drop_last()).push(s.last())
    } else {
        caption_chars(s.drop_last())
    }
}

/// The escape drawtext needs for one character: `%` and `\` get a
/// backslash.
pub open spec fn caption_escape_char(c: char) -> Seq<char> {
    if c == '%' { seq!['\\', '%'] } else if c == '\\' { seq!['\\', '\\'] } else { seq![c] }
}

pub open spec fn caption_escape(s: Seq<char>) -> Seq<char>
    decreases s.len(),
{
    if s.len() == 0 { s } else { caption_escape(s.drop_last()) + caption_escape_char(s.last()) }
}

/// A caption: the kept characters, at most 200 of them, escaped.
pub open spec fn sanitized_caption(s: Seq<char>) -> Seq<char> {
    caption_escape(take_at_most(caption_chars(s), MAX_CAPTION_CHARS as nat))
}

fn is_control(c: char) -> (b: bool)
    ensures
        b == is_control_char(c),
{
    c <= '\u{1f}' || ('\u{7f}' <= c && c <= '\u{9f}')
}

/// Removes control characters (keeping line feeds), keeps the first 200
/// characters, and escapes `%` and `\` for drawtext.
pub fn sanitize_caption(text: &str) -> (out: String)
    ensures
        out@ == sanitized_caption(text@),
{
    let v = chars_of(text);
    let mut out = String::new();
    let mut count: usize = 0;
    let mut i: usize = 0;
    while i < v.len()
        invariant
            i <= v@.len(),
            v@ == text@,
            count as nat == if caption_chars(v@.subrange(0, i as int)).len() <= MAX_CAPTION_CHARS as nat {
                caption_chars(v@.subrange(0, i as int)).len()
            } else {
                MAX_CAPTION_CHARS as nat
            },
            out@ == caption_escape(take_at_most(caption_chars(v@.subrange(0, i as int)), MAX_CAPTION_CHARS as nat)),
        decreases v@.len() - i,
    {
        let c = v[i];
        let ghost old_kept = caption_chars(v@.subrange(0, i as int));
        proof {
            assert(v@.subrange(0, i + 1).drop_last() =~= v@.subrange(0, i as int));
        }
        if !is_control(c) || c == '\n' {
            if count < MAX_CAPTION_CHARS {
                if c == '%' || c == '\\' {
                    push_char(&mut out, '\\');
                }
                push_char(&mut out, c);
                proof {
                    let nk = caption_chars(v@.subrange(0, i + 1));
                    assert(nk == old_kept.push(c));
                    assert(take_at_most(nk, 200) =~= take_at_most(old_kept, 200).push(c));
                    assert(take_at_most(nk, 200).drop_last() =~= take_at_most(old_kept, 200));
                    assert(out@ =~= caption_escape(take_at_most(nk, 200)));
                }
                count = count + 1;
            } else {
                proof {
                    let nk = caption_chars(v@.subrange(0, i + 1));
                    assert(take_at_most(nk, 200) =~= take_at_most(old_kept, 200));
                }
            }
        }
        i = i + 1;
    }
    assert(v@.subrange(0, v@.len() as int) =~= v@);
    out
}

/// A caption never holds a control character other than a line feed, and
/// never more than 200 characters before escaping.
pub proof fn lemma_caption_clean(s: Seq<char>)
    ensures
        take_at_most(caption_chars(s), MAX_CAPTION_CHARS as nat).len() <= MAX_CAPTION_CHARS,
        forall|k: int| 0 <= k < caption_chars(s).len() ==> caption_keeps(#[trigger] caption_chars(s)[k]),
    decreases s.len(),
{
    if s.len() > 0 {
        lemma_caption_clean(s.drop_last());
    }
}

} // verus!
