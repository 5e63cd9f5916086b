//! Plain text and source files.

use vstd::prelude::*;

use super::ThumbnailGenerator;
use crate::strutil::{from_chars, lossy_text, str_eq, to_chars, utf8_lossy};

verus! {

/// The extensions that are shown as text.
pub open spec fn is_text_extension(extension: Seq<char>) -> bool {
    ||| extension == "txt"@
    ||| extension == "rs"@
    ||| extension == "json"@
    ||| extension == "toml"@
    ||| extension == "md"@
    ||| extension == "xml"@
    ||| extension == "log"@
    ||| extension == "ini"@
    ||| extension == "cfg"@
    ||| extension == "yaml"@
    ||| extension == "yml"@
}

pub struct TextGenerator;

impl ThumbnailGenerator for TextGenerator {
    /// The extension is one of the text extensions; the content is not looked at.
    open spec fn accepts(&self, header: Seq<u8>, extension: Seq<char>) -> bool {
        is_text_extension(extension)
    }

    open spec fn recognizes(&self, header: Seq<u8>) -> bool {
        false
    }

    open spec fn label(&self) -> Seq<char> {
        "Text Renderer"@
    }

    fn name(&self) -> (n: &str) {
        "Text Renderer"
    }

    fn validate(&self, header: &[u8], extension: &str) -> (ok: bool) {
        str_eq(extension, "txt") || str_eq(extension, "rs") || str_eq(extension, "json")
            || str_eq(extension, "toml") || str_eq(extension, "md") || str_eq(extension, "xml")
            || str_eq(extension, "log") || str_eq(extension, "ini") || str_eq(extension, "cfg")
            || str_eq(extension, "yaml") || str_eq(extension, "yml")
    }

    fn sniff(&self, header: &[u8]) -> (yes: bool) {
        false
    }
}

/// The height of a line of text, in pixels.
pub const LINE_HEIGHT: i32 = 12;

/// The width that is reckoned for one byte of text, in pixels.
pub const BYTE_WIDTH: i32 = 6;

/// One line of text to draw, and the place of its left upper corner.
pub struct TextLine {
    pub x: i64,
    pub y: i64,
    pub text: String,
}

/// The number of bytes that a character takes in UTF-8.
pub open spec fn utf8_width(c: char) -> int {
    if (c as u32) < 0x80 {
        1
    } else if (c as u32) < 0x800 {
        2
    } else if (c as u32) < 0x10000 {
        3
    } else {
        4
    }
}

/// The number of bytes that a text takes in UTF-8.
pub open spec fn utf8_len(text: Seq<char>) -> int
    decreases text.len(),
{
    if text.len() == 0 {
        0
    } else {
        utf8_len(text.drop_last()) + utf8_width(text.last())
    }
}

/// The number of characters of the longest start of `text` that takes at
/// most `limit` bytes in UTF-8.
pub open spec fn fitting_chars(text: Seq<char>, limit: int) -> int
    decreases text.len(),
{
    if text.len() == 0 {
        0
    } else if utf8_len(text) <= limit {
        text.len() as int
    } else {
        fitting_chars(text.drop_last(), limit)
    }
}

/// A line cut to at most `limit` bytes. The cut never falls inside a
/// character: a character that does not fit whole is left out.
pub open spec fn cut_line(line: Seq<char>, limit: int) -> Seq<char> {
    line.take(fitting_chars(line, limit))
}

/// The lines of a text. A line ends before a line feed; a carriage return
/// just before the line feed belongs to the ending. What stands after the
/// last line feed is a line too, unless it is empty.
pub open spec fn lines_of(text: Seq<char>) -> Seq<Seq<char>>
    decreases text.len(),
{
    if text.len() == 0 {
        Seq::empty()
    } else {
        let n = line_end(text);
        let line = without_return(text.take(n), n < text.len());
        if 0 <= n < text.len() {
            seq![line] + lines_of(text.skip(n + 1))
        } else {
            seq![line]
        }
    }
}

/// The place of the first line feed in `text`, or the length of `text`
/// where it holds none.
pub open spec fn line_end(text: Seq<char>) -> int
    decreases text.len(),
{
    if text.len() == 0 || text[0] == '\n' {
        0
    } else {
        1 + line_end(text.drop_first())
    }
}

/// A line without the carriage return at its end, where it is followed by a
/// line feed.
pub open spec fn without_return(line: Seq<char>, fed: bool) -> Seq<char> {
    if fed && line.len() > 0 && line.last() == '\r' {
        line.drop_last()
    } else {
        line
    }
}

/// How many lines are drawn on an image that is `height` pixels high with
/// the margin `margin_y` above and below the text: one fewer than would
/// fit, and none where the margins leave no room.
pub open spec fn text_room(height: u32, margin_y: i32) -> int {
    let content_height = height - 2 * margin_y;
    if content_height < 2 * LINE_HEIGHT {
        0
    } else {
        content_height / (LINE_HEIGHT as int) - 1
    }
}

/// How many bytes of a line are drawn on an image that is `width` pixels
/// wide with the margin `margin_x` left and right of the text.
pub open spec fn text_limit(width: u32, margin_x: i32) -> int {
    let content_width = width - 2 * margin_x;
    if content_width < 0 {
        0
    } else {
        content_width / (BYTE_WIDTH as int)
    }
}

/// The lines that are drawn for `text` on an image of `width` by `height`
/// pixels with the margins given: line `i` of the text, cut to the width of
/// the text area, at `LINE_HEIGHT` times `i` below the upper margin. Lines
/// that do not fit into the height of the text area are left out.
pub open spec fn laid_out(
    lines: Seq<TextLine>,
    text: Seq<char>,
    width: u32,
    height: u32,
    margin_x: i32,
    margin_y: i32,
) -> bool {
    let all = lines_of(text);
    let room = text_room(height, margin_y);
    let limit = text_limit(width, margin_x);
    &&& lines.len() == (if all.len() <= room {
        all.len() as int
    } else {
        room
    })
    &&& forall|i: int|
        0 <= i < lines.len() ==> {
            &&& (#[trigger] lines[i]).x == margin_x
            &&& lines[i].y == margin_y + LINE_HEIGHT * i
            &&& lines[i].text@ == cut_line(all[i], limit)
        }
}

/// The length in UTF-8 grows with the text.
pub proof fn lemma_utf8_len_grows(text: Seq<char>, k: int)
    requires
        0 <= k <= text.len(),
    ensures
        0 <= utf8_len(text.take(k)) <= utf8_len(text),
        k < text.len() ==> utf8_len(text.take(k)) < utf8_len(text),
    decreases text.len(),
{
    if text.len() == 0 {
        assert(text.take(k) =~= text);
    } else if k == text.len() {
        assert(text.take(k) =~= text);
        lemma_utf8_len_grows(text.drop_last(), k - 1);
    } else {
        assert(text.drop_last().take(k) =~= text.take(k));
        lemma_utf8_len_grows(text.drop_last(), k);
    }
}

/// Where the first `k` characters fit and either no character follows or
/// the next does not fit any more, `k` characters are kept.
pub proof fn lemma_fitting_chars(text: Seq<char>, limit: int, k: int)
    requires
        0 <= k <= text.len(),
        utf8_len(text.take(k)) <= limit,
        k == text.len() || utf8_len(text.take(k + 1)) > limit,
    ensures
        fitting_chars(text, limit) == k,
    decreases text.len(),
{
    if text.len() == 0 {
    } else if k == text.len() {
        assert(text.take(k) =~= text);
    } else {
        lemma_utf8_len_grows(text, k + 1);
        assert(text.drop_last().take(k) =~= text.take(k));
        if k + 1 < text.len() {
            assert(text.drop_last().take(k + 1) =~= text.take(k + 1));
        } else {
            assert(text.take(k + 1) =~= text);
        }
        lemma_fitting_chars(text.drop_last(), limit, k);
    }
}

/// Where the first `n` characters hold no line feed, the line does not end
/// before place `n`; it ends there where the text ends there or a line feed
/// stands there.
pub proof fn lemma_line_end(text: Seq<char>, n: int)
    requires
        0 <= n <= text.len(),
        forall|j: int| 0 <= j < n ==> text[j] != '\n',
        n == text.len() || text[n] == '\n',
    ensures
        line_end(text) == n,
    decreases n,
{
    if n > 0 {
        assert(text[0] != '\n');
        let rest = text.drop_first();
        assert forall|j: int| 0 <= j < n - 1 implies rest[j] != '\n' by {
            assert(rest[j] == text[j + 1]);
        }
        if n < text.len() {
            assert(rest[n - 1] == text[n]);
        }
        lemma_line_end(rest, n - 1);
    }
}

/// Cuts a line to at most `limit` bytes, at a character boundary.
fn cut(line: &[char], limit: u64) -> (kept: String)
    ensures
        kept@ == cut_line(line@, limit as int),
{
    let mut used: u64 = 0;
    let mut k: usize = 0;
    proof {
        assert(line@.take(0) =~= Seq::<char>::empty());
    }
    while k < line.len()
        invariant
            k <= line.len(),
            used == utf8_len(line@.take(k as int)),
            used <= limit,
        decreases line.len() - k,
    {
        let c: char = line[k];
        let code: u32 = c as u32;
        let width: u64 = if code < 0x80 {
            1
        } else if code < 0x800 {
            2
        } else if code < 0x10000 {
            3
        } else {
            4
        };
        proof {
            assert(line@.take(k + 1).drop_last() =~= line@.take(k as int));
            assert(line@.take(k + 1).last() == c);
        }
        if width > limit - used {
            proof {
                lemma_fitting_chars(line@, limit as int, k as int);
            }
            let (head, _) = line.split_at(k);
            assert(head@ =~= line@.take(k as int));
            return from_chars(head);
        }
        used = used + width;
        k += 1;
    }
    proof {
        lemma_fitting_chars(line@, limit as int, k as int);
        assert(line@.take(k as int) =~= line@);
    }
    from_chars(line)
}

impl TextGenerator {
    /// Lays out the text of a file with the content `buffer`, read as UTF-8
    /// with every invalid part replaced.
    pub fn generate(
        &self,
        buffer: &[u8],
        width: u32,
        height: u32,
        margin_x: i32,
        margin_y: i32,
    ) -> (lines: Vec<TextLine>)
        ensures
            laid_out(lines@, utf8_lossy(buffer@), width, height, margin_x, margin_y),
    {
        let text = lossy_text(buffer);
        Self::layout(text.as_str(), width, height, margin_x, margin_y)
    }

    /// Lays the text out for an image of `width` by `height` pixels, with
    /// the margins `margin_x` left and right and `margin_y` above and below.
    /// The result names, for each line that is drawn, its text and its
    /// place; the drawing itself is left to the caller.
    pub fn layout(text: &str, width: u32, height: u32, margin_x: i32, margin_y: i32) -> (lines:
        Vec<TextLine>)
        ensures
            laid_out(lines@, text@, width, height, margin_x, margin_y),
    {
        let chars = to_chars(text);
        let content_height: i64 = height as i64 - 2 * (margin_y as i64);
        let content_width: i64 = width as i64 - 2 * (margin_x as i64);
        let room: i64 = if content_height < 24 {
            0
        } else {
            content_height / 12 - 1
        };
        let limit: u64 = if content_width < 0 {
            0
        } else {
            (content_width / 6) as u64
        };
        assert(room == text_room(height, margin_y));
        assert(limit == text_limit(width, margin_x));
        let ghost all = lines_of(text@);
        let mut lines: Vec<TextLine> = Vec::new();
        let n: usize = chars.len();
        let mut start: usize = 0;
        let mut i: usize = 0;
        proof {
            assert(chars@.skip(0) =~= chars@);
        }
        while i < n && (lines.len() as i64) < room
            invariant
                start <= i <= n,
                n == chars@.len(),
                chars@ == text@,
                all == lines_of(text@),
                0 <= room <= 0x1_0000_0000,
                lines@.len() <= room,
                forall|j: int| start <= j < i ==> chars@[j] != '\n',
                all =~= all.take(lines@.len() as int) + lines_of(chars@.skip(start as int)),
                lines@.len() <= all.len(),
                forall|k: int|
                    0 <= k < lines@.len() ==> {
                        &&& (#[trigger] lines@[k]).x == margin_x
                        &&& lines@[k].y == margin_y + LINE_HEIGHT * k
                        &&& lines@[k].text@ == cut_line(all[k], limit as int)
                    },
            decreases n - i,
        {
            if chars[i] == '\n' {
                let ghost rest = chars@.skip(start as int);
                let ghost done = lines@.len() as int;
                let ghost before = lines@;
                proof {
                    assert forall|j: int| 0 <= j < i - start implies rest[j] != '\n' by {
                        assert(rest[j] == chars@[start + j]);
                    }
                    assert(rest[i - start] == chars@[i as int]);
                    lemma_line_end(rest, i - start);
                    assert(rest.skip(i - start + 1) =~= chars@.skip(i + 1));
                    assert(rest.take(i - start) =~= chars@.subrange(start as int, i as int));
                    assert(lines_of(rest) =~= seq![without_return(rest.take(i - start), true)]
                        + lines_of(chars@.skip(i + 1)));
                    assert(all[done] == without_return(rest.take(i - start), true));
                    assert(all.take(done + 1) =~= all.take(done).push(all[done]));
                }
                let end: usize = if i > start && chars[i - 1] == '\r' {
                    i - 1
                } else {
                    i
                };
                let (head, _) = chars.as_slice().split_at(end);
                let (_, line) = head.split_at(start);
                assert(line@ =~= without_return(rest.take(i - start), true));
                let y: i64 = margin_y as i64 + 12 * (lines.len() as i64);
                lines.push(TextLine { x: margin_x as i64, y, text: cut(line, limit) });
                proof {
                    assert forall|k: int| 0 <= k < lines@.len() implies {
                        &&& (#[trigger] lines@[k]).x == margin_x
                        &&& lines@[k].y == margin_y + LINE_HEIGHT * k
                        &&& lines@[k].text@ == cut_line(all[k], limit as int)
                    } by {
                        if k < done {
                            assert(lines@[k] == before[k]);
                        }
                    }
                }
                start = i + 1;
            }
            i += 1;
        }
        let ghost rest = chars@.skip(start as int);
        let ghost done = lines@.len() as int;
        if i == n && start < n && (lines.len() as i64) < room {
            let ghost before = lines@;
            proof {
                assert forall|j: int| 0 <= j < n - start implies rest[j] != '\n' by {
                    assert(rest[j] == chars@[start + j]);
                }
                lemma_line_end(rest, n - start);
                assert(rest.take(n - start) =~= rest);
                assert(lines_of(rest) =~= seq![rest]);
                assert(all[done] == rest);
                assert(all.len() == done + 1);
            }
            let (_, line) = chars.as_slice().split_at(start);
            assert(line@ =~= rest);
            let y: i64 = margin_y as i64 + 12 * (lines.len() as i64);
            lines.push(TextLine { x: margin_x as i64, y, text: cut(line, limit) });
            proof {
                assert forall|k: int| 0 <= k < lines@.len() implies {
                    &&& (#[trigger] lines@[k]).x == margin_x
                    &&& lines@[k].y == margin_y + LINE_HEIGHT * k
                    &&& lines@[k].text@ == cut_line(all[k], limit as int)
                } by {
                    if k < done {
                        assert(lines@[k] == before[k]);
                    }
                }
            }
        } else if i == n && start == n {
            assert(rest.len() == 0);
            assert(lines_of(rest).len() == 0);
            assert(all.len() == done);
        } else {
            assert(done == room);
        }
        lines
    }
}

} // verus!
