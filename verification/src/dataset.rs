//! The framing of the dataset file: one labeled prompt per line.

use crate::text::blank;
use crate::text::lemma_trimmed_empty;
use vstd::prelude::*;
use vstd::slice::slice_subrange;
use vstd::utf8::char_is_scalar;
use vstd::utf8::decode_utf8;
use vstd::utf8::encode_scalar;
use vstd::utf8::encode_utf8;
use vstd::utf8::encode_utf8_decode_utf8;
use vstd::utf8::encode_utf8_valid_utf8;
use vstd::utf8::valid_utf8;

verus! {

/// The byte that ends a line.
pub const NEWLINE: u8 = 10;

/// The byte that may stand before the one that ends a line.
pub const RETURN: u8 = 13;

/// A line of the file that holds a row, with its number, counted from one.
#[derive(Debug)]
pub struct Entry {
    pub number: usize,
    pub text: String,
}

/// A line with its number, as mathematical values.
#[verifier::ext_equal]
pub struct EntryView {
    pub number: nat,
    pub text: Seq<char>,
}

impl View for Entry {
    type V = EntryView;

    open spec fn view(&self) -> EntryView {
        EntryView { number: self.number as nat, text: self.text@ }
    }
}

/// The file cut into its rows: those up to the first line that is not text,
/// and the number of that line, if there is one.
#[derive(Debug)]
pub struct Framed {
    pub entries: Vec<Entry>,
    pub broken: Option<usize>,
}

/// A file cut into its rows, as mathematical values.
#[verifier::ext_equal]
pub struct FramedView {
    pub entries: Seq<EntryView>,
    pub broken: Option<nat>,
}

impl View for Framed {
    type V = FramedView;

    open spec fn view(&self) -> FramedView {
        FramedView {
            entries: self.entries@.map_values(|e: Entry| e@),
            broken: match self.broken {
                Some(n) => Some(n as nat),
                None => None,
            },
        }
    }
}

/// Where the first line of `bytes` ends: at its first newline, or at the end.
pub open spec fn line_end(bytes: Seq<u8>) -> nat
    decreases bytes.len(),
{
    if bytes.len() == 0 || bytes[0] == NEWLINE {
        0
    } else {
        1 + line_end(bytes.drop_first())
    }
}

/// `line` without a carriage return at its end.
pub open spec fn without_return(line: Seq<u8>) -> Seq<u8> {
    if line.len() > 0 && line.last() == RETURN {
        line.drop_last()
    } else {
        line
    }
}

/// The lines of `bytes`, without the newline that ends each, or the carriage
/// return and the newline. Bytes after the last newline are a line too.
pub open spec fn lines_in(bytes: Seq<u8>) -> Seq<Seq<u8>>
    decreases bytes.len(),
{
    let end = line_end(bytes);
    if bytes.len() == 0 {
        Seq::empty()
    } else if end >= bytes.len() {
        seq![bytes]
    } else {
        seq![without_return(bytes.take(end as int))] + lines_in(bytes.skip(end as int + 1))
    }
}

/// The rows that `lines` hold, where the first of them has the number
/// `number`. Blank lines hold none, and the first line that is not UTF-8 ends
/// the reading.
pub open spec fn frame(lines: Seq<Seq<u8>>, number: nat) -> FramedView
    decreases lines.len(),
{
    if lines.len() == 0 {
        FramedView { entries: Seq::empty(), broken: None }
    } else if !valid_utf8(lines[0]) {
        FramedView { entries: Seq::empty(), broken: Some(number) }
    } else {
        let text = decode_utf8(lines[0]);
        let rest = frame(lines.drop_first(), number + 1);
        if blank(text) {
            rest
        } else {
            FramedView {
                entries: seq![EntryView { number, text }] + rest.entries,
                broken: rest.broken,
            }
        }
    }
}

/// The rows of a file with these bytes.
pub open spec fn rows_in(bytes: Seq<u8>) -> FramedView {
    frame(lines_in(bytes), 1)
}

/// Cuts the bytes of the file into its rows, oldest first.
pub fn split_rows(bytes: &[u8]) -> (r: Framed)
    ensures
        r@ == rows_in(bytes@),
{
    let mut entries: Vec<Entry> = Vec::new();
    let mut start: usize = 0;
    let mut number: usize = 0;
    assert(bytes@.skip(0) =~= bytes@);
    assert(entries@.map_values(|e: Entry| e@) =~= Seq::empty());
    while start < bytes.len()
        invariant
            start <= bytes@.len(),
            number <= start,
            rows_in(bytes@).entries == entries@.map_values(|e: Entry| e@) + frame(
                lines_in(bytes@.skip(start as int)),
                (number + 1) as nat,
            ).entries,
            rows_in(bytes@).broken == frame(
                lines_in(bytes@.skip(start as int)),
                (number + 1) as nat,
            ).broken,
        decreases bytes@.len() - start,
    {
        let ghost rest = bytes@.skip(start as int);
        let ghost lines = lines_in(rest);
        let ghost before = entries@;
        let mut end: usize = start;
        assert(bytes@.skip(end as int) =~= rest);
        while end < bytes.len() && bytes[end] != NEWLINE
            invariant
                start <= end <= bytes@.len(),
                rest == bytes@.skip(start as int),
                line_end(rest) == (end - start) + line_end(bytes@.skip(end as int)),
            decreases bytes@.len() - end,
        {
            proof {
                assert(bytes@.skip(end as int).drop_first() =~= bytes@.skip(end + 1));
            }
            end = end + 1;
        }
        assert(line_end(rest) == end - start);
        let stop: usize = if end < bytes.len() && end > start && bytes[end - 1] == RETURN {
            end - 1
        } else {
            end
        };
        let line: &[u8] = slice_subrange(bytes, start, stop);
        let next: usize = if end < bytes.len() {
            end + 1
        } else {
            end
        };
        proof {
            if end < bytes@.len() {
                assert(rest.take(end - start) =~= bytes@.subrange(start as int, end as int));
                assert(line@ =~= without_return(rest.take(end - start)));
                assert(rest.skip(end - start + 1) =~= bytes@.skip(next as int));
            } else {
                assert(line@ =~= rest);
                assert(bytes@.skip(next as int) =~= Seq::empty());
            }
            assert(lines[0] == line@);
            assert(lines.drop_first() =~= lines_in(bytes@.skip(next as int)));
        }
        number = number + 1;
        match std::str::from_utf8(line) {
            Err(_) => {
                proof {
                    assert(entries@.map_values(|e: Entry| e@) + Seq::<EntryView>::empty() =~= entries@.map_values(|e: Entry| e@));
                }
                return Framed { entries, broken: Some(number) };
            },
            Ok(text) => {
                proof {
                    lemma_trimmed_empty(text@);
                }
                if !text.trim().is_empty() {
                    let entry = Entry { number, text: text.to_owned() };
                    let ghost added = entry@;
                    entries.push(entry);
                    proof {
                        let tail = frame(lines.drop_first(), (number + 1) as nat).entries;
                        assert(entries@.map_values(|e: Entry| e@) =~= before.map_values(|e: Entry| e@).push(added));
                        assert(before.map_values(|e: Entry| e@) + (seq![added] + tail) =~= before.map_values(|e: Entry| e@).push(added) + tail);
                    }
                }
            },
        }
        start = next;
    }
    proof {
        assert(bytes@.skip(start as int) =~= Seq::empty());
        assert(entries@.map_values(|e: Entry| e@) + Seq::<EntryView>::empty() =~= entries@.map_values(|e: Entry| e@));
    }
    Framed { entries, broken: None }
}

/// The text that is appended to the file for one row.
pub fn row_line(line: &str) -> (r: String)
    ensures
        r@ == line@.push('\n'),
{
    let mut text: String = line.to_owned();
    text.append("\n");
    proof {
        reveal_strlit("\n");
        assert(text@ =~= line@.push('\n'));
    }
    text
}

/// What is read back of a row is what was appended: on a file that is empty or
/// ends with a newline, and all of which is text, appending a row leaves the
/// earlier rows as they were and adds this one at the end, with the number of
/// its line. The row is any text that is not blank, holds no newline and does
/// not end with a carriage return. What is added holds one newline, at its end,
/// so that the next row can be appended in the same way. An empty file holds no
/// rows, as a missing one does.
pub proof fn law_appended_row_is_read_back(bytes: Seq<u8>, line: Seq<char>)
    requires
        bytes.len() == 0 || bytes.last() == NEWLINE,
        rows_in(bytes).broken is None,
        !line.contains('\n'),
        !blank(line),
        line.last() != '\r',
    ensures
        rows_in(bytes + encode_utf8(line.push('\n'))) == (FramedView {
            entries: rows_in(bytes).entries.push(
                EntryView { number: lines_in(bytes).len() + 1, text: line },
            ),
            broken: None,
        }),
        encode_utf8(line.push('\n')).last() == NEWLINE,
        !encode_utf8(line.push('\n')).drop_last().contains(NEWLINE),
        bytes.len() == 0 ==> rows_in(bytes) == (FramedView {
            entries: Seq::empty(),
            broken: None,
        }),
{
    let encoded = encode_utf8(line);
    lemma_encode_push(line);
    assert(encoded.push(NEWLINE).drop_last() =~= encoded);
    lemma_encoded_bytes(line);
    encode_utf8_valid_utf8(line);
    encode_utf8_decode_utf8(line);
    lemma_one_line(encoded);
    lemma_lines_concat(bytes, encoded.push(NEWLINE));
    let lines = lines_in(bytes);
    lemma_frame_concat(lines, seq![encoded], 1);
    assert(seq![encoded].drop_first() =~= Seq::empty());
    assert(frame(seq![encoded].drop_first(), lines.len() + 2).entries =~= Seq::empty());
    let entry = EntryView { number: lines.len() + 1, text: line };
    assert(frame(seq![encoded], lines.len() + 1).entries =~= seq![entry]);
    assert(rows_in(bytes).entries + seq![entry] =~= rows_in(bytes).entries.push(entry));
    assert(bytes + encode_utf8(line.push('\n')) =~= bytes + encoded.push(NEWLINE));
}

/// A line that is not text hides what follows: whatever is put behind complete
/// lines with such a line among them, nothing more is read.
pub proof fn law_broken_line_hides_what_follows(bytes: Seq<u8>, more: Seq<u8>)
    requires
        bytes.len() == 0 || bytes.last() == NEWLINE,
        rows_in(bytes).broken is Some,
    ensures
        rows_in(bytes + more) == rows_in(bytes),
{
    lemma_lines_concat(bytes, more);
    lemma_frame_concat(lines_in(bytes), lines_in(more), 1);
}

/// What is put behind complete lines leaves the rows in them as they were.
pub proof fn law_rows_stay_in_front(bytes: Seq<u8>, more: Seq<u8>)
    requires
        bytes.len() == 0 || bytes.last() == NEWLINE,
    ensures
        rows_in(bytes).entries.is_prefix_of(rows_in(bytes + more).entries),
{
    lemma_lines_concat(bytes, more);
    lemma_frame_concat(lines_in(bytes), lines_in(more), 1);
}

/// The encoding of a text and of its last newline.
proof fn lemma_encode_push(line: Seq<char>)
    ensures
        encode_utf8(line.push('\n')) == encode_utf8(line).push(NEWLINE),
    decreases line.len(),
{
    let longer = line.push('\n');
    if line.len() == 0 {
        assert(longer.drop_first() =~= Seq::empty());
        assert(encode_utf8(longer.drop_first()) =~= Seq::empty());
        assert((10u32 & 0x7F) as u8 == 10) by (bit_vector);
        assert(encode_utf8(longer) =~= seq![NEWLINE]);
        assert(encode_utf8(line).push(NEWLINE) =~= seq![NEWLINE]);
    } else {
        lemma_encode_push(line.drop_first());
        assert(longer.drop_first() =~= line.drop_first().push('\n'));
        assert(encode_utf8(longer) =~= encode_utf8(line).push(NEWLINE));
    }
}

/// The control characters among the bytes of an encoded text are those of the
/// text itself.
proof fn lemma_encoded_bytes(line: Seq<char>)
    requires
        !line.contains('\n'),
    ensures
        !encode_utf8(line).contains(NEWLINE),
        encode_utf8(line).len() >= line.len(),
        line.len() > 0 && line.last() != '\r' ==> encode_utf8(line).last() != RETURN,
    decreases line.len(),
{
    if line.len() > 0 {
        let c = line[0];
        let rest = line.drop_first();
        assert(line.contains(c));
        assert forall|x: char| rest.contains(x) implies line.contains(x) by {
            let i = choose|i: int| 0 <= i < rest.len() && rest[i] == x;
            assert(line[i + 1] == x);
        }
        lemma_encoded_bytes(rest);
        lemma_encoded_scalar(c);
        let head = encode_scalar(c as u32);
        let tail = encode_utf8(rest);
        assert(encode_utf8(line) == head + tail);
        assert forall|i: int| 0 <= i < (head + tail).len() implies (head + tail)[i] != NEWLINE by {
            if i >= head.len() {
                assert((head + tail)[i] == tail[i - head.len()]);
                assert(tail.contains(tail[i - head.len()]));
            }
        }
        if line.last() != '\r' {
            if rest.len() == 0 {
                assert(tail =~= Seq::empty());
                assert(head + tail =~= head);
            } else {
                assert(rest.last() == line.last());
                assert((head + tail).last() == tail.last());
            }
        }
    }
}

/// The control bytes in the encoding of one character.
proof fn lemma_encoded_scalar(c: char)
    ensures
        encode_scalar(c as u32).len() >= 1,
        c != '\n' ==> forall|i: int|
            0 <= i < encode_scalar(c as u32).len() ==> #[trigger] encode_scalar(c as u32)[i] != NEWLINE,
        c != '\r' ==> encode_scalar(c as u32).last() != RETURN,
{
    char_is_scalar(c);
    let v = c as u32;
    assert(v <= 0x7f ==> (v & 0x7F) as u8 == v) by (bit_vector);
    assert(0xC0 | ((v >> 6) & 0x1F) as u8 >= 0x80) by (bit_vector);
    assert(0xE0 | ((v >> 12) & 0x0F) as u8 >= 0x80) by (bit_vector);
    assert(0xF0 | ((v >> 18) & 0x7) as u8 >= 0x80) by (bit_vector);
    assert(0x80 | (v & 0x3F) as u8 >= 0x80) by (bit_vector);
    assert(0x80 | ((v >> 6) & 0x3F) as u8 >= 0x80) by (bit_vector);
    assert(0x80 | ((v >> 12) & 0x3F) as u8 >= 0x80) by (bit_vector);
}

/// Where a line without newlines ends.
proof fn lemma_line_end(line: Seq<u8>, rest: Seq<u8>)
    requires
        !line.contains(NEWLINE),
        rest.len() == 0 || rest[0] == NEWLINE,
    ensures
        line_end(line + rest) == line.len(),
    decreases line.len(),
{
    if line.len() == 0 {
        assert(line + rest =~= rest);
    } else {
        assert(line.contains(line[0]));
        assert forall|x: u8| line.drop_first().contains(x) implies line.contains(x) by {
            let i = choose|i: int| 0 <= i < line.drop_first().len() && line.drop_first()[i] == x;
            assert(line[i + 1] == x);
        }
        lemma_line_end(line.drop_first(), rest);
        assert((line + rest).drop_first() =~= line.drop_first() + rest);
    }
}

/// What `line_end` finds.
proof fn lemma_line_end_found(bytes: Seq<u8>)
    ensures
        line_end(bytes) <= bytes.len(),
        line_end(bytes) < bytes.len() ==> bytes[line_end(bytes) as int] == NEWLINE,
        !bytes.take(line_end(bytes) as int).contains(NEWLINE),
    decreases bytes.len(),
{
    if bytes.len() > 0 && bytes[0] != NEWLINE {
        let rest = bytes.drop_first();
        lemma_line_end_found(rest);
        let n = line_end(rest) as int;
        assert forall|i: int| 0 <= i < n + 1 implies #[trigger] bytes.take(n + 1)[i] != NEWLINE by {
            if i > 0 {
                assert(rest.take(n)[i - 1] == bytes[i]);
                assert(rest.take(n).contains(rest.take(n)[i - 1]));
            }
        }
    }
}

/// The lines of bytes behind complete lines come after those.
proof fn lemma_lines_concat(bytes: Seq<u8>, more: Seq<u8>)
    requires
        bytes.len() == 0 || bytes.last() == NEWLINE,
    ensures
        lines_in(bytes + more) == lines_in(bytes) + lines_in(more),
    decreases bytes.len(),
{
    let longer = bytes + more;
    if bytes.len() == 0 {
        assert(longer =~= more);
        assert(lines_in(bytes) + lines_in(more) =~= lines_in(more));
    } else {
        lemma_line_end_found(bytes);
        let end = line_end(bytes) as int;
        if end == bytes.len() {
            assert(bytes.take(end) =~= bytes);
            assert(bytes.contains(bytes.last()));
        }
        let rest = bytes.skip(end + 1);
        lemma_line_end(bytes.take(end), longer.skip(end));
        assert(bytes.take(end) + longer.skip(end) =~= longer);
        assert(longer.take(end) =~= bytes.take(end));
        assert(longer.skip(end + 1) =~= rest + more);
        lemma_lines_concat(rest, more);
        assert(lines_in(longer) =~= lines_in(bytes) + lines_in(more));
    }
}

/// A line and its newline are one line.
proof fn lemma_one_line(line: Seq<u8>)
    requires
        !line.contains(NEWLINE),
        line.len() > 0,
        line.last() != RETURN,
    ensures
        lines_in(line.push(NEWLINE)) == seq![line],
{
    let ended = line.push(NEWLINE);
    let n = line.len() as int;
    lemma_line_end(line, seq![NEWLINE]);
    assert(ended =~= line + seq![NEWLINE]);
    assert(ended.take(n) =~= line);
    assert(ended.skip(n + 1) =~= Seq::empty());
    assert(lines_in(ended.skip(n + 1)) =~= Seq::empty());
    assert(lines_in(ended) =~= seq![line]);
}

/// Framing goes on behind text lines where it stopped.
proof fn lemma_frame_concat(a: Seq<Seq<u8>>, b: Seq<Seq<u8>>, number: nat)
    ensures
        frame(a, number).broken is Some ==> frame(a + b, number) == frame(a, number),
        frame(a, number).broken is None ==> frame(a + b, number) == (FramedView {
            entries: frame(a, number).entries + frame(b, number + a.len()).entries,
            broken: frame(b, number + a.len()).broken,
        }),
    decreases a.len(),
{
    if a.len() == 0 {
        assert(a + b =~= b);
        assert(frame(a, number).entries + frame(b, number).entries =~= frame(b, number).entries);
    } else if valid_utf8(a[0]) {
        lemma_frame_concat(a.drop_first(), b, number + 1);
        assert((a + b).drop_first() =~= a.drop_first() + b);
        assert((a + b)[0] == a[0]);
        let whole = frame(a + b, number);
        let tail = frame(b, number + a.len());
        if frame(a, number).broken is None {
            assert(whole.entries =~= frame(a, number).entries + tail.entries);
        }
    } else {
        assert((a + b)[0] == a[0]);
    }
}

/// The bytes of `pieces`, each with a newline behind it.
pub open spec fn joined(pieces: Seq<Seq<u8>>) -> Seq<u8>
    decreases pieces.len(),
{
    if pieces.len() == 0 {
        Seq::empty()
    } else {
        pieces[0] + seq![10u8] + joined(pieces.drop_first())
    }
}

/// `bytes` are `pieces`, each with a newline behind it, and then `last`; and there
/// is no other newline among them.
pub open spec fn is_cut(bytes: Seq<u8>, pieces: Seq<Seq<u8>>, last: Seq<u8>) -> bool {
    &&& bytes == joined(pieces) + last
    &&& forall|i: int| 0 <= i < pieces.len() ==> !(#[trigger] pieces[i]).contains(10u8)
    &&& !last.contains(10u8)
}

/// How many lines there are: what is behind the last newline is one too, unless
/// it is empty.
pub open spec fn line_count(pieces: Seq<Seq<u8>>, last: Seq<u8>) -> nat {
    if last.len() > 0 {
        pieces.len() + 1
    } else {
        pieces.len()
    }
}

/// The line at `i`: a carriage return in front of the newline is not part of it.
pub open spec fn line_at(pieces: Seq<Seq<u8>>, last: Seq<u8>, i: int) -> Seq<u8> {
    if i >= pieces.len() {
        last
    } else if pieces[i].len() > 0 && pieces[i].last() == 13u8 {
        pieces[i].drop_last()
    } else {
        pieces[i]
    }
}

/// `found` and `broken` are what is read of the lines, with the number of the
/// first: the reading stops at the first line that is not UTF-8, and `broken` is
/// the number of that; and every line in front of it that is not blank is found,
/// in its order, with its number and its text.
pub open spec fn is_read(
    found: Seq<EntryView>,
    broken: Option<nat>,
    lines: Seq<Seq<u8>>,
    number: nat,
) -> bool {
    let stop: int = match broken {
        Some(n) => n - number,
        None => lines.len() as int,
    };
    &&& 0 <= stop <= lines.len()
    &&& broken is Some ==> stop < lines.len() && !valid_utf8(lines[stop])
    &&& forall|i: int| 0 <= i < stop ==> valid_utf8(#[trigger] lines[i])
    &&& forall|j: int|
        0 <= j < found.len() ==> {
            &&& number <= (#[trigger] found[j]).number < number + stop
            &&& found[j].text == decode_utf8(lines[found[j].number - number])
            &&& !blank(found[j].text)
        }
    &&& forall|j: int, k: int|
        0 <= j < k < found.len() ==> (#[trigger] found[j]).number < (#[trigger] found[k]).number
    &&& forall|i: int|
        0 <= i < stop && !blank(decode_utf8(#[trigger] lines[i])) ==> exists|j: int|
            0 <= j < found.len() && (#[trigger] found[j]).number == number + i
}

/// Framing reads the lines.
proof fn lemma_frame(lines: Seq<Seq<u8>>, number: nat)
    ensures
        is_read(frame(lines, number).entries, frame(lines, number).broken, lines, number),
    decreases lines.len(),
{
    if lines.len() > 0 && valid_utf8(lines[0]) {
        let tail = lines.drop_first();
        lemma_frame(tail, number + 1);
        let rest = frame(tail, number + 1);
        let all = frame(lines, number);
        let text = decode_utf8(lines[0]);
        let own: int = if blank(text) {
            0
        } else {
            1
        };
        let stop: int = match all.broken {
            Some(n) => n - number,
            None => lines.len() as int,
        };
        assert(all.broken == rest.broken);
        assert forall|i: int| 0 <= i < stop implies valid_utf8(#[trigger] lines[i]) by {
            if i > 0 {
                assert(tail[i - 1] == lines[i]);
            }
        }
        if all.broken is Some {
            assert(tail[stop - 1] == lines[stop]);
        }
        assert forall|j: int| own <= j < all.entries.len() implies #[trigger] all.entries[j]
            == rest.entries[j - own] by {
        }
        assert forall|j: int| 0 <= j < all.entries.len() implies {
            &&& number <= (#[trigger] all.entries[j]).number < number + stop
            &&& all.entries[j].text == decode_utf8(lines[all.entries[j].number - number])
            &&& !blank(all.entries[j].text)
        } by {
            if j >= own {
                let e = rest.entries[j - own];
                assert(tail[e.number - (number + 1)] == lines[e.number - number]);
            }
        }
        assert forall|j: int, k: int| 0 <= j < k < all.entries.len() implies (
        #[trigger] all.entries[j]).number < (#[trigger] all.entries[k]).number by {
            assert(all.entries[k] == rest.entries[k - own]);
            if j >= own {
                assert(all.entries[j] == rest.entries[j - own]);
            }
        }
        assert forall|i: int| 0 <= i < stop && !blank(decode_utf8(#[trigger] lines[i])) implies exists|
            j: int,
        |
            0 <= j < all.entries.len() && (#[trigger] all.entries[j]).number == number + i by {
            if i == 0 {
                assert(all.entries[0].number == number);
            } else {
                assert(tail[i - 1] == lines[i]);
                let j = choose|j: int|
                    0 <= j < rest.entries.len() && (#[trigger] rest.entries[j]).number == number + 1
                        + (i - 1);
                assert(all.entries[j + own] == rest.entries[j]);
            }
        }
    }
}

/// The lines of a file that is cut are the lines of the cut.
proof fn lemma_cut_lines(bytes: Seq<u8>, pieces: Seq<Seq<u8>>, last: Seq<u8>)
    requires
        is_cut(bytes, pieces, last),
    ensures
        lines_in(bytes) == Seq::new(
            line_count(pieces, last),
            |i: int| line_at(pieces, last, i),
        ),
    decreases pieces.len(),
{
    let wanted = Seq::new(line_count(pieces, last), |i: int| line_at(pieces, last, i));
    if pieces.len() == 0 {
        assert(bytes =~= last);
        if last.len() > 0 {
            lemma_line_end(last, Seq::empty());
            assert(last + Seq::<u8>::empty() =~= last);
        }
        assert(lines_in(bytes) =~= wanted);
    } else {
        let head = pieces[0];
        let tail = pieces.drop_first();
        let rest = joined(tail) + last;
        let n = head.len() as int;
        assert(bytes =~= head + (seq![10u8] + rest));
        lemma_line_end(head, seq![10u8] + rest);
        assert(bytes.take(n) =~= head);
        assert(bytes.skip(n + 1) =~= rest);
        assert forall|i: int| 0 <= i < tail.len() implies !(#[trigger] tail[i]).contains(10u8) by {
            assert(tail[i] == pieces[i + 1]);
        }
        lemma_cut_lines(rest, tail, last);
        assert(lines_in(bytes) =~= wanted) by {
            assert forall|i: int| 0 <= i < wanted.len() implies lines_in(bytes)[i] == wanted[i] by {
                if i > 0 {
                    assert(lines_in(bytes)[i] == lines_in(rest)[i - 1]);
                }
            }
        }
    }
}

/// What is read of a file, line by line. The file is any that is made of these
/// pieces, each with a newline behind it, and of what is behind the last newline.
pub proof fn law_split_rows(bytes: &[u8], pieces: Seq<Seq<u8>>, last: Seq<u8>, r: Framed)
    requires
        call_ensures(split_rows, (bytes,), r),
        is_cut(bytes@, pieces, last),
    ensures
        ({
            let n = line_count(pieces, last) as int;
            let stop: int = match r.broken {
                Some(number) => number - 1,
                None => n,
            };
            &&& 0 <= stop <= n
            &&& r.broken is Some ==> stop < n && !valid_utf8(line_at(pieces, last, stop))
            &&& forall|i: int| 0 <= i < stop ==> valid_utf8(#[trigger] line_at(pieces, last, i))
            &&& forall|j: int|
                0 <= j < r.entries@.len() ==> {
                    &&& 1 <= (#[trigger] r.entries@[j]).number <= stop
                    &&& r.entries@[j].text@ == decode_utf8(
                        line_at(pieces, last, r.entries@[j].number - 1),
                    )
                    &&& !blank(r.entries@[j].text@)
                }
            &&& forall|j: int, k: int|
                0 <= j < k < r.entries@.len() ==> (#[trigger] r.entries@[j]).number < (
                #[trigger] r.entries@[k]).number
            &&& forall|i: int|
                0 <= i < stop && !blank(decode_utf8(#[trigger] line_at(pieces, last, i)))
                    ==> exists|j: int|
                    0 <= j < r.entries@.len() && (#[trigger] r.entries@[j]).number == i + 1
        }),
{
    lemma_cut_lines(bytes@, pieces, last);
    let lines = lines_in(bytes@);
    lemma_frame(lines, 1);
    let found = rows_in(bytes@).entries;
    assert(r@ == rows_in(bytes@));
    let n = line_count(pieces, last) as int;
    let stop: int = match r.broken {
        Some(number) => number - 1,
        None => n,
    };
    assert(found.len() == r.entries@.len());
    assert forall|j: int| 0 <= j < found.len() implies #[trigger] found[j] == r.entries@[j]@ by {
    }
    assert forall|i: int| 0 <= i < n implies #[trigger] lines[i] == line_at(pieces, last, i) by {
    }
    assert forall|i: int| 0 <= i < stop implies valid_utf8(#[trigger] line_at(pieces, last, i)) by {
        assert(valid_utf8(lines[i]));
    }
    assert forall|j: int| 0 <= j < r.entries@.len() implies {
        &&& 1 <= (#[trigger] r.entries@[j]).number <= stop
        &&& r.entries@[j].text@ == decode_utf8(line_at(pieces, last, r.entries@[j].number - 1))
        &&& !blank(r.entries@[j].text@)
    } by {
        assert(found[j] == r.entries@[j]@);
    }
    assert forall|j: int, k: int| 0 <= j < k < r.entries@.len() implies (
    #[trigger] r.entries@[j]).number < (#[trigger] r.entries@[k]).number by {
        assert(found[j].number < found[k].number);
    }
    assert forall|i: int|
        0 <= i < stop && !blank(decode_utf8(#[trigger] line_at(pieces, last, i))) implies exists|
        j: int,
    |
        0 <= j < r.entries@.len() && (#[trigger] r.entries@[j]).number == i + 1 by {
        assert(lines[i] == line_at(pieces, last, i));
        let j = choose|j: int| 0 <= j < found.len() && (#[trigger] found[j]).number == 1 + i;
        assert(r.entries@[j].number == i + 1);
    }
}

/// Every file is made of such pieces and of what is behind the last newline.
pub proof fn law_every_file_is_cut(bytes: Seq<u8>) -> (r: (Seq<Seq<u8>>, Seq<u8>))
    ensures
        is_cut(bytes, r.0, r.1),
    decreases bytes.len(),
{
    lemma_line_end_found(bytes);
    let end = line_end(bytes) as int;
    if end == bytes.len() {
        assert(bytes.take(end) =~= bytes);
        assert(joined(Seq::empty()) =~= Seq::<u8>::empty());
        assert(joined(Seq::empty()) + bytes =~= bytes);
        (Seq::empty(), bytes)
    } else {
        let head = bytes.take(end);
        let rest = bytes.skip(end + 1);
        let cut = law_every_file_is_cut(rest);
        let pieces = seq![head] + cut.0;
        assert(pieces.drop_first() =~= cut.0);
        assert(bytes =~= head + seq![10u8] + rest);
        assert(head + seq![10u8] + (joined(cut.0) + cut.1) =~= head + seq![10u8] + joined(cut.0)
            + cut.1);
        assert forall|i: int| 0 <= i < pieces.len() implies !(#[trigger] pieces[i]).contains(10u8) by {
            if i > 0 {
                assert(pieces[i] == cut.0[i - 1]);
            }
        }
        (pieces, cut.1)
    }
}

/// What is appended for a row: its text and one newline.
pub proof fn law_row_line(line: &str, r: String)
    requires
        call_ensures(row_line, (line,), r),
    ensures
        r@.len() == line@.len() + 1,
        forall|i: int| 0 <= i < line@.len() ==> #[trigger] r@[i] == line@[i],
        r@[line@.len() as int] as u32 == 10,
{
}

} // verus!
