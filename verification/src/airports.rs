//! Looking an airport up in a table of comma-separated lines.
//!
//! The table holds one airport to a line: its identifier, its latitude and
//! its longitude. Lines that begin with two slashes and blank lines are
//! passed over, and so is the first of the other lines, which names the
//! columns.

use crate::text::{chars_of, text_of};
use vstd::prelude::*;

verus! {

/// The pieces of `text` between the occurrences of `separator`: one more
/// than there are occurrences.
pub open spec fn split_on(text: Seq<char>, separator: char) -> Seq<Seq<char>>
    decreases text.len(),
{
    if text.len() == 0 {
        seq![Seq::empty()]
    } else {
        let before = split_on(text.drop_last(), separator);
        if text.last() == separator {
            before.push(Seq::empty())
        } else {
            before.drop_last().push(before.last().push(text.last()))
        }
    }
}

/// `line` without a carriage return at its end.
pub open spec fn without_carriage_return(line: Seq<char>) -> Seq<char> {
    if line.len() > 0 && line.last() == '\r' {
        line.drop_last()
    } else {
        line
    }
}

/// The lines of `text`. A line ends at a line feed, and a carriage return
/// just before the line feed belongs to the line ending. What follows the
/// last line feed is a line too unless it is empty.
pub open spec fn lines_of(text: Seq<char>) -> Seq<Seq<char>> {
    let pieces = split_on(text, '\n');
    let ended = Seq::new(
        (pieces.len() - 1) as nat,
        |i: int| without_carriage_return(pieces[i]),
    );
    if pieces.last().len() == 0 {
        ended
    } else {
        ended.push(pieces.last())
    }
}

/// Whether `ch` is white space in Unicode.
pub open spec fn is_white_space(ch: char) -> bool {
    let code = ch as u32;
    ||| 0x09 <= code <= 0x0d
    ||| code == 0x20
    ||| code == 0x85
    ||| code == 0xa0
    ||| code == 0x1680
    ||| 0x2000 <= code <= 0x200a
    ||| code == 0x2028
    ||| code == 0x2029
    ||| code == 0x202f
    ||| code == 0x205f
    ||| code == 0x3000
}

/// Whether `line` holds nothing but white space.
pub open spec fn is_blank(line: Seq<char>) -> bool {
    forall|i: int| 0 <= i < line.len() ==> is_white_space(#[trigger] line[i])
}

/// Whether `line` begins with two slashes.
pub open spec fn is_comment(line: Seq<char>) -> bool {
    line.len() >= 2 && line[0] == '/' && line[1] == '/'
}

/// Whether `line` belongs to the table: it is neither a comment nor blank.
pub open spec fn is_record(line: Seq<char>) -> bool {
    !is_comment(line) && !is_blank(line)
}

/// The lines of `lines` that belong to the table, in their order.
pub open spec fn records_of(lines: Seq<Seq<char>>) -> Seq<Seq<char>>
    decreases lines.len(),
{
    if lines.len() == 0 {
        Seq::empty()
    } else if is_record(lines.last()) {
        records_of(lines.drop_last()).push(lines.last())
    } else {
        records_of(lines.drop_last())
    }
}

/// `ch` with a capital letter of the ASCII alphabet turned into the small one.
pub open spec fn ascii_lower(ch: char) -> char {
    if 'A' <= ch <= 'Z' {
        ((ch as u32) + 32) as char
    } else {
        ch
    }
}

/// Whether two texts are the same but for the case of ASCII letters.
pub open spec fn same_ignoring_ascii_case(left: Seq<char>, right: Seq<char>) -> bool {
    &&& left.len() == right.len()
    &&& forall|i: int| 0 <= i < left.len() ==> ascii_lower(#[trigger] left[i]) == ascii_lower(right[i])
}

/// Whether a record is about the airport `icao`: it has three fields or
/// more, the first of them `icao` in any case of letters.
pub open spec fn names_airport(record: Seq<char>, icao: Seq<char>) -> bool {
    let fields = split_on(record, ',');
    fields.len() >= 3 && same_ignoring_ascii_case(fields[0], icao)
}

/// The second and third field of every record of `records` that is about the
/// airport `icao`, in the order of the records.
pub open spec fn coordinates_in(records: Seq<Seq<char>>, icao: Seq<char>) -> Seq<
    (Seq<char>, Seq<char>),
>
    decreases records.len(),
{
    if records.len() == 0 {
        Seq::empty()
    } else {
        let before = coordinates_in(records.drop_last(), icao);
        let fields = split_on(records.last(), ',');
        if names_airport(records.last(), icao) {
            before.push((fields[1], fields[2]))
        } else {
            before
        }
    }
}

/// The records of a table after the one that names the columns.
pub open spec fn airport_records(table: Seq<char>) -> Seq<Seq<char>> {
    let records = records_of(lines_of(table));
    if records.len() == 0 {
        records
    } else {
        records.drop_first()
    }
}

/// The latitude and longitude, as written, of every record of `table` that
/// is about the airport `icao`.
pub open spec fn airport_coordinates(table: Seq<char>, icao: Seq<char>) -> Seq<
    (Seq<char>, Seq<char>),
> {
    coordinates_in(airport_records(table), icao)
}

/// A latitude and a longitude as a table writes them.
#[derive(Clone, Debug)]
pub struct Coordinates {
    pub latitude: String,
    pub longitude: String,
}

impl Coordinates {
    /// The two texts.
    pub open spec fn texts(self) -> (Seq<char>, Seq<char>) {
        (self.latitude@, self.longitude@)
    }
}

/// The texts of each of `found`.
pub open spec fn texts_of(found: Seq<Coordinates>) -> Seq<(Seq<char>, Seq<char>)> {
    Seq::new(found.len(), |i: int| found[i].texts())
}

/// The views of each of `pieces`.
pub open spec fn views_of(pieces: Seq<Vec<char>>) -> Seq<Seq<char>> {
    Seq::new(pieces.len(), |i: int| pieces[i]@)
}

/// Whether `ch` is white space in Unicode.
pub fn white_space(ch: char) -> (white: bool)
    ensures
        white == is_white_space(ch),
{
    let code = ch as u32;
    (0x09 <= code && code <= 0x0d) || code == 0x20 || code == 0x85 || code == 0xa0 || code
        == 0x1680 || (0x2000 <= code && code <= 0x200a) || code == 0x2028 || code == 0x2029
        || code == 0x202f || code == 0x205f || code == 0x3000
}

/// Splits `text` at every occurrence of `separator`.
pub fn split(text: &[char], separator: char) -> (pieces: Vec<Vec<char>>)
    ensures
        views_of(pieces@) == split_on(text@, separator),
        pieces@.len() >= 1,
{
    let mut pieces: Vec<Vec<char>> = Vec::new();
    let mut piece: Vec<char> = Vec::new();
    let mut at: usize = 0;
    assert(text@.take(0) =~= Seq::<char>::empty());
    assert(views_of(pieces@).push(piece@) =~= seq![Seq::<char>::empty()]);
    while at < text.len()
        invariant
            at <= text.len(),
            views_of(pieces@).push(piece@) == split_on(text@.take(at as int), separator),
        decreases text.len() - at,
    {
        let ch = text[at];
        proof {
            let upto = text@.take(at as int + 1);
            assert(upto.drop_last() =~= text@.take(at as int));
            assert(upto.last() == ch);
            let before = split_on(text@.take(at as int), separator);
            assert(before.last() == piece@);
            assert(before.drop_last() =~= views_of(pieces@));
        }
        if ch == separator {
            let ghost earlier = pieces@;
            let ghost done = piece@;
            pieces.push(piece);
            piece = Vec::new();
            assert(views_of(pieces@) =~= views_of(earlier).push(done));
        } else {
            piece.push(ch);
        }
        at = at + 1;
    }
    proof {
        assert(text@.take(at as int) =~= text@);
    }
    let ghost earlier = pieces@;
    let ghost done = piece@;
    pieces.push(piece);
    assert(views_of(pieces@) =~= views_of(earlier).push(done));
    pieces
}

/// The lines of `text`.
pub fn lines(text: &[char]) -> (found: Vec<Vec<char>>)
    ensures
        views_of(found@) == lines_of(text@),
{
    let mut pieces = split(text, '\n');
    let ghost all = views_of(pieces@);
    let last = pieces.pop().unwrap();
    assert(views_of(pieces@) =~= all.drop_last());
    assert(last@ == all.last());
    let mut found: Vec<Vec<char>> = Vec::new();
    let mut at: usize = 0;
    while at < pieces.len()
        invariant
            at <= pieces.len(),
            all.len() == pieces.len() + 1,
            views_of(pieces@) == all.drop_last(),
            found@.len() == at,
            forall|i: int| 0 <= i < at ==> (#[trigger] found@[i])@ == without_carriage_return(all[i]),
        decreases pieces.len() - at,
    {
        let piece = &pieces[at];
        assert(piece@ == views_of(pieces@)[at as int]);
        let len = piece.len();
        let mut line: Vec<char> = Vec::new();
        let keep: usize = if len > 0 && piece[len - 1] == '\r' { len - 1 } else { len };
        let mut copied: usize = 0;
        while copied < keep
            invariant
                copied <= keep <= piece.len(),
                line@ == piece@.take(copied as int),
            decreases keep - copied,
        {
            line.push(piece[copied]);
            copied = copied + 1;
        }
        assert(line@ =~= without_carriage_return(piece@));
        assert(piece@ == all[at as int]);
        found.push(line);
        at = at + 1;
    }
    if last.len() > 0 {
        found.push(last);
    }
    assert(views_of(found@) =~= lines_of(text@));
    found
}

/// Whether `line` holds nothing but white space.
pub fn blank(line: &[char]) -> (all_white: bool)
    ensures
        all_white == is_blank(line@),
{
    let mut at: usize = 0;
    while at < line.len()
        invariant
            at <= line.len(),
            forall|i: int| 0 <= i < at ==> is_white_space(#[trigger] line@[i]),
        decreases line.len() - at,
    {
        if !white_space(line[at]) {
            return false;
        }
        at = at + 1;
    }
    true
}

/// Whether `line` belongs to the table.
pub fn record(line: &[char]) -> (belongs: bool)
    ensures
        belongs == is_record(line@),
{
    let comment = line.len() >= 2 && line[0] == '/' && line[1] == '/';
    !comment && !blank(line)
}

/// `ch` with a capital letter of the ASCII alphabet turned into the small one.
pub fn lower(ch: char) -> (small: char)
    ensures
        small == ascii_lower(ch),
{
    if 'A' <= ch && ch <= 'Z' {
        ((ch as u8) + 32) as char
    } else {
        ch
    }
}

/// Whether two texts are the same but for the case of ASCII letters.
pub fn same_but_for_case(left: &[char], right: &[char]) -> (same: bool)
    ensures
        same == same_ignoring_ascii_case(left@, right@),
{
    if left.len() != right.len() {
        return false;
    }
    let mut at: usize = 0;
    while at < left.len()
        invariant
            at <= left.len(),
            left.len() == right.len(),
            forall|i: int| 0 <= i < at ==> ascii_lower(#[trigger] left@[i]) == ascii_lower(right@[i]),
        decreases left.len() - at,
    {
        if lower(left[at]) != lower(right[at]) {
            return false;
        }
        at = at + 1;
    }
    true
}

/// Finds the airport `icao` in `table`: the latitude and longitude, as
/// written, of every record about it, in the order of the records.
pub fn find_airport(table: &str, icao: &str) -> (found: Vec<Coordinates>)
    ensures
        texts_of(found@) == airport_coordinates(table@, icao@),
{
    let table_chars = chars_of(table);
    let wanted = chars_of(icao);
    let all = lines(table_chars.as_slice());
    let mut found: Vec<Coordinates> = Vec::new();
    let mut header_seen = false;
    let mut at: usize = 0;
    let ghost everything = views_of(all@);
    assert(everything.take(0) =~= Seq::<Seq<char>>::empty());
    while at < all.len()
        invariant
            at <= all.len(),
            everything == views_of(all@),
            header_seen == (records_of(everything.take(at as int)).len() > 0),
            texts_of(found@) == coordinates_in(
                if header_seen {
                    records_of(everything.take(at as int)).drop_first()
                } else {
                    Seq::empty()
                },
                wanted@,
            ),
        decreases all.len() - at,
    {
        let line = &all[at];
        proof {
            let upto = everything.take(at as int + 1);
            assert(upto.drop_last() =~= everything.take(at as int));
            assert(upto.last() == line@);
        }
        let ghost before = records_of(everything.take(at as int));
        if record(line.as_slice()) {
            if !header_seen {
                header_seen = true;
                assert(before.push(line@).drop_first() =~= Seq::<Seq<char>>::empty());
            } else {
                proof {
                    assert(before.push(line@).drop_first() =~= before.drop_first().push(line@));
                    assert(before.drop_first().push(line@).drop_last() =~= before.drop_first());
                }
                let fields = split(line.as_slice(), ',');
                assert(forall|i: int| 0 <= i < fields@.len() ==> (#[trigger] fields@[i])@ == views_of(fields@)[i]);
                if fields.len() >= 3 && same_but_for_case(fields[0].as_slice(), wanted.as_slice()) {
                    let ghost earlier = found@;
                    let entry = Coordinates {
                        latitude: text_of(fields[1].as_slice()),
                        longitude: text_of(fields[2].as_slice()),
                    };
                    found.push(entry);
                    assert(texts_of(found@) =~= texts_of(earlier).push(entry.texts()));
                }
            }
        }
        at = at + 1;
    }
    proof {
        assert(everything.take(at as int) =~= everything);
    }
    found
}

} // verus!
