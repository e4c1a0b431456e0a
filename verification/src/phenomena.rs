//! The table of weather-condition codes and the phenomena line built from it.

use vstd::prelude::*;
use vstd::string::*;

verus! {

/// The first code of the cloud-cover family, which the phenomena line leaves
/// to the cloud token.
pub const FIRST_CLOUD_CODE: i32 = 800;

/// The abbreviation that the table holds for `code`, if it holds one.
///
/// Thunderstorms are 200 to 232, drizzle 300 to 321, rain 500 to 531, snow
/// and sleet 600 to 622, obscurations 701 to 781, cloud cover 800 to 804.
pub open spec fn abbreviation_of(code: i32) -> Option<Seq<char>> {
    match code {
        200 => Some("TSRA"@),
        201 => Some("TSRA"@),
        202 => Some("+TSRA"@),
        210 => Some("TS"@),
        211 => Some("TS"@),
        212 => Some("+TS"@),
        221 => Some("TS"@),
        230 => Some("TSRA"@),
        231 => Some("TSRA"@),
        232 => Some("+TSRA"@),
        300 => Some("-DZ"@),
        301 => Some("DZ"@),
        302 => Some("+DZ"@),
        310 => Some("-DZRA"@),
        311 => Some("DZRA"@),
        312 => Some("+DZRA"@),
        313 => Some("SHRA"@),
        314 => Some("+SHRA"@),
        321 => Some("SHRA"@),
        500 => Some("RA"@),
        501 => Some("RA"@),
        502 => Some("+RA"@),
        503 => Some("+RA"@),
        504 => Some("+RA"@),
        511 => Some("FZRA"@),
        520 => Some("-SHRA"@),
        521 => Some("SHRA"@),
        522 => Some("+SHRA"@),
        531 => Some("SHRA"@),
        600 => Some("-SN"@),
        601 => Some("SN"@),
        602 => Some("+SN"@),
        611 => Some("SLT"@),
        612 => Some("-SHSL"@),
        613 => Some("SHSL"@),
        615 => Some("-RASN"@),
        616 => Some("RASN"@),
        620 => Some("-SHSN"@),
        621 => Some("SHSN"@),
        622 => Some("+SHSN"@),
        701 => Some("BR"@),
        711 => Some("FU"@),
        721 => Some("HZ"@),
        731 => Some("DU"@),
        741 => Some("FG"@),
        751 => Some("SA"@),
        761 => Some("DU"@),
        762 => Some("VA"@),
        771 => Some("SQ"@),
        781 => Some("+FC"@),
        800 => Some("CLR"@),
        801 => Some("FEW"@),
        802 => Some("SCT"@),
        803 => Some("BKN"@),
        804 => Some("OVC"@),
        _ => None,
    }
}

/// Looks `code` up in the table.
pub fn abbreviation(code: i32) -> (entry: Option<&'static str>)
    ensures
        entry is Some <==> abbreviation_of(code) is Some,
        entry matches Some(word) ==> abbreviation_of(code) == Some(word@),
{
    match code {
        200 => Some("TSRA"),
        201 => Some("TSRA"),
        202 => Some("+TSRA"),
        210 => Some("TS"),
        211 => Some("TS"),
        212 => Some("+TS"),
        221 => Some("TS"),
        230 => Some("TSRA"),
        231 => Some("TSRA"),
        232 => Some("+TSRA"),
        300 => Some("-DZ"),
        301 => Some("DZ"),
        302 => Some("+DZ"),
        310 => Some("-DZRA"),
        311 => Some("DZRA"),
        312 => Some("+DZRA"),
        313 => Some("SHRA"),
        314 => Some("+SHRA"),
        321 => Some("SHRA"),
        500 => Some("RA"),
        501 => Some("RA"),
        502 => Some("+RA"),
        503 => Some("+RA"),
        504 => Some("+RA"),
        511 => Some("FZRA"),
        520 => Some("-SHRA"),
        521 => Some("SHRA"),
        522 => Some("+SHRA"),
        531 => Some("SHRA"),
        600 => Some("-SN"),
        601 => Some("SN"),
        602 => Some("+SN"),
        611 => Some("SLT"),
        612 => Some("-SHSL"),
        613 => Some("SHSL"),
        615 => Some("-RASN"),
        616 => Some("RASN"),
        620 => Some("-SHSN"),
        621 => Some("SHSN"),
        622 => Some("+SHSN"),
        701 => Some("BR"),
        711 => Some("FU"),
        721 => Some("HZ"),
        731 => Some("DU"),
        741 => Some("FG"),
        751 => Some("SA"),
        761 => Some("DU"),
        762 => Some("VA"),
        771 => Some("SQ"),
        781 => Some("+FC"),
        800 => Some("CLR"),
        801 => Some("FEW"),
        802 => Some("SCT"),
        803 => Some("BKN"),
        804 => Some("OVC"),
        _ => None,
    }
}

/// The abbreviation that the phenomena line shows for `code`: the table's,
/// unless the code is of the cloud-cover family or beyond.
pub open spec fn reported(code: i32) -> Option<Seq<char>> {
    if code < FIRST_CLOUD_CODE {
        abbreviation_of(code)
    } else {
        None
    }
}

/// The abbreviations shown for `codes`, in the order of the codes.
pub open spec fn phenomena_words(codes: Seq<i32>) -> Seq<Seq<char>>
    decreases codes.len(),
{
    if codes.len() == 0 {
        Seq::empty()
    } else {
        match reported(codes.last()) {
            Some(word) => phenomena_words(codes.drop_last()).push(word),
            None => phenomena_words(codes.drop_last()),
        }
    }
}

/// `words` with a single space between neighbours.
pub open spec fn joined(words: Seq<Seq<char>>) -> Seq<char>
    decreases words.len(),
{
    if words.len() == 0 {
        Seq::empty()
    } else if words.len() == 1 {
        words[0]
    } else {
        joined(words.drop_last()) + seq![' '] + words.last()
    }
}

/// The phenomena line of a report.
pub open spec fn phenomena_line(codes: Seq<i32>) -> Seq<char> {
    joined(phenomena_words(codes))
}

/// A code is precipitation or an obscuration: it reduces visibility.
pub open spec fn reduces_visibility(code: i32) -> bool {
    200 <= code < FIRST_CLOUD_CODE
}

/// Some code of `codes` reduces visibility.
pub open spec fn any_reducing(codes: Seq<i32>) -> bool {
    exists|i: int| 0 <= i < codes.len() && reduces_visibility(#[trigger] codes[i])
}

/// Every abbreviation of the table is between two and five characters long
/// and holds no space.
pub proof fn lemma_abbreviation_shape(code: i32)
    requires
        abbreviation_of(code) is Some,
    ensures
        2 <= abbreviation_of(code)->0.len() <= 5,
        !abbreviation_of(code)->0.contains(' '),
{
    reveal_strlit("TSRA");
    reveal_strlit("+TSRA");
    reveal_strlit("TS");
    reveal_strlit("+TS");
    reveal_strlit("-DZ");
    reveal_strlit("DZ");
    reveal_strlit("+DZ");
    reveal_strlit("-DZRA");
    reveal_strlit("DZRA");
    reveal_strlit("+DZRA");
    reveal_strlit("SHRA");
    reveal_strlit("+SHRA");
    reveal_strlit("RA");
    reveal_strlit("+RA");
    reveal_strlit("FZRA");
    reveal_strlit("-SHRA");
    reveal_strlit("-SN");
    reveal_strlit("SN");
    reveal_strlit("+SN");
    reveal_strlit("SLT");
    reveal_strlit("-SHSL");
    reveal_strlit("SHSL");
    reveal_strlit("-RASN");
    reveal_strlit("RASN");
    reveal_strlit("-SHSN");
    reveal_strlit("SHSN");
    reveal_strlit("+SHSN");
    reveal_strlit("BR");
    reveal_strlit("FU");
    reveal_strlit("HZ");
    reveal_strlit("DU");
    reveal_strlit("FG");
    reveal_strlit("SA");
    reveal_strlit("VA");
    reveal_strlit("SQ");
    reveal_strlit("+FC");
    reveal_strlit("CLR");
    reveal_strlit("FEW");
    reveal_strlit("SCT");
    reveal_strlit("BKN");
    reveal_strlit("OVC");
    let word = abbreviation_of(code)->0;
    assert forall|i: int| 0 <= i < word.len() implies word[i] != ' ' by {}
}

/// Every word shown is an abbreviation of the table.
pub proof fn lemma_words_are_abbreviations(codes: Seq<i32>)
    ensures
        forall|i: int|
            0 <= i < phenomena_words(codes).len() ==> exists|code: i32|
                reported(code) == Some(#[trigger] phenomena_words(codes)[i]),
    decreases codes.len(),
{
    if codes.len() > 0 {
        lemma_words_are_abbreviations(codes.drop_last());
        let earlier = phenomena_words(codes.drop_last());
        assert forall|i: int| 0 <= i < phenomena_words(codes).len() implies exists|code: i32|
            reported(code) == Some(#[trigger] phenomena_words(codes)[i]) by {
            if i < earlier.len() {
                assert(phenomena_words(codes)[i] == earlier[i]);
            } else {
                assert(reported(codes.last()) == Some(phenomena_words(codes)[i]));
            }
        }
    }
}

/// The phenomena line is empty exactly when no code is shown.
pub proof fn lemma_line_is_empty_without_words(codes: Seq<i32>)
    ensures
        phenomena_line(codes).len() == 0 <==> phenomena_words(codes).len() == 0,
{
    let words = phenomena_words(codes);
    if words.len() > 0 {
        lemma_words_are_abbreviations(codes);
        let last = words.last();
        let code = choose|code: i32| reported(code) == Some(last);
        lemma_abbreviation_shape(code);
        assert(joined(words).len() >= last.len());
    }
}

/// The words of two code lists in a row are the words of the first followed
/// by the words of the second: the order of the codes is kept.
pub proof fn lemma_words_of_concatenation(front: Seq<i32>, back: Seq<i32>)
    ensures
        phenomena_words(front + back) == phenomena_words(front) + phenomena_words(back),
    decreases back.len(),
{
    if back.len() == 0 {
        assert(front + back =~= front);
        assert(phenomena_words(front) + phenomena_words(back) =~= phenomena_words(front));
    } else {
        lemma_words_of_concatenation(front, back.drop_last());
        assert((front + back).drop_last() =~= front + back.drop_last());
        assert((front + back).last() == back.last());
        match reported(back.last()) {
            Some(word) => {
                assert((phenomena_words(front) + phenomena_words(back.drop_last())).push(word)
                    =~= phenomena_words(front) + phenomena_words(back.drop_last()).push(word));
            },
            None => {},
        }
    }
}

/// A code that the line does not show may be taken out of the list anywhere
/// without changing the words: cloud-cover codes and codes missing from the
/// table are skipped.
pub proof fn lemma_unreported_code_is_skipped(front: Seq<i32>, code: i32, back: Seq<i32>)
    requires
        code >= FIRST_CLOUD_CODE || abbreviation_of(code) is None,
    ensures
        phenomena_words(front + seq![code] + back) == phenomena_words(front + back),
{
    let single = seq![code];
    assert(single.drop_last() =~= Seq::<i32>::empty());
    assert(phenomena_words(single) =~= Seq::<Seq<char>>::empty()) by {
        reveal_with_fuel(phenomena_words, 2);
    }
    lemma_words_of_concatenation(front, single);
    lemma_words_of_concatenation(front + single, back);
    lemma_words_of_concatenation(front, back);
    assert(phenomena_words(front) + phenomena_words(single) =~= phenomena_words(front));
}

} // verus!
