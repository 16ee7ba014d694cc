//! The languages of a record.

use vstd::prelude::*;
use crate::grow::LF;
use crate::table::last_value;
use crate::text::{
    chars_of, extend, same, slice, split, split_once, split_once_text, split_text, string_of,
    trim, trimmed, views,
};

pub mod laws;
pub mod russian;

verus! {

/// The language a record is written in.
#[derive(Debug, PartialEq, Eq, Clone, Copy, Structural)]
pub enum Lang {
    Ru,
    En,
}

impl Default for Lang {
    fn default() -> (lang: Lang)
        ensures
            lang == Lang::Ru,
    {
        Lang::Ru
    }
}

/// `code` is the two letters `first` and `second`, each in either case.
pub open spec fn is_code(
    code: Seq<char>,
    first: char,
    first_upper: char,
    second: char,
    second_upper: char,
) -> bool {
    &&& code.len() == 2
    &&& (code[0] == first || code[0] == first_upper)
    &&& (code[1] == second || code[1] == second_upper)
}

/// The language that `code` names: `ru` or `en` in any letter case, with
/// whitespace around it or not.
pub open spec fn lang_of(code: Seq<char>) -> Option<Lang> {
    let t = trimmed(code);
    if is_code(t, 'r', 'R', 'u', 'U') {
        Some(Lang::Ru)
    } else if is_code(t, 'e', 'E', 'n', 'N') {
        Some(Lang::En)
    } else {
        None
    }
}

/// The name of `lang` as the record format writes it.
pub open spec fn lang_name(lang: Lang) -> Seq<char> {
    match lang {
        Lang::Ru => "Ru"@,
        Lang::En => "En"@,
    }
}

/// The code of `lang` as paths write it.
pub open spec fn lang_code(lang: Lang) -> Seq<char> {
    match lang {
        Lang::Ru => "ru"@,
        Lang::En => "en"@,
    }
}

impl Lang {
    /// Reads a language code. An unknown code comes back as the error, as it
    /// was given.
    pub fn from_str(s: &str) -> (r: Result<Lang, String>)
        ensures
            match r {
                Ok(lang) => lang_of(s@) == Some(lang),
                Err(code) => lang_of(s@).is_none() && code@ == s@,
            },
    {
        let t = trim(&chars_of(s));
        if t.len() == 2 && (t[0] == 'r' || t[0] == 'R') && (t[1] == 'u' || t[1] == 'U') {
            Ok(Lang::Ru)
        } else if t.len() == 2 && (t[0] == 'e' || t[0] == 'E') && (t[1] == 'n' || t[1] == 'N') {
            Ok(Lang::En)
        } else {
            Err(s.to_owned())
        }
    }

    /// The name of the language, as the record format writes it.
    pub fn to_string(&self) -> (name: String)
        ensures
            name@ == lang_name(*self),
    {
        match self {
            Lang::Ru => "Ru".to_owned(),
            Lang::En => "En".to_owned(),
        }
    }

    /// The code of the language, as paths write it.
    pub fn to_lowercase(self) -> (code: String)
        ensures
            code@ == lang_code(self),
    {
        match self {
            Lang::Ru => "ru".to_owned(),
            Lang::En => "en".to_owned(),
        }
    }
}


/// What `str::to_lowercase` makes of a text that is not all ASCII.
pub uninterp spec fn lowercase(s: Seq<char>) -> Seq<char>;

/// `str::to_lowercase` depends on the text alone.
pub assume_specification[ str::to_lowercase ](s: &str) -> (out: String)
    ensures
        out@ == lowercase(s@),
;

/// Every scalar value of `s` is in ASCII.
pub open spec fn is_ascii_text(s: Seq<char>) -> bool {
    forall|i: int| 0 <= i < s.len() ==> s[i] <= '\u{7f}'
}

/// The lower-case letter of an upper-case Latin letter; any other scalar
/// value is left as it is.
pub open spec fn ascii_lower(c: char) -> char {
    if 'A' <= c <= 'Z' {
        (c as u8 + 32) as char
    } else {
        c
    }
}

/// `s` in lower case: letter by letter where `s` is all ASCII.
pub open spec fn lowered(s: Seq<char>) -> Seq<char> {
    if is_ascii_text(s) {
        s.map_values(|c: char| ascii_lower(c))
    } else {
        lowercase(s)
    }
}

/// `s` in lower case.
pub fn lower(s: &str) -> (out: String)
    ensures
        out@ == lowered(s@),
{
    let text = chars_of(s);
    let mut out: Vec<char> = Vec::new();
    let mut i: usize = 0;
    while i < text.len()
        invariant
            i <= text.len(),
            text@ == s@,
            is_ascii_text(s@.take(i as int)),
            out@ == s@.take(i as int).map_values(|c: char| ascii_lower(c)),
        decreases text.len() - i,
    {
        let c = text[i];
        if c > '\u{7f}' {
            return s.to_lowercase();
        }
        let ghost before = out@;
        if 'A' <= c && c <= 'Z' {
            out.push((c as u8 + 32) as char);
        } else {
            out.push(c);
        }
        assert(out@ =~= s@.take(i + 1).map_values(|c: char| ascii_lower(c)));
        i += 1;
    }
    assert(s@.take(text.len() as int) =~= s@);
    string_of(&out)
}

/// `line` without the carriage return at its end, where it has one.
pub open spec fn without_carriage_return(line: Seq<char>) -> Seq<char> {
    if line.len() > 0 && line.last() == '\r' {
        line.drop_last()
    } else {
        line
    }
}

/// All the pieces of `pieces` but the last, each without the carriage
/// return at its end.
pub open spec fn ended_lines(pieces: Seq<Seq<char>>) -> Seq<Seq<char>> {
    Seq::new((pieces.len() - 1) as nat, |i: int| without_carriage_return(pieces[i]))
}

/// The lines of `s`. A line ends at a line feed, which is no part of it, nor
/// is a carriage return just before the line feed. What follows the last
/// line feed is a line unless it is empty.
pub open spec fn lines(s: Seq<char>) -> Seq<Seq<char>> {
    let pieces = split(s, seq![LF]);
    if pieces.last().len() == 0 {
        ended_lines(pieces)
    } else {
        ended_lines(pieces).push(pieces.last())
    }
}

/// The table that the lines `lines` write down: for each line that holds a
/// semicolon, what stands before the first one, and what stands after it.
/// A line without a semicolon is passed over.
pub open spec fn table_of_lines(lines: Seq<Seq<char>>) -> Seq<(Seq<char>, Seq<char>)>
    decreases lines.len(),
{
    if lines.len() == 0 {
        Seq::empty()
    } else {
        match split_once(lines.last(), seq![';']) {
            Some(entry) => table_of_lines(lines.drop_last()).push(entry),
            None => table_of_lines(lines.drop_last()),
        }
    }
}

/// The table that `mapping` writes down, line by line.
pub open spec fn table_of(mapping: Seq<char>) -> Seq<(Seq<char>, Seq<char>)> {
    table_of_lines(lines(mapping))
}

/// What stands for `c` in a slug: what the last line of the table for `c`
/// gives, or `c` itself where the table has no line for it.
pub open spec fn image(table: Seq<(Seq<char>, Seq<char>)>, c: char) -> Seq<char> {
    match last_value(table, seq![c]) {
        Some(value) => value,
        None => seq![c],
    }
}

/// `s` with a hyphen in the place of each space.
pub open spec fn hyphenated(s: Seq<char>) -> Seq<char> {
    s.map_values(
        |c: char|
            if c == ' ' {
                '-'
            } else {
                c
            },
    )
}

/// What stands for `s` in a slug, scalar value by scalar value.
pub open spec fn transliterated(s: Seq<char>, table: Seq<(Seq<char>, Seq<char>)>) -> Seq<char>
    decreases s.len(),
{
    if s.len() == 0 {
        Seq::empty()
    } else {
        transliterated(s.drop_last(), table) + image(table, s.last())
    }
}

/// The slug of the lower-case text `value`: each space becomes a hyphen,
/// each scalar value gives way to what the table holds for it, and the
/// whitespace around the result is taken off.
pub open spec fn slug_of_lowercase(value: Seq<char>, mapping: Seq<char>) -> Seq<char> {
    trimmed(transliterated(hyphenated(value), table_of(mapping)))
}

/// The slug of `value` under the table `mapping`.
pub open spec fn slug_of(value: Seq<char>, mapping: Seq<char>) -> Seq<char> {
    let title = lowered(trimmed(value));
    if title.len() == 0 {
        title
    } else {
        lowered(slug_of_lowercase(title, mapping))
    }
}

/// The lines of `s`.
pub fn lines_of(s: &Vec<char>) -> (out: Vec<Vec<char>>)
    ensures
        views(out@) == lines(s@),
{
    let mut separator: Vec<char> = Vec::new();
    separator.push(LF);
    assert(separator@ =~= seq![LF]);
    let pieces = split_text(s, &separator);
    proof {
        crate::text::laws::lemma_split_is_not_empty(s@, separator@);
    }
    let ghost all = views(pieces@);
    let ghost ended = ended_lines(all);
    let mut out: Vec<Vec<char>> = Vec::new();
    let mut i: usize = 0;
    while i + 1 < pieces.len()
        invariant
            i + 1 <= pieces.len(),
            all == views(pieces@),
            ended == ended_lines(all),
            views(out@) == ended.take(i as int),
        decreases pieces.len() - i,
    {
        let piece = &pieces[i];
        assert(all[i as int] == piece@);
        let ghost before = views(out@);
        if piece.len() > 0 && piece[piece.len() - 1] == '\r' {
            out.push(slice(piece, 0, piece.len() - 1));
            assert(piece@.subrange(0, piece.len() - 1) =~= piece@.drop_last());
        } else {
            out.push(slice(piece, 0, piece.len()));
            assert(piece@.subrange(0, piece.len() as int) =~= piece@);
        }
        assert(views(out@) =~= before.push(ended[i as int]));
        assert(ended.take(i + 1) =~= ended.take(i as int).push(ended[i as int]));
        i += 1;
    }
    assert(ended.take(i as int) =~= ended);
    let last = &pieces[pieces.len() - 1];
    assert(all.last() == last@);
    if last.len() != 0 {
        let ghost before = views(out@);
        out.push(slice(last, 0, last.len()));
        assert(last@.subrange(0, last.len() as int) =~= last@);
        assert(views(out@) =~= before.push(last@));
    }
    out
}

/// The table that `mapping` writes down.
pub fn read_mapping(mapping: &str) -> (table: Vec<(Vec<char>, Vec<char>)>)
    ensures
        entries_of(table@) == table_of(mapping@),
{
    let text = chars_of(mapping);
    let list = lines_of(&text);
    let mut separator: Vec<char> = Vec::new();
    separator.push(';');
    assert(separator@ =~= seq![';']);
    let mut table: Vec<(Vec<char>, Vec<char>)> = Vec::new();
    let mut i: usize = 0;
    assert(entries_of(table@) =~= Seq::empty());
    while i < list.len()
        invariant
            i <= list.len(),
            separator@ == seq![';'],
            views(list@) == lines(mapping@),
            entries_of(table@) == table_of_lines(lines(mapping@).take(i as int)),
        decreases list.len() - i,
    {
        proof {
            assert(views(list@)[i as int] == list@[i as int]@);
            assert(lines(mapping@).take(i + 1).drop_last() =~= lines(mapping@).take(i as int));
        }
        match split_once_text(&list[i], &separator) {
            Some((key, value)) => {
                let ghost before = entries_of(table@);
                table.push((key, value));
                assert(entries_of(table@) =~= before.push((key@, value@)));
            },
            None => {},
        }
        i += 1;
    }
    assert(lines(mapping@).take(list.len() as int) =~= lines(mapping@));
    table
}

/// The views of the entries of a table.
pub open spec fn entries_of(table: Seq<(Vec<char>, Vec<char>)>) -> Seq<(Seq<char>, Seq<char>)> {
    table.map_values(|e: (Vec<char>, Vec<char>)| (e.0@, e.1@))
}

/// What stands for `c` in a slug.
fn image_of(table: &Vec<(Vec<char>, Vec<char>)>, c: char) -> (out: Vec<char>)
    ensures
        out@ == image(entries_of(table@), c),
{
    let mut key: Vec<char> = Vec::new();
    key.push(c);
    assert(key@ =~= seq![c]);
    let mut i: usize = table.len();
    assert(entries_of(table@).take(i as int) =~= entries_of(table@));
    while i > 0
        invariant
            i <= table.len(),
            key@ == seq![c],
            last_value(entries_of(table@), seq![c]) == last_value(
                entries_of(table@).take(i as int),
                seq![c],
            ),
        decreases i,
    {
        proof {
            assert(entries_of(table@).take(i as int).drop_last() =~= entries_of(table@).take(
                i - 1,
            ));
        }
        if same(&table[i - 1].0, &key) {
            return slice(&table[i - 1].1, 0, table[i - 1].1.len());
        }
        i -= 1;
    }
    key
}

/// The slug of the lower-case text `value` under the table `mapping`.
pub fn transliterate(value: &str, mapping: &str) -> (out: String)
    ensures
        out@ == slug_of_lowercase(value@, mapping@),
{
    let text = chars_of(value);
    let table = read_mapping(mapping);
    let mut out: Vec<char> = Vec::new();
    let mut i: usize = 0;
    let ghost source = hyphenated(value@);
    while i < text.len()
        invariant
            i <= text.len(),
            text@ == value@,
            source == hyphenated(value@),
            entries_of(table@) == table_of(mapping@),
            out@ == transliterated(source.take(i as int), table_of(mapping@)),
        decreases text.len() - i,
    {
        proof {
            assert(source.take(i + 1).drop_last() =~= source.take(i as int));
        }
        let c = if text[i] == ' ' {
            '-'
        } else {
            text[i]
        };
        extend(&mut out, &image_of(&table, c));
        i += 1;
    }
    assert(source.take(text.len() as int) =~= source);
    string_of(&trim(&out))
}

/// The slug of a title: the title in lower case and without the whitespace
/// around it, each space a hyphen, each scalar value given way to what the
/// table `mapping` holds for it. An empty title has an empty slug.
pub fn slugify(value: &str, mapping: &str) -> (slug: String)
    ensures
        slug@ == slug_of(value@, mapping@),
{
    let title = lower(string_of(&trim(&chars_of(value))).as_str());
    if title.as_str().unicode_len() == 0 {
        return title;
    }
    lower(transliterate(title.as_str(), mapping).as_str())
}

} // verus!
