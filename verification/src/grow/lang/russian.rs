//! The table of the crate: what it writes for each scalar value.

use vstd::prelude::*;
use crate::grow::{LF, RU_EN_MAPPING};
use crate::grow::lang::{
    ended_lines, image, lines, lowered, slug_of, table_of, table_of_lines, transliterated,
    without_carriage_return,
};
use crate::grow::lang::laws::{
    are_separators, interleaved, is_slug_letter, is_slug_text, is_slug_word, lemma_slug_of_title,
};
use crate::grow::post::is_slug;
use crate::table::last_value;
use crate::text::{join, occurs_at, split, trimmed};
use crate::text::laws::{is_free_of, lemma_occurs_one, lemma_split_join, lemma_split_once};

verus! {

/// The scalar values that the table has a line for, line by line.
pub open spec fn table_keys() -> Seq<char> {
    seq![
        'а',
        'б',
        'в',
        'г',
        'д',
        'е',
        'ё',
        'ж',
        'з',
        'и',
        'й',
        'к',
        'л',
        'м',
        'н',
        'о',
        'п',
        'р',
        'с',
        'т',
        'у',
        'ф',
        'х',
        'ц',
        'ч',
        'ш',
        'щ',
        'ъ',
        'ы',
        'ь',
        'э',
        'ю',
        'я',
        ',',
        '!',
        '?',
        '#',
        '$',
        '@',
        '*',
        '%',
        '^',
    ]
}

/// What the table writes for each of its scalar values, line by line.
pub open spec fn table_values() -> Seq<Seq<char>> {
    seq![
        seq!['a'],
        seq!['b'],
        seq!['v'],
        seq!['g'],
        seq!['d'],
        seq!['e'],
        seq!['e'],
        seq!['z', 'h'],
        seq!['z'],
        seq!['i'],
        seq!['i'],
        seq!['k'],
        seq!['l'],
        seq!['m'],
        seq!['n'],
        seq!['o'],
        seq!['p'],
        seq!['r'],
        seq!['s'],
        seq!['t'],
        seq!['u'],
        seq!['f'],
        seq!['k', 'h'],
        seq!['t', 's'],
        seq!['c', 'h'],
        seq!['s', 'h'],
        seq!['s', 'h', 'c', 'h'],
        Seq::empty(),
        seq!['y'],
        Seq::empty(),
        seq!['e'],
        seq!['i', 'u'],
        seq!['i', 'a'],
        Seq::empty(),
        Seq::empty(),
        Seq::empty(),
        Seq::empty(),
        Seq::empty(),
        Seq::empty(),
        Seq::empty(),
        Seq::empty(),
        Seq::empty(),
    ]
}

/// The `i`-th line of the table.
pub open spec fn table_line(i: int) -> Seq<char> {
    seq![table_keys()[i]] + seq![';'] + table_values()[i]
}

/// The lines of the table.
pub open spec fn table_lines() -> Seq<Seq<char>> {
    Seq::new(42, |i: int| table_line(i))
}

/// The first `n` lines of the table, with a line feed between each two.
pub open spec fn table_text(n: int) -> Seq<char>
    decreases n,
{
    if n <= 0 {
        Seq::empty()
    } else if n == 1 {
        table_line(0)
    } else {
        table_text(n - 1) + seq!['\n'] + table_line(n - 1)
    }
}


/// The first 7 lines of the table.
proof fn lemma_table_text_7()
    ensures
        table_text(7) == "а;a\nб;b\nв;v\nг;g\nд;d\nе;e\nё;e"@,
{
    reveal_strlit("а;a\nб;b\nв;v\nг;g\nд;d\nе;e\nё;e");
    assert(table_line(0) =~= seq!['а', ';', 'a']);
    assert(table_line(1) =~= seq!['б', ';', 'b']);
    assert(table_line(2) =~= seq!['в', ';', 'v']);
    assert(table_line(3) =~= seq!['г', ';', 'g']);
    assert(table_line(4) =~= seq!['д', ';', 'd']);
    assert(table_line(5) =~= seq!['е', ';', 'e']);
    assert(table_line(6) =~= seq!['ё', ';', 'e']);
    reveal_with_fuel(table_text, 8);
    assert(table_text(7) =~= "а;a\nб;b\nв;v\nг;g\nд;d\nе;e\nё;e"@);
}

/// The first 14 lines of the table.
proof fn lemma_table_text_14()
    ensures
        table_text(14) == "а;a\nб;b\nв;v\nг;g\nд;d\nе;e\nё;e\nж;zh\nз;z\nи;i\nй;i\nк;k\nл;l\nм;m"@,
{
    lemma_table_text_7();
    reveal_strlit("а;a\nб;b\nв;v\nг;g\nд;d\nе;e\nё;e");
    reveal_strlit("а;a\nб;b\nв;v\nг;g\nд;d\nе;e\nё;e\nж;zh\nз;z\nи;i\nй;i\nк;k\nл;l\nм;m");
    assert(table_line(7) =~= seq!['ж', ';', 'z', 'h']);
    assert(table_line(8) =~= seq!['з', ';', 'z']);
    assert(table_line(9) =~= seq!['и', ';', 'i']);
    assert(table_line(10) =~= seq!['й', ';', 'i']);
    assert(table_line(11) =~= seq!['к', ';', 'k']);
    assert(table_line(12) =~= seq!['л', ';', 'l']);
    assert(table_line(13) =~= seq!['м', ';', 'm']);
    reveal_with_fuel(table_text, 8);
    assert(table_text(14) =~= "а;a\nб;b\nв;v\nг;g\nд;d\nе;e\nё;e\nж;zh\nз;z\nи;i\nй;i\nк;k\nл;l\nм;m"@);
}

/// The first 21 lines of the table.
proof fn lemma_table_text_21()
    ensures
        table_text(21) == "а;a\nб;b\nв;v\nг;g\nд;d\nе;e\nё;e\nж;zh\nз;z\nи;i\nй;i\nк;k\nл;l\nм;m\nн;n\nо;o\nп;p\nр;r\nс;s\nт;t\nу;u"@,
{
    lemma_table_text_14();
    reveal_strlit("а;a\nб;b\nв;v\nг;g\nд;d\nе;e\nё;e\nж;zh\nз;z\nи;i\nй;i\nк;k\nл;l\nм;m");
    reveal_strlit("а;a\nб;b\nв;v\nг;g\nд;d\nе;e\nё;e\nж;zh\nз;z\nи;i\nй;i\nк;k\nл;l\nм;m\nн;n\nо;o\nп;p\nр;r\nс;s\nт;t\nу;u");
    assert(table_line(14) =~= seq!['н', ';', 'n']);
    assert(table_line(15) =~= seq!['о', ';', 'o']);
    assert(table_line(16) =~= seq!['п', ';', 'p']);
    assert(table_line(17) =~= seq!['р', ';', 'r']);
    assert(table_line(18) =~= seq!['с', ';', 's']);
    assert(table_line(19) =~= seq!['т', ';', 't']);
    assert(table_line(20) =~= seq!['у', ';', 'u']);
    reveal_with_fuel(table_text, 8);
    assert(table_text(21) =~= "а;a\nб;b\nв;v\nг;g\nд;d\nе;e\nё;e\nж;zh\nз;z\nи;i\nй;i\nк;k\nл;l\nм;m\nн;n\nо;o\nп;p\nр;r\nс;s\nт;t\nу;u"@);
}

/// The first 28 lines of the table.
proof fn lemma_table_text_28()
    ensures
        table_text(28) == "а;a\nб;b\nв;v\nг;g\nд;d\nе;e\nё;e\nж;zh\nз;z\nи;i\nй;i\nк;k\nл;l\nм;m\nн;n\nо;o\nп;p\nр;r\nс;s\nт;t\nу;u\nф;f\nх;kh\nц;ts\nч;ch\nш;sh\nщ;shch\nъ;"@,
{
    lemma_table_text_21();
    reveal_strlit("а;a\nб;b\nв;v\nг;g\nд;d\nе;e\nё;e\nж;zh\nз;z\nи;i\nй;i\nк;k\nл;l\nм;m\nн;n\nо;o\nп;p\nр;r\nс;s\nт;t\nу;u");
    reveal_strlit("а;a\nб;b\nв;v\nг;g\nд;d\nе;e\nё;e\nж;zh\nз;z\nи;i\nй;i\nк;k\nл;l\nм;m\nн;n\nо;o\nп;p\nр;r\nс;s\nт;t\nу;u\nф;f\nх;kh\nц;ts\nч;ch\nш;sh\nщ;shch\nъ;");
    assert(table_line(21) =~= seq!['ф', ';', 'f']);
    assert(table_line(22) =~= seq!['х', ';', 'k', 'h']);
    assert(table_line(23) =~= seq!['ц', ';', 't', 's']);
    assert(table_line(24) =~= seq!['ч', ';', 'c', 'h']);
    assert(table_line(25) =~= seq!['ш', ';', 's', 'h']);
    assert(table_line(26) =~= seq!['щ', ';', 's', 'h', 'c', 'h']);
    assert(table_line(27) =~= seq!['ъ', ';']);
    reveal_with_fuel(table_text, 8);
    assert(table_text(28) =~= "а;a\nб;b\nв;v\nг;g\nд;d\nе;e\nё;e\nж;zh\nз;z\nи;i\nй;i\nк;k\nл;l\nм;m\nн;n\nо;o\nп;p\nр;r\nс;s\nт;t\nу;u\nф;f\nх;kh\nц;ts\nч;ch\nш;sh\nщ;shch\nъ;"@);
}

/// The first 35 lines of the table.
proof fn lemma_table_text_35()
    ensures
        table_text(35) == "а;a\nб;b\nв;v\nг;g\nд;d\nе;e\nё;e\nж;zh\nз;z\nи;i\nй;i\nк;k\nл;l\nм;m\nн;n\nо;o\nп;p\nр;r\nс;s\nт;t\nу;u\nф;f\nх;kh\nц;ts\nч;ch\nш;sh\nщ;shch\nъ;\nы;y\nь;\nэ;e\nю;iu\nя;ia\n,;\n!;"@,
{
    lemma_table_text_28();
    reveal_strlit("а;a\nб;b\nв;v\nг;g\nд;d\nе;e\nё;e\nж;zh\nз;z\nи;i\nй;i\nк;k\nл;l\nм;m\nн;n\nо;o\nп;p\nр;r\nс;s\nт;t\nу;u\nф;f\nх;kh\nц;ts\nч;ch\nш;sh\nщ;shch\nъ;");
    reveal_strlit("а;a\nб;b\nв;v\nг;g\nд;d\nе;e\nё;e\nж;zh\nз;z\nи;i\nй;i\nк;k\nл;l\nм;m\nн;n\nо;o\nп;p\nр;r\nс;s\nт;t\nу;u\nф;f\nх;kh\nц;ts\nч;ch\nш;sh\nщ;shch\nъ;\nы;y\nь;\nэ;e\nю;iu\nя;ia\n,;\n!;");
    assert(table_line(28) =~= seq!['ы', ';', 'y']);
    assert(table_line(29) =~= seq!['ь', ';']);
    assert(table_line(30) =~= seq!['э', ';', 'e']);
    assert(table_line(31) =~= seq!['ю', ';', 'i', 'u']);
    assert(table_line(32) =~= seq!['я', ';', 'i', 'a']);
    assert(table_line(33) =~= seq![',', ';']);
    assert(table_line(34) =~= seq!['!', ';']);
    reveal_with_fuel(table_text, 8);
    assert(table_text(35) =~= "а;a\nб;b\nв;v\nг;g\nд;d\nе;e\nё;e\nж;zh\nз;z\nи;i\nй;i\nк;k\nл;l\nм;m\nн;n\nо;o\nп;p\nр;r\nс;s\nт;t\nу;u\nф;f\nх;kh\nц;ts\nч;ch\nш;sh\nщ;shch\nъ;\nы;y\nь;\nэ;e\nю;iu\nя;ia\n,;\n!;"@);
}

/// The first 42 lines of the table.
proof fn lemma_table_text_42()
    ensures
        table_text(42) == "а;a\nб;b\nв;v\nг;g\nд;d\nе;e\nё;e\nж;zh\nз;z\nи;i\nй;i\nк;k\nл;l\nм;m\nн;n\nо;o\nп;p\nр;r\nс;s\nт;t\nу;u\nф;f\nх;kh\nц;ts\nч;ch\nш;sh\nщ;shch\nъ;\nы;y\nь;\nэ;e\nю;iu\nя;ia\n,;\n!;\n?;\n#;\n$;\n@;\n*;\n%;\n^;"@,
{
    lemma_table_text_35();
    reveal_strlit("а;a\nб;b\nв;v\nг;g\nд;d\nе;e\nё;e\nж;zh\nз;z\nи;i\nй;i\nк;k\nл;l\nм;m\nн;n\nо;o\nп;p\nр;r\nс;s\nт;t\nу;u\nф;f\nх;kh\nц;ts\nч;ch\nш;sh\nщ;shch\nъ;\nы;y\nь;\nэ;e\nю;iu\nя;ia\n,;\n!;");
    reveal_strlit("а;a\nб;b\nв;v\nг;g\nд;d\nе;e\nё;e\nж;zh\nз;z\nи;i\nй;i\nк;k\nл;l\nм;m\nн;n\nо;o\nп;p\nр;r\nс;s\nт;t\nу;u\nф;f\nх;kh\nц;ts\nч;ch\nш;sh\nщ;shch\nъ;\nы;y\nь;\nэ;e\nю;iu\nя;ia\n,;\n!;\n?;\n#;\n$;\n@;\n*;\n%;\n^;");
    assert(table_line(35) =~= seq!['?', ';']);
    assert(table_line(36) =~= seq!['#', ';']);
    assert(table_line(37) =~= seq!['$', ';']);
    assert(table_line(38) =~= seq!['@', ';']);
    assert(table_line(39) =~= seq!['*', ';']);
    assert(table_line(40) =~= seq!['%', ';']);
    assert(table_line(41) =~= seq!['^', ';']);
    reveal_with_fuel(table_text, 8);
    assert(table_text(42) =~= "а;a\nб;b\nв;v\nг;g\nд;d\nе;e\nё;e\nж;zh\nз;z\nи;i\nй;i\nк;k\nл;l\nм;m\nн;n\nо;o\nп;p\nр;r\nс;s\nт;t\nу;u\nф;f\nх;kh\nц;ts\nч;ch\nш;sh\nщ;shch\nъ;\nы;y\nь;\nэ;e\nю;iu\nя;ia\n,;\n!;\n?;\n#;\n$;\n@;\n*;\n%;\n^;"@);
}

/// The table is its lines, with a line feed between each two.
proof fn lemma_table_text()
    ensures
        RU_EN_MAPPING@ == table_text(42),
{
    lemma_table_text_42();
}


/// What the table holds: line by line, a scalar value and what is written
/// for it.
pub open spec fn table_entries(n: int) -> Seq<(Seq<char>, Seq<char>)> {
    Seq::new(n as nat, |i: int| (seq![table_keys()[i]], table_values()[i]))
}

/// No scalar value of the table is a semicolon, a line feed or a carriage
/// return, and each is written as Latin lower-case letters.
proof fn lemma_table_lines()
    ensures
        table_keys().len() == 42,
        table_values().len() == 42,
        forall|i: int|
            0 <= i < 42 ==> {
                &&& (#[trigger] table_keys()[i]) != ';'
                &&& table_keys()[i] != '\n'
                &&& table_keys()[i] != '\r'
                &&& !is_slug_letter(table_keys()[i])
                &&& table_keys()[i] != '-'
            },
        forall|i: int| 0 <= i < 42 ==> is_slug_text(#[trigger] table_values()[i]),
{
    assert forall|i: int| 0 <= i < 42 implies is_slug_text(#[trigger] table_values()[i]) by {
        let v = table_values()[i];
        assert forall|k: int| 0 <= k < v.len() implies is_slug_letter(#[trigger] v[k]) by {
        }
    }
}

/// The first lines of the table, with a line feed between each two, are
/// the lines joined.
proof fn lemma_table_text_is_joined(n: int)
    requires
        1 <= n <= 42,
    ensures
        table_text(n) == join(table_lines().take(n), seq!['\n']),
    decreases n,
{
    let l = table_lines();
    if n == 1 {
        assert(l.take(1)[0] == table_line(0));
    } else {
        lemma_table_text_is_joined(n - 1);
        assert(l.take(n).drop_last() =~= l.take(n - 1));
        assert(l.take(n).last() == table_line(n - 1));
    }
}

/// The lines of the table, read from its text.
proof fn lemma_lines_of_table()
    ensures
        lines(RU_EN_MAPPING@) == table_lines(),
{
    let l = table_lines();
    lemma_table_text();
    lemma_table_text_is_joined(42);
    assert(l.take(42) =~= l);
    lemma_table_lines();
    assert forall|i: int| 0 <= i < l.len() implies is_free_of(#[trigger] l[i], '\n') by {
        assert(is_slug_text(table_values()[i]));
        assert forall|k: int| 0 <= k < l[i].len() implies l[i][k] != '\n' by {
            if k >= 2 {
                assert(l[i][k] == table_values()[i][k - 2]);
                assert(is_slug_letter(table_values()[i][k - 2]));
            }
        }
    }
    lemma_split_join(l, '\n');
    assert(seq![LF] =~= seq!['\n']);
    let pieces = split(RU_EN_MAPPING@, seq![LF]);
    assert(pieces == l);
    assert forall|i: int| 0 <= i < 42 implies without_carriage_return(#[trigger] l[i])
        == l[i] by {
        let last = l[i][l[i].len() - 1];
        assert(is_slug_text(table_values()[i]));
        if table_values()[i].len() > 0 {
            assert(last == table_values()[i][table_values()[i].len() - 1]);
            assert(is_slug_letter(table_values()[i][table_values()[i].len() - 1]));
        } else {
            assert(last == ';');
        }
    }
    assert(l[41].len() > 0);
    assert(ended_lines(l).push(l[41]) =~= l);
}

/// The first lines of the table hold the first entries of the table.
proof fn lemma_table_of_lines(n: int)
    requires
        0 <= n <= 42,
    ensures
        table_of_lines(table_lines().take(n)) == table_entries(n),
    decreases n,
{
    let l = table_lines();
    if n == 0 {
        assert(l.take(0).len() == 0);
        assert(table_entries(0) =~= Seq::empty());
    } else {
        lemma_table_of_lines(n - 1);
        lemma_table_lines();
        assert(l.take(n).drop_last() =~= l.take(n - 1));
        assert(l.take(n).last() == table_line(n - 1));
        let key = seq![table_keys()[n - 1]];
        let value = table_values()[n - 1];
        assert forall|j: int| 0 <= j < key.len() implies !occurs_at(
            key + seq![';'] + value,
            seq![';'],
            j,
        ) by {
            lemma_occurs_one(key + seq![';'] + value, ';', j);
        }
        lemma_split_once(key, seq![';'], value);
        assert(table_entries(n - 1).push((key, value)) =~= table_entries(n));
    }
}

/// The index of the last of the first `n` lines of the table that is a line
/// for `c`, or -1.
pub open spec fn table_index(c: char, n: int) -> int
    decreases n,
{
    if n <= 0 {
        -1
    } else if table_keys()[n - 1] == c {
        n - 1
    } else {
        table_index(c, n - 1)
    }
}

/// What the first entries of the table hold for `c` is what the last line
/// for `c` among them holds.
proof fn lemma_table_value(c: char, n: int)
    requires
        0 <= n <= 42,
    ensures
        -1 <= table_index(c, n) < n,
        last_value(table_entries(n), seq![c]) == if table_index(c, n) >= 0 {
            Some(table_values()[table_index(c, n)])
        } else {
            None
        },
    decreases n,
{
    if n > 0 {
        lemma_table_value(c, n - 1);
        let t = table_entries(n);
        assert(t.drop_last() =~= table_entries(n - 1));
        assert(t.last() == (seq![table_keys()[n - 1]], table_values()[n - 1]));
        if table_keys()[n - 1] == c {
        } else {
            assert(seq![table_keys()[n - 1]][0] != seq![c][0]);
        }
    } else {
        assert(table_entries(0).len() == 0);
    }
}

/// What the table writes for `c`: what its last line for `c` holds, or `c`
/// itself where it has no line for `c`.
pub proof fn lemma_table_image(c: char)
    ensures
        -1 <= table_index(c, 42) < 42,
        image(table_of(RU_EN_MAPPING@), c) == if table_index(c, 42) >= 0 {
            table_values()[table_index(c, 42)]
        } else {
            seq![c]
        },
{
    lemma_lines_of_table();
    lemma_table_of_lines(42);
    assert(table_lines().take(42) =~= table_lines());
    lemma_table_value(c, 42);
}


/// A lower-case letter of the Russian alphabet.
pub open spec fn is_russian_letter(c: char) -> bool {
    'а' <= c <= 'я' || c == 'ё'
}

/// A sign that the table writes as nothing.
pub open spec fn is_dropped_sign(c: char) -> bool {
    c == ',' || c == '!' || c == '?' || c == '#' || c == '$' || c == '@' || c == '*' || c == '%'
        || c == '^'
}

/// A scalar value that the table writes as something: a lower-case letter
/// of the Russian alphabet other than the hard and the soft sign, a Latin
/// lower-case letter or a digit.
pub open spec fn is_written(c: char) -> bool {
    (is_russian_letter(c) && c != 'ъ' && c != 'ь') || is_slug_letter(c)
}

/// The table writes each lower-case letter of the Russian alphabet as Latin
/// lower-case letters, the hard sign, the soft sign and its nine signs as
/// nothing, and leaves Latin lower-case letters, digits and the hyphen as
/// they are.
pub proof fn lemma_table_writes(c: char)
    ensures
        is_russian_letter(c) ==> is_slug_text(image(table_of(RU_EN_MAPPING@), c)),
        is_written(c) ==> image(table_of(RU_EN_MAPPING@), c).len() > 0,
        is_dropped_sign(c) || c == 'ъ' || c == 'ь' ==> image(table_of(RU_EN_MAPPING@), c).len()
            == 0,
        is_slug_letter(c) || c == '-' ==> image(table_of(RU_EN_MAPPING@), c) == seq![c],
{
    lemma_table_image(c);
    lemma_table_lines();
    reveal_with_fuel(table_index, 43);
    let at = table_index(c, 42);
    if at >= 0 {
        assert(table_keys()[at] == c);
        assert(is_slug_text(table_values()[at]));
    }
}

/// A word made of lower-case letters of the Russian alphabet, Latin
/// lower-case letters, digits and the signs that the table writes as
/// nothing, one of which at least is written as something.
pub open spec fn is_russian_word(word: Seq<char>) -> bool {
    &&& forall|i: int|
        0 <= i < word.len() ==> is_russian_letter(#[trigger] word[i]) || is_slug_letter(word[i])
            || is_dropped_sign(word[i])
    &&& exists|i: int| 0 <= i < word.len() && is_written(#[trigger] word[i])
}

/// A word with a scalar value that is written as something is written as
/// something.
proof fn lemma_transliterated_is_not_empty(
    word: Seq<char>,
    table: Seq<(Seq<char>, Seq<char>)>,
    i: int,
)
    requires
        0 <= i < word.len(),
        image(table, word[i]).len() > 0,
    ensures
        transliterated(word, table).len() > 0,
    decreases word.len(),
{
    if i < word.len() - 1 {
        assert(word.drop_last()[i] == word[i]);
        lemma_transliterated_is_not_empty(word.drop_last(), table, i);
    }
}

/// The table can write a word of the kind that [`is_russian_word`] tells.
pub proof fn lemma_russian_word(word: Seq<char>)
    requires
        is_russian_word(word),
    ensures
        is_slug_word(word, table_of(RU_EN_MAPPING@)),
{
    let table = table_of(RU_EN_MAPPING@);
    assert forall|i: int| 0 <= i < word.len() implies (#[trigger] word[i]) != ' ' && word[i]
        != '-' && is_slug_text(image(table, word[i])) by {
        lemma_table_writes(word[i]);
    }
    let i = choose|i: int| 0 <= i < word.len() && is_written(#[trigger] word[i]);
    lemma_table_writes(word[i]);
    lemma_transliterated_is_not_empty(word, table, i);
}

/// Under the table of the crate, the slug of a title is made of Latin
/// lower-case letters, digits and hyphens, does not start or end with a
/// hyphen, has no two hyphens in a row, and is not empty. This holds of a
/// title whose lower-case form, without the whitespace around it, is made of
/// words with one space or one hyphen between each two, each word of the
/// kind that [`is_russian_word`] tells.
pub proof fn lemma_slug_of_russian_title(
    value: Seq<char>,
    words: Seq<Seq<char>>,
    between: Seq<char>,
)
    requires
        words.len() == between.len() + 1,
        are_separators(between),
        forall|i: int| 0 <= i < words.len() ==> is_russian_word(#[trigger] words[i]),
    ensures
        lowered(trimmed(value)) == interleaved(words, between) ==> is_slug(
            slug_of(value, RU_EN_MAPPING@),
        ) && slug_of(value, RU_EN_MAPPING@).len() > 0,
{
    let table = table_of(RU_EN_MAPPING@);
    assert forall|i: int| 0 <= i < words.len() implies is_slug_word(
        #[trigger] words[i],
        table,
    ) by {
        lemma_russian_word(words[i]);
    }
    lemma_table_writes('-');
    lemma_slug_of_title(value, words, between, RU_EN_MAPPING@);
}

} // verus!
