//! Reading the Dhatupatha, the list of roots, and finding roots in it by their code.
use vstd::prelude::*;
use vstd::hash_map::StringHashMap;
use crate::args::{Antargana, Dhatu, DhatuView, build_spec, built};
use crate::errors::DhatupathaError;
use crate::lemmas::{lemma_bulk_entries_concat, lemma_load_lines_concat};
use crate::records::{delimited_records, read_records};
use crate::text::{
    chars_of, find_char, first_index, lemma_first_index, lemma_first_index_contains, parse_decimal,
    parse_u16, parse_u8, split, string_of,
};

verus! {

/// Whether a code has the `.` that parts its gana from its number.
pub open spec fn has_dot(code: Seq<char>) -> bool {
    code.contains('.')
}

/// The part of a code before its first `.`: the gana, as text.
pub open spec fn gana_of(code: Seq<char>) -> Seq<char> {
    code.take(first_index(code, '.'))
}

/// The part of a code after its first `.`: the number, as text.
pub open spec fn number_of(code: Seq<char>) -> Seq<char> {
    code.skip(first_index(code, '.') + 1)
}

/// The antargana of the root with the given number in the given gana. The number alone never
/// decides: the same numbers occur in every gana.
pub open spec fn antargana_of(gana: u8, number: u16) -> Option<Antargana> {
    if gana == 6 && 93 <= number <= 137 {
        Some(Antargana::Kutadi)
    } else if gana == 10 && 192 <= number <= 236 {
        Some(Antargana::Akusmiya)
    } else {
        None
    }
}

/// The root that the three fields of an entry describe, or why there is none.
pub open spec fn resolve_spec(upadesha: Seq<char>, gana: Seq<char>, number: Seq<char>) -> Result<
    DhatuView,
    DhatupathaError,
> {
    match (parse_decimal(gana, 255), parse_decimal(number, 65535)) {
        (Some(g), Some(n)) => build_spec(upadesha, g as u8, antargana_of(g as u8, n as u16)),
        _ => Err(DhatupathaError::MalformedIdentifier),
    }
}

/// Splits a code such as `06.0140` at its first `.` into the gana and the number, both still
/// as text. A code without a `.` is malformed.
pub fn decompose(code: &str) -> (res: Result<(String, String), DhatupathaError>)
    ensures
        match res {
            Ok((gana, number)) => has_dot(code@) && gana@ == gana_of(code@) && number@ == number_of(
                code@,
            ),
            Err(e) => e == DhatupathaError::MalformedIdentifier && !has_dot(code@),
        },
{
    let chars = chars_of(code);
    let n = chars.len();
    let dot = find_char(&chars, 0, n, '.');
    proof {
        assert(chars@.subrange(0, n as int) =~= code@);
        lemma_first_index_contains(code@, '.');
    }
    if dot == n {
        Err(DhatupathaError::MalformedIdentifier)
    } else {
        let gana = string_of(&chars, 0, dot);
        let number = string_of(&chars, dot + 1, n);
        assert(gana@ =~= gana_of(code@));
        assert(number@ =~= number_of(code@));
        Ok((gana, number))
    }
}

/// A range of numbers within one gana, both ends included, and the antargana of its roots.
struct Band {
    gana: u8,
    first: u16,
    last: u16,
    antargana: Antargana,
}

impl Band {
    /// Whether the root with this number in this gana lies in the band.
    spec fn holds(&self, gana: u8, number: u16) -> bool {
        self.gana == gana && self.first <= number <= self.last
    }
}

/// The bands of the Dhatupatha, in the order in which they are tried.
spec fn band_table() -> Seq<Band> {
    seq![
        Band { gana: 6, first: 93, last: 137, antargana: Antargana::Kutadi },
        Band { gana: 10, first: 192, last: 236, antargana: Antargana::Akusmiya },
    ]
}

/// The table of bands as a value.
fn bands() -> (res: [Band; 2])
    ensures
        res@ == band_table(),
{
    let table = [
        // Some roots of gana 6 recur under the same numbers in other ganas (for one, juq), so
        // the gana is part of the band.
        Band { gana: 6, first: 93, last: 137, antargana: Antargana::Kutadi },
        // Some of these roots stand in gana 10 more than once (for one, lakza~), so the numbers
        // are part of the band.
        Band { gana: 10, first: 192, last: 236, antargana: Antargana::Akusmiya },
    ];
    assert(table@ =~= band_table());
    table
}

/// Finds the antargana of a root from its gana and its number within the gana.
pub fn maybe_find_antargana(gana: u8, number: u16) -> (res: Option<Antargana>)
    ensures
        res == antargana_of(gana, number),
{
    let table = bands();
    let mut i: usize = 0;
    while i < table.len()
        invariant
            i <= table.len() == 2,
            table@ == band_table(),
            forall|j: int| 0 <= j < i ==> !table[j].holds(gana, number),
        decreases table.len() - i,
    {
        let band = &table[i];
        if band.gana == gana && band.first <= number && number <= band.last {
            return Some(band.antargana);
        }
        i += 1;
    }
    assert(!table[0].holds(gana, number) && !table[1].holds(gana, number));
    None
}

/// Resolves one entry of the root list: reads the gana and the number, finds the antargana,
/// and makes the root.
pub fn resolve(upadesha: &str, gana: &str, number: &str) -> (res: Result<Dhatu, DhatupathaError>)
    ensures
        built(res) == resolve_spec(upadesha@, gana@, number@),
{
    let gana = match parse_u8(gana) {
        Some(g) => g,
        None => return Err(DhatupathaError::MalformedIdentifier),
    };
    let number = match parse_u16(number) {
        Some(n) => n,
        None => return Err(DhatupathaError::MalformedIdentifier),
    };
    Dhatu::build(upadesha, gana, maybe_find_antargana(gana, number))
}

/// The code of one line of the root list and the root that the line describes. The line's first
/// field is the code, its second the upadesha; further fields are not read.
pub open spec fn line_entry(line: Seq<char>) -> Result<(Seq<char>, DhatuView), DhatupathaError> {
    let fields = split(line, '\t');
    if fields.len() < 2 {
        Err(DhatupathaError::InvalidResource)
    } else if !has_dot(fields[0]) {
        Err(DhatupathaError::MalformedIdentifier)
    } else {
        match resolve_spec(fields[1], gana_of(fields[0]), number_of(fields[0])) {
            Ok(dhatu) => Ok((fields[0], dhatu)),
            Err(e) => Err(e),
        }
    }
}

/// The roots that the given lines describe, by code. Empty lines are passed over; where two
/// lines have one code, the later line decides; the first line that describes no root makes
/// the whole list invalid.
pub open spec fn load_lines(lines: Seq<Seq<char>>) -> Result<
    Map<Seq<char>, DhatuView>,
    DhatupathaError,
>
    decreases lines.len(),
{
    if lines.len() == 0 {
        Ok(Map::empty())
    } else {
        match load_lines(lines.drop_last()) {
            Err(e) => Err(e),
            Ok(found) => if lines.last().len() == 0 {
                Ok(found)
            } else {
                match line_entry(lines.last()) {
                    Ok((code, dhatu)) => Ok(found.insert(code, dhatu)),
                    Err(e) => Err(e),
                }
            },
        }
    }
}

/// The lines of a root list that can hold entries: all but the first, which is a header.
pub open spec fn data_lines(text: Seq<char>) -> Seq<Seq<char>> {
    split(text, '\n').drop_first()
}

/// The roots of a root list given as text, by code.
pub open spec fn parse_text(text: Seq<char>) -> Result<
    Map<Seq<char>, DhatuView>,
    DhatupathaError,
> {
    load_lines(data_lines(text))
}

/// The Dhatupatha: the roots of a root list, each under its code.
pub struct Dhatupatha {
    dhatus: StringHashMap<Dhatu>,
}

impl View for Dhatupatha {
    type V = Map<Seq<char>, DhatuView>;

    closed spec fn view(&self) -> Map<Seq<char>, DhatuView> {
        self.dhatus@.map_values(|d: Dhatu| d@)
    }
}

/// The outcome of reading a root list, with the list taken by its view.
pub open spec fn stored(res: Result<Dhatupatha, DhatupathaError>) -> Result<
    Map<Seq<char>, DhatuView>,
    DhatupathaError,
> {
    match res {
        Ok(d) => Ok(d@),
        Err(e) => Err(e),
    }
}

/// Reads the line that the characters from `from` up to `to` make.
fn read_line(chars: &Vec<char>, from: usize, to: usize) -> (res: Result<
    (String, Dhatu),
    DhatupathaError,
>)
    requires
        from <= to <= chars.len(),
    ensures
        line_entry(chars@.subrange(from as int, to as int)) == match res {
            Ok((code, dhatu)) => Ok::<(Seq<char>, DhatuView), DhatupathaError>((code@, dhatu@)),
            Err(e) => Err(e),
        },
{
    let ghost line = chars@.subrange(from as int, to as int);
    let tab = find_char(chars, from, to, '\t');
    if tab == to {
        return Err(DhatupathaError::InvalidResource);
    }
    let next_tab = find_char(chars, tab + 1, to, '\t');
    let code = string_of(chars, from, tab);
    let upadesha = string_of(chars, tab + 1, next_tab);
    proof {
        let rest = line.skip(tab - from + 1);
        assert(rest =~= chars@.subrange(tab + 1, to as int));
        lemma_first_index(rest, '\t');
        let fields = split(line, '\t');
        assert(fields == seq![line.take(tab - from)] + split(rest, '\t'));
        assert(fields[0] =~= code@);
        assert(split(rest, '\t')[0] =~= rest.take(next_tab - tab - 1));
        assert(fields[1] =~= upadesha@);
    }
    match decompose(code.as_str()) {
        Err(e) => Err(e),
        Ok((gana, number)) => match resolve(upadesha.as_str(), gana.as_str(), number.as_str()) {
            Ok(dhatu) => Ok((code, dhatu)),
            Err(e) => Err(e),
        },
    }
}

impl Dhatupatha {
    /// Reads a root list from text. The first line is a header and is not read; every other
    /// line that is not empty must describe a root, or the whole text is refused with the
    /// error of the first line that does not.
    pub fn from_text(csv: &str) -> (res: Result<Dhatupatha, DhatupathaError>)
        ensures
            stored(res) == parse_text(csv@),
    {
        let chars = chars_of(csv);
        let n = chars.len();
        let mut dhatus: StringHashMap<Dhatu> = StringHashMap::new();
        let header_end = find_char(&chars, 0, n, '\n');
        proof {
            assert(chars@.subrange(0, n as int) =~= csv@);
            assert(dhatus@.map_values(|d: Dhatu| d@) =~= Map::<Seq<char>, DhatuView>::empty());
        }
        if header_end == n {
            assert(data_lines(csv@) =~= Seq::<Seq<char>>::empty());
            return Ok(Dhatupatha { dhatus });
        }
        let mut pos: usize = header_end + 1;
        let ghost mut done: Seq<Seq<char>> = Seq::empty();
        assert(data_lines(csv@) =~= done + split(chars@.skip(pos as int), '\n'));
        loop
            invariant_except_break
                pos <= n,
                data_lines(csv@) =~= done + split(chars@.skip(pos as int), '\n'),
            invariant
                n == chars.len(),
                chars@ == csv@,
                load_lines(done) == Ok::<Map<Seq<char>, DhatuView>, DhatupathaError>(
                    dhatus@.map_values(|d: Dhatu| d@),
                ),
            ensures
                data_lines(csv@) =~= done,
            decreases n - pos,
        {
            let end = find_char(&chars, pos, n, '\n');
            let ghost line = chars@.subrange(pos as int, end as int);
            let ghost tail = if end < n {
                split(chars@.skip(end + 1), '\n')
            } else {
                Seq::empty()
            };
            proof {
                let rest = chars@.skip(pos as int);
                assert(rest =~= chars@.subrange(pos as int, n as int));
                assert(rest.take(end - pos) =~= line);
                if end < n {
                    assert(rest.skip(end - pos + 1) =~= chars@.skip(end + 1));
                } else {
                    assert(rest =~= line);
                }
                assert(split(rest, '\n') =~= seq![line] + tail);
                assert(data_lines(csv@) =~= done.push(line) + tail);
                assert(done.push(line).drop_last() =~= done);
            }
            if end > pos {
                match read_line(&chars, pos, end) {
                    Ok((code, dhatu)) => {
                        let ghost before = dhatus@.map_values(|d: Dhatu| d@);
                        dhatus.insert(code, dhatu);
                        assert(dhatus@.map_values(|d: Dhatu| d@) =~= before.insert(
                            code@,
                            dhatu@,
                        ));
                    },
                    Err(e) => {
                        proof {
                            lemma_load_lines_concat(done.push(line), tail);
                        }
                        return Err(e);
                    },
                }
            }
            proof {
                done = done.push(line);
            }
            if end == n {
                assert(done + tail =~= done);
                break;
            }
            pos = end + 1;
        }
        Ok(Dhatupatha { dhatus })
    }

    /// Gets the root with the given code, if the list has one.
    pub fn get(&self, code: &str) -> (res: Option<&Dhatu>)
        ensures
            match res {
                Some(dhatu) => self@.contains_key(code@) && self@[code@] == dhatu@,
                None => !self@.contains_key(code@),
            },
    {
        self.dhatus.get(code)
    }
}

/// The upadesha that marks a row without a root.
pub open spec fn placeholder() -> Seq<char> {
    seq!['-']
}

/// The byte that parts the fields of a row: a tab.
pub const FIELD_DELIMITER: u8 = 9;

/// What one row of a bulk list adds: nothing where its upadesha is the placeholder or its code
/// has no `.`, else its root and the root's number. A row must have two fields, and a code
/// with a `.` must resolve.
pub open spec fn row_entry(row: Seq<Seq<char>>) -> Result<
    Option<(DhatuView, u16)>,
    DhatupathaError,
> {
    if row.len() < 2 {
        Err(DhatupathaError::InvalidResource)
    } else if row[1] == placeholder() || !has_dot(row[0]) {
        Ok(None)
    } else {
        match resolve_spec(row[1], gana_of(row[0]), number_of(row[0])) {
            Ok(dhatu) => Ok(Some((dhatu, parse_decimal(number_of(row[0]), 65535)->0 as u16))),
            Err(e) => Err(e),
        }
    }
}

/// The roots of the given rows with their numbers, in the order of the rows, or the error of
/// the first row that has one.
pub open spec fn bulk_entries(rows: Seq<Seq<Seq<char>>>) -> Result<
    Seq<(DhatuView, u16)>,
    DhatupathaError,
>
    decreases rows.len(),
{
    if rows.len() == 0 {
        Ok(Seq::empty())
    } else {
        match bulk_entries(rows.drop_last()) {
            Err(e) => Err(e),
            Ok(found) => match row_entry(rows.last()) {
                Err(e) => Err(e),
                Ok(None) => Ok(found),
                Ok(Some(entry)) => Ok(found.push(entry)),
            },
        }
    }
}

/// What loading a bulk list from bytes gives: the entries of its rows, where the bytes can be
/// read as rows at all.
pub open spec fn load_spec(data: Seq<u8>) -> Result<Seq<(DhatuView, u16)>, DhatupathaError> {
    match delimited_records(data, FIELD_DELIMITER) {
        None => Err(DhatupathaError::ResourceAccessFailure),
        Some(rows) => bulk_entries(rows),
    }
}

/// A list of roots with their numbers, each root taken by its view.
pub open spec fn entries_view(entries: Seq<(Dhatu, u16)>) -> Seq<(DhatuView, u16)> {
    entries.map_values(|entry: (Dhatu, u16)| (entry.0@, entry.1))
}

/// The outcome of collecting entries, with each root taken by its view.
pub open spec fn collected(res: Result<Vec<(Dhatu, u16)>, DhatupathaError>) -> Result<
    Seq<(DhatuView, u16)>,
    DhatupathaError,
> {
    match res {
        Ok(entries) => Ok(entries_view(entries@)),
        Err(e) => Err(e),
    }
}

/// Whether `s` is the placeholder `-`.
fn is_placeholder(s: &str) -> (res: bool)
    ensures
        res == (s@ == placeholder()),
{
    let chars = chars_of(s);
    let res = chars.len() == 1 && chars[0] == '-';
    assert(res ==> s@ =~= placeholder());
    res
}

/// Reads one row of a bulk list.
fn read_row(row: &Vec<String>) -> (res: Result<Option<(Dhatu, u16)>, DhatupathaError>)
    ensures
        row_entry(row.deep_view()) == match res {
            Ok(Some(entry)) => Ok::<Option<(DhatuView, u16)>, DhatupathaError>(
                Some((entry.0@, entry.1)),
            ),
            Ok(None) => Ok(None),
            Err(e) => Err(e),
        },
{
    if row.len() < 2 {
        return Err(DhatupathaError::InvalidResource);
    }
    let code = row[0].as_str();
    let upadesha = row[1].as_str();
    assert(row.deep_view()[0] == code@ && row.deep_view()[1] == upadesha@);
    if is_placeholder(upadesha) {
        return Ok(None);
    }
    match decompose(code) {
        Err(_) => Ok(None),
        Ok((gana, number)) => match resolve(upadesha, gana.as_str(), number.as_str()) {
            Err(e) => Err(e),
            Ok(dhatu) => match parse_u16(number.as_str()) {
                Some(n) => Ok(Some((dhatu, n))),
                None => Err(DhatupathaError::MalformedIdentifier),
            },
        },
    }
}

/// Collects the roots of the rows of a bulk list, each with its number, in the order of the
/// rows. A row whose upadesha is `-`, or whose code has no `.`, is passed over. A row with
/// fewer than two fields, a gana or number that is no number, or fields of which no root can
/// be made, fails the whole list.
pub fn collect_rows(rows: &Vec<Vec<String>>) -> (res: Result<Vec<(Dhatu, u16)>, DhatupathaError>)
    ensures
        collected(res) == bulk_entries(rows.deep_view()),
{
    let mut entries: Vec<(Dhatu, u16)> = Vec::new();
    let ghost all = rows.deep_view();
    assert(entries_view(entries@) =~= Seq::<(DhatuView, u16)>::empty());
    let mut i: usize = 0;
    while i < rows.len()
        invariant
            i <= rows.len(),
            all == rows.deep_view(),
            bulk_entries(all.take(i as int)) == Ok::<Seq<(DhatuView, u16)>, DhatupathaError>(
                entries_view(entries@),
            ),
        decreases rows.len() - i,
    {
        proof {
            assert(all.take(i + 1).drop_last() =~= all.take(i as int));
            assert(all.take(i + 1).last() == rows[i as int].deep_view());
        }
        match read_row(&rows[i]) {
            Err(e) => {
                proof {
                    lemma_bulk_entries_concat(all.take(i + 1), all.skip(i + 1));
                    assert(all.take(i + 1) + all.skip(i + 1) =~= all);
                }
                return Err(e);
            },
            Ok(None) => {},
            Ok(Some(entry)) => {
                let ghost before = entries_view(entries@);
                let ghost added = (entry.0@, entry.1);
                entries.push(entry);
                assert(entries_view(entries@) =~= before.push(added));
            },
        }
        i += 1;
    }
    assert(all.take(i as int) =~= all);
    Ok(entries)
}

/// Loads a bulk list of roots from the bytes of a tab-separated file whose first record is a
/// header. Bytes that cannot be read as records are refused with `ResourceAccessFailure`;
/// the rows that were read are collected as `collect_rows` does.
pub fn load_all(data: &[u8]) -> (res: Result<Vec<(Dhatu, u16)>, DhatupathaError>)
    ensures
        collected(res) == load_spec(data@),
{
    match read_records(data, FIELD_DELIMITER) {
        Err(_) => Err(DhatupathaError::ResourceAccessFailure),
        Ok(rows) => collect_rows(&rows),
    }
}

} // verus!
