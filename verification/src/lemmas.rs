//! What holds of every root list: which lists are accepted, which line decides what is found
//! under a code, and what a row adds to a bulk list.
use vstd::prelude::*;
use crate::args::{Antargana, DhatuView};
use crate::dhatupatha::{
    antargana_of, bulk_entries, data_lines, gana_of, has_dot, line_entry, load_lines, number_of,
    parse_text, placeholder, resolve_spec, row_entry,
};
use crate::errors::DhatupathaError;
use crate::text::{lemma_first_index_unique, parse_decimal, split};

verus! {

/// The code of a line of the root list: its first field.
pub open spec fn code_of(line: Seq<char>) -> Seq<char> {
    split(line, '\t')[0]
}

/// Whether a line of the root list is one that the parser accepts: it is empty, or it
/// describes a root.
pub open spec fn line_is_valid(line: Seq<char>) -> bool {
    line.len() == 0 || line_entry(line) is Ok
}

/// No antargana is found from the number alone: outside ganas 6 and 10 there is none, whatever
/// the number.
pub proof fn lemma_antargana_needs_gana(gana: u8, number: u16)
    ensures
        antargana_of(gana, number) is Some ==> gana == 6 || gana == 10,
        antargana_of(gana, number) == Some(Antargana::Kutadi) <==> gana == 6 && 93 <= number
            <= 137,
        antargana_of(gana, number) == Some(Antargana::Akusmiya) <==> gana == 10 && 192 <= number
            <= 236,
{
}

/// The header is not read: two root lists that differ in their first line alone hold the same
/// roots, or fail with the same error. What they hold is what the lines after the header
/// describe.
pub proof fn lemma_header_is_not_read(header: Seq<char>, other: Seq<char>, body: Seq<char>)
    requires
        !header.contains('\n'),
        !other.contains('\n'),
    ensures
        parse_text(header + seq!['\n'] + body) == load_lines(split(body, '\n')),
        parse_text(header + seq!['\n'] + body) == parse_text(other + seq!['\n'] + body),
{
    lemma_data_lines_after_header(header, body);
    lemma_data_lines_after_header(other, body);
}

proof fn lemma_data_lines_after_header(header: Seq<char>, body: Seq<char>)
    requires
        !header.contains('\n'),
    ensures
        data_lines(header + seq!['\n'] + body) == split(body, '\n'),
{
    let text = header + seq!['\n'] + body;
    assert forall|j: int| 0 <= j < header.len() implies text[j] != '\n' by {
        assert(header.contains(header[j]));
    }
    lemma_first_index_unique(text, '\n', header.len() as int);
    assert(text.skip(header.len() as int + 1) =~= body);
    assert(data_lines(text) =~= split(body, '\n'));
}

/// A root list without a line end is a header and nothing else: it holds no roots.
pub proof fn lemma_header_alone_is_empty(text: Seq<char>)
    requires
        !text.contains('\n'),
    ensures
        parse_text(text) == Ok::<Map<Seq<char>, DhatuView>, DhatupathaError>(Map::empty()),
{
    assert forall|j: int| 0 <= j < text.len() implies text[j] != '\n' by {
        assert(text.contains(text[j]));
    }
    lemma_first_index_unique(text, '\n', text.len() as int);
    assert(data_lines(text) =~= Seq::<Seq<char>>::empty());
}

/// The roots of two lists of lines, one after the other, are those of both, and under a code
/// that both have stands the root of the second; the first error of the two decides.
pub proof fn lemma_load_lines_concat(first: Seq<Seq<char>>, second: Seq<Seq<char>>)
    ensures
        load_lines(first + second) == match (load_lines(first), load_lines(second)) {
            (Ok(a), Ok(b)) => Ok::<Map<Seq<char>, DhatuView>, DhatupathaError>(
                a.union_prefer_right(b),
            ),
            (Ok(_), Err(e)) => Err(e),
            (Err(e), _) => Err(e),
        },
    decreases second.len(),
{
    if second.len() == 0 {
        assert(first + second =~= first);
        if load_lines(first) is Ok {
            let a = load_lines(first)->Ok_0;
            assert(a.union_prefer_right(Map::empty()) =~= a);
        }
    } else {
        let front = second.drop_last();
        lemma_load_lines_concat(first, front);
        assert((first + second).drop_last() =~= first + front);
        assert((first + second).last() == second.last());
        if second.last().len() > 0 {
            match (load_lines(first), load_lines(front), line_entry(second.last())) {
                (Ok(a), Ok(b), Ok((code, dhatu))) => {
                    assert(a.union_prefer_right(b).insert(code, dhatu) =~= a.union_prefer_right(
                        b.insert(code, dhatu),
                    ));
                },
                _ => {},
            }
        }
    }
}

/// Lines are accepted together exactly when each of them is.
pub proof fn lemma_lines_load_iff_all_valid(lines: Seq<Seq<char>>)
    ensures
        load_lines(lines) is Ok <==> forall|i: int|
            0 <= i < lines.len() ==> line_is_valid(#[trigger] lines[i]),
    decreases lines.len(),
{
    if lines.len() > 0 {
        let front = lines.drop_last();
        lemma_lines_load_iff_all_valid(front);
        if load_lines(lines) is Ok {
            assert forall|i: int| 0 <= i < lines.len() implies line_is_valid(
                #[trigger] lines[i],
            ) by {
                if i < lines.len() - 1 {
                    assert(lines[i] == front[i]);
                }
            }
        }
        if forall|i: int| 0 <= i < lines.len() ==> line_is_valid(#[trigger] lines[i]) {
            assert forall|i: int| 0 <= i < front.len() implies line_is_valid(
                #[trigger] front[i],
            ) by {
                assert(front[i] == lines[i]);
            }
            assert(line_is_valid(lines[lines.len() - 1]));
        }
    }
}

/// Where lines are refused, the error is that of the first line that is not valid.
pub proof fn lemma_first_invalid_line_decides(lines: Seq<Seq<char>>, i: int)
    requires
        0 <= i < lines.len(),
        !line_is_valid(lines[i]),
        forall|j: int| 0 <= j < i ==> line_is_valid(#[trigger] lines[j]),
    ensures
        load_lines(lines) == Err::<Map<Seq<char>, DhatuView>, DhatupathaError>(
            line_entry(lines[i])->Err_0,
        ),
{
    let front = lines.take(i);
    lemma_lines_load_iff_all_valid(front);
    let upto = lines.take(i + 1);
    assert(upto.drop_last() =~= front);
    assert(upto.last() == lines[i]);
    lemma_load_lines_concat(upto, lines.skip(i + 1));
    assert(upto + lines.skip(i + 1) =~= lines);
}

/// A root list is accepted exactly when every line after its header is valid. So one line
/// that is not valid, wherever it stands after the header, makes the whole list fail: the
/// roots of the valid lines before it are not handed out.
pub proof fn lemma_text_loads_iff_all_lines_valid(text: Seq<char>)
    ensures
        parse_text(text) is Ok <==> forall|i: int|
            0 <= i < data_lines(text).len() ==> line_is_valid(#[trigger] data_lines(text)[i]),
{
    lemma_lines_load_iff_all_valid(data_lines(text));
}

/// The keys of what the lines hold are the codes of the lines that are not empty.
pub proof fn lemma_keys_are_codes(lines: Seq<Seq<char>>, code: Seq<char>)
    requires
        load_lines(lines) is Ok,
    ensures
        load_lines(lines)->Ok_0.contains_key(code) <==> exists|i: int|
            0 <= i < lines.len() && (#[trigger] lines[i]).len() > 0 && code_of(lines[i]) == code,
    decreases lines.len(),
{
    if lines.len() > 0 {
        let front = lines.drop_last();
        lemma_keys_are_codes(front, code);
        if load_lines(lines)->Ok_0.contains_key(code) {
            if load_lines(front)->Ok_0.contains_key(code) {
                let i = choose|i: int|
                    0 <= i < front.len() && (#[trigger] front[i]).len() > 0 && code_of(front[i])
                        == code;
                assert(lines[i] == front[i]);
            } else {
                let last = lines[lines.len() - 1];
                assert(last.len() > 0 && code_of(last) == code);
            }
        }
        if exists|i: int|
            0 <= i < lines.len() && (#[trigger] lines[i]).len() > 0 && code_of(lines[i]) == code {
            let i = choose|i: int|
                0 <= i < lines.len() && (#[trigger] lines[i]).len() > 0 && code_of(lines[i])
                    == code;
            if i < lines.len() - 1 {
                assert(front[i] == lines[i]);
            }
        }
    }
}

/// Whether a root is one that an entry with the given code resolves to: the code has its two
/// numbers, the first is the root's gana, the antargana is that of the two numbers, the
/// upadesha is not empty, and no sanadi is set.
pub open spec fn agrees_with_code(dhatu: DhatuView, code: Seq<char>) -> bool {
    &&& has_dot(code)
    &&& parse_decimal(gana_of(code), 255) == Some(dhatu.gana as nat)
    &&& parse_decimal(number_of(code), 65535) is Some
    &&& dhatu.antargana == antargana_of(
        dhatu.gana,
        parse_decimal(number_of(code), 65535)->0 as u16,
    )
    &&& dhatu.upadesha.len() > 0
    &&& dhatu.sanadi is None
}

/// Every root that the lines hold agrees with the code under which it stands.
pub proof fn lemma_roots_agree_with_codes(lines: Seq<Seq<char>>, code: Seq<char>)
    requires
        load_lines(lines) is Ok,
        load_lines(lines)->Ok_0.contains_key(code),
    ensures
        agrees_with_code(load_lines(lines)->Ok_0[code], code),
    decreases lines.len(),
{
    if lines.len() > 0 {
        let front = lines.drop_last();
        if load_lines(front)->Ok_0.contains_key(code) {
            lemma_roots_agree_with_codes(front, code);
        }
    }
}

/// Looking a code up gives the root that resolving the fields of its line gives. Where
/// several lines have the code, that is the last of them: a later line replaces an earlier one
/// without an error.
pub proof fn lemma_last_line_of_code_decides(lines: Seq<Seq<char>>, i: int)
    requires
        load_lines(lines) is Ok,
        0 <= i < lines.len(),
        lines[i].len() > 0,
        forall|j: int|
            i < j < lines.len() && (#[trigger] lines[j]).len() > 0 ==> code_of(lines[j])
                != code_of(lines[i]),
    ensures
        ({
            let fields = split(lines[i], '\t');
            let found = load_lines(lines)->Ok_0;
            &&& fields.len() >= 2
            &&& code_of(lines[i]) == fields[0]
            &&& has_dot(fields[0])
            &&& found.contains_key(fields[0])
            &&& resolve_spec(fields[1], gana_of(fields[0]), number_of(fields[0])) == Ok::<
                DhatuView,
                DhatupathaError,
            >(found[fields[0]])
        }),
    decreases lines.len(),
{
    let front = lines.drop_last();
    if i < lines.len() - 1 {
        assert(front[i] == lines[i]);
        assert forall|j: int|
            i < j < front.len() && (#[trigger] front[j]).len() > 0 implies code_of(front[j])
            != code_of(front[i]) by {
            assert(front[j] == lines[j]);
        }
        lemma_last_line_of_code_decides(front, i);
        assert(lines[lines.len() - 1].len() > 0 ==> code_of(lines[lines.len() - 1]) != code_of(
            lines[i],
        ));
    }
}

/// The same for a root list given as text: the root under a code is what resolving the
/// fields of the last line with that code gives.
pub proof fn lemma_lookup_matches_resolve(text: Seq<char>, i: int)
    requires
        parse_text(text) is Ok,
        0 <= i < data_lines(text).len(),
        data_lines(text)[i].len() > 0,
        forall|j: int|
            i < j < data_lines(text).len() && (#[trigger] data_lines(text)[j]).len() > 0
                ==> code_of(data_lines(text)[j]) != code_of(data_lines(text)[i]),
    ensures
        ({
            let fields = split(data_lines(text)[i], '\t');
            let found = parse_text(text)->Ok_0;
            &&& fields.len() >= 2
            &&& has_dot(fields[0])
            &&& found.contains_key(fields[0])
            &&& resolve_spec(fields[1], gana_of(fields[0]), number_of(fields[0])) == Ok::<
                DhatuView,
                DhatupathaError,
            >(found[fields[0]])
        }),
{
    lemma_last_line_of_code_decides(data_lines(text), i);
}

/// The entries of two lists of rows, one after the other, are the entries of the first
/// followed by those of the second; the first error of the two decides.
pub proof fn lemma_bulk_entries_concat(first: Seq<Seq<Seq<char>>>, second: Seq<Seq<Seq<char>>>)
    ensures
        bulk_entries(first + second) == match (bulk_entries(first), bulk_entries(second)) {
            (Ok(a), Ok(b)) => Ok::<Seq<(DhatuView, u16)>, DhatupathaError>(a + b),
            (Ok(_), Err(e)) => Err(e),
            (Err(e), _) => Err(e),
        },
    decreases second.len(),
{
    if second.len() == 0 {
        assert(first + second =~= first);
        if bulk_entries(first) is Ok {
            assert(bulk_entries(first)->Ok_0 + Seq::<(DhatuView, u16)>::empty() =~= bulk_entries(
                first,
            )->Ok_0);
        }
    } else {
        let front = second.drop_last();
        lemma_bulk_entries_concat(first, front);
        assert((first + second).drop_last() =~= first + front);
        assert((first + second).last() == second.last());
        match (bulk_entries(first), bulk_entries(front), row_entry(second.last())) {
            (Ok(a), Ok(b), Ok(Some(entry))) => {
                assert((a + b).push(entry) =~= a + b.push(entry));
            },
            _ => {},
        }
    }
}

/// A row whose upadesha is the placeholder `-` adds no entry and no error, wherever it stands.
pub proof fn lemma_placeholder_row_adds_nothing(
    before: Seq<Seq<Seq<char>>>,
    row: Seq<Seq<char>>,
    after: Seq<Seq<Seq<char>>>,
)
    requires
        row.len() >= 2,
        row[1] == placeholder(),
    ensures
        row_entry(row) == Ok::<Option<(DhatuView, u16)>, DhatupathaError>(None),
        bulk_entries(before + seq![row] + after) == bulk_entries(before + after),
{
    let one = seq![row];
    assert(one.drop_last() =~= Seq::<Seq<Seq<char>>>::empty());
    assert(one.last() == row);
    assert(bulk_entries(one.drop_last()) == Ok::<Seq<(DhatuView, u16)>, DhatupathaError>(
        Seq::empty(),
    ));
    assert(bulk_entries(one) == Ok::<Seq<(DhatuView, u16)>, DhatupathaError>(Seq::empty()));
    lemma_bulk_entries_concat(before, one);
    lemma_bulk_entries_concat(before + one, after);
    lemma_bulk_entries_concat(before, after);
    if bulk_entries(before) is Ok {
        assert(bulk_entries(before)->Ok_0 + Seq::<(DhatuView, u16)>::empty() =~= bulk_entries(
            before,
        )->Ok_0);
    }
}

} // verus!
