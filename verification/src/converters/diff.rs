//! The comparison of two field lists: what is in both, in either, in one
//! only.

use vstd::prelude::*;
use crate::text::{
    decimal_digits,
    from_chars,
    lowercase,
    push_chars,
    push_decimal_digits,
    remove_whitespace,
    to_chars,
    to_lowercase,
    trim,
    trimmed,
    without_whitespace,
};

verus! {

/// Which fields the comparison puts out.
#[derive(Debug, Clone, Copy, PartialEq, Eq, Structural)]
pub enum DiffOutputMode {
    /// Every field of either list.
    Union,
    /// The fields that are in one list only.
    Complement,
    /// The first list, with the fields that only the second has.
    DiffBasedOnFile1,
    /// The second list, with the fields that only the first has.
    DiffBasedOnFile2,
    /// The fields that only the first list has.
    OnlyInFile1,
    /// The fields that only the second list has.
    OnlyInFile2,
    /// The fields of the first list, in order.
    SortFile1,
    /// The fields of the second list, in order.
    SortFile2,
}

/// How fields are read and compared.
#[derive(Debug, Clone)]
pub struct DiffOptions<'a> {
    /// What separates the fields of a line.
    pub delimiter: char,
    /// Whether fields are compared in lower case.
    pub ignore_case: bool,
    /// Whether all whitespace of a field is dropped, or only that at its
    /// ends.
    pub ignore_whitespace: bool,
    /// Where the detailed report is written, if one is asked for.
    pub report_path: Option<&'a str>,
}

/// The form in which a field is compared: without its whitespace, or only
/// without that at its ends, and in lower case where case is ignored.
pub open spec fn normalized(field: Seq<char>, ignore_case: bool, ignore_whitespace: bool) -> Seq<
    char,
> {
    let stripped = if ignore_whitespace {
        without_whitespace(field)
    } else {
        trimmed(field)
    };
    if ignore_case {
        lowercase(stripped)
    } else {
        stripped
    }
}

/// The form in which a field is compared.
pub fn normalize_field(field: &str, options: &DiffOptions) -> (r: String)
    ensures
        r@ == normalized(field@, options.ignore_case, options.ignore_whitespace),
{
    let result = if options.ignore_whitespace {
        remove_whitespace(field)
    } else {
        trim(field)
    };
    if options.ignore_case {
        to_lowercase(result.as_str())
    } else {
        result
    }
}

/// Whether the text `a` comes before the text `b` in the order of strings:
/// at the first place where they differ `a` has the character with the
/// lesser code, or `a` ends there and `b` goes on.
pub open spec fn text_lt(a: Seq<char>, b: Seq<char>) -> bool
    decreases a.len(),
{
    if b.len() == 0 {
        false
    } else if a.len() == 0 {
        true
    } else if a[0] != b[0] {
        (a[0] as u32) < (b[0] as u32)
    } else {
        text_lt(a.drop_first(), b.drop_first())
    }
}

/// No text comes before itself.
pub proof fn lemma_text_lt_irreflexive(a: Seq<char>)
    ensures
        !text_lt(a, a),
    decreases a.len(),
{
    if a.len() > 0 {
        lemma_text_lt_irreflexive(a.drop_first());
    }
}

/// What comes before a text comes before all that the text comes before.
pub proof fn lemma_text_lt_transitive(a: Seq<char>, b: Seq<char>, c: Seq<char>)
    requires
        text_lt(a, b),
        text_lt(b, c),
    ensures
        text_lt(a, c),
    decreases a.len(),
{
    if a.len() > 0 && b.len() > 0 && c.len() > 0 {
        if a[0] == b[0] && b[0] == c[0] {
            lemma_text_lt_transitive(a.drop_first(), b.drop_first(), c.drop_first());
        }
    }
}

/// Different characters have different codes.
proof fn lemma_code_differs(c: char, d: char)
    requires
        c != d,
    ensures
        c as u32 != d as u32,
{
    vstd::utf8::char_u32_cast(c, c as u32);
    vstd::utf8::char_u32_cast(d, d as u32);
}

/// Texts that agree up to a place stand to each other as what follows that
/// place.
proof fn lemma_text_lt_skip(a: Seq<char>, b: Seq<char>, k: int)
    requires
        0 <= k <= a.len(),
        k <= b.len(),
        a.take(k) == b.take(k),
    ensures
        text_lt(a, b) == text_lt(a.skip(k), b.skip(k)),
    decreases k,
{
    if k == 0 {
        assert(a.skip(0) =~= a);
        assert(b.skip(0) =~= b);
    } else {
        assert(a[0] == a.take(k)[0]);
        assert(b[0] == b.take(k)[0]);
        assert(a.drop_first().take(k - 1) =~= a.take(k).drop_first());
        assert(b.drop_first().take(k - 1) =~= b.take(k).drop_first());
        lemma_text_lt_skip(a.drop_first(), b.drop_first(), k - 1);
        assert(a.drop_first().skip(k - 1) =~= a.skip(k));
        assert(b.drop_first().skip(k - 1) =~= b.skip(k));
    }
}

/// How one text stands to another in the order of strings.
#[derive(Debug, Clone, Copy, PartialEq, Eq, Structural)]
pub enum Precedence {
    Before,
    Same,
    After,
}

/// How `a` stands to `b` in the order of strings.
pub fn compare_texts(a: &str, b: &str) -> (r: Precedence)
    ensures
        (r is Before) == text_lt(a@, b@),
        (r is Same) == (a@ == b@),
        (r is After) == text_lt(b@, a@),
{
    let x = to_chars(a);
    let y = to_chars(b);
    let mut i: usize = 0;
    while i < x.len() && i < y.len()
        invariant
            x@ == a@,
            y@ == b@,
            i <= x@.len(),
            i <= y@.len(),
            x@.take(i as int) == y@.take(i as int),
        decreases x.len() - i,
    {
        if x[i] != y[i] {
            proof {
                lemma_text_lt_skip(x@, y@, i as int);
                lemma_text_lt_skip(y@, x@, i as int);
                assert(x@.skip(i as int)[0] == x@[i as int]);
                assert(y@.skip(i as int)[0] == y@[i as int]);
                lemma_code_differs(x@[i as int], y@[i as int]);
            }
            if (x[i] as u32) < (y[i] as u32) {
                return Precedence::Before;
            } else {
                return Precedence::After;
            }
        }
        i += 1;
        proof {
            assert(x@.take(i as int) =~= x@.take(i - 1).push(x@[i - 1]));
            assert(y@.take(i as int) =~= y@.take(i - 1).push(y@[i - 1]));
        }
    }
    proof {
        lemma_text_lt_skip(x@, y@, i as int);
        lemma_text_lt_skip(y@, x@, i as int);
        if x@.len() == y@.len() {
            assert(x@.take(i as int) =~= x@);
            assert(y@.take(i as int) =~= y@);
            lemma_text_lt_irreflexive(x@);
        } else if i == x@.len() {
            assert(x@.skip(i as int).len() == 0);
            assert(y@.skip(i as int).len() > 0);
        } else {
            assert(y@.skip(i as int).len() == 0);
            assert(x@.skip(i as int).len() > 0);
        }
    }
    if x.len() == y.len() {
        Precedence::Same
    } else if x.len() < y.len() {
        Precedence::Before
    } else {
        Precedence::After
    }
}

/// The pieces into which a delimiter cuts a text: what stands between two
/// delimiters, before the first and after the last. A text without the
/// delimiter is one piece.
pub open spec fn split_on(s: Seq<char>, delimiter: char) -> Seq<Seq<char>>
    decreases s.len(),
{
    if s.len() == 0 {
        seq![Seq::empty()]
    } else {
        let before = split_on(s.drop_last(), delimiter);
        if s.last() == delimiter {
            before.push(Seq::empty())
        } else {
            before.drop_last().push(before.last().push(s.last()))
        }
    }
}

/// The pieces into which a delimiter cuts a line.
pub fn split_line(line: &str, delimiter: char) -> (r: Vec<String>)
    ensures
        r.deep_view() == split_on(line@, delimiter),
{
    let chars = to_chars(line);
    let mut pieces: Vec<String> = Vec::new();
    let mut current: Vec<char> = Vec::new();
    let mut i: usize = 0;
    while i < chars.len()
        invariant
            i <= chars@.len(),
            split_on(chars@.take(i as int), delimiter) == pieces.deep_view().push(current@),
        decreases chars.len() - i,
    {
        let c = chars[i];
        let ghost before = chars@.take(i as int);
        let ghost old_pieces = pieces.deep_view();
        let ghost old_current = current@;
        if c == delimiter {
            pieces.push(from_chars(&current));
            current = Vec::new();
            proof {
                assert(pieces.deep_view() =~= old_pieces.push(old_current));
            }
        } else {
            current.push(c);
        }
        i += 1;
        proof {
            let now = chars@.take(i as int);
            assert(now.drop_last() =~= before);
            assert(now.last() == c);
            assert(old_pieces.push(old_current).drop_last() =~= old_pieces);
        }
    }
    let ghost old_pieces = pieces.deep_view();
    pieces.push(from_chars(&current));
    proof {
        assert(chars@.take(chars@.len() as int) =~= chars@);
        assert(pieces.deep_view() =~= old_pieces.push(current@));
    }
    pieces
}

/// Whether each text of a list comes before those after it: the list is in
/// the order of strings and holds no text twice.
pub open spec fn strictly_sorted(list: Seq<Seq<char>>) -> bool {
    forall|i: int, j: int| 0 <= i < j < list.len() ==> text_lt(#[trigger] list[i], #[trigger] list[j])
}

/// Puts a field into a list that is in order and without repetition, at its
/// place; a field that the list holds already is dropped.
pub fn insert_sorted(list: &mut Vec<String>, field: String)
    requires
        strictly_sorted(old(list).deep_view()),
    ensures
        strictly_sorted(final(list).deep_view()),
        forall|f: Seq<char>|
            #![all_triggers]
            final(list).deep_view().contains(f) <==> (old(list).deep_view().contains(f) || f
                == field@),
{
    let ghost before = list.deep_view();
    let mut i: usize = 0;
    let mut found: bool = false;
    while i < list.len()
        invariant_except_break
            !found,
        invariant
            list.deep_view() == before,
            i <= list@.len(),
            list@.len() == before.len(),
            forall|k: int| 0 <= k < i ==> text_lt(#[trigger] before[k], field@),
        ensures
            i <= list@.len(),
            found ==> i < list@.len() && before[i as int] == field@,
            !found ==> i == list@.len() || text_lt(field@, before[i as int]),
        decreases list.len() - i,
    {
        assert(before[i as int] == list@[i as int]@);
        match compare_texts(list[i].as_str(), field.as_str()) {
            Precedence::Before => {
                i += 1;
            },
            Precedence::Same => {
                found = true;
                break ;
            },
            Precedence::After => {
                break ;
            },
        }
    }
    if found {
        assert(before.contains(field@));
        return ;
    }
    list.insert(i, field);
    proof {
        let after = list.deep_view();
        assert(after =~= before.insert(i as int, field@));
        assert forall|a: int, b: int| 0 <= a < b < after.len() implies text_lt(
            #[trigger] after[a],
            #[trigger] after[b],
        ) by {
            if b < i {
                assert(after[a] == before[a] && after[b] == before[b]);
            } else if b == i {
                assert(after[a] == before[a]);
            } else if a < i {
                assert(after[a] == before[a] && after[b] == before[b - 1]);
            } else if a == i {
                assert(after[b] == before[b - 1]);
                if b - 1 > i {
                    lemma_text_lt_transitive(field@, before[i as int], before[b - 1]);
                }
            } else {
                assert(after[a] == before[a - 1] && after[b] == before[b - 1]);
            }
        }
        assert forall|f: Seq<char>| after.contains(f) <==> (before.contains(f) || f
            == field@) by {
            if after.contains(f) {
                let k = choose|k: int| 0 <= k < after.len() && after[k] == f;
                if k < i {
                    assert(before[k] == f);
                } else if k > i {
                    assert(before[k - 1] == f);
                }
            }
            if before.contains(f) {
                let k = choose|k: int| 0 <= k < before.len() && before[k] == f;
                if k < i {
                    assert(after[k] == f);
                } else {
                    assert(after[k + 1] == f);
                }
            }
            if f == field@ {
                assert(after[i as int] == f);
            }
        }
    }
}

/// Whether a text is among the fields of a line: it is not empty, and it is
/// the compared form of one of the line's pieces.
pub open spec fn is_field_of(
    f: Seq<char>,
    pieces: Seq<Seq<char>>,
    ignore_case: bool,
    ignore_whitespace: bool,
) -> bool {
    f.len() > 0 && exists|i: int|
        0 <= i < pieces.len() && normalized(#[trigger] pieces[i], ignore_case, ignore_whitespace)
            == f
}

/// Whether a list holds the fields of a line: it is in order, without
/// repetition, and holds exactly the fields of the line.
pub open spec fn lists_fields_of(
    list: Seq<Seq<char>>,
    line: Seq<char>,
    delimiter: char,
    ignore_case: bool,
    ignore_whitespace: bool,
) -> bool {
    &&& strictly_sorted(list)
    &&& forall|f: Seq<char>|
        #![all_triggers]
        list.contains(f) <==> is_field_of(
            f,
            split_on(line, delimiter),
            ignore_case,
            ignore_whitespace,
        )
}

/// The fields of a line: its pieces in their compared form, without the
/// empty ones, in order and each once.
pub fn fields_of_line(line: &str, options: &DiffOptions) -> (r: Vec<String>)
    ensures
        lists_fields_of(
            r.deep_view(),
            line@,
            options.delimiter,
            options.ignore_case,
            options.ignore_whitespace,
        ),
{
    let pieces = split_line(line, options.delimiter);
    let ghost all = pieces.deep_view();
    let mut fields: Vec<String> = Vec::new();
    let mut i: usize = 0;
    while i < pieces.len()
        invariant
            i <= pieces@.len(),
            all == pieces.deep_view(),
            strictly_sorted(fields.deep_view()),
            forall|f: Seq<char>|
                fields.deep_view().contains(f) <==> is_field_of(
                    f,
                    all.take(i as int),
                    options.ignore_case,
                    options.ignore_whitespace,
                ),
        decreases pieces.len() - i,
    {
        let ghost before = fields.deep_view();
        let ghost piece = all[i as int];
        assert(piece == pieces@[i as int]@);
        let normalized_field = normalize_field(pieces[i].as_str(), options);
        let ghost value = normalized_field@;
        let empty = normalized_field.as_str().unicode_len() == 0;
        if !empty {
            insert_sorted(&mut fields, normalized_field);
        }
        i += 1;
        proof {
            let now = all.take(i as int);
            let earlier = all.take(i - 1);
            assert(now[i - 1] == piece);
            assert forall|f: Seq<char>| fields.deep_view().contains(f) <==> is_field_of(
                f,
                now,
                options.ignore_case,
                options.ignore_whitespace,
            ) by {
                if is_field_of(f, earlier, options.ignore_case, options.ignore_whitespace) {
                    let k = choose|k: int|
                        0 <= k < earlier.len() && normalized(
                            #[trigger] earlier[k],
                            options.ignore_case,
                            options.ignore_whitespace,
                        ) == f;
                    assert(now[k] == earlier[k]);
                }
                if is_field_of(f, now, options.ignore_case, options.ignore_whitespace) {
                    let k = choose|k: int|
                        0 <= k < now.len() && normalized(
                            #[trigger] now[k],
                            options.ignore_case,
                            options.ignore_whitespace,
                        ) == f;
                    if k < i - 1 {
                        assert(earlier[k] == now[k]);
                    }
                }
            }
        }
    }
    proof {
        assert(all.take(pieces@.len() as int) =~= all);
    }
    fields
}

/// Whether three lists are the comparison of two field lists: the first
/// holds the fields of either, the second those of the first list only, the
/// third those of the second list only, each in order and without
/// repetition.
pub open spec fn is_diff_of(
    union: Seq<Seq<char>>,
    only_in_1: Seq<Seq<char>>,
    only_in_2: Seq<Seq<char>>,
    fields1: Seq<Seq<char>>,
    fields2: Seq<Seq<char>>,
) -> bool {
    &&& strictly_sorted(union)
    &&& strictly_sorted(only_in_1)
    &&& strictly_sorted(only_in_2)
    &&& forall|f: Seq<char>|
        #![all_triggers]
        union.contains(f) <==> (fields1.contains(f) || fields2.contains(f))
    &&& forall|f: Seq<char>|
        #![all_triggers]
        only_in_1.contains(f) <==> (fields1.contains(f) && !fields2.contains(f))
    &&& forall|f: Seq<char>|
        #![all_triggers]
        only_in_2.contains(f) <==> (fields2.contains(f) && !fields1.contains(f))
}

/// A text that comes before a place of a sorted list is none of the texts
/// from that place on; one that comes after a place is none of the texts up
/// to it.
proof fn lemma_not_in_sorted(list: Seq<Seq<char>>, f: Seq<char>, place: int)
    requires
        strictly_sorted(list),
        0 <= place <= list.len(),
        forall|k: int| 0 <= k < place ==> text_lt(#[trigger] list[k], f),
        place < list.len() ==> text_lt(f, list[place]),
    ensures
        !list.contains(f),
{
    if list.contains(f) {
        let k = choose|k: int| 0 <= k < list.len() && list[k] == f;
        lemma_text_lt_irreflexive(f);
        if k > place {
            lemma_text_lt_transitive(f, list[place], list[k]);
        }
    }
}

/// Appending a text that comes after all texts of a sorted list keeps the
/// list sorted.
proof fn lemma_push_sorted(list: Seq<Seq<char>>, f: Seq<char>)
    requires
        strictly_sorted(list),
        forall|k: int| 0 <= k < list.len() ==> text_lt(#[trigger] list[k], f),
    ensures
        strictly_sorted(list.push(f)),
{
    let after = list.push(f);
    assert forall|i: int, j: int| 0 <= i < j < after.len() implies text_lt(
        #[trigger] after[i],
        #[trigger] after[j],
    ) by {
        assert(after[i] == list[i]);
        if j < list.len() {
            assert(after[j] == list[j]);
        }
    }
}

/// What a list holds after a text is appended.
proof fn lemma_push_contains(list: Seq<Seq<char>>, f: Seq<char>)
    ensures
        forall|g: Seq<char>|
            #![all_triggers]
            list.push(f).contains(g) <==> (list.contains(g) || g == f),
{
    let after = list.push(f);
    assert forall|g: Seq<char>| after.contains(g) <==> (list.contains(g) || g == f) by {
        if after.contains(g) {
            let k = choose|k: int| 0 <= k < after.len() && after[k] == g;
            if k < list.len() {
                assert(list[k] == g);
            }
        }
        if list.contains(g) {
            let k = choose|k: int| 0 <= k < list.len() && list[k] == g;
            assert(after[k] == g);
        }
        if g == f {
            assert(after[list.len() as int] == g);
        }
    }
}

/// What the first texts of a list hold once one more is counted in.
proof fn lemma_take_contains(list: Seq<Seq<char>>, count: int)
    requires
        0 <= count < list.len(),
    ensures
        forall|g: Seq<char>|
            #![all_triggers]
            list.take(count + 1).contains(g) <==> (list.take(count).contains(g) || g
                == list[count]),
{
    assert(list.take(count + 1) =~= list.take(count).push(list[count]));
    lemma_push_contains(list.take(count), list[count]);
}

/// The state of the merge of two sorted lists when `i` texts of the first
/// and `j` of the second have been passed.
spec fn merged(
    union: Seq<Seq<char>>,
    only_in_1: Seq<Seq<char>>,
    only_in_2: Seq<Seq<char>>,
    a: Seq<Seq<char>>,
    b: Seq<Seq<char>>,
    i: int,
    j: int,
) -> bool {
    &&& 0 <= i <= a.len()
    &&& 0 <= j <= b.len()
    &&& strictly_sorted(a)
    &&& strictly_sorted(b)
    &&& strictly_sorted(union)
    &&& strictly_sorted(only_in_1)
    &&& strictly_sorted(only_in_2)
    &&& forall|k: int| 0 <= k < j && i < a.len() ==> text_lt(#[trigger] b[k], a[i])
    &&& forall|k: int| 0 <= k < i && j < b.len() ==> text_lt(#[trigger] a[k], b[j])
    &&& forall|f: Seq<char>|
        #![all_triggers]
        union.contains(f) <==> (a.take(i).contains(f) || b.take(j).contains(f))
    &&& forall|f: Seq<char>|
        #![all_triggers]
        only_in_1.contains(f) <==> (a.take(i).contains(f) && !b.contains(f))
    &&& forall|f: Seq<char>|
        #![all_triggers]
        only_in_2.contains(f) <==> (b.take(j).contains(f) && !a.contains(f))
}

/// A text among the first texts of a list is a text of the list, at an
/// earlier place.
proof fn lemma_taken(list: Seq<Seq<char>>, count: int, f: Seq<char>) -> (k: int)
    requires
        0 <= count <= list.len(),
        list.take(count).contains(f),
    ensures
        0 <= k < count,
        list[k] == f,
        list.contains(f),
{
    let k = choose|k: int| 0 <= k < list.take(count).len() && list.take(count)[k] == f;
    assert(list[k] == f);
    k
}

/// One step of the merge that passes a text of the first list which the
/// second list does not hold.
proof fn lemma_step_first(
    union: Seq<Seq<char>>,
    only_in_1: Seq<Seq<char>>,
    only_in_2: Seq<Seq<char>>,
    a: Seq<Seq<char>>,
    b: Seq<Seq<char>>,
    i: int,
    j: int,
)
    requires
        merged(union, only_in_1, only_in_2, a, b, i, j),
        i < a.len(),
        j < b.len() ==> text_lt(a[i], b[j]),
    ensures
        merged(union.push(a[i]), only_in_1.push(a[i]), only_in_2, a, b, i + 1, j),
{
    let x = a[i];
    lemma_not_in_sorted(b, x, j);
    lemma_take_contains(a, i);
    lemma_push_contains(union, x);
    lemma_push_contains(only_in_1, x);
    assert forall|k: int| 0 <= k < union.len() implies text_lt(#[trigger] union[k], x) by {
        let f = union[k];
        assert(union.contains(f));
        if a.take(i).contains(f) {
            let p = lemma_taken(a, i, f);
        } else {
            let p = lemma_taken(b, j, f);
        }
    }
    lemma_push_sorted(union, x);
    assert forall|k: int| 0 <= k < only_in_1.len() implies text_lt(#[trigger] only_in_1[k], x) by {
        let f = only_in_1[k];
        assert(only_in_1.contains(f));
        let p = lemma_taken(a, i, f);
    }
    lemma_push_sorted(only_in_1, x);
    assert forall|k: int| 0 <= k < j && i + 1 < a.len() implies text_lt(
        #[trigger] b[k],
        a[i + 1],
    ) by {
        lemma_text_lt_transitive(b[k], a[i], a[i + 1]);
    }
    assert forall|f: Seq<char>|
        union.push(x).contains(f) <==> (a.take(i + 1).contains(f) || b.take(j).contains(f)) by {
        assert(union.contains(f) <==> (a.take(i).contains(f) || b.take(j).contains(f)));
    }
    assert forall|f: Seq<char>|
        #![trigger only_in_1.push(x).contains(f)]
        only_in_1.push(x).contains(f) <==> (a.take(i + 1).contains(f) && !b.contains(f)) by {
        assert(only_in_1.contains(f) <==> (a.take(i).contains(f) && !b.contains(f)));
    }
}

/// One step of the merge that passes a text which both lists hold.
proof fn lemma_step_both(
    union: Seq<Seq<char>>,
    only_in_1: Seq<Seq<char>>,
    only_in_2: Seq<Seq<char>>,
    a: Seq<Seq<char>>,
    b: Seq<Seq<char>>,
    i: int,
    j: int,
)
    requires
        merged(union, only_in_1, only_in_2, a, b, i, j),
        i < a.len(),
        j < b.len(),
        a[i] == b[j],
    ensures
        merged(union.push(a[i]), only_in_1, only_in_2, a, b, i + 1, j + 1),
{
    let x = a[i];
    lemma_take_contains(a, i);
    lemma_take_contains(b, j);
    lemma_push_contains(union, x);
    assert(a.contains(x));
    assert(b.contains(x));
    assert forall|k: int| 0 <= k < union.len() implies text_lt(#[trigger] union[k], x) by {
        let f = union[k];
        assert(union.contains(f));
        if a.take(i).contains(f) {
            let p = lemma_taken(a, i, f);
        } else {
            let p = lemma_taken(b, j, f);
        }
    }
    lemma_push_sorted(union, x);
    assert forall|k: int| 0 <= k < j + 1 && i + 1 < a.len() implies text_lt(
        #[trigger] b[k],
        a[i + 1],
    ) by {
        if k < j {
            lemma_text_lt_transitive(b[k], a[i], a[i + 1]);
        }
    }
    assert forall|k: int| 0 <= k < i + 1 && j + 1 < b.len() implies text_lt(
        #[trigger] a[k],
        b[j + 1],
    ) by {
        if k < i {
            lemma_text_lt_transitive(a[k], b[j], b[j + 1]);
        }
    }
    assert forall|f: Seq<char>|
        union.push(x).contains(f) <==> (a.take(i + 1).contains(f) || b.take(j + 1).contains(
            f,
        )) by {
        assert(union.contains(f) <==> (a.take(i).contains(f) || b.take(j).contains(f)));
    }
    assert forall|f: Seq<char>|
        only_in_1.contains(f) <==> (a.take(i + 1).contains(f) && !b.contains(f)) by {
        assert(only_in_1.contains(f) <==> (a.take(i).contains(f) && !b.contains(f)));
    }
    assert forall|f: Seq<char>|
        only_in_2.contains(f) <==> (b.take(j + 1).contains(f) && !a.contains(f)) by {
        assert(only_in_2.contains(f) <==> (b.take(j).contains(f) && !a.contains(f)));
    }
}

/// The merge has the same state when the two lists change places.
proof fn lemma_merged_swap(
    union: Seq<Seq<char>>,
    only_in_1: Seq<Seq<char>>,
    only_in_2: Seq<Seq<char>>,
    a: Seq<Seq<char>>,
    b: Seq<Seq<char>>,
    i: int,
    j: int,
)
    requires
        merged(union, only_in_1, only_in_2, a, b, i, j),
    ensures
        merged(union, only_in_2, only_in_1, b, a, j, i),
{
}

/// Compares two field lists that are in order and without repetition: the
/// fields of either, those of the first only, those of the second only.
pub fn compute_diff(fields1: &Vec<String>, fields2: &Vec<String>) -> (r: (
    Vec<String>,
    Vec<String>,
    Vec<String>,
))
    requires
        strictly_sorted(fields1.deep_view()),
        strictly_sorted(fields2.deep_view()),
    ensures
        is_diff_of(
            r.0.deep_view(),
            r.1.deep_view(),
            r.2.deep_view(),
            fields1.deep_view(),
            fields2.deep_view(),
        ),
        r.0@.len() == fields1@.len() + r.2@.len(),
        r.0@.len() == fields2@.len() + r.1@.len(),
        r.1@.len() <= fields1@.len(),
        r.2@.len() <= fields2@.len(),
{
    let mut union: Vec<String> = Vec::new();
    let mut only_in_1: Vec<String> = Vec::new();
    let mut only_in_2: Vec<String> = Vec::new();
    let ghost a = fields1.deep_view();
    let ghost b = fields2.deep_view();
    let mut i: usize = 0;
    let mut j: usize = 0;
    proof {
        assert(a.take(0) =~= Seq::<Seq<char>>::empty());
        assert(b.take(0) =~= Seq::<Seq<char>>::empty());
    }
    while i < fields1.len() && j < fields2.len()
        invariant
            a == fields1.deep_view(),
            b == fields2.deep_view(),
            union@.len() == i + only_in_2@.len(),
            union@.len() == j + only_in_1@.len(),
            only_in_1@.len() <= i <= fields1@.len(),
            only_in_2@.len() <= j <= fields2@.len(),
            merged(union.deep_view(), only_in_1.deep_view(), only_in_2.deep_view(), a, b, i as int, j as int),
        decreases fields1.len() - i + fields2.len() - j,
    {
        let ghost u = union.deep_view();
        let ghost o1 = only_in_1.deep_view();
        let ghost o2 = only_in_2.deep_view();
        assert(a[i as int] == fields1@[i as int]@);
        assert(b[j as int] == fields2@[j as int]@);
        match compare_texts(fields1[i].as_str(), fields2[j].as_str()) {
            Precedence::Before => {
                union.push(fields1[i].clone());
                only_in_1.push(fields1[i].clone());
                proof {
                    lemma_step_first(u, o1, o2, a, b, i as int, j as int);
                    assert(union.deep_view() =~= u.push(a[i as int]));
                    assert(only_in_1.deep_view() =~= o1.push(a[i as int]));
                }
                i += 1;
            },
            Precedence::After => {
                union.push(fields2[j].clone());
                only_in_2.push(fields2[j].clone());
                proof {
                    lemma_merged_swap(u, o1, o2, a, b, i as int, j as int);
                    lemma_step_first(u, o2, o1, b, a, j as int, i as int);
                    lemma_merged_swap(
                        u.push(b[j as int]),
                        o2.push(b[j as int]),
                        o1,
                        b,
                        a,
                        j as int + 1,
                        i as int,
                    );
                    assert(union.deep_view() =~= u.push(b[j as int]));
                    assert(only_in_2.deep_view() =~= o2.push(b[j as int]));
                }
                j += 1;
            },
            Precedence::Same => {
                union.push(fields1[i].clone());
                proof {
                    lemma_step_both(u, o1, o2, a, b, i as int, j as int);
                    assert(union.deep_view() =~= u.push(a[i as int]));
                }
                i += 1;
                j += 1;
            },
        }
    }
    while i < fields1.len()
        invariant
            a == fields1.deep_view(),
            b == fields2.deep_view(),
            i < fields1@.len() ==> j == fields2@.len(),
            union@.len() == i + only_in_2@.len(),
            union@.len() == j + only_in_1@.len(),
            only_in_1@.len() <= i <= fields1@.len(),
            only_in_2@.len() <= j <= fields2@.len(),
            merged(union.deep_view(), only_in_1.deep_view(), only_in_2.deep_view(), a, b, i as int, j as int),
        decreases fields1.len() - i,
    {
        let ghost u = union.deep_view();
        let ghost o1 = only_in_1.deep_view();
        let ghost o2 = only_in_2.deep_view();
        assert(a[i as int] == fields1@[i as int]@);
        union.push(fields1[i].clone());
        only_in_1.push(fields1[i].clone());
        proof {
            lemma_step_first(u, o1, o2, a, b, i as int, j as int);
            assert(union.deep_view() =~= u.push(a[i as int]));
            assert(only_in_1.deep_view() =~= o1.push(a[i as int]));
        }
        i += 1;
    }
    while j < fields2.len()
        invariant
            a == fields1.deep_view(),
            b == fields2.deep_view(),
            i == fields1@.len(),
            union@.len() == i + only_in_2@.len(),
            union@.len() == j + only_in_1@.len(),
            only_in_1@.len() <= i <= fields1@.len(),
            only_in_2@.len() <= j <= fields2@.len(),
            merged(union.deep_view(), only_in_1.deep_view(), only_in_2.deep_view(), a, b, i as int, j as int),
        decreases fields2.len() - j,
    {
        let ghost u = union.deep_view();
        let ghost o1 = only_in_1.deep_view();
        let ghost o2 = only_in_2.deep_view();
        assert(b[j as int] == fields2@[j as int]@);
        union.push(fields2[j].clone());
        only_in_2.push(fields2[j].clone());
        proof {
            lemma_merged_swap(u, o1, o2, a, b, i as int, j as int);
            lemma_step_first(u, o2, o1, b, a, j as int, i as int);
            lemma_merged_swap(
                u.push(b[j as int]),
                o2.push(b[j as int]),
                o1,
                b,
                a,
                j as int + 1,
                i as int,
            );
            assert(union.deep_view() =~= u.push(b[j as int]));
            assert(only_in_2.deep_view() =~= o2.push(b[j as int]));
        }
        j += 1;
    }
    proof {
        assert(a.take(i as int) =~= a);
        assert(b.take(j as int) =~= b);
    }
    (union, only_in_1, only_in_2)
}

/// Two lists in order and without repetition that hold the same texts are
/// the same list: to say which texts a sorted list holds is to say what the
/// list is.
pub proof fn law_sorted_lists_equal(a: Seq<Seq<char>>, b: Seq<Seq<char>>)
    requires
        strictly_sorted(a),
        strictly_sorted(b),
        forall|f: Seq<char>| #![all_triggers] a.contains(f) <==> b.contains(f),
    ensures
        a == b,
    decreases a.len(),
{
    if a.len() == 0 {
        if b.len() > 0 {
            assert(b.contains(b[0]));
        }
        assert(a =~= b);
    } else if b.len() == 0 {
        assert(a.contains(a[0]));
    } else {
        assert(a.contains(a[0]));
        assert(b.contains(b[0]));
        let k = choose|k: int| 0 <= k < b.len() && b[k] == a[0];
        let m = choose|m: int| 0 <= m < a.len() && a[m] == b[0];
        if k > 0 && m > 0 {
            lemma_text_lt_transitive(a[0], a[m], b[k]);
            lemma_text_lt_irreflexive(a[0]);
        }
        assert(a[0] == b[0]);
        let x = a.drop_first();
        let y = b.drop_first();
        assert forall|f: Seq<char>| #![all_triggers] x.contains(f) <==> y.contains(f) by {
            lemma_text_lt_irreflexive(a[0]);
            if x.contains(f) {
                let p = choose|p: int| 0 <= p < x.len() && x[p] == f;
                assert(a[p + 1] == f);
                assert(a.contains(f));
                let q = choose|q: int| 0 <= q < b.len() && b[q] == f;
                assert(y[q - 1] == f);
            }
            if y.contains(f) {
                let p = choose|p: int| 0 <= p < y.len() && y[p] == f;
                assert(b[p + 1] == f);
                assert(b.contains(f));
                let q = choose|q: int| 0 <= q < a.len() && a[q] == f;
                assert(x[q - 1] == f);
            }
        }
        assert forall|i: int, j: int| 0 <= i < j < x.len() implies text_lt(
            #[trigger] x[i],
            #[trigger] x[j],
        ) by {
            assert(x[i] == a[i + 1] && x[j] == a[j + 1]);
        }
        assert forall|i: int, j: int| 0 <= i < j < y.len() implies text_lt(
            #[trigger] y[i],
            #[trigger] y[j],
        ) by {
            assert(y[i] == b[i + 1] && y[j] == b[j + 1]);
        }
        law_sorted_lists_equal(x, y);
        assert(a =~= seq![a[0]] + x);
        assert(b =~= seq![b[0]] + y);
    }
}

/// Whether a mode puts out a field, given whether the first list holds it
/// and whether the second does.
pub open spec fn mode_selects(mode: DiffOutputMode, in_first: bool, in_second: bool) -> bool {
    match mode {
        DiffOutputMode::Union | DiffOutputMode::DiffBasedOnFile1 | DiffOutputMode::DiffBasedOnFile2 => in_first
            || in_second,
        DiffOutputMode::Complement => in_first != in_second,
        DiffOutputMode::OnlyInFile1 => in_first && !in_second,
        DiffOutputMode::OnlyInFile2 => in_second && !in_first,
        DiffOutputMode::SortFile1 => in_first,
        DiffOutputMode::SortFile2 => in_second,
    }
}

/// The fields that a mode puts out, in order and without repetition, from
/// two field lists and their comparison.
pub fn select_output(
    mode: DiffOutputMode,
    fields1: &Vec<String>,
    fields2: &Vec<String>,
    union: &Vec<String>,
    only_in_1: &Vec<String>,
    only_in_2: &Vec<String>,
) -> (r: Vec<String>)
    requires
        strictly_sorted(fields1.deep_view()),
        strictly_sorted(fields2.deep_view()),
        is_diff_of(
            union.deep_view(),
            only_in_1.deep_view(),
            only_in_2.deep_view(),
            fields1.deep_view(),
            fields2.deep_view(),
        ),
    ensures
        strictly_sorted(r.deep_view()),
        forall|f: Seq<char>|
            #![all_triggers]
            r.deep_view().contains(f) <==> mode_selects(
                mode,
                fields1.deep_view().contains(f),
                fields2.deep_view().contains(f),
            ),
{
    match mode {
        DiffOutputMode::Union => union.clone(),
        DiffOutputMode::Complement => compute_diff(only_in_1, only_in_2).0,
        DiffOutputMode::DiffBasedOnFile1 => compute_diff(fields1, only_in_2).0,
        DiffOutputMode::DiffBasedOnFile2 => compute_diff(fields2, only_in_1).0,
        DiffOutputMode::OnlyInFile1 => only_in_1.clone(),
        DiffOutputMode::OnlyInFile2 => only_in_2.clone(),
        DiffOutputMode::SortFile1 => fields1.clone(),
        DiffOutputMode::SortFile2 => fields2.clone(),
    }
}

/// The fields of a list in one line, the delimiter between each two.
pub open spec fn joined(fields: Seq<Seq<char>>, delimiter: char) -> Seq<char>
    decreases fields.len(),
{
    if fields.len() == 0 {
        Seq::empty()
    } else if fields.len() == 1 {
        fields[0]
    } else {
        joined(fields.drop_last(), delimiter).push(delimiter) + fields.last()
    }
}

/// The fields of a list in one line, the delimiter between each two.
pub fn join_fields(fields: &Vec<String>, delimiter: char) -> (r: String)
    ensures
        r@ == joined(fields.deep_view(), delimiter),
{
    let mut out: Vec<char> = Vec::new();
    let ghost all = fields.deep_view();
    let mut i: usize = 0;
    while i < fields.len()
        invariant
            i <= fields@.len(),
            all == fields.deep_view(),
            out@ == joined(all.take(i as int), delimiter),
        decreases fields.len() - i,
    {
        if i > 0 {
            out.push(delimiter);
        }
        assert(all[i as int] == fields@[i as int]@);
        push_chars(&mut out, fields[i].as_str());
        i += 1;
        proof {
            let now = all.take(i as int);
            assert(now.drop_last() =~= all.take(i - 1));
            assert(now.last() == all[i - 1]);
            if i == 1 {
                assert(out@ =~= all[0]);
            }
        }
    }
    proof {
        assert(all.take(fields@.len() as int) =~= all);
    }
    from_chars(&out)
}

/// The fields of a list as lines of a report: a hyphen, a blank and the
/// field on each.
pub open spec fn field_lines(fields: Seq<Seq<char>>) -> Seq<char>
    decreases fields.len(),
{
    if fields.len() == 0 {
        Seq::empty()
    } else {
        field_lines(fields.drop_last()) + "- "@ + fields.last() + seq!['\n']
    }
}

/// A line of the report that gives a count under a label.
pub open spec fn count_line(label: Seq<char>, count: nat) -> Seq<char> {
    label + decimal_digits(count) + seq!['\n']
}

/// The head of the report: its title and the two files.
pub open spec fn report_head(file1: Seq<char>, file2: Seq<char>) -> Seq<char> {
    "Field difference report\n=======================\n\n"@ + "File 1: "@ + file1 + seq!['\n']
        + "File 2: "@ + file2 + "\n\n"@
}

/// The summary of the report: the five counts.
pub open spec fn report_summary(
    count1: nat,
    count2: nat,
    common: nat,
    only1: nat,
    only2: nat,
) -> Seq<char> {
    "Summary\n-------\n"@ + count_line("Fields in file 1: "@, count1) + count_line(
        "Fields in file 2: "@,
        count2,
    ) + count_line("Fields in both files: "@, common) + count_line(
        "Fields only in file 1: "@,
        only1,
    ) + count_line("Fields only in file 2: "@, only2) + seq!['\n']
}

/// A section of the report: a heading, the fields of a list, and a note
/// where the list is empty and a note is asked for.
pub open spec fn report_section(heading: Seq<char>, fields: Seq<Seq<char>>, note_empty: bool) -> Seq<
    char,
> {
    heading + field_lines(fields) + if note_empty && fields.len() == 0 {
        "(none)\n"@
    } else {
        Seq::empty()
    }
}

/// The detailed report of a comparison.
pub open spec fn report_text(
    file1: Seq<char>,
    file2: Seq<char>,
    fields1: Seq<Seq<char>>,
    fields2: Seq<Seq<char>>,
    only_in_1: Seq<Seq<char>>,
    only_in_2: Seq<Seq<char>>,
    common_count: nat,
) -> Seq<char> {
    report_head(file1, file2) + report_summary(
        fields1.len(),
        fields2.len(),
        common_count,
        only_in_1.len(),
        only_in_2.len(),
    ) + report_section("Fields only in file 1\n---------------------\n"@, only_in_1, true)
        + seq!['\n'] + report_section(
        "Fields only in file 2\n---------------------\n"@,
        only_in_2,
        true,
    ) + seq!['\n'] + report_section("All fields of file 1\n--------------------\n"@, fields1, false)
        + seq!['\n'] + report_section("All fields of file 2\n--------------------\n"@, fields2, false)
}

/// Appends a line of the report that gives a count under a label.
fn push_count_line(out: &mut Vec<char>, label: &str, count: usize)
    ensures
        final(out)@ == old(out)@ + count_line(label@, count as nat),
{
    let ghost before = out@;
    push_chars(out, label);
    push_decimal_digits(out, count as u128);
    out.push('\n');
    proof {
        assert(out@ =~= before + count_line(label@, count as nat));
    }
}

/// Appends a section of the report.
fn push_section(out: &mut Vec<char>, heading: &str, fields: &Vec<String>, note_empty: bool)
    ensures
        final(out)@ == old(out)@ + report_section(heading@, fields.deep_view(), note_empty),
{
    let ghost before = out@;
    let ghost all = fields.deep_view();
    push_chars(out, heading);
    let mut i: usize = 0;
    while i < fields.len()
        invariant
            i <= fields@.len(),
            all == fields.deep_view(),
            out@ == before + heading@ + field_lines(all.take(i as int)),
        decreases fields.len() - i,
    {
        let ghost entering = out@;
        assert(all[i as int] == fields@[i as int]@);
        push_chars(out, "- ");
        push_chars(out, fields[i].as_str());
        out.push('\n');
        i += 1;
        proof {
            let now = all.take(i as int);
            assert(now.drop_last() =~= all.take(i - 1));
            assert(now.last() == all[i - 1]);
            assert(out@ =~= before + heading@ + field_lines(now));
        }
    }
    proof {
        assert(all.take(fields@.len() as int) =~= all);
    }
    if note_empty && fields.len() == 0 {
        push_chars(out, "(none)\n");
    }
    proof {
        assert(out@ =~= before + report_section(heading@, all, note_empty));
    }
}

/// The detailed report of a comparison: the two files, the counts, the
/// fields of one list only, and both lists in full.
pub fn generate_diff_report(
    input_file1: &str,
    input_file2: &str,
    fields1: &Vec<String>,
    fields2: &Vec<String>,
    only_in_1: &Vec<String>,
    only_in_2: &Vec<String>,
    common_count: usize,
) -> (r: String)
    ensures
        r@ == report_text(
            input_file1@,
            input_file2@,
            fields1.deep_view(),
            fields2.deep_view(),
            only_in_1.deep_view(),
            only_in_2.deep_view(),
            common_count as nat,
        ),
{
    let mut out: Vec<char> = Vec::new();
    push_chars(&mut out, "Field difference report\n=======================\n\n");
    push_chars(&mut out, "File 1: ");
    push_chars(&mut out, input_file1);
    out.push('\n');
    push_chars(&mut out, "File 2: ");
    push_chars(&mut out, input_file2);
    push_chars(&mut out, "\n\n");
    let ghost head = out@;
    proof {
        assert(head =~= report_head(input_file1@, input_file2@));
    }
    push_chars(&mut out, "Summary\n-------\n");
    push_count_line(&mut out, "Fields in file 1: ", fields1.len());
    push_count_line(&mut out, "Fields in file 2: ", fields2.len());
    push_count_line(&mut out, "Fields in both files: ", common_count);
    push_count_line(&mut out, "Fields only in file 1: ", only_in_1.len());
    push_count_line(&mut out, "Fields only in file 2: ", only_in_2.len());
    out.push('\n');
    let ghost summary = out@;
    proof {
        assert(summary =~= head + report_summary(
            fields1.deep_view().len(),
            fields2.deep_view().len(),
            common_count as nat,
            only_in_1.deep_view().len(),
            only_in_2.deep_view().len(),
        ));
    }
    push_section(&mut out, "Fields only in file 1\n---------------------\n", only_in_1, true);
    out.push('\n');
    push_section(&mut out, "Fields only in file 2\n---------------------\n", only_in_2, true);
    out.push('\n');
    push_section(&mut out, "All fields of file 1\n--------------------\n", fields1, false);
    out.push('\n');
    push_section(&mut out, "All fields of file 2\n--------------------\n", fields2, false);
    from_chars(&out)
}

/// What the comparison of two field lists gives: the lists, their
/// comparison, the fields put out, the line to write, and the report where
/// one is asked for.
#[derive(Debug, Clone, PartialEq, Eq)]
pub struct DiffOutcome {
    /// The fields of the first line.
    pub fields1: Vec<String>,
    /// The fields of the second line.
    pub fields2: Vec<String>,
    /// The fields of either line.
    pub union: Vec<String>,
    /// The fields of the first line only.
    pub only_in_1: Vec<String>,
    /// The fields of the second line only.
    pub only_in_2: Vec<String>,
    /// The number of fields of both lines.
    pub common_count: usize,
    /// The fields that the mode puts out.
    pub output_fields: Vec<String>,
    /// The line to write: the fields put out, the delimiter between them.
    pub output: String,
    /// The detailed report.
    pub report: Option<String>,
}

/// The mode of the comparison that a mode of the command line stands for.
pub fn diff_mode(mode: crate::cli::DiffOutputMode) -> (r: DiffOutputMode)
    ensures
        r == match mode {
            crate::cli::DiffOutputMode::Union => DiffOutputMode::Union,
            crate::cli::DiffOutputMode::Complement => DiffOutputMode::Complement,
            crate::cli::DiffOutputMode::DiffBasedOnFile1 => DiffOutputMode::DiffBasedOnFile1,
            crate::cli::DiffOutputMode::DiffBasedOnFile2 => DiffOutputMode::DiffBasedOnFile2,
            crate::cli::DiffOutputMode::OnlyInFile1 => DiffOutputMode::OnlyInFile1,
            crate::cli::DiffOutputMode::OnlyInFile2 => DiffOutputMode::OnlyInFile2,
            crate::cli::DiffOutputMode::SortedFile1 => DiffOutputMode::SortFile1,
            crate::cli::DiffOutputMode::SortedFile2 => DiffOutputMode::SortFile2,
        },
{
    match mode {
        crate::cli::DiffOutputMode::Union => DiffOutputMode::Union,
        crate::cli::DiffOutputMode::Complement => DiffOutputMode::Complement,
        crate::cli::DiffOutputMode::DiffBasedOnFile1 => DiffOutputMode::DiffBasedOnFile1,
        crate::cli::DiffOutputMode::DiffBasedOnFile2 => DiffOutputMode::DiffBasedOnFile2,
        crate::cli::DiffOutputMode::OnlyInFile1 => DiffOutputMode::OnlyInFile1,
        crate::cli::DiffOutputMode::OnlyInFile2 => DiffOutputMode::OnlyInFile2,
        crate::cli::DiffOutputMode::SortedFile1 => DiffOutputMode::SortFile1,
        crate::cli::DiffOutputMode::SortedFile2 => DiffOutputMode::SortFile2,
    }
}

/// Compares the field lists that the first lines of two files hold, and
/// prepares the line to write and, where the options name a place for it,
/// the report.
pub fn diff_fields(
    input_file1: &str,
    first_line1: &str,
    input_file2: &str,
    first_line2: &str,
    mode: DiffOutputMode,
    options: &DiffOptions,
) -> (r: DiffOutcome)
    ensures
        lists_fields_of(
            r.fields1.deep_view(),
            first_line1@,
            options.delimiter,
            options.ignore_case,
            options.ignore_whitespace,
        ),
        lists_fields_of(
            r.fields2.deep_view(),
            first_line2@,
            options.delimiter,
            options.ignore_case,
            options.ignore_whitespace,
        ),
        is_diff_of(
            r.union.deep_view(),
            r.only_in_1.deep_view(),
            r.only_in_2.deep_view(),
            r.fields1.deep_view(),
            r.fields2.deep_view(),
        ),
        r.common_count + r.union@.len() == r.fields1@.len() + r.fields2@.len(),
        strictly_sorted(r.output_fields.deep_view()),
        forall|f: Seq<char>|
            #![all_triggers]
            r.output_fields.deep_view().contains(f) <==> mode_selects(
                mode,
                r.fields1.deep_view().contains(f),
                r.fields2.deep_view().contains(f),
            ),
        r.output@ == joined(r.output_fields.deep_view(), options.delimiter),
        match r.report {
            Some(report) => options.report_path.is_some() && report@ == report_text(
                input_file1@,
                input_file2@,
                r.fields1.deep_view(),
                r.fields2.deep_view(),
                r.only_in_1.deep_view(),
                r.only_in_2.deep_view(),
                r.common_count as nat,
            ),
            None => options.report_path.is_none(),
        },
{
    let fields1 = fields_of_line(first_line1, options);
    let fields2 = fields_of_line(first_line2, options);
    let (union, only_in_1, only_in_2) = compute_diff(&fields1, &fields2);
    let common_count: usize = fields1.len() - only_in_1.len();
    let output_fields = select_output(mode, &fields1, &fields2, &union, &only_in_1, &only_in_2);
    let output = join_fields(&output_fields, options.delimiter);
    let report = match options.report_path {
        Some(_) => Some(
            generate_diff_report(
                input_file1,
                input_file2,
                &fields1,
                &fields2,
                &only_in_1,
                &only_in_2,
                common_count,
            ),
        ),
        None => None,
    };
    DiffOutcome {
        fields1,
        fields2,
        union,
        only_in_1,
        only_in_2,
        common_count,
        output_fields,
        output,
        report,
    }
}

} // verus!
