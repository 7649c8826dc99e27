//! How the queries of polls are read: the parameters of a query, the numbers
//! they write, and what a clause of a filter asks for.

use vstd::prelude::*;

use crate::text;
use crate::time::Moment;

verus! {

/// The value of the first parameter of a name.
pub open spec fn param(query: Seq<(Seq<char>, Seq<char>)>, name: Seq<char>) -> Option<Seq<char>>
    decreases query.len(),
{
    if query.len() == 0 {
        None
    } else if query[0].0 == name {
        Some(query[0].1)
    } else {
        param(query.drop_first(), name)
    }
}

/// The number that decimal digits write, with a minus sign before them or none.
pub open spec fn written(s: Seq<char>) -> int {
    if s.len() > 0 && s[0] == '-' {
        -count_of(s.drop_first())
    } else {
        count_of(s)
    }
}

/// The number that decimal digits write.
pub open spec fn count_of(s: Seq<char>) -> int
    decreases s.len(),
{
    if s.len() == 0 {
        0
    } else {
        10 * count_of(s.drop_last()) + (s.last() as int - '0' as int)
    }
}

/// Whether a text is decimal digits.
pub open spec fn is_count(s: Seq<char>) -> bool {
    s.len() > 0 && forall|i: int| 0 <= i < s.len() ==> '0' <= #[trigger] s[i] <= '9'
}

/// A comparison in a filter.
pub struct Comparison {
    /// The field that is compared.
    pub field: Seq<char>,
    /// The operator.
    pub operator: Seq<char>,
    /// What the field is compared with.
    pub operand: Seq<char>,
}

/// The comparison that a clause is: a field, an operator and an operand, with a
/// space between them.
pub open spec fn comparison_of(clause: Seq<char>) -> Option<Comparison> {
    match clause.index_of_first(' ') {
        None => None,
        Some(i) => {
            let rest = clause.skip(i + 1);
            match rest.index_of_first(' ') {
                None => None,
                Some(j) => Some(
                    Comparison {
                        field: clause.take(i),
                        operator: rest.take(j),
                        operand: rest.skip(j + 1),
                    },
                ),
            }
        },
    }
}

/// Whether one instant comes later than another.
pub open spec fn later(a: Moment, b: Moment) -> bool {
    a.secs > b.secs || (a.secs == b.secs && a.nanos > b.nanos)
}

/// Whether an operator holds between two values of which the first may be greater
/// or less than the second.
pub open spec fn holds(operator: Seq<char>, greater: bool, less: bool) -> bool {
    if operator == seq!['>'] {
        greater
    } else if operator == seq!['<'] {
        less
    } else if operator == seq!['='] {
        !greater && !less
    } else if operator == seq!['>', '='] {
        !less
    } else if operator == seq!['<', '='] {
        !greater
    } else {
        false
    }
}

/// Whether a clause that compares a field with a cursor, written as `operand`, asks
/// for a row whose field holds the instant `row`.
pub open spec fn asks_for(
    clause: Seq<char>,
    field: Seq<char>,
    operand: Seq<char>,
    cursor: Moment,
    row: Moment,
) -> bool {
    match comparison_of(clause) {
        Some(c) => c.field == field && c.operand == operand && holds(
            c.operator,
            later(row, cursor),
            later(cursor, row),
        ),
        None => false,
    }
}

/// A field without spaces, an operator without spaces and an operand read as what
/// they are.
pub proof fn comparison_reads(field: Seq<char>, operator: Seq<char>, operand: Seq<char>)
    requires
        !field.contains(' '),
        !operator.contains(' '),
    ensures
        comparison_of(field + seq![' '] + operator + seq![' '] + operand) == Some(
            Comparison { field, operator, operand },
        ),
{
    let clause = field + seq![' '] + operator + seq![' '] + operand;
    clause.index_of_first_ensures(' ');
    assert(clause[field.len() as int] == ' ');
    assert(clause.contains(' '));
    let i = clause.index_of_first(' ')->0;
    assert(i == field.len()) by {
        if i < field.len() {
            assert(clause[i] == field[i]);
            assert(field.contains(' '));
        }
    }
    assert(clause.take(i) =~= field);
    let rest = clause.skip(i + 1);
    assert(rest =~= operator + seq![' '] + operand);
    rest.index_of_first_ensures(' ');
    assert(rest[operator.len() as int] == ' ');
    assert(rest.contains(' '));
    let j = rest.index_of_first(' ')->0;
    assert(j == operator.len()) by {
        if j < operator.len() {
            assert(rest[j] == operator[j]);
            assert(operator.contains(' '));
        }
    }
    assert(rest.take(j) =~= operator);
    assert(rest.skip(j + 1) =~= operand);
}

/// A number in decimal is written in digits that read back as the number.
pub proof fn decimals_read_back(n: nat)
    ensures
        is_count(text::decimal(n)),
        count_of(text::decimal(n)) == n,
    decreases n,
{
    let s = text::decimal(n);
    if n >= 10 {
        decimals_read_back(n / 10);
        assert(s.drop_last() =~= text::decimal(n / 10));
        assert(s.last() == text::digit(n % 10));
        assert forall|i: int| 0 <= i < s.len() implies '0' <= #[trigger] s[i] <= '9' by {
            if i < s.len() - 1 {
                assert(s[i] == text::decimal(n / 10)[i]);
            }
        }
    } else {
        assert(s.drop_last() =~= Seq::empty());
        assert(count_of(Seq::empty()) == 0);
    }
}

/// A signed number in decimal reads back as the number.
pub proof fn signed_decimals_read_back(n: int)
    ensures
        written(text::signed_decimal(n)) == n,
{
    if n < 0 {
        decimals_read_back((-n) as nat);
        assert(text::signed_decimal(n).drop_first() =~= text::decimal((-n) as nat));
    } else {
        decimals_read_back(n as nat);
    }
}

/// Decimal digits are parsed as the number that they write.
pub proof fn digits_parse(s: Seq<char>)
    requires
        is_count(s),
    ensures
        text::parsed_number(s) == Some(count_of(s) as nat),
        count_of(s) >= 0,
{
    assert(s[0] != '+');
    assert forall|i: int| 0 <= i < s.len() implies text::is_digit(#[trigger] s[i]) by {
        assert('0' <= s[i] <= '9');
    }
    lemma_digits_count(s);
}

proof fn lemma_digits_count(s: Seq<char>)
    requires
        text::all_digits(s),
    ensures
        text::digits_value(s) == count_of(s),
    decreases s.len(),
{
    if s.len() > 0 {
        assert forall|i: int| 0 <= i < s.drop_last().len() implies text::is_digit(
            #[trigger] s.drop_last()[i],
        ) by {
            assert(text::is_digit(s[i]));
        }
        lemma_digits_count(s.drop_last());
        assert(text::is_digit(s[s.len() - 1]));
    }
}

} // verus!
