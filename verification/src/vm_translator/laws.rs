//! What holds of every translation run: how the labels of the comparisons
//! are numbered.

use crate::error::ToolError;
use crate::pattern::captured;
use crate::text::{decimal_text, lemma_decimal_distinct};
use crate::vm_translator::code_writer::{arithmetic_text, result_label, true_label, Written};
use crate::vm_translator::parser::translation;
use crate::vm_translator::{kind_of, Command, RE_ARITHMETIC};
use vstd::prelude::*;

verus! {

/// The operator that a line emits, where it is an arithmetic command.
pub open spec fn operator_of(line: Seq<char>) -> Option<Seq<char>> {
    if kind_of(line) == Ok::<Command, ToolError>(Command::ARITHMETIC) {
        captured(RE_ARITHMETIC@, line, "op"@)
    } else {
        None
    }
}

/// The number of lines among `lines` that emit `operator`.
pub open spec fn emissions(lines: Seq<Seq<char>>, operator: Seq<char>) -> nat
    decreases lines.len(),
{
    if lines.len() == 0 {
        0
    } else if operator_of(lines.last()) == Some(operator) {
        emissions(lines.drop_last(), operator) + 1
    } else {
        emissions(lines.drop_last(), operator)
    }
}

/// A translation that was not stopped was not stopped on the way.
pub proof fn lemma_translation_prefix(
    name: Seq<char>,
    start: Written,
    lines: Seq<Seq<char>>,
    k: int,
)
    requires
        0 <= k <= lines.len(),
        translation(name, start, lines).failure is None,
    ensures
        translation(name, start, lines.take(k)).failure is None,
    decreases lines.len() - k,
{
    if k < lines.len() {
        assert(lines.drop_last().take(k) =~= lines.take(k));
        lemma_translation_prefix(name, start, lines.drop_last(), k);
    } else {
        assert(lines.take(k) =~= lines);
    }
}

/// The generator counts the emissions: after a translation that was not
/// stopped, the count of each operator has gone up by the number of lines
/// that emit it.
pub proof fn lemma_counts_emissions(
    name: Seq<char>,
    start: Written,
    lines: Seq<Seq<char>>,
    operator: Seq<char>,
)
    requires
        translation(name, start, lines).failure is None,
    ensures
        translation(name, start, lines).written.count(operator) == start.count(operator)
            + emissions(lines, operator),
    decreases lines.len(),
{
    if lines.len() > 0 {
        lemma_counts_emissions(name, start, lines.drop_last(), operator);
    }
}

/// The emissions of an operator are numbered from zero: in a run of a fresh
/// generator that was not stopped, the line `i`, where it emits `operator`,
/// adds the operator's text with the number of earlier emissions of that
/// operator in its labels.
pub proof fn lemma_label_number(
    name: Seq<char>,
    lines: Seq<Seq<char>>,
    i: int,
    operator: Seq<char>,
)
    requires
        0 <= i < lines.len(),
        translation(name, Written::nothing(), lines).failure is None,
        operator_of(lines[i]) == Some(operator),
    ensures
        translation(name, Written::nothing(), lines.take(i + 1)).written.text == translation(
            name,
            Written::nothing(),
            lines.take(i),
        ).written.text + arithmetic_text(operator, emissions(lines.take(i), operator)),
{
    let start = Written::nothing();
    lemma_translation_prefix(name, start, lines, i);
    lemma_translation_prefix(name, start, lines, i + 1);
    lemma_counts_emissions(name, start, lines.take(i), operator);
    assert(lines.take(i + 1).drop_last() =~= lines.take(i));
    assert(lines.take(i + 1).last() == lines[i]);
}

/// The number of emissions does not go down as lines are added.
pub proof fn lemma_emissions_grow(lines: Seq<Seq<char>>, operator: Seq<char>, i: int, j: int)
    requires
        0 <= i <= j <= lines.len(),
    ensures
        emissions(lines.take(i), operator) <= emissions(lines.take(j), operator),
    decreases j - i,
{
    if i < j {
        lemma_emissions_grow(lines, operator, i, j - 1);
        assert(lines.take(j).drop_last() =~= lines.take(j - 1));
    }
}

/// Label uniqueness: two lines that emit the same operator carry different
/// numbers in their labels, the later line the greater one.
pub proof fn lemma_label_numbers_increase(
    lines: Seq<Seq<char>>,
    operator: Seq<char>,
    i: int,
    j: int,
)
    requires
        0 <= i < j < lines.len(),
        operator_of(lines[i]) == Some(operator),
        operator_of(lines[j]) == Some(operator),
    ensures
        emissions(lines.take(i), operator) < emissions(lines.take(j), operator),
{
    assert(lines.take(i + 1).drop_last() =~= lines.take(i));
    assert(lines.take(i + 1).last() == lines[i]);
    lemma_emissions_grow(lines, operator, i + 1, j);
}

/// Labels with different numbers are different labels.
pub proof fn lemma_labels_distinct(tag: Seq<char>, a: nat, b: nat)
    requires
        a != b,
    ensures
        true_label(tag, a) != true_label(tag, b),
        result_label(tag, a) != result_label(tag, b),
{
    lemma_decimal_distinct(a, b);
    lemma_suffix_decides(tag + "_TRUE_"@, decimal_text(a), decimal_text(b));
    lemma_suffix_decides(tag + "_RESULT_"@, decimal_text(a), decimal_text(b));
}

/// Two texts with the same head and different tails are different.
proof fn lemma_suffix_decides(head: Seq<char>, a: Seq<char>, b: Seq<char>)
    requires
        a != b,
    ensures
        head + a != head + b,
{
    let n = head.len() as int;
    assert((head + a).subrange(n, (head + a).len() as int) =~= a);
    assert((head + b).subrange(n, (head + b).len() as int) =~= b);
}

} // verus!
