//! What holds of the assembler for every program: how names get their
//! addresses, and how the words follow the instructions.

use crate::assembler::code::lemma_parsed_word_shape;
use crate::assembler::parser::{emit_line, first_pass, second_pass, token_of};
use crate::assembler::symbols::{literal_value, symbol_of, Symbols, FIRST_VARIABLE_ADDRESS};
use crate::assembler::{kind_of, Command};
use crate::error::ToolError;
use crate::text::{is_bits, lemma_address_word_shape};
use vstd::prelude::*;

verus! {

/// The table after `tokens` were resolved in their order.
pub open spec fn resolve_all(table: Symbols, tokens: Seq<Seq<char>>) -> Symbols
    decreases tokens.len(),
{
    if tokens.len() == 0 {
        table
    } else {
        resolve_all(table, tokens.drop_last()).resolve(tokens.last())
    }
}

/// Whether `tokens[i]` is the first use of a new name: it is no number, the
/// table `table` does not know it, and it does not occur earlier in `tokens`.
pub open spec fn is_first_use(table: Symbols, tokens: Seq<Seq<char>>, i: int) -> bool {
    table.allocates(tokens[i]) && !tokens.take(i).contains(tokens[i])
}

/// The number of first uses of new names among the first `i` tokens.
pub open spec fn first_uses(table: Symbols, tokens: Seq<Seq<char>>, i: int) -> nat
    decreases i,
{
    if i <= 0 {
        0
    } else if is_first_use(table, tokens, i - 1) {
        first_uses(table, tokens, i - 1) + 1
    } else {
        first_uses(table, tokens, i - 1)
    }
}

/// Whether `line` is a label declaration that declares `name`.
pub open spec fn declares(line: Seq<char>, name: Seq<char>) -> bool {
    kind_of(line) == Ok::<Command, ToolError>(Command::LCommand) && symbol_of(
        line,
        Command::LCommand,
    ) == Ok::<Seq<char>, ToolError>(name)
}

/// Whether `line` is an instruction: a line that has a kind and is no label
/// declaration.
pub open spec fn is_instruction(line: Seq<char>) -> bool {
    kind_of(line) == Ok::<Command, ToolError>(Command::ACommand) || kind_of(line) == Ok::<
        Command,
        ToolError,
    >(Command::CCommand)
}

/// The number of instructions among `lines`.
pub open spec fn instruction_count(lines: Seq<Seq<char>>) -> nat
    decreases lines.len(),
{
    if lines.len() == 0 {
        0
    } else if is_instruction(lines.last()) {
        instruction_count(lines.drop_last()) + 1
    } else {
        instruction_count(lines.drop_last())
    }
}

/// The tokens of the address instructions among `lines`, in their order.
pub open spec fn address_tokens(lines: Seq<Seq<char>>) -> Seq<Seq<char>>
    decreases lines.len(),
{
    if lines.len() == 0 {
        Seq::empty()
    } else if kind_of(lines.last()) == Ok::<Command, ToolError>(Command::ACommand) && symbol_of(
        lines.last(),
        Command::ACommand,
    ) is Ok {
        address_tokens(lines.drop_last()).push(symbol_of(lines.last(), Command::ACommand)->Ok_0)
    } else {
        address_tokens(lines.drop_last())
    }
}

/// Idempotence: a token that is resolved a second time gets the address of
/// the first time, and the table stays as the first time left it.
pub proof fn lemma_resolve_twice(table: Symbols, token: Seq<char>)
    ensures
        table.resolve(token).address(token) == table.address(token),
        table.resolve(token).resolve(token) == table.resolve(token),
        table.after_resolving(token).word(token) == table.word(token),
        table.after_resolving(token).after_resolving(token) == table.after_resolving(token),
{
}

/// A sequence with one more item holds what it held, and that item.
proof fn lemma_contains_push(s: Seq<Seq<char>>, last: Seq<char>, name: Seq<char>)
    ensures
        s.push(last).contains(name) <==> s.contains(name) || name == last,
{
    let longer = s.push(last);
    if s.contains(name) {
        let j = choose|j: int| 0 <= j < s.len() && #[trigger] s[j] == name;
        assert(longer[j] == name);
    }
    if name == last {
        assert(longer[s.len() as int] == name);
    }
    if longer.contains(name) {
        let j = choose|j: int| 0 <= j < longer.len() && #[trigger] longer[j] == name;
        if j < s.len() {
            assert(s[j] == name);
        }
    }
}

/// The names that the table knows after the first `k` of `tokens` were
/// resolved are those it knew before and those among the tokens.
pub proof fn lemma_known_names(table: Symbols, tokens: Seq<Seq<char>>, k: int, name: Seq<char>)
    requires
        0 <= k <= tokens.len(),
    ensures
        resolve_all(table, tokens.take(k)).map.contains_key(name) <==> table.map.contains_key(name)
            || (literal_value(name) is None && tokens.take(k).contains(name)),
    decreases k,
{
    if k == 0 {
        assert(tokens.take(0) =~= Seq::empty());
    } else {
        lemma_known_names(table, tokens, k - 1, name);
        let earlier = tokens.take(k - 1);
        let token = tokens[k - 1];
        assert(tokens.take(k) =~= earlier.push(token));
        assert(earlier.push(token).drop_last() =~= earlier);
        lemma_contains_push(earlier, token, name);
    }
}

/// The cursor moves by one for each first use of a new name, and not
/// otherwise.
pub proof fn lemma_cursor_after(table: Symbols, tokens: Seq<Seq<char>>, k: int)
    requires
        0 <= k <= tokens.len(),
        table.cursor + tokens.len() <= u32::MAX,
    ensures
        first_uses(table, tokens, k) <= k,
        resolve_all(table, tokens.take(k)).cursor == table.cursor + first_uses(table, tokens, k),
        k < tokens.len() ==> (resolve_all(table, tokens.take(k)).allocates(tokens[k])
            <==> is_first_use(table, tokens, k)),
    decreases k,
{
    if k == 0 {
        assert(tokens.take(0) =~= Seq::empty());
    } else {
        lemma_cursor_after(table, tokens, k - 1);
        let earlier = tokens.take(k - 1);
        let token = tokens[k - 1];
        assert(tokens.take(k) =~= earlier.push(token));
        assert(earlier.push(token).drop_last() =~= earlier);
    }
    if k < tokens.len() {
        lemma_known_names(table, tokens, k, tokens[k]);
    }
}

/// A name that the table knows keeps its address, whatever is resolved.
pub proof fn lemma_binding_stays(
    table: Symbols,
    tokens: Seq<Seq<char>>,
    j: int,
    k: int,
    name: Seq<char>,
)
    requires
        0 <= j <= k <= tokens.len(),
        resolve_all(table, tokens.take(j)).map.contains_key(name),
    ensures
        resolve_all(table, tokens.take(k)).map.contains_key(name),
        resolve_all(table, tokens.take(k)).map[name] == resolve_all(
            table,
            tokens.take(j),
        ).map[name],
    decreases k - j,
{
    if j < k {
        lemma_binding_stays(table, tokens, j, k - 1, name);
        let earlier = tokens.take(k - 1);
        let token = tokens[k - 1];
        assert(tokens.take(k) =~= earlier.push(token));
        assert(earlier.push(token).drop_last() =~= earlier);
    }
}

/// Allocation order: the first use of a new name gets the address at which
/// the cursor stood plus the number of new names that were first used before
/// it, whatever else was resolved in between; and the name keeps that
/// address.
pub proof fn lemma_allocation_order(table: Symbols, tokens: Seq<Seq<char>>, i: int)
    requires
        0 <= i < tokens.len(),
        is_first_use(table, tokens, i),
        table.cursor + tokens.len() <= u32::MAX,
    ensures
        resolve_all(table, tokens.take(i)).address(tokens[i]) == table.cursor + first_uses(
            table,
            tokens,
            i,
        ),
        resolve_all(table, tokens).map.contains_key(tokens[i]),
        resolve_all(table, tokens).map[tokens[i]] == table.cursor + first_uses(table, tokens, i),
{
    lemma_cursor_after(table, tokens, i);
    let earlier = tokens.take(i);
    let token = tokens[i];
    assert(tokens.take(i + 1) =~= earlier.push(token));
    assert(earlier.push(token).drop_last() =~= earlier);
    lemma_binding_stays(table, tokens, i + 1, tokens.len() as int, token);
    assert(tokens.take(tokens.len() as int) =~= tokens);
}

/// A second pass that was not stopped was not stopped on the way.
pub proof fn lemma_second_pass_prefix(table: Symbols, lines: Seq<Seq<char>>, k: int)
    requires
        0 <= k <= lines.len(),
        second_pass(table, lines).failure is None,
    ensures
        second_pass(table, lines.take(k)).failure is None,
    decreases lines.len() - k,
{
    if k < lines.len() {
        assert(lines.drop_last().take(k) =~= lines.take(k));
        lemma_second_pass_prefix(table, lines.drop_last(), k);
    } else {
        assert(lines.take(k) =~= lines);
    }
}

/// The second pass leaves the table that resolving the tokens of the
/// address instructions, in their order, leaves.
pub proof fn lemma_second_pass_resolves(table: Symbols, lines: Seq<Seq<char>>)
    requires
        second_pass(table, lines).failure is None,
    ensures
        second_pass(table, lines).symbols == resolve_all(table, address_tokens(lines)),
    decreases lines.len(),
{
    if lines.len() > 0 {
        lemma_second_pass_resolves(table, lines.drop_last());
        let tokens = address_tokens(lines);
        if kind_of(lines.last()) == Ok::<Command, ToolError>(Command::ACommand) {
            let token = symbol_of(lines.last(), Command::ACommand)->Ok_0;
            assert(tokens.drop_last() =~= address_tokens(lines.drop_last()));
        }
    }
}

/// Variables start at sixteen: in a second pass that starts with the cursor
/// on the first variable address, the first new name among the tokens of the
/// address instructions gets address 16, the second 17, and so on, however
/// many labels the table holds.
pub proof fn lemma_variable_addresses(table: Symbols, lines: Seq<Seq<char>>, i: int)
    requires
        table.cursor == FIRST_VARIABLE_ADDRESS,
        second_pass(table, lines).failure is None,
        0 <= i < address_tokens(lines).len(),
        is_first_use(table, address_tokens(lines), i),
        FIRST_VARIABLE_ADDRESS + address_tokens(lines).len() <= u32::MAX,
    ensures
        second_pass(table, lines).symbols.map.contains_key(address_tokens(lines)[i]),
        second_pass(table, lines).symbols.map[address_tokens(lines)[i]] == 16 + first_uses(
            table,
            address_tokens(lines),
            i,
        ),
{
    lemma_second_pass_resolves(table, lines);
    lemma_allocation_order(table, address_tokens(lines), i);
}

/// A first pass that was not stopped has counted the instructions.
pub proof fn lemma_first_pass_counts(table: Symbols, lines: Seq<Seq<char>>)
    requires
        !first_pass(table, lines).failed,
    ensures
        first_pass(table, lines).position == instruction_count(lines),
        first_pass(table, lines).symbols.cursor == table.cursor,
    decreases lines.len(),
{
    if lines.len() > 0 {
        lemma_first_pass_counts(table, lines.drop_last());
    }
}

/// Label resolution: after a first pass that was not stopped, a label is
/// bound to the number of instructions before its last declaration, and,
/// unless its name is a number, that is the address it resolves to.
pub proof fn lemma_label_address(table: Symbols, lines: Seq<Seq<char>>, i: int, name: Seq<char>)
    requires
        0 <= i < lines.len(),
        lines.len() <= u32::MAX,
        !first_pass(table, lines).failed,
        declares(lines[i], name),
        forall|j: int| i < j < lines.len() ==> !declares(#[trigger] lines[j], name),
    ensures
        first_pass(table, lines).symbols.map.contains_key(name),
        first_pass(table, lines).symbols.map[name] == instruction_count(lines.take(i)),
        literal_value(name) is None ==> first_pass(table, lines).symbols.with_cursor(
            FIRST_VARIABLE_ADDRESS,
        ).address(name) == instruction_count(lines.take(i)),
    decreases lines.len(),
{
    let before = first_pass(table, lines.drop_last());
    lemma_instruction_count_bound(lines.take(i));
    if i == lines.len() - 1 {
        assert(lines.take(i) =~= lines.drop_last());
        lemma_first_pass_counts(table, lines.drop_last());
    } else {
        assert(lines.drop_last().take(i) =~= lines.take(i));
        assert(lines.drop_last()[i] == lines[i]);
        assert(!declares(lines[lines.len() - 1], name));
        assert forall|j: int| i < j < lines.drop_last().len() implies !declares(
            #[trigger] lines.drop_last()[j],
            name,
        ) by {
            assert(lines.drop_last()[j] == lines[j]);
        }
        lemma_label_address(table, lines.drop_last(), i, name);
    }
}

/// There are no more instructions than lines.
pub proof fn lemma_instruction_count_bound(lines: Seq<Seq<char>>)
    ensures
        instruction_count(lines) <= lines.len(),
    decreases lines.len(),
{
    if lines.len() > 0 {
        lemma_instruction_count_bound(lines.drop_last());
    }
}

/// One word per instruction: a second pass that was not stopped has written
/// as many words as there are instructions.
pub proof fn lemma_one_word_per_instruction(table: Symbols, lines: Seq<Seq<char>>)
    requires
        second_pass(table, lines).failure is None,
    ensures
        second_pass(table, lines).words.len() == instruction_count(lines),
    decreases lines.len(),
{
    if lines.len() > 0 {
        lemma_one_word_per_instruction(table, lines.drop_last());
    }
}

/// Words are only added at the end: what a second pass had written after the
/// first `k` lines is where it was written, whatever follows.
pub proof fn lemma_words_stay(table: Symbols, lines: Seq<Seq<char>>, k: int)
    requires
        0 <= k <= lines.len(),
        second_pass(table, lines).failure is None,
    ensures
        second_pass(table, lines.take(k)).words.is_prefix_of(second_pass(table, lines).words),
    decreases lines.len() - k,
{
    if k < lines.len() {
        assert(lines.drop_last().take(k) =~= lines.take(k));
        lemma_words_stay(table, lines.drop_last(), k);
    } else {
        assert(lines.take(k) =~= lines);
    }
}

/// Output order: in a second pass that was not stopped, the word of the
/// instruction on line `i` stands at the position that is the number of
/// instructions before that line.
pub proof fn lemma_word_of_instruction(table: Symbols, lines: Seq<Seq<char>>, i: int)
    requires
        0 <= i < lines.len(),
        second_pass(table, lines).failure is None,
        is_instruction(lines[i]),
    ensures
        instruction_count(lines.take(i)) < second_pass(table, lines).words.len(),
        second_pass(table, lines).words[instruction_count(lines.take(i)) as int] == emit_line(
            second_pass(table, lines.take(i)),
            lines[i],
        ).words.last(),
{
    lemma_second_pass_prefix(table, lines, i);
    lemma_second_pass_prefix(table, lines, i + 1);
    lemma_one_word_per_instruction(table, lines.take(i));
    lemma_one_word_per_instruction(table, lines.take(i + 1));
    lemma_words_stay(table, lines, i + 1);
    assert(lines.take(i + 1).drop_last() =~= lines.take(i));
    assert(lines.take(i + 1).last() == lines[i]);
    let upto = second_pass(table, lines.take(i + 1));
    let k = instruction_count(lines.take(i)) as int;
    assert(upto.words.len() == k + 1);
    assert(second_pass(table, lines).words.subrange(0, k + 1)[k] == upto.words[k]);
}

/// Word width: every word that the second pass writes has exactly sixteen
/// binary digits.
pub proof fn lemma_words_have_sixteen_bits(table: Symbols, lines: Seq<Seq<char>>, k: int)
    requires
        0 <= k < second_pass(table, lines).words.len(),
    ensures
        second_pass(table, lines).words[k].len() == 16,
        is_bits(second_pass(table, lines).words[k]),
    decreases lines.len(),
{
    if lines.len() > 0 {
        let before = second_pass(table, lines.drop_last());
        let line = lines.last();
        if k < before.words.len() {
            lemma_words_have_sixteen_bits(table, lines.drop_last(), k);
        } else {
            if kind_of(line) == Ok::<Command, ToolError>(Command::ACommand) {
                lemma_address_word_shape(before.symbols.address(token_of(line)->Ok_0));
            } else {
                lemma_parsed_word_shape(line);
            }
        }
    }
}

} // verus!
