//! What is told of failures, and how it is written.

use vstd::prelude::*;
use crate::observe::{LatchView, SurfaceAlias, fields_text, refusal_text};
use crate::text::{decimal, digit_char};

verus! {

/// The number that a digit stands for.
pub open spec fn digit_value(c: char) -> int {
    c as int - '0' as int
}

/// The number that decimal digits stand for, the highest first.
pub open spec fn value_of(digits: Seq<char>) -> int
    decreases digits.len(),
{
    if digits.len() == 0 {
        0
    } else {
        10 * value_of(digits.drop_last()) + digit_value(digits.last())
    }
}

/// The text is of decimal digits alone.
pub open spec fn all_digits(text: Seq<char>) -> bool {
    forall|i: int| 0 <= i < text.len() ==> 0 <= digit_value(#[trigger] text[i]) <= 9
}

/// A number is written in decimal digits that stand for it, without zeroes before it.
pub proof fn law_numbers_are_written_in_decimal(n: nat)
    ensures
        value_of(decimal(n)) == n,
        all_digits(decimal(n)),
        decimal(n).len() > 0,
        n > 0 ==> decimal(n)[0] != '0',
        n == 0 ==> decimal(n).len() == 1,
    decreases n,
{
    let d = (n % 10) as int;
    assert(digit_value(digit_char(d)) == d);
    if n < 10 {
        let text = decimal(n);
        assert(text.drop_last().len() == 0);
        assert(value_of(text.drop_last()) == 0);
        assert(text.last() == digit_char(n as int));
    } else {
        law_numbers_are_written_in_decimal(n / 10);
        let rest = decimal(n / 10);
        let text = decimal(n);
        assert(text.drop_last() =~= rest);
        assert(text.last() == digit_char(d));
        assert forall|i: int| 0 <= i < text.len() implies 0 <= digit_value(#[trigger] text[i])
            <= 9 by {
            if i < rest.len() {
                assert(text[i] == rest[i]);
            }
        }
        assert(text[0] == rest[0]);
    }
}

/// Two numbers are written alike only where they are one.
pub proof fn law_numbers_are_told_apart(a: nat, b: nat)
    requires
        decimal(a) == decimal(b),
    ensures
        a == b,
{
    law_numbers_are_written_in_decimal(a);
    law_numbers_are_written_in_decimal(b);
}

/// A refusal names its event, then its reason.
pub proof fn law_refusals_are_written(event: Seq<char>, reason: Seq<char>)
    ensures
        refusal_text(event, reason).len() == event.len() + 8 + reason.len(),
        refusal_text(event, reason).take(event.len() as int) == event,
        refusal_text(event, reason).skip(event.len() as int + 8) == reason,
        refusal_text(event, reason).subrange(event.len() as int, event.len() as int + 8) == " reason="@,
{
    reveal_strlit(" reason=");
    let text = refusal_text(event, reason);
    assert(text.take(event.len() as int) =~= event);
    assert(text.skip(event.len() as int + 8) =~= reason);
    assert(text.subrange(event.len() as int, event.len() as int + 8) =~= " reason="@);
}

/// A field is written behind those before it: a blank, its name, an equals sign, its value.
pub proof fn law_fields_are_written(
    fields: Seq<(Seq<char>, Seq<char>)>,
    name: Seq<char>,
    value: Seq<char>,
)
    ensures
        fields_text(Seq::empty()).len() == 0,
        ({
            let before = fields_text(fields);
            let text = fields_text(fields.push((name, value)));
            let n = before.len() as int;
            &&& text.len() == n + 1 + name.len() + 1 + value.len()
            &&& text.take(n) == before
            &&& text[n] == ' '
            &&& text.subrange(n + 1, n + 1 + name.len()) == name
            &&& text[n + 1 + name.len()] == '='
            &&& text.skip(n + 2 + name.len()) == value
        }),
{
    reveal_strlit(" ");
    reveal_strlit("=");
    let more = fields.push((name, value));
    assert(more.drop_last() =~= fields);
    let before = fields_text(fields);
    let text = fields_text(more);
    let n = before.len() as int;
    assert(text.take(n) =~= before);
    assert(text.subrange(n + 1, n + 1 + name.len()) =~= name);
    assert(text.skip(n + 2 + name.len()) =~= value);
}

/// A failure is told once for each mapping and reason until the mapping is cleared; noting
/// one leaves the others as they are.
pub proof fn law_failures_are_told_once(
    latch: LatchView,
    id: u32,
    reason: Seq<char>,
    other: (u32, Seq<char>),
)
    ensures
        latch.noted(id, reason).seen.contains((id, reason)),
        other != (id, reason) ==> (latch.noted(id, reason).seen.contains(other)
            <==> latch.seen.contains(other)),
        latch.noted(id, reason).noted(id, reason) == latch.noted(id, reason),
        latch.seen.contains((id, reason)) ==> latch.noted(id, reason).fresh == latch.fresh,
        !latch.seen.contains((id, reason)) ==> latch.noted(id, reason).fresh.len()
            == latch.fresh.len() + 1 && latch.noted(id, reason).fresh.last() == (id, reason)
            && latch.noted(id, reason).fresh.drop_last() == latch.fresh,
        latch.noted(id, reason).aliased == latch.aliased,
        latch.noted(id, reason).fresh_aliases == latch.fresh_aliases,
{
    if !latch.seen.contains((id, reason)) {
        assert(latch.noted(id, reason).fresh.drop_last() =~= latch.fresh);
    }
}

/// Clearing a mapping forgets its failures and no others.
pub proof fn law_clearing_forgets_one_mapping(latch: LatchView, id: u32, key: (u32, Seq<char>))
    ensures
        latch.cleared(id).seen.contains(key) <==> latch.seen.contains(key) && key.0 != id,
        latch.cleared(id).fresh == latch.fresh,
        latch.cleared(id).aliased == latch.aliased,
        latch.cleared(id).fresh_aliases == latch.fresh_aliases,
{
}

/// An alias is told once for each mapping, owner and page.
pub proof fn law_aliases_are_told_once(latch: LatchView, alias: SurfaceAlias)
    ensures
        alias.key_spec() == (alias.mapping_id, alias.owner, alias.gpa),
        latch.alias_noted(alias).aliased.contains((alias.mapping_id, alias.owner, alias.gpa)),
        latch.aliased.contains((alias.mapping_id, alias.owner, alias.gpa)) ==> latch.alias_noted(
            alias,
        ) == latch,
        !latch.aliased.contains((alias.mapping_id, alias.owner, alias.gpa)) ==> latch.alias_noted(
            alias,
        ).fresh_aliases.len() == latch.fresh_aliases.len() + 1 && latch.alias_noted(
            alias,
        ).fresh_aliases.last() == alias,
        latch.alias_noted(alias).seen == latch.seen,
        latch.alias_noted(alias).fresh == latch.fresh,
{
    let key = alias.key_spec();
    if !latch.aliased.contains(key) {
        let more = latch.aliased.push(key);
        assert(more[latch.aliased.len() as int] == key);
    }
}

} // verus!
