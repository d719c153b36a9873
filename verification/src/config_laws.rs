use vstd::prelude::*;

use crate::codex_adapter::{is_entry, lists_models};
use crate::config::{
    alias_entry, alias_table, configured_key, configured_port, default_aliases, model_names,
    nonblank, switched_on,
};
use crate::text::{decimal, is_digit, number_digits, trim};
use crate::text_laws::{is_without, law_first_position, law_number_is_read_back};
use crate::types::ModelItem;

verus! {

/// An entry for an alias names the alias before the first equals sign and the model behind it.
/// An entry that lacks one of them counts for nothing.
pub proof fn law_alias_entry_is_read(alias: Seq<char>, model: Seq<char>)
    requires
        is_without(alias, '='),
    ensures
        alias_entry(alias.push('=') + model) == (if trim(alias).len() > 0 && trim(model).len() > 0 {
            Some((trim(alias), trim(model)))
        } else {
            None
        }),
{
    let pair = alias.push('=') + model;
    law_first_position(alias, '=', model);
    assert(pair[alias.len() as int] == '=');
    assert(pair.contains('='));
    assert(pair.take(alias.len() as int) =~= alias);
    assert(pair.skip(alias.len() + 1int) =~= model);
}

/// Each entry of a list counts, and of two for one alias the later.
pub proof fn law_each_alias_counts(pairs: Seq<Seq<char>>, pair: Seq<char>, other: Seq<char>)
    ensures
        ({
            let before = alias_table(pairs);
            let after = alias_table(pairs.push(pair));
            match alias_entry(pair) {
                Some((alias, model)) => {
                    &&& after.dom().contains(alias)
                    &&& after[alias] == model
                    &&& other != alias ==> after.dom().contains(other) == before.dom().contains(
                        other,
                    )
                    &&& other != alias && before.dom().contains(other) ==> after[other]
                        == before[other]
                },
                None => after == before,
            }
        }),
        alias_table(Seq::empty()) == Map::<Seq<char>, Seq<char>>::empty(),
{
    assert(pairs.push(pair).drop_last() =~= pairs);
}

/// An entry without an equals sign counts for nothing.
pub proof fn law_odd_entries_count_for_nothing(pair: Seq<char>)
    requires
        is_without(pair, '='),
    ensures
        alias_entry(pair) is None,
{
    if pair.contains('=') {
        let i = choose|i: int| 0 <= i < pair.len() && pair[i] == '=';
        assert(pair[i] != '=');
    }
}

/// The alias that there is by default leads to a model on offer.
pub proof fn law_default_alias_leads_to_a_model(alias: Seq<char>)
    ensures
        default_aliases().dom().contains(alias) <==> alias == "gpt-5.3-codex-spark-preview"@,
        default_aliases().dom().contains(alias) ==> default_aliases()[alias]
            == "gpt-5.3-codex-spark"@ && model_names().contains(default_aliases()[alias]),
{
    assert(model_names()[7] == "gpt-5.3-codex-spark"@);
}

/// A setting is switched on by `1` alone, with or without white space around it.
pub proof fn law_settings_are_switched_on(value: Seq<char>)
    ensures
        switched_on(Some(value)) <==> trim(value) == "1"@,
        !switched_on(None),
        nonblank(Some(value)) == (if trim(value).len() > 0 {
            Some(value)
        } else {
            None
        }),
        nonblank(None) is None,
{
}

/// A port is read from its digits, and is 3000 where there is none to be read.
pub proof fn law_port_is_read(port: u16, text: Seq<char>)
    ensures
        configured_port(Some(number_digits(port as nat))) == port,
        configured_port(None) == 3000,
        decimal(text) is None ==> configured_port(Some(text)) == 3000,
        decimal(text) is Some && decimal(text)->0 > 65535 ==> configured_port(Some(text)) == 3000,
{
    law_number_is_read_back(port as nat);
    let digits = number_digits(port as nat);
    assert(is_digit(digits[0]));
}

/// The key is the one under the first name, or else the one under the second, and a blank one is
/// none.
pub proof fn law_key_is_configured(first: Option<Seq<char>>, second: Option<Seq<char>>)
    ensures
        ({
            let key = configured_key(first, second);
            let given = if first is Some {
                first
            } else {
                second
            };
            &&& key is Some <==> given is Some && trim(given->0).len() > 0
            &&& key is Some ==> key == given
        }),
{
}

/// Every model on offer is listed once, by its name and in order.
pub proof fn law_models_are_listed(items: Seq<ModelItem>, created: i64, i: int)
    requires
        lists_models(items, created),
        0 <= i < items.len(),
    ensures
        items.len() == model_names().len(),
        items[i].id@ == model_names()[i],
        items[i].object@ == "model"@,
        items[i].created == created,
        items[i].owned_by@ == "openai"@,
{
    assert(is_entry(items[i], model_names()[i], created));
}

} // verus!
