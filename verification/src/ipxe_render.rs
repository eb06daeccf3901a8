//! The rendering of an iPXE operating system definition: which values go
//! into which placeholders of the template, and what is made of the text
//! afterwards.

use crate::ipxe::{
    clone_names, IpxeOs, IpxeOsArtifact, IpxeOsArtifactView, IpxeOsError, IpxeOsErrorView,
    IpxeOsParameter, IpxeOsParameterView, IpxeOsView, IpxeScriptTemplate, IpxeScriptTemplateView,
};
use crate::ipxe_check::{check_placeholders, lowercased, names_lower, placeholder_check};
use crate::ipxe_hash::{
    artifact_keys, artifact_names_lower, parameter_keys, parameter_names_lower,
};
use crate::pattern::{
    contains, find_chars, join, join_texts, replace_all, replace_all_chars, replace_first,
    replace_first_chars, squeeze_spaces, squeeze_spaces_chars, string_of, trim_line_ends_chars,
    with_line_ends_trimmed,
};
use crate::text::{chars_of, concat, lowercase, same};
use crate::textmap::{put, value_of, TextMap};
use vstd::prelude::*;

verus! {

/// The values that go into the placeholders: for each placeholder's name the
/// values for its occurrences, in order; the names in the order in which
/// each first got a value.
pub type Consumption = Seq<(Seq<char>, Seq<Seq<char>>)>;

/// The first parameter, from position `from` on, that has the name `key`,
/// letter case aside, is not consumed, and has a value that is not empty.
pub open spec fn next_parameter(
    parameters: Seq<IpxeOsParameterView>,
    consumed: Seq<bool>,
    key: Seq<char>,
    from: int,
) -> Option<int>
    decreases parameters.len() - from,
{
    if from < 0 || from >= parameters.len() {
        None
    } else if lowercase(parameters[from].name) == key && !consumed[from]
        && parameters[from].value.len() > 0 {
        Some(from)
    } else {
        next_parameter(parameters, consumed, key, from + 1)
    }
}

/// The first artifact, from position `from` on, that has the name `key`,
/// letter case aside, and is not consumed.
pub open spec fn next_artifact(
    artifacts: Seq<IpxeOsArtifactView>,
    consumed: Seq<bool>,
    key: Seq<char>,
    from: int,
) -> Option<int>
    decreases artifacts.len() - from,
{
    if from < 0 || from >= artifacts.len() {
        None
    } else if lowercase(artifacts[from].name) == key && !consumed[from] {
        Some(from)
    } else {
        next_artifact(artifacts, consumed, key, from + 1)
    }
}

/// `map` with `value` added to the values of `key`.
pub open spec fn with_value(map: Consumption, key: Seq<char>, value: Seq<char>) -> Consumption {
    put(
        map,
        key,
        match value_of(map, key) {
            Some(values) => values.push(value),
            None => seq![value],
        },
    )
}

/// What the required parameters consume: each mention of a name, in the
/// template's order, takes the first parameter of that name that no earlier
/// mention took. The result tells which parameters are consumed and which
/// values go to which name.
pub open spec fn consume_parameters(
    parameters: Seq<IpxeOsParameterView>,
    required: Seq<Seq<char>>,
) -> (Seq<bool>, Consumption)
    decreases required.len(),
{
    if required.len() == 0 {
        (Seq::new(parameters.len(), |i: int| false), Seq::empty())
    } else {
        let before = consume_parameters(parameters, required.drop_last());
        match next_parameter(parameters, before.0, required.last(), 0) {
            Some(i) => (
                before.0.update(i, true),
                with_value(before.1, required.last(), parameters[i].value),
            ),
            None => before,
        }
    }
}

/// The address that stands for an artifact: its local address where it has
/// one, else its address.
pub open spec fn artifact_address(a: IpxeOsArtifactView) -> Seq<char> {
    match a.local_url {
        Some(local) => local,
        None => a.url,
    }
}

/// What the required artifacts consume, added to `start`: each mention of a
/// name takes the first artifact of that name that no earlier mention took.
pub open spec fn consume_artifacts(
    artifacts: Seq<IpxeOsArtifactView>,
    required: Seq<Seq<char>>,
    start: Consumption,
) -> (Seq<bool>, Consumption)
    decreases required.len(),
{
    if required.len() == 0 {
        (Seq::new(artifacts.len(), |i: int| false), start)
    } else {
        let before = consume_artifacts(artifacts, required.drop_last(), start);
        match next_artifact(artifacts, before.0, required.last(), 0) {
            Some(i) => (
                before.0.update(i, true),
                with_value(before.1, required.last(), artifact_address(artifacts[i])),
            ),
            None => before,
        }
    }
}

/// The value of the first of `given` that has the name `key`, letter case
/// aside.
pub open spec fn first_given(given: Seq<IpxeOsParameterView>, key: Seq<char>) -> Option<Seq<char>>
    decreases given.len(),
{
    if given.len() == 0 {
        None
    } else if lowercase(given[0].name) == key {
        Some(given[0].value)
    } else {
        first_given(given.drop_first(), key)
    }
}

/// `map` with the values of the reserved parameters added: for each reserved
/// name, in the template's order, the value of the first given parameter of
/// that name.
pub open spec fn with_reserved(
    map: Consumption,
    reserved: Seq<Seq<char>>,
    given: Seq<IpxeOsParameterView>,
) -> Consumption
    decreases reserved.len(),
{
    if reserved.len() == 0 {
        map
    } else {
        let before = with_reserved(map, reserved.drop_last(), given);
        match first_given(given, reserved.last()) {
            Some(value) => with_value(before, reserved.last(), value),
            None => before,
        }
    }
}

/// The placeholder of a name.
pub open spec fn placeholder_of(key: Seq<char>) -> Seq<char> {
    "{{"@ + key + "}}"@
}

/// `text` after each of `values`, in order, took the place of the then first
/// occurrence of `placeholder`.
pub open spec fn substitute_values(
    text: Seq<char>,
    placeholder: Seq<char>,
    values: Seq<Seq<char>>,
) -> Seq<char>
    decreases values.len(),
{
    if values.len() == 0 {
        text
    } else {
        replace_first(
            substitute_values(text, placeholder, values.drop_last()),
            placeholder,
            values.last(),
        )
    }
}

/// `text` after the values of every name of `map` were put in, name by name
/// in the order of `map`.
pub open spec fn substitute_all(text: Seq<char>, map: Consumption) -> Seq<char>
    decreases map.len(),
{
    if map.len() == 0 {
        text
    } else {
        substitute_values(
            substitute_all(text, map.drop_last()),
            placeholder_of(map.last().0),
            map.last().1,
        )
    }
}

/// The parameters that were not consumed and have a value, each written
/// `name=value` with its name as it was given.
pub open spec fn extra_pairs(parameters: Seq<IpxeOsParameterView>, consumed: Seq<bool>) -> Seq<
    Seq<char>,
>
    decreases parameters.len(),
{
    if parameters.len() == 0 {
        Seq::empty()
    } else {
        let i = parameters.len() - 1;
        let before = extra_pairs(parameters.drop_last(), consumed);
        if !consumed[i] && parameters[i].value.len() > 0 {
            before.push(parameters[i].name + "="@ + parameters[i].value)
        } else {
            before
        }
    }
}

/// `text` with every `{{extra}}` replaced by the parameters that were not
/// consumed, with single spaces between them.
pub open spec fn with_extra(
    text: Seq<char>,
    parameters: Seq<IpxeOsParameterView>,
    consumed: Seq<bool>,
) -> Seq<char> {
    if contains(text, "{{extra}}"@) {
        replace_all(text, "{{extra}}"@, join(extra_pairs(parameters, consumed), " "@))
    } else {
        text
    }
}

/// The values that go into the placeholders of `template` for `os`. With
/// `with_artifacts`, the required artifacts give their addresses as well.
pub open spec fn consumption_of(
    os: IpxeOsView,
    template: IpxeScriptTemplateView,
    given: Seq<IpxeOsParameterView>,
    with_artifacts: bool,
) -> Consumption {
    let by_parameters = consume_parameters(os.parameters, lowercased(template.required_params)).1;
    let by_artifacts = if with_artifacts {
        consume_artifacts(os.artifacts, lowercased(template.required_artifacts), by_parameters).1
    } else {
        by_parameters
    };
    with_reserved(by_artifacts, lowercased(template.reserved_params), given)
}

/// The script that `template` gives for `os`: the values are put into the
/// placeholders, `{{extra}}` takes the parameters that are left, every run
/// of spaces becomes one space, and white space at the end of lines goes.
pub open spec fn rendered_script(
    os: IpxeOsView,
    template: IpxeScriptTemplateView,
    given: Seq<IpxeOsParameterView>,
    with_artifacts: bool,
) -> Seq<char> {
    let consumed = consume_parameters(os.parameters, lowercased(template.required_params)).0;
    let filled = substitute_all(
        template.template,
        consumption_of(os, template, given, with_artifacts),
    );
    with_line_ends_trimmed(squeeze_spaces(with_extra(filled, os.parameters, consumed)))
}

/// What a rendering gives: the script, or an error where a placeholder is
/// left in it.
pub open spec fn rendering(
    os: IpxeOsView,
    template: IpxeScriptTemplateView,
    given: Seq<IpxeOsParameterView>,
    with_artifacts: bool,
) -> Result<Seq<char>, IpxeOsErrorView> {
    let script = rendered_script(os, template, given, with_artifacts);
    match placeholder_check(script) {
        Err(e) => Err(e),
        Ok(_) => Ok(script),
    }
}

/// The view of a rendering's result.
pub open spec fn render_view(r: Result<String, IpxeOsError>) -> Result<Seq<char>, IpxeOsErrorView> {
    match r {
        Ok(s) => Ok(s@),
        Err(e) => Err(e@),
    }
}

/// Adds `value` to the values of `key`.
fn add_value(map: &mut TextMap<Vec<String>>, key: &str, value: String)
    ensures
        final(map)@ == with_value(old(map)@, key@, value@),
{
    let mut values = match map.get(key) {
        Some(values) => clone_names(values),
        None => {
            let none: Vec<String> = Vec::new();
            proof {
                assert(none.deep_view() =~= Seq::empty());
            }
            none
        },
    };
    let ghost before = values.deep_view();
    let ghost added = value@;
    values.push(value);
    proof {
        assert(values.deep_view() =~= before.push(added));
        assert(Seq::<Seq<char>>::empty().push(added) =~= seq![added]);
    }
    map.insert(key.to_owned(), values);
}

/// The flags of `n` things of which none is consumed.
fn no_flags(n: usize) -> (r: Vec<bool>)
    ensures
        r@ == Seq::new(n as nat, |i: int| false),
{
    let mut out: Vec<bool> = Vec::new();
    let mut i: usize = 0;
    while i < n
        invariant
            i <= n,
            out@.len() == i,
            forall|j: int| 0 <= j < i ==> !out@[j],
        decreases n - i,
    {
        out.push(false);
        i = i + 1;
    }
    proof {
        assert(out@ =~= Seq::new(n as nat, |i: int| false));
    }
    out
}

/// What the required parameters consume, added to `map`.
fn take_parameters(
    map: &mut TextMap<Vec<String>>,
    parameters: &Vec<IpxeOsParameter>,
    required: &Vec<String>,
) -> (r: Vec<bool>)
    requires
        old(map)@ == Seq::<(Seq<char>, Seq<Seq<char>>)>::empty(),
    ensures
        (r@, final(map)@) == consume_parameters(parameters.deep_view(), required.deep_view()),
        r@.len() == parameters@.len(),
{
    let names = parameter_names_lower(parameters);
    let n: usize = parameters.len();
    let k: usize = required.len();
    let mut consumed = no_flags(n);
    let mut i: usize = 0;
    let ghost ps = parameters.deep_view();
    let ghost keys = required.deep_view();
    proof {
        assert(keys.take(0) =~= Seq::empty());
    }
    while i < k
        invariant
            k == required@.len(),
            n == parameters@.len(),
            n == names@.len(),
            ps == parameters.deep_view(),
            keys == required.deep_view(),
            names.deep_view() == parameter_keys(ps),
            i <= k,
            consumed@.len() == n,
            (consumed@, map@) == consume_parameters(ps, keys.take(i as int)),
        decreases k - i,
    {
        let key = required[i].as_str();
        proof {
            let upto = keys.take(i + 1);
            assert(upto.drop_last() =~= keys.take(i as int));
            assert(upto.last() == key@);
        }
        let mut j: usize = 0;
        let mut found = false;
        while j < n && !found
            invariant
                n == parameters@.len(),
                n == names@.len(),
                ps == parameters.deep_view(),
                names.deep_view() == parameter_keys(ps),
                consumed@.len() == n,
                j <= n,
                !found ==> next_parameter(ps, consumed@, key@, 0) == next_parameter(
                    ps,
                    consumed@,
                    key@,
                    j as int,
                ),
                found ==> j < n && next_parameter(ps, consumed@, key@, 0) == Some(j as int),
            decreases n - j + if found { 0int } else { 1int },
        {
            proof {
                assert(names.deep_view()[j as int] == lowercase(ps[j as int].name));
                assert(ps[j as int] == parameters@[j as int]@);
            }
            if same(names[j].as_str(), key) && !consumed[j]
                && !parameters[j].value.as_str().is_empty() {
                found = true;
            } else {
                j = j + 1;
            }
        }
        if found {
            consumed.set(j, true);
            add_value(map, key, parameters[j].value.clone());
        }
        i = i + 1;
    }
    proof {
        assert(keys.take(k as int) =~= keys);
    }
    consumed
}

/// What the required artifacts consume, added to `map`.
fn take_artifacts(
    map: &mut TextMap<Vec<String>>,
    artifacts: &Vec<IpxeOsArtifact>,
    required: &Vec<String>,
)
    ensures
        final(map)@ == consume_artifacts(artifacts.deep_view(), required.deep_view(), old(map)@).1,
{
    let names = artifact_names_lower(artifacts);
    let n: usize = artifacts.len();
    let k: usize = required.len();
    let mut consumed = no_flags(n);
    let mut i: usize = 0;
    let ghost items = artifacts.deep_view();
    let ghost keys = required.deep_view();
    let ghost start = map@;
    proof {
        assert(keys.take(0) =~= Seq::empty());
    }
    while i < k
        invariant
            k == required@.len(),
            n == artifacts@.len(),
            n == names@.len(),
            items == artifacts.deep_view(),
            keys == required.deep_view(),
            names.deep_view() == artifact_keys(items),
            i <= k,
            consumed@.len() == n,
            (consumed@, map@) == consume_artifacts(items, keys.take(i as int), start),
        decreases k - i,
    {
        let key = required[i].as_str();
        proof {
            let upto = keys.take(i + 1);
            assert(upto.drop_last() =~= keys.take(i as int));
            assert(upto.last() == key@);
        }
        let mut j: usize = 0;
        let mut found = false;
        while j < n && !found
            invariant
                n == artifacts@.len(),
                n == names@.len(),
                items == artifacts.deep_view(),
                names.deep_view() == artifact_keys(items),
                consumed@.len() == n,
                j <= n,
                !found ==> next_artifact(items, consumed@, key@, 0) == next_artifact(
                    items,
                    consumed@,
                    key@,
                    j as int,
                ),
                found ==> j < n && next_artifact(items, consumed@, key@, 0) == Some(j as int),
            decreases n - j + if found { 0int } else { 1int },
        {
            proof {
                assert(names.deep_view()[j as int] == lowercase(items[j as int].name));
            }
            if same(names[j].as_str(), key) && !consumed[j] {
                found = true;
            } else {
                j = j + 1;
            }
        }
        if found {
            consumed.set(j, true);
            let address = match &artifacts[j].local_url {
                Some(local) => local.clone(),
                None => artifacts[j].url.clone(),
            };
            proof {
                assert(items[j as int] == artifacts@[j as int]@);
            }
            add_value(map, key, address);
        }
        i = i + 1;
    }
    proof {
        assert(keys.take(k as int) =~= keys);
    }
}

/// Adds the values of the reserved parameters to `map`.
fn take_reserved(
    map: &mut TextMap<Vec<String>>,
    reserved: &Vec<String>,
    given: &Vec<IpxeOsParameter>,
)
    ensures
        final(map)@ == with_reserved(old(map)@, reserved.deep_view(), given.deep_view()),
{
    let names = parameter_names_lower(given);
    let n: usize = given.len();
    let k: usize = reserved.len();
    let mut i: usize = 0;
    let ghost gv = given.deep_view();
    let ghost keys = reserved.deep_view();
    let ghost start = map@;
    proof {
        assert(keys.take(0) =~= Seq::empty());
    }
    while i < k
        invariant
            k == reserved@.len(),
            n == given@.len(),
            n == names@.len(),
            gv == given.deep_view(),
            keys == reserved.deep_view(),
            names.deep_view() == parameter_keys(gv),
            i <= k,
            map@ == with_reserved(start, keys.take(i as int), gv),
        decreases k - i,
    {
        let key = reserved[i].as_str();
        proof {
            let upto = keys.take(i + 1);
            assert(upto.drop_last() =~= keys.take(i as int));
            assert(upto.last() == key@);
            assert(gv.skip(0) =~= gv);
        }
        let mut j: usize = 0;
        let mut found = false;
        while j < n && !found
            invariant
                n == given@.len(),
                n == names@.len(),
                gv == given.deep_view(),
                names.deep_view() == parameter_keys(gv),
                j <= n,
                !found ==> first_given(gv, key@) == first_given(gv.skip(j as int), key@),
                found ==> j < n && first_given(gv, key@) == Some(gv[j as int].value),
            decreases n - j + if found { 0int } else { 1int },
        {
            proof {
                let rest = gv.skip(j as int);
                assert(rest.len() > 0);
                assert(rest[0] == gv[j as int]);
                assert(rest.drop_first() =~= gv.skip(j + 1));
                assert(names.deep_view()[j as int] == lowercase(gv[j as int].name));
            }
            if same(names[j].as_str(), key) {
                found = true;
            } else {
                j = j + 1;
            }
        }
        if found {
            proof {
                assert(gv[j as int] == given@[j as int]@);
            }
            add_value(map, key, given[j].value.clone());
        }
        i = i + 1;
    }
    proof {
        assert(keys.take(k as int) =~= keys);
    }
}

/// `text` after the values of every name of `map` were put in.
fn fill_placeholders(text: Vec<char>, map: &TextMap<Vec<String>>) -> (r: Vec<char>)
    ensures
        r@ == substitute_all(text@, map@),
{
    let mut text = text;
    let n: usize = map.len();
    let mut i: usize = 0;
    let ghost start = text@;
    proof {
        assert(map@.take(0) =~= Seq::empty());
    }
    while i < n
        invariant
            n == map@.len(),
            i <= n,
            text@ == substitute_all(start, map@.take(i as int)),
        decreases n - i,
    {
        let a = concat("{{", map.key_at(i));
        let placeholder = chars_of(concat(a.as_str(), "}}").as_str());
        let values = map.value_at(i);
        let m: usize = values.len();
        let mut j: usize = 0;
        let ghost before = text@;
        let ghost vs = values.deep_view();
        proof {
            let upto = map@.take(i + 1);
            assert(upto.drop_last() =~= map@.take(i as int));
            assert(upto.last() == map@[i as int]);
            assert(vs.take(0) =~= Seq::empty());
        }
        while j < m
            invariant
                m == values@.len(),
                vs == values.deep_view(),
                j <= m,
                text@ == substitute_values(before, placeholder@, vs.take(j as int)),
            decreases m - j,
        {
            proof {
                let upto = vs.take(j + 1);
                assert(upto.drop_last() =~= vs.take(j as int));
                assert(upto.last() == values@[j as int]@);
            }
            let value = chars_of(values[j].as_str());
            text = replace_first_chars(&text, &placeholder, &value);
            j = j + 1;
        }
        proof {
            assert(vs.take(m as int) =~= vs);
        }
        i = i + 1;
    }
    proof {
        assert(map@.take(n as int) =~= map@);
    }
    text
}

/// The parameters that were not consumed and have a value, each written
/// `name=value`.
fn collect_extra(parameters: &Vec<IpxeOsParameter>, consumed: &Vec<bool>) -> (r: Vec<String>)
    requires
        consumed@.len() == parameters@.len(),
    ensures
        r.deep_view() == extra_pairs(parameters.deep_view(), consumed@),
{
    let n: usize = parameters.len();
    let mut out: Vec<String> = Vec::new();
    let mut i: usize = 0;
    let ghost ps = parameters.deep_view();
    proof {
        assert(ps.take(0) =~= Seq::empty());
        assert(out.deep_view() =~= Seq::empty());
    }
    while i < n
        invariant
            n == parameters@.len(),
            n == consumed@.len(),
            ps == parameters.deep_view(),
            i <= n,
            out.deep_view() == extra_pairs(ps.take(i as int), consumed@),
        decreases n - i,
    {
        proof {
            let upto = ps.take(i + 1);
            assert(upto.drop_last() =~= ps.take(i as int));
            assert(upto[i as int] == parameters@[i as int]@);
        }
        if !consumed[i] && !parameters[i].value.as_str().is_empty() {
            let a = concat(parameters[i].name.as_str(), "=");
            let pair = concat(a.as_str(), parameters[i].value.as_str());
            let ghost prev = out.deep_view();
            out.push(pair);
            proof {
                assert(out.deep_view() =~= prev.push(
                    parameters@[i as int].name@ + "="@ + parameters@[i as int].value@,
                ));
            }
        }
        i = i + 1;
    }
    proof {
        assert(ps.take(n as int) =~= ps);
    }
    out
}

/// Renders a definition that has passed its checks: puts the values into
/// the template's placeholders, tidies the text, and makes sure that no
/// placeholder is left. With `with_artifacts`, the required artifacts give
/// their addresses to the placeholders of their names.
pub fn render_script(
    ipxeos: &IpxeOs,
    template: &IpxeScriptTemplate,
    reserved_params: &Vec<IpxeOsParameter>,
    with_artifacts: bool,
) -> (r: Result<String, IpxeOsError>)
    ensures
        render_view(r) == rendering(
            ipxeos@,
            template@,
            reserved_params.deep_view(),
            with_artifacts,
        ),
{
    let required = names_lower(&template.required_params);
    let required_artifacts = names_lower(&template.required_artifacts);
    let reserved = names_lower(&template.reserved_params);
    let mut map: TextMap<Vec<String>> = TextMap::new();
    let consumed = take_parameters(&mut map, &ipxeos.parameters, &required);
    if with_artifacts {
        take_artifacts(&mut map, &ipxeos.artifacts, &required_artifacts);
    }
    take_reserved(&mut map, &reserved, reserved_params);
    let filled = fill_placeholders(chars_of(template.template.as_str()), &map);
    let marker = chars_of("{{extra}}");
    let with_rest = if find_chars(&filled, &marker, 0).is_some() {
        let extra = collect_extra(&ipxeos.parameters, &consumed);
        let joined = chars_of(join_texts(&extra, " ").as_str());
        proof {
            reveal_strlit("{{extra}}");
        }
        replace_all_chars(&filled, &marker, &joined)
    } else {
        filled
    };
    let squeezed = squeeze_spaces_chars(&with_rest);
    let script = string_of(&trim_line_ends_chars(&squeezed));
    match check_placeholders(script.as_str()) {
        Err(e) => Err(e),
        Ok(_) => Ok(script),
    }
}

} // verus!
