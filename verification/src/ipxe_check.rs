//! The checks on an iPXE operating system definition, on the reserved
//! parameters that come with a rendering, and on a rendered script.

use crate::ipxe::{
    IpxeOs, IpxeOsArtifact, IpxeOsArtifactView, IpxeOsError, IpxeOsErrorView, IpxeOsParameter,
    IpxeOsParameterView, IpxeOsView, IpxeScriptTemplate, IpxeScriptTemplateView,
};
use crate::ipxe_hash::{
    artifact_keys, artifact_names_lower, parameter_keys, parameter_names_lower,
};
use crate::pattern::{
    contains, find_chars, find_from, join, join_texts, push_range, string_of, text_contains,
};
use crate::text::{chars_of, concat, decimal_digits, decimal_text, lowercase, same};
use vstd::prelude::*;

verus! {

/// The strings of `names` in lower case.
pub open spec fn lowercased(names: Seq<Seq<char>>) -> Seq<Seq<char>> {
    Seq::new(names.len(), |i: int| lowercase(names[i]))
}

/// The name of the first parameter whose name in lower case is `extra`.
pub open spec fn first_extra_parameter(parameters: Seq<IpxeOsParameterView>) -> Option<Seq<char>>
    decreases parameters.len(),
{
    if parameters.len() == 0 {
        None
    } else if lowercase(parameters[0].name) == "extra"@ {
        Some(parameters[0].name)
    } else {
        first_extra_parameter(parameters.drop_first())
    }
}

/// The name of the first artifact whose name in lower case is `extra`.
pub open spec fn first_extra_artifact(artifacts: Seq<IpxeOsArtifactView>) -> Option<Seq<char>>
    decreases artifacts.len(),
{
    if artifacts.len() == 0 {
        None
    } else if lowercase(artifacts[0].name) == "extra"@ {
        Some(artifacts[0].name)
    } else {
        first_extra_artifact(artifacts.drop_first())
    }
}

/// The name of the first parameter whose name, letter case aside, is among
/// `reserved`.
pub open spec fn first_reserved_parameter(
    parameters: Seq<IpxeOsParameterView>,
    reserved: Seq<Seq<char>>,
) -> Option<Seq<char>>
    decreases parameters.len(),
{
    if parameters.len() == 0 {
        None
    } else if lowercased(reserved).contains(lowercase(parameters[0].name)) {
        Some(parameters[0].name)
    } else {
        first_reserved_parameter(parameters.drop_first(), reserved)
    }
}

/// How often `key` occurs in `list`.
pub open spec fn occurrences(list: Seq<Seq<char>>, key: Seq<char>) -> nat
    decreases list.len(),
{
    if list.len() == 0 {
        0
    } else {
        occurrences(list.drop_last(), key) + if list.last() == key {
            1nat
        } else {
            0nat
        }
    }
}

/// How many parameters have the name `key`, letter case aside, and a value
/// that is not empty.
pub open spec fn parameters_named(parameters: Seq<IpxeOsParameterView>, key: Seq<char>) -> nat
    decreases parameters.len(),
{
    if parameters.len() == 0 {
        0
    } else {
        parameters_named(parameters.drop_last(), key) + if lowercase(parameters.last().name) == key
            && parameters.last().value.len() > 0 {
            1nat
        } else {
            0nat
        }
    }
}

/// How many artifacts have the name `key`, letter case aside. With
/// `with_url`, only those whose address is not empty are counted.
pub open spec fn artifacts_named(
    artifacts: Seq<IpxeOsArtifactView>,
    key: Seq<char>,
    with_url: bool,
) -> nat
    decreases artifacts.len(),
{
    if artifacts.len() == 0 {
        0
    } else {
        artifacts_named(artifacts.drop_last(), key, with_url) + if lowercase(
            artifacts.last().name,
        ) == key && (!with_url || artifacts.last().url.len() > 0) {
            1nat
        } else {
            0nat
        }
    }
}

/// What a definition has to meet the required parameter `key`: its
/// parameters of that name with a value, and its artifacts of that name.
pub open spec fn available_for_parameter(os: IpxeOsView, key: Seq<char>) -> nat {
    parameters_named(os.parameters, key) + artifacts_named(os.artifacts, key, false)
}

/// The text that tells of a shortage.
pub open spec fn shortage_text(key: Seq<char>, need: nat, have: nat) -> Seq<char> {
    key + " (need "@ + decimal_digits(need) + " occurrences, have "@ + decimal_digits(have) + ")"@
}

/// The first of the required parameters, from position `from` on, of which
/// the definition has fewer than the template mentions.
pub open spec fn first_short_parameter(os: IpxeOsView, keys: Seq<Seq<char>>, from: int) -> Option<
    Seq<char>,
>
    decreases keys.len() - from,
{
    if from < 0 || from >= keys.len() {
        None
    } else if available_for_parameter(os, keys[from]) < occurrences(keys, keys[from]) {
        Some(shortage_text(
            keys[from],
            occurrences(keys, keys[from]),
            available_for_parameter(os, keys[from]),
        ))
    } else {
        first_short_parameter(os, keys, from + 1)
    }
}

/// The first of the required artifacts, from position `from` on, of which
/// the definition has fewer with an address than the template mentions.
pub open spec fn first_short_artifact(os: IpxeOsView, keys: Seq<Seq<char>>, from: int) -> Option<
    Seq<char>,
>
    decreases keys.len() - from,
{
    if from < 0 || from >= keys.len() {
        None
    } else if artifacts_named(os.artifacts, keys[from], true) < occurrences(keys, keys[from]) {
        Some(shortage_text(
            keys[from],
            occurrences(keys, keys[from]),
            artifacts_named(os.artifacts, keys[from], true),
        ))
    } else {
        first_short_artifact(os, keys, from + 1)
    }
}

/// Whether a definition has a parameter that the template neither requires
/// nor reserves.
pub open spec fn has_extra_parameters(
    parameters: Seq<IpxeOsParameterView>,
    template: IpxeScriptTemplateView,
) -> bool {
    exists|i: int|
        0 <= i < parameters.len() && !lowercased(template.required_params).contains(
            lowercase((#[trigger] parameters[i]).name),
        ) && !lowercased(template.reserved_params).contains(lowercase(parameters[i].name))
}

/// What the checks say of a definition held against its template, with
/// `computed_hash` as the hash of the definition. The checks come in this
/// order: no parameter and no artifact is named `extra`; no parameter has a
/// reserved name; every required parameter is there as often as it is
/// mentioned, and so is every required artifact; parameters beyond the
/// required ones need the placeholder `{{extra}}`; the stored hash is the
/// computed one.
pub open spec fn definition_check(
    os: IpxeOsView,
    template: IpxeScriptTemplateView,
    computed_hash: Seq<char>,
) -> Result<(), IpxeOsErrorView> {
    if first_extra_parameter(os.parameters) is Some {
        Err(
            IpxeOsErrorView::ReservedParameterFound(
                "'"@ + first_extra_parameter(os.parameters)->Some_0
                    + "' (normalized to 'extra' which is globally reserved for {{extra}} placeholder)"@,
            ),
        )
    } else if first_extra_artifact(os.artifacts) is Some {
        Err(
            IpxeOsErrorView::ReservedParameterFound(
                "'"@ + first_extra_artifact(os.artifacts)->Some_0
                    + "' (normalized to 'extra' which is globally reserved, cannot be used as artifact name)"@,
            ),
        )
    } else if first_reserved_parameter(os.parameters, template.reserved_params) is Some {
        Err(
            IpxeOsErrorView::ReservedParameterFound(
                first_reserved_parameter(os.parameters, template.reserved_params)->Some_0,
            ),
        )
    } else if first_short_parameter(os, lowercased(template.required_params), 0) is Some {
        Err(
            IpxeOsErrorView::RequiredParameterMissing(
                first_short_parameter(os, lowercased(template.required_params), 0)->Some_0,
            ),
        )
    } else if first_short_artifact(os, lowercased(template.required_artifacts), 0) is Some {
        Err(
            IpxeOsErrorView::ArtifactNotFound(
                first_short_artifact(os, lowercased(template.required_artifacts), 0)->Some_0,
            ),
        )
    } else if has_extra_parameters(os.parameters, template) && !contains(
        template.template,
        "{{extra}}"@,
    ) {
        Err(IpxeOsErrorView::ExtraParametersNotSupported)
    } else if computed_hash != os.hash {
        Err(IpxeOsErrorView::HashMismatch { expected: os.hash, actual: computed_hash })
    } else {
        Ok(())
    }
}

/// The first of the template's reserved parameters that is not among
/// `given`, letter case aside.
pub open spec fn first_missing_reserved(
    reserved: Seq<Seq<char>>,
    given: Seq<IpxeOsParameterView>,
) -> Option<Seq<char>>
    decreases reserved.len(),
{
    if reserved.len() == 0 {
        None
    } else if !parameter_keys(given).contains(lowercase(reserved[0])) {
        Some(reserved[0])
    } else {
        first_missing_reserved(reserved.drop_first(), given)
    }
}

/// The name of the first of `given` that is not among the template's
/// reserved parameters, letter case aside.
pub open spec fn first_unexpected_reserved(
    given: Seq<IpxeOsParameterView>,
    reserved: Seq<Seq<char>>,
) -> Option<Seq<char>>
    decreases given.len(),
{
    if given.len() == 0 {
        None
    } else if !lowercased(reserved).contains(lowercase(given[0].name)) {
        Some(given[0].name)
    } else {
        first_unexpected_reserved(given.drop_first(), reserved)
    }
}

/// What the check of the reserved parameters says: the parameters given
/// must be those that the template reserves, no fewer and no more.
pub open spec fn reserved_check(
    given: Seq<IpxeOsParameterView>,
    template: IpxeScriptTemplateView,
) -> Result<(), IpxeOsErrorView> {
    if first_missing_reserved(template.reserved_params, given) is Some {
        Err(
            IpxeOsErrorView::MissingReservedParameter(
                first_missing_reserved(template.reserved_params, given)->Some_0,
            ),
        )
    } else if first_unexpected_reserved(given, template.reserved_params) is Some {
        Err(
            IpxeOsErrorView::UnexpectedReservedParameter(
                first_unexpected_reserved(given, template.reserved_params)->Some_0,
            ),
        )
    } else {
        Ok(())
    }
}

/// The placeholders of `s` from position `from` on: each stretch from a
/// `{{` to the first `}}` at or behind it, taken from the left. A `{{`
/// without a `}}` behind it ends the search.
pub open spec fn placeholders_from(s: Seq<char>, from: int) -> Seq<Seq<char>>
    decreases s.len() - from,
{
    match find_from(s, "{{"@, from) {
        Some(open) => match find_from(s, "}}"@, open) {
            Some(close) => if from <= open <= close && close + 2 <= s.len() {
                seq![s.subrange(open, close + 2)] + placeholders_from(s, close + 2)
            } else {
                Seq::empty()
            },
            None => Seq::empty(),
        },
        None => Seq::empty(),
    }
}

/// What the check of a rendered script says: it must hold no placeholder.
pub open spec fn placeholder_check(script: Seq<char>) -> Result<(), IpxeOsErrorView> {
    if placeholders_from(script, 0).len() > 0 {
        Err(IpxeOsErrorView::UnreplacedPlaceholders(join(placeholders_from(script, 0), ", "@)))
    } else {
        Ok(())
    }
}

/// The view of a check's result.
pub open spec fn check_view(r: Result<(), IpxeOsError>) -> Result<(), IpxeOsErrorView> {
    match r {
        Ok(_) => Ok(()),
        Err(e) => Err(e@),
    }
}

/// The strings of `names` in lower case.
pub fn names_lower(names: &Vec<String>) -> (r: Vec<String>)
    ensures
        r.deep_view() == lowercased(names.deep_view()),
        r@.len() == names@.len(),
{
    let n: usize = names.len();
    let mut out: Vec<String> = Vec::new();
    let mut i: usize = 0;
    while i < n
        invariant
            n == names@.len(),
            i <= n,
            out@.len() == i,
            forall|j: int| 0 <= j < i ==> out@[j]@ == lowercase(names@[j]@),
        decreases n - i,
    {
        out.push(names[i].as_str().to_lowercase());
        i = i + 1;
    }
    proof {
        assert(out.deep_view() =~= lowercased(names.deep_view()));
    }
    out
}

/// Whether `list` holds `key`.
pub fn has_text(list: &Vec<String>, key: &str) -> (r: bool)
    ensures
        r == list.deep_view().contains(key@),
{
    let n: usize = list.len();
    let mut i: usize = 0;
    while i < n
        invariant
            n == list@.len(),
            i <= n,
            forall|j: int| 0 <= j < i ==> list.deep_view()[j] != key@,
        decreases n - i,
    {
        if same(list[i].as_str(), key) {
            proof {
                assert(list.deep_view()[i as int] == key@);
            }
            return true;
        }
        i = i + 1;
    }
    false
}

/// How often `key` occurs in `list`.
fn count_occurrences(list: &Vec<String>, key: &str) -> (r: usize)
    ensures
        r == occurrences(list.deep_view(), key@),
{
    let n: usize = list.len();
    let mut count: usize = 0;
    let mut i: usize = 0;
    proof {
        assert(list.deep_view().take(0) =~= Seq::empty());
    }
    while i < n
        invariant
            n == list@.len(),
            i <= n,
            count <= i,
            count == occurrences(list.deep_view().take(i as int), key@),
        decreases n - i,
    {
        proof {
            let upto = list.deep_view().take(i + 1);
            assert(upto.drop_last() =~= list.deep_view().take(i as int));
            assert(upto.last() == list@[i as int]@);
        }
        if same(list[i].as_str(), key) {
            count = count + 1;
        }
        i = i + 1;
    }
    proof {
        assert(list.deep_view().take(n as int) =~= list.deep_view());
    }
    count
}

/// How many parameters have the name `key` and a value that is not empty.
fn count_parameters(parameters: &Vec<IpxeOsParameter>, names: &Vec<String>, key: &str) -> (r: usize)
    requires
        names.deep_view() == parameter_keys(parameters.deep_view()),
        names@.len() == parameters@.len(),
    ensures
        r == parameters_named(parameters.deep_view(), key@),
        r <= parameters@.len(),
{
    let n: usize = parameters.len();
    let mut count: usize = 0;
    let mut i: usize = 0;
    let ghost all = parameters.deep_view();
    proof {
        assert(all.take(0) =~= Seq::empty());
    }
    while i < n
        invariant
            n == parameters@.len(),
            n == names@.len(),
            names.deep_view() == parameter_keys(all),
            all == parameters.deep_view(),
            i <= n,
            count <= i,
            count == parameters_named(all.take(i as int), key@),
        decreases n - i,
    {
        proof {
            let upto = all.take(i + 1);
            assert(upto.drop_last() =~= all.take(i as int));
            assert(upto.last() == parameters@[i as int]@);
            assert(names.deep_view()[i as int] == lowercase(all[i as int].name));
        }
        if same(names[i].as_str(), key) && !parameters[i].value.as_str().is_empty() {
            count = count + 1;
        }
        i = i + 1;
    }
    proof {
        assert(all.take(n as int) =~= all);
    }
    count
}

/// How many artifacts have the name `key`; with `with_url`, only those whose
/// address is not empty.
fn count_artifacts(
    artifacts: &Vec<IpxeOsArtifact>,
    names: &Vec<String>,
    key: &str,
    with_url: bool,
) -> (r: usize)
    requires
        names.deep_view() == artifact_keys(artifacts.deep_view()),
        names@.len() == artifacts@.len(),
    ensures
        r == artifacts_named(artifacts.deep_view(), key@, with_url),
        r <= artifacts@.len(),
{
    let n: usize = artifacts.len();
    let mut count: usize = 0;
    let mut i: usize = 0;
    let ghost all = artifacts.deep_view();
    proof {
        assert(all.take(0) =~= Seq::empty());
    }
    while i < n
        invariant
            n == artifacts@.len(),
            n == names@.len(),
            names.deep_view() == artifact_keys(all),
            all == artifacts.deep_view(),
            i <= n,
            count <= i,
            count == artifacts_named(all.take(i as int), key@, with_url),
        decreases n - i,
    {
        proof {
            let upto = all.take(i + 1);
            assert(upto.drop_last() =~= all.take(i as int));
            assert(upto.last() == artifacts@[i as int]@);
            assert(names.deep_view()[i as int] == lowercase(all[i as int].name));
        }
        if same(names[i].as_str(), key) && (!with_url || !artifacts[i].url.as_str().is_empty()) {
            count = count + 1;
        }
        i = i + 1;
    }
    proof {
        assert(all.take(n as int) =~= all);
    }
    count
}

/// The text that tells of a shortage.
fn make_shortage_text(key: &str, need: usize, have: usize) -> (r: String)
    ensures
        r@ == shortage_text(key@, need as nat, have as nat),
{
    let a = concat(key, " (need ");
    let b = concat(a.as_str(), decimal_text(need as u64).as_str());
    let c = concat(b.as_str(), " occurrences, have ");
    let d = concat(c.as_str(), decimal_text(have as u64).as_str());
    concat(d.as_str(), ")")
}

/// Checks a definition against its template, with `computed_hash` as the
/// hash of the definition.
pub fn check_definition(ipxeos: &IpxeOs, template: &IpxeScriptTemplate, computed_hash: String) -> (r:
    Result<(), IpxeOsError>)
    ensures
        check_view(r) == definition_check(ipxeos@, template@, computed_hash@),
{
    let names = parameter_names_lower(&ipxeos.parameters);
    let artifact_names = artifact_names_lower(&ipxeos.artifacts);
    let reserved = names_lower(&template.reserved_params);
    let required = names_lower(&template.required_params);
    let required_artifacts = names_lower(&template.required_artifacts);
    let ghost os = ipxeos@;
    let ghost tv = template@;
    let n: usize = ipxeos.parameters.len();
    let m: usize = ipxeos.artifacts.len();

    let mut i: usize = 0;
    proof {
        assert(os.parameters.skip(0) =~= os.parameters);
    }
    while i < n
        invariant
            n == ipxeos.parameters@.len(),
            n == names@.len(),
            os == ipxeos@,
            names.deep_view() == parameter_keys(os.parameters),
            i <= n,
            first_extra_parameter(os.parameters) == first_extra_parameter(
                os.parameters.skip(i as int),
            ),
        decreases n - i,
    {
        proof {
            let rest = os.parameters.skip(i as int);
            assert(rest.len() > 0);
            assert(rest[0] == ipxeos.parameters@[i as int]@);
            assert(rest.drop_first() =~= os.parameters.skip(i + 1));
            assert(names.deep_view()[i as int] == lowercase(os.parameters[i as int].name));
        }
        if same(names[i].as_str(), "extra") {
            let a = concat("'", ipxeos.parameters[i].name.as_str());
            let text = concat(
                a.as_str(),
                "' (normalized to 'extra' which is globally reserved for {{extra}} placeholder)",
            );
            return Err(IpxeOsError::ReservedParameterFound(text));
        }
        i = i + 1;
    }

    let mut i: usize = 0;
    proof {
        assert(os.artifacts.skip(0) =~= os.artifacts);
    }
    while i < m
        invariant
            m == ipxeos.artifacts@.len(),
            m == artifact_names@.len(),
            os == ipxeos@,
            artifact_names.deep_view() == artifact_keys(os.artifacts),
            i <= m,
            first_extra_parameter(os.parameters) is None,
            first_extra_artifact(os.artifacts) == first_extra_artifact(os.artifacts.skip(i as int)),
        decreases m - i,
    {
        proof {
            let rest = os.artifacts.skip(i as int);
            assert(rest.len() > 0);
            assert(rest[0] == ipxeos.artifacts@[i as int]@);
            assert(rest.drop_first() =~= os.artifacts.skip(i + 1));
            assert(artifact_names.deep_view()[i as int] == lowercase(os.artifacts[i as int].name));
        }
        if same(artifact_names[i].as_str(), "extra") {
            let a = concat("'", ipxeos.artifacts[i].name.as_str());
            let text = concat(
                a.as_str(),
                "' (normalized to 'extra' which is globally reserved, cannot be used as artifact name)",
            );
            return Err(IpxeOsError::ReservedParameterFound(text));
        }
        i = i + 1;
    }

    let mut i: usize = 0;
    while i < n
        invariant
            n == ipxeos.parameters@.len(),
            n == names@.len(),
            os == ipxeos@,
            tv == template@,
            names.deep_view() == parameter_keys(os.parameters),
            reserved.deep_view() == lowercased(tv.reserved_params),
            i <= n,
            first_extra_parameter(os.parameters) is None,
            first_extra_artifact(os.artifacts) is None,
            first_reserved_parameter(os.parameters, tv.reserved_params) == first_reserved_parameter(
                os.parameters.skip(i as int),
                tv.reserved_params,
            ),
        decreases n - i,
    {
        proof {
            let rest = os.parameters.skip(i as int);
            assert(rest.len() > 0);
            assert(rest[0] == ipxeos.parameters@[i as int]@);
            assert(rest.drop_first() =~= os.parameters.skip(i + 1));
            assert(names.deep_view()[i as int] == lowercase(os.parameters[i as int].name));
        }
        if has_text(&reserved, names[i].as_str()) {
            return Err(IpxeOsError::ReservedParameterFound(ipxeos.parameters[i].name.clone()));
        }
        i = i + 1;
    }

    let k: usize = required.len();
    let mut i: usize = 0;
    while i < k
        invariant
            k == required@.len(),
            n == ipxeos.parameters@.len(),
            n == names@.len(),
            m == ipxeos.artifacts@.len(),
            m == artifact_names@.len(),
            os == ipxeos@,
            tv == template@,
            names.deep_view() == parameter_keys(os.parameters),
            artifact_names.deep_view() == artifact_keys(os.artifacts),
            required.deep_view() == lowercased(tv.required_params),
            i <= k,
            first_extra_parameter(os.parameters) is None,
            first_extra_artifact(os.artifacts) is None,
            first_reserved_parameter(os.parameters, tv.reserved_params) is None,
            first_short_parameter(os, required.deep_view(), 0) == first_short_parameter(
                os,
                required.deep_view(),
                i as int,
            ),
        decreases k - i,
    {
        let key = required[i].as_str();
        proof {
            assert(required.deep_view()[i as int] == key@);
        }
        let need = count_occurrences(&required, key);
        let have_parameters = count_parameters(&ipxeos.parameters, &names, key);
        let have_artifacts = count_artifacts(&ipxeos.artifacts, &artifact_names, key, false);
        if have_parameters < need && have_artifacts < need - have_parameters {
            let have: usize = have_parameters + have_artifacts;
            return Err(IpxeOsError::RequiredParameterMissing(make_shortage_text(key, need, have)));
        }
        i = i + 1;
    }

    let k: usize = required_artifacts.len();
    let mut i: usize = 0;
    while i < k
        invariant
            k == required_artifacts@.len(),
            m == ipxeos.artifacts@.len(),
            m == artifact_names@.len(),
            os == ipxeos@,
            tv == template@,
            artifact_names.deep_view() == artifact_keys(os.artifacts),
            required.deep_view() == lowercased(tv.required_params),
            required_artifacts.deep_view() == lowercased(tv.required_artifacts),
            i <= k,
            first_extra_parameter(os.parameters) is None,
            first_extra_artifact(os.artifacts) is None,
            first_reserved_parameter(os.parameters, tv.reserved_params) is None,
            first_short_parameter(os, required.deep_view(), 0) is None,
            first_short_artifact(os, required_artifacts.deep_view(), 0) == first_short_artifact(
                os,
                required_artifacts.deep_view(),
                i as int,
            ),
        decreases k - i,
    {
        let key = required_artifacts[i].as_str();
        proof {
            assert(required_artifacts.deep_view()[i as int] == key@);
        }
        let need = count_occurrences(&required_artifacts, key);
        let have = count_artifacts(&ipxeos.artifacts, &artifact_names, key, true);
        if have < need {
            return Err(IpxeOsError::ArtifactNotFound(make_shortage_text(key, need, have)));
        }
        i = i + 1;
    }

    let mut extra = false;
    let mut i: usize = 0;
    while i < n
        invariant
            n == ipxeos.parameters@.len(),
            n == names@.len(),
            os == ipxeos@,
            tv == template@,
            names.deep_view() == parameter_keys(os.parameters),
            reserved.deep_view() == lowercased(tv.reserved_params),
            required.deep_view() == lowercased(tv.required_params),
            i <= n,
            extra == exists|j: int|
                0 <= j < i && !lowercased(tv.required_params).contains(
                    lowercase((#[trigger] os.parameters[j]).name),
                ) && !lowercased(tv.reserved_params).contains(lowercase(os.parameters[j].name)),
        decreases n - i,
    {
        proof {
            assert(names.deep_view()[i as int] == lowercase(os.parameters[i as int].name));
        }
        if !has_text(&required, names[i].as_str()) && !has_text(&reserved, names[i].as_str()) {
            extra = true;
        }
        i = i + 1;
    }
    if extra && !text_contains(template.template.as_str(), "{{extra}}") {
        return Err(IpxeOsError::ExtraParametersNotSupported);
    }
    if !same(computed_hash.as_str(), ipxeos.hash.as_str()) {
        return Err(
            IpxeOsError::HashMismatch { expected: ipxeos.hash.clone(), actual: computed_hash },
        );
    }
    Ok(())
}

/// Checks that the reserved parameters given for a rendering are those that
/// the template reserves, no fewer and no more.
pub fn check_reserved(reserved_params: &Vec<IpxeOsParameter>, template: &IpxeScriptTemplate) -> (r:
    Result<(), IpxeOsError>)
    ensures
        check_view(r) == reserved_check(reserved_params.deep_view(), template@),
{
    let given = parameter_names_lower(reserved_params);
    let reserved = names_lower(&template.reserved_params);
    let ghost gv = reserved_params.deep_view();
    let ghost tv = template@;
    let k: usize = reserved.len();
    let mut i: usize = 0;
    proof {
        assert(tv.reserved_params.skip(0) =~= tv.reserved_params);
    }
    while i < k
        invariant
            k == reserved@.len(),
            k == template.reserved_params@.len(),
            gv == reserved_params.deep_view(),
            tv == template@,
            given.deep_view() == parameter_keys(gv),
            reserved.deep_view() == lowercased(tv.reserved_params),
            i <= k,
            first_missing_reserved(tv.reserved_params, gv) == first_missing_reserved(
                tv.reserved_params.skip(i as int),
                gv,
            ),
        decreases k - i,
    {
        proof {
            let rest = tv.reserved_params.skip(i as int);
            assert(rest.len() > 0);
            assert(rest[0] == template.reserved_params@[i as int]@);
            assert(rest.drop_first() =~= tv.reserved_params.skip(i + 1));
            assert(reserved.deep_view()[i as int] == lowercase(tv.reserved_params[i as int]));
        }
        if !has_text(&given, reserved[i].as_str()) {
            return Err(IpxeOsError::MissingReservedParameter(template.reserved_params[i].clone()));
        }
        i = i + 1;
    }
    let n: usize = reserved_params.len();
    let mut i: usize = 0;
    proof {
        assert(gv.skip(0) =~= gv);
    }
    while i < n
        invariant
            n == reserved_params@.len(),
            n == given@.len(),
            gv == reserved_params.deep_view(),
            tv == template@,
            given.deep_view() == parameter_keys(gv),
            reserved.deep_view() == lowercased(tv.reserved_params),
            i <= n,
            first_missing_reserved(tv.reserved_params, gv) is None,
            first_unexpected_reserved(gv, tv.reserved_params) == first_unexpected_reserved(
                gv.skip(i as int),
                tv.reserved_params,
            ),
        decreases n - i,
    {
        proof {
            let rest = gv.skip(i as int);
            assert(rest.len() > 0);
            assert(rest[0] == reserved_params@[i as int]@);
            assert(rest.drop_first() =~= gv.skip(i + 1));
            assert(given.deep_view()[i as int] == lowercase(gv[i as int].name));
        }
        if !has_text(&reserved, given[i].as_str()) {
            return Err(IpxeOsError::UnexpectedReservedParameter(reserved_params[i].name.clone()));
        }
        i = i + 1;
    }
    Ok(())
}

/// The placeholders left in a script, in order.
pub fn find_placeholders(script: &str) -> (r: Vec<String>)
    ensures
        r.deep_view() == placeholders_from(script@, 0),
{
    let text = chars_of(script);
    let open = chars_of("{{");
    let close = chars_of("}}");
    let n: usize = text.len();
    let mut out: Vec<String> = Vec::new();
    let mut start: usize = 0;
    let mut done = false;
    proof {
        reveal_strlit("}}");
        assert(out.deep_view() =~= Seq::empty());
        assert(out.deep_view() + placeholders_from(script@, 0) =~= placeholders_from(script@, 0));
    }
    while !done
        invariant
            n == text@.len(),
            text@ == script@,
            open@ == "{{"@,
            close@ == "}}"@,
            close@.len() == 2,
            start <= n,
            !done ==> placeholders_from(script@, 0) == out.deep_view() + placeholders_from(
                script@,
                start as int,
            ),
            done ==> placeholders_from(script@, 0) == out.deep_view(),
        decreases n - start + if done { 0int } else { 1int },
    {
        let ghost before = out.deep_view();
        let mut found = false;
        match find_chars(&text, &open, start) {
            Some(p) => {
                match find_chars(&text, &close, p) {
                    Some(e) => {
                        let mut piece: Vec<char> = Vec::new();
                        push_range(&mut piece, &text, p, e + 2);
                        out.push(string_of(&piece));
                        proof {
                            let rest = placeholders_from(script@, e + 2);
                            assert(piece@ =~= script@.subrange(p as int, e + 2));
                            assert(out.deep_view() =~= before.push(piece@));
                            assert(before + (seq![piece@] + rest) =~= before.push(piece@) + rest);
                        }
                        start = e + 2;
                        found = true;
                    },
                    None => {},
                }
            },
            None => {},
        }
        if !found {
            proof {
                assert(placeholders_from(script@, start as int) =~= Seq::empty());
                assert(before + Seq::<Seq<char>>::empty() =~= before);
            }
            done = true;
        }
    }
    out
}

/// Checks that a rendered script holds no placeholder.
pub fn check_placeholders(script: &str) -> (r: Result<(), IpxeOsError>)
    ensures
        check_view(r) == placeholder_check(script@),
{
    let left = find_placeholders(script);
    if left.len() > 0 {
        return Err(IpxeOsError::UnreplacedPlaceholders(join_texts(&left, ", ")));
    }
    Ok(())
}

} // verus!
