//! The hash of an iPXE operating system definition, and the local addresses
//! made up for its artifacts.

use crate::ipxe::{
    ArtifactCacheStrategy, IpxeOs, IpxeOsArtifact, IpxeOsArtifactView, IpxeOsParameter,
    IpxeOsParameterView, IpxeOsView,
};
use crate::manifest::clone_text_option;
use crate::pattern::{contains, text_contains};
use crate::sorting::{positions, stable_order, stable_order_of};
use crate::text::{concat, lowercase};
use vstd::prelude::*;
use vstd::string::StrSliceExecFns;

verus! {

/// The SHA-256 digest of `data`, as 64 hexadecimal digits in lower case.
pub uninterp spec fn sha256_hex(data: Seq<u8>) -> Seq<char>;

/// `Sha256::digest` of the crate `sha2` computes the SHA-256 digest of the
/// bytes it is given; formatted with `{:x}` the digest reads as hexadecimal
/// digits in lower case. The result depends on the bytes alone.
#[verifier::external_body]
fn sha256_hex_of(data: &Vec<u8>) -> (r: String)
    ensures
        r@ == sha256_hex(data@),
{
    format!("{:x}", <sha2::Sha256 as sha2::Digest>::digest(data))
}

/// The bytes of a string in UTF-8.
pub open spec fn text_bytes(s: Seq<char>) -> Seq<u8> {
    vstd::utf8::encode_utf8(s)
}

/// The bytes of a string that may be missing: none where it is.
pub open spec fn optional_bytes(s: Option<Seq<char>>) -> Seq<u8> {
    match s {
        Some(t) => text_bytes(t),
        None => Seq::empty(),
    }
}

/// What a parameter gives to the hash: its name in lower case, then its
/// value as it is.
pub open spec fn parameter_bytes(p: IpxeOsParameterView) -> Seq<u8> {
    text_bytes(lowercase(p.name)) + text_bytes(p.value)
}

/// What an artifact gives to the hash: its name in lower case, its address,
/// and its checksum, kind of authentication and token where it has them.
/// How it is cached and its local address give nothing.
pub open spec fn artifact_bytes(a: IpxeOsArtifactView) -> Seq<u8> {
    text_bytes(lowercase(a.name)) + text_bytes(a.url) + optional_bytes(a.sha) + optional_bytes(
        a.auth_type,
    ) + optional_bytes(a.auth_token)
}

/// The names of parameters in lower case.
pub open spec fn parameter_keys(parameters: Seq<IpxeOsParameterView>) -> Seq<Seq<char>> {
    Seq::new(parameters.len(), |i: int| lowercase(parameters[i].name))
}

/// The names of artifacts in lower case.
pub open spec fn artifact_keys(artifacts: Seq<IpxeOsArtifactView>) -> Seq<Seq<char>> {
    Seq::new(artifacts.len(), |i: int| lowercase(artifacts[i].name))
}

/// What the parameters at the positions `order` give to the hash, in that
/// order.
pub open spec fn ordered_parameter_bytes(
    parameters: Seq<IpxeOsParameterView>,
    order: Seq<int>,
) -> Seq<u8>
    decreases order.len(),
{
    if order.len() == 0 {
        Seq::empty()
    } else {
        ordered_parameter_bytes(parameters, order.drop_last()) + parameter_bytes(
            parameters[order.last()],
        )
    }
}

/// What the artifacts at the positions `order` give to the hash, in that
/// order.
pub open spec fn ordered_artifact_bytes(artifacts: Seq<IpxeOsArtifactView>, order: Seq<int>) -> Seq<
    u8,
>
    decreases order.len(),
{
    if order.len() == 0 {
        Seq::empty()
    } else {
        ordered_artifact_bytes(artifacts, order.drop_last()) + artifact_bytes(
            artifacts[order.last()],
        )
    }
}

/// The bytes that are hashed for a definition: the template's name in lower
/// case, then the parameters sorted by their names in lower case, then the
/// artifacts sorted likewise. Name, description, tenant and the stored hash
/// give nothing.
pub open spec fn hash_input(os: IpxeOsView) -> Seq<u8> {
    text_bytes(lowercase(os.ipxe_template_name)) + ordered_parameter_bytes(
        os.parameters,
        stable_order(parameter_keys(os.parameters), os.parameters.len() as int),
    ) + ordered_artifact_bytes(
        os.artifacts,
        stable_order(artifact_keys(os.artifacts), os.artifacts.len() as int),
    )
}

/// The hash of a definition.
pub open spec fn definition_hash(os: IpxeOsView) -> Seq<char> {
    sha256_hex(hash_input(os))
}

/// Whether an address holds a variable, written `${` or `{{`.
pub open spec fn has_variable(url: Seq<char>) -> bool {
    contains(url, "${"@) || contains(url, "{{"@)
}

/// The local address of an artifact after local addresses were made up. An
/// artifact that is never cached, has a local address already, or has a
/// variable in its address keeps what it has. Any other gets `${base_url}/`
/// followed by its checksum or, where it has none, by the hash of its name
/// and address.
pub open spec fn local_url_of(a: IpxeOsArtifactView) -> Option<Seq<char>> {
    if a.cache_strategy == ArtifactCacheStrategy::RemoteOnly || a.local_url is Some {
        a.local_url
    } else if has_variable(a.url) {
        a.local_url
    } else {
        Some(
            "${base_url}/"@ + match a.sha {
                Some(sha) => sha,
                None => sha256_hex(text_bytes(a.name) + text_bytes(a.url)),
            },
        )
    }
}

/// A definition after local addresses were made up for its artifacts.
pub open spec fn with_local_urls(os: IpxeOsView) -> IpxeOsView {
    IpxeOsView {
        artifacts: Seq::new(
            os.artifacts.len(),
            |i: int| IpxeOsArtifactView { local_url: local_url_of(os.artifacts[i]), ..os.artifacts[i] },
        ),
        ..os
    }
}

proof fn lemma_ordered_parameter_bytes_agree(
    a: Seq<IpxeOsParameterView>,
    b: Seq<IpxeOsParameterView>,
    order: Seq<int>,
)
    requires
        a.len() == b.len(),
        forall|i: int|
            0 <= i < a.len() ==> lowercase((#[trigger] a[i]).name) == lowercase(b[i].name)
                && a[i].value == b[i].value,
        forall|k: int| 0 <= k < order.len() ==> 0 <= #[trigger] order[k] < a.len(),
    ensures
        ordered_parameter_bytes(a, order) == ordered_parameter_bytes(b, order),
    decreases order.len(),
{
    if order.len() > 0 {
        lemma_ordered_parameter_bytes_agree(a, b, order.drop_last());
        let at = order.last();
        assert(lowercase(a[at].name) == lowercase(b[at].name));
    }
}

proof fn lemma_ordered_artifact_bytes_agree(
    a: Seq<IpxeOsArtifactView>,
    b: Seq<IpxeOsArtifactView>,
    order: Seq<int>,
)
    requires
        a.len() == b.len(),
        forall|i: int| 0 <= i < a.len() ==> same_for_hash(#[trigger] a[i], b[i]),
        forall|k: int| 0 <= k < order.len() ==> 0 <= #[trigger] order[k] < a.len(),
    ensures
        ordered_artifact_bytes(a, order) == ordered_artifact_bytes(b, order),
    decreases order.len(),
{
    if order.len() > 0 {
        lemma_ordered_artifact_bytes_agree(a, b, order.drop_last());
        let at = order.last();
        assert(same_for_hash(a[at], b[at]));
    }
}

/// Whether two artifacts give the same to the hash: they agree in name,
/// letter case aside, and in address, checksum, kind of authentication and
/// token.
pub open spec fn same_for_hash(a: IpxeOsArtifactView, b: IpxeOsArtifactView) -> bool {
    lowercase(a.name) == lowercase(b.name) && a.url == b.url && a.sha == b.sha && a.auth_type
        == b.auth_type && a.auth_token == b.auth_token
}

/// Two definitions have the same hash where they agree in the template's
/// name, in the names of parameters and artifacts place by place, all letter
/// case aside, in the values of parameters, and in address, checksum, kind
/// of authentication and token of artifacts. Their own names, descriptions,
/// tenants and stored hashes, and how their artifacts are cached and their
/// local addresses, make no difference.
pub proof fn lemma_hash_ignores(a: IpxeOsView, b: IpxeOsView)
    requires
        lowercase(a.ipxe_template_name) == lowercase(b.ipxe_template_name),
        a.parameters.len() == b.parameters.len(),
        forall|i: int|
            0 <= i < a.parameters.len() ==> lowercase((#[trigger] a.parameters[i]).name)
                == lowercase(b.parameters[i].name) && a.parameters[i].value
                == b.parameters[i].value,
        a.artifacts.len() == b.artifacts.len(),
        forall|i: int|
            0 <= i < a.artifacts.len() ==> same_for_hash(#[trigger] a.artifacts[i], b.artifacts[i]),
    ensures
        hash_input(a) == hash_input(b),
        definition_hash(a) == definition_hash(b),
{
    assert(parameter_keys(a.parameters) =~= parameter_keys(b.parameters));
    assert(artifact_keys(a.artifacts) =~= artifact_keys(b.artifacts));
    crate::sorting::lemma_stable_order(parameter_keys(a.parameters));
    crate::sorting::lemma_stable_order(artifact_keys(a.artifacts));
    lemma_ordered_parameter_bytes_agree(
        a.parameters,
        b.parameters,
        stable_order(parameter_keys(a.parameters), a.parameters.len() as int),
    );
    lemma_ordered_artifact_bytes_agree(
        a.artifacts,
        b.artifacts,
        stable_order(artifact_keys(a.artifacts), a.artifacts.len() as int),
    );
}

/// Making up local addresses changes nothing that the hash is made of.
pub proof fn lemma_local_urls_keep_hash(os: IpxeOsView)
    ensures
        definition_hash(with_local_urls(os)) == definition_hash(os),
{
    lemma_hash_ignores(with_local_urls(os), os);
}

/// Appends the bytes of `s` to `out`.
fn push_text_bytes(out: &mut Vec<u8>, s: &str)
    ensures
        final(out)@ == old(out)@ + text_bytes(s@),
{
    let mut bytes = s.as_bytes_vec();
    out.append(&mut bytes);
}

/// Appends the bytes of `s` to `out`, where there is an `s`.
fn push_optional_bytes(out: &mut Vec<u8>, s: &Option<String>)
    ensures
        final(out)@ == old(out)@ + optional_bytes(s.deep_view()),
{
    match s {
        Some(t) => push_text_bytes(out, t.as_str()),
        None => {
            proof {
                assert(out@ + Seq::<u8>::empty() =~= out@);
            }
        },
    }
}

/// The names of `parameters` in lower case.
pub fn parameter_names_lower(parameters: &Vec<IpxeOsParameter>) -> (r: Vec<String>)
    ensures
        r.deep_view() == parameter_keys(parameters.deep_view()),
        r@.len() == parameters@.len(),
{
    let n: usize = parameters.len();
    let mut out: Vec<String> = Vec::new();
    let mut i: usize = 0;
    while i < n
        invariant
            n == parameters@.len(),
            i <= n,
            out@.len() == i,
            forall|j: int| 0 <= j < i ==> out@[j]@ == lowercase(parameters@[j].name@),
        decreases n - i,
    {
        out.push(parameters[i].name.as_str().to_lowercase());
        i = i + 1;
    }
    proof {
        assert(out.deep_view() =~= parameter_keys(parameters.deep_view()));
    }
    out
}

/// The names of `artifacts` in lower case.
pub fn artifact_names_lower(artifacts: &Vec<IpxeOsArtifact>) -> (r: Vec<String>)
    ensures
        r.deep_view() == artifact_keys(artifacts.deep_view()),
        r@.len() == artifacts@.len(),
{
    let n: usize = artifacts.len();
    let mut out: Vec<String> = Vec::new();
    let mut i: usize = 0;
    while i < n
        invariant
            n == artifacts@.len(),
            i <= n,
            out@.len() == i,
            forall|j: int| 0 <= j < i ==> out@[j]@ == lowercase(artifacts@[j].name@),
        decreases n - i,
    {
        out.push(artifacts[i].name.as_str().to_lowercase());
        i = i + 1;
    }
    proof {
        assert(out.deep_view() =~= artifact_keys(artifacts.deep_view()));
    }
    out
}

/// The bytes that are hashed for a definition.
pub fn hash_input_bytes(ipxeos: &IpxeOs) -> (r: Vec<u8>)
    ensures
        r@ == hash_input(ipxeos@),
{
    let mut out: Vec<u8> = Vec::new();
    let template = ipxeos.ipxe_template_name.as_str().to_lowercase();
    push_text_bytes(&mut out, template.as_str());
    proof {
        assert(out@ =~= text_bytes(lowercase(ipxeos@.ipxe_template_name)));
    }
    let names = parameter_names_lower(&ipxeos.parameters);
    let order = stable_order_of(&names);
    let n: usize = order.len();
    let mut i: usize = 0;
    let ghost head = out@;
    let ghost params = ipxeos@.parameters;
    let ghost sorted = positions(order@);
    proof {
        assert(sorted.take(0) =~= Seq::<int>::empty());
        assert(head + Seq::<u8>::empty() =~= head);
    }
    while i < n
        invariant
            n == order@.len(),
            i <= n,
            n == ipxeos.parameters@.len(),
            params == ipxeos.parameters.deep_view(),
            sorted == positions(order@),
            forall|j: int| 0 <= j < n ==> #[trigger] order@[j] < n,
            out@ == head + ordered_parameter_bytes(params, sorted.take(i as int)),
        decreases n - i,
    {
        let parameter = &ipxeos.parameters[order[i]];
        let ghost before = out@;
        let lower = parameter.name.as_str().to_lowercase();
        push_text_bytes(&mut out, lower.as_str());
        push_text_bytes(&mut out, parameter.value.as_str());
        proof {
            let upto = sorted.take(i + 1);
            assert(upto.drop_last() =~= sorted.take(i as int));
            assert(upto.last() == order@[i as int] as int);
            assert(params[order@[i as int] as int] == parameter@);
            assert(out@ =~= before + parameter_bytes(parameter@));
            assert(head + ordered_parameter_bytes(params, sorted.take(i as int)) + parameter_bytes(
                parameter@,
            ) =~= head + ordered_parameter_bytes(params, upto));
        }
        i = i + 1;
    }
    proof {
        assert(sorted.take(n as int) =~= sorted);
    }
    let names = artifact_names_lower(&ipxeos.artifacts);
    let order = stable_order_of(&names);
    let n: usize = order.len();
    let mut i: usize = 0;
    let ghost head = out@;
    let ghost items = ipxeos@.artifacts;
    let ghost sorted = positions(order@);
    proof {
        assert(sorted.take(0) =~= Seq::<int>::empty());
        assert(head + Seq::<u8>::empty() =~= head);
    }
    while i < n
        invariant
            n == order@.len(),
            i <= n,
            n == ipxeos.artifacts@.len(),
            items == ipxeos.artifacts.deep_view(),
            sorted == positions(order@),
            forall|j: int| 0 <= j < n ==> #[trigger] order@[j] < n,
            out@ == head + ordered_artifact_bytes(items, sorted.take(i as int)),
        decreases n - i,
    {
        let artifact = &ipxeos.artifacts[order[i]];
        let ghost before = out@;
        let lower = artifact.name.as_str().to_lowercase();
        push_text_bytes(&mut out, lower.as_str());
        push_text_bytes(&mut out, artifact.url.as_str());
        push_optional_bytes(&mut out, &artifact.sha);
        push_optional_bytes(&mut out, &artifact.auth_type);
        push_optional_bytes(&mut out, &artifact.auth_token);
        proof {
            let upto = sorted.take(i + 1);
            assert(upto.drop_last() =~= sorted.take(i as int));
            assert(upto.last() == order@[i as int] as int);
            assert(items[order@[i as int] as int] == artifact@);
            assert(out@ =~= before + artifact_bytes(artifact@));
            assert(head + ordered_artifact_bytes(items, sorted.take(i as int)) + artifact_bytes(
                artifact@,
            ) =~= head + ordered_artifact_bytes(items, upto));
        }
        i = i + 1;
    }
    proof {
        assert(sorted.take(n as int) =~= sorted);
    }
    out
}

/// The hash of a definition.
pub fn definition_hash_of(ipxeos: &IpxeOs) -> (r: String)
    ensures
        r@ == definition_hash(ipxeos@),
{
    let input = hash_input_bytes(ipxeos);
    sha256_hex_of(&input)
}

/// A copy of a list of parameters.
pub fn clone_parameters(parameters: &Vec<IpxeOsParameter>) -> (r: Vec<IpxeOsParameter>)
    ensures
        r.deep_view() == parameters.deep_view(),
{
    let n: usize = parameters.len();
    let mut out: Vec<IpxeOsParameter> = Vec::new();
    let mut i: usize = 0;
    while i < n
        invariant
            n == parameters@.len(),
            i <= n,
            out@.len() == i,
            forall|j: int| 0 <= j < i ==> out@[j]@ == parameters@[j]@,
        decreases n - i,
    {
        out.push(
            IpxeOsParameter {
                name: parameters[i].name.clone(),
                value: parameters[i].value.clone(),
            },
        );
        i = i + 1;
    }
    proof {
        assert(out.deep_view() =~= parameters.deep_view());
    }
    out
}

/// The artifact with the local address that is made up for it.
fn artifact_with_local_url(artifact: &IpxeOsArtifact) -> (r: IpxeOsArtifact)
    ensures
        r@ == (IpxeOsArtifactView { local_url: local_url_of(artifact@), ..artifact@ }),
{
    let remote_only = match artifact.cache_strategy {
        ArtifactCacheStrategy::RemoteOnly => true,
        _ => false,
    };
    let local_url = if remote_only || artifact.local_url.is_some() {
        clone_text_option(&artifact.local_url)
    } else if text_contains(artifact.url.as_str(), "${") || text_contains(
        artifact.url.as_str(),
        "{{",
    ) {
        None
    } else {
        let digest = match &artifact.sha {
            Some(sha) => sha.clone(),
            None => {
                let mut input: Vec<u8> = Vec::new();
                push_text_bytes(&mut input, artifact.name.as_str());
                push_text_bytes(&mut input, artifact.url.as_str());
                proof {
                    assert(input@ =~= text_bytes(artifact.name@) + text_bytes(artifact.url@));
                }
                sha256_hex_of(&input)
            },
        };
        Some(concat("${base_url}/", digest.as_str()))
    };
    IpxeOsArtifact {
        name: artifact.name.clone(),
        url: artifact.url.clone(),
        sha: clone_text_option(&artifact.sha),
        auth_type: clone_text_option(&artifact.auth_type),
        auth_token: clone_text_option(&artifact.auth_token),
        cache_strategy: artifact.cache_strategy,
        local_url,
    }
}

/// A copy of a definition in which every artifact that can be cached has a
/// local address.
pub fn with_local_urls_of(ipxeos: &IpxeOs) -> (r: IpxeOs)
    ensures
        r@ == with_local_urls(ipxeos@),
{
    let n: usize = ipxeos.artifacts.len();
    let mut artifacts: Vec<IpxeOsArtifact> = Vec::new();
    let mut i: usize = 0;
    while i < n
        invariant
            n == ipxeos.artifacts@.len(),
            i <= n,
            artifacts@.len() == i,
            forall|j: int|
                0 <= j < i ==> artifacts@[j]@ == (IpxeOsArtifactView {
                    local_url: local_url_of(ipxeos.artifacts@[j]@),
                    ..ipxeos.artifacts@[j]@
                }),
        decreases n - i,
    {
        artifacts.push(artifact_with_local_url(&ipxeos.artifacts[i]));
        i = i + 1;
    }
    proof {
        assert(artifacts.deep_view() =~= with_local_urls(ipxeos@).artifacts);
    }
    IpxeOs {
        name: ipxeos.name.clone(),
        description: clone_text_option(&ipxeos.description),
        hash: ipxeos.hash.clone(),
        tenant_id: clone_text_option(&ipxeos.tenant_id),
        ipxe_template_name: ipxeos.ipxe_template_name.clone(),
        parameters: clone_parameters(&ipxeos.parameters),
        artifacts,
    }
}

} // verus!
