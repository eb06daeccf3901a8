//! iPXE operating system definitions and the templates that render them to
//! boot scripts.

use crate::ipxe_check::{
    check_definition, check_reserved, check_view, definition_check, reserved_check,
};
use crate::ipxe_hash::{definition_hash, definition_hash_of, with_local_urls, with_local_urls_of};
use crate::ipxe_render::{render_script, render_view, rendering};
use crate::manifest::clone_text_option;
use crate::text::concat;
use crate::textmap::{value_of, TextMap};
use vstd::prelude::*;

verus! {

/// An operating system that is booted by a script rendered from a template.
#[derive(Debug, PartialEq, Eq)]
pub struct IpxeOs {
    pub name: String,
    pub description: Option<String>,
    /// The hash of the definition, as `hash` computes it.
    pub hash: String,
    pub tenant_id: Option<String>,
    pub ipxe_template_name: String,
    pub parameters: Vec<IpxeOsParameter>,
    pub artifacts: Vec<IpxeOsArtifact>,
}

/// Who manages an operating system definition.
#[derive(Debug, Clone, Copy, PartialEq, Eq, Structural)]
pub enum OsScope {
    Unspecified,
    /// Managed centrally and synced to sites.
    Global,
    /// Managed by the site.
    Local,
}

/// A value to put into a template.
#[derive(Debug, PartialEq, Eq)]
pub struct IpxeOsParameter {
    pub name: String,
    pub value: String,
}

/// How an artifact may be cached.
#[derive(Debug, Clone, Copy, PartialEq, Eq, Structural)]
pub enum ArtifactCacheStrategy {
    Unspecified,
    /// Fetched and cached locally as policy says.
    CacheAsNeeded,
    /// Used from the local cache only.
    LocalOnly,
    /// Always fetched from its address, never cached.
    RemoteOnly,
}

/// A remote file that a script refers to.
#[derive(Debug, PartialEq, Eq)]
pub struct IpxeOsArtifact {
    pub name: String,
    pub url: String,
    pub sha: Option<String>,
    pub auth_type: Option<String>,
    pub auth_token: Option<String>,
    pub cache_strategy: ArtifactCacheStrategy,
    pub local_url: Option<String>,
}

/// A script template. Placeholders are written `{{name}}`.
#[derive(Debug, PartialEq, Eq)]
pub struct IpxeScriptTemplate {
    pub name: String,
    pub description: String,
    pub template: String,
    /// The parameters that only the renderer's caller may give.
    pub reserved_params: Vec<String>,
    /// The parameters that a definition must give, once for each mention.
    pub required_params: Vec<String>,
    /// The artifacts that a definition must give, once for each mention.
    pub required_artifacts: Vec<String>,
}

pub struct IpxeOsParameterView {
    pub name: Seq<char>,
    pub value: Seq<char>,
}

pub struct IpxeOsArtifactView {
    pub name: Seq<char>,
    pub url: Seq<char>,
    pub sha: Option<Seq<char>>,
    pub auth_type: Option<Seq<char>>,
    pub auth_token: Option<Seq<char>>,
    pub cache_strategy: ArtifactCacheStrategy,
    pub local_url: Option<Seq<char>>,
}

pub struct IpxeOsView {
    pub name: Seq<char>,
    pub description: Option<Seq<char>>,
    pub hash: Seq<char>,
    pub tenant_id: Option<Seq<char>>,
    pub ipxe_template_name: Seq<char>,
    pub parameters: Seq<IpxeOsParameterView>,
    pub artifacts: Seq<IpxeOsArtifactView>,
}

pub struct IpxeScriptTemplateView {
    pub name: Seq<char>,
    pub description: Seq<char>,
    pub template: Seq<char>,
    pub reserved_params: Seq<Seq<char>>,
    pub required_params: Seq<Seq<char>>,
    pub required_artifacts: Seq<Seq<char>>,
}

impl View for IpxeOsParameter {
    type V = IpxeOsParameterView;

    open spec fn view(&self) -> IpxeOsParameterView {
        IpxeOsParameterView { name: self.name@, value: self.value@ }
    }
}

impl DeepView for IpxeOsParameter {
    type V = IpxeOsParameterView;

    open spec fn deep_view(&self) -> IpxeOsParameterView {
        self@
    }
}

impl View for IpxeOsArtifact {
    type V = IpxeOsArtifactView;

    open spec fn view(&self) -> IpxeOsArtifactView {
        IpxeOsArtifactView {
            name: self.name@,
            url: self.url@,
            sha: self.sha.deep_view(),
            auth_type: self.auth_type.deep_view(),
            auth_token: self.auth_token.deep_view(),
            cache_strategy: self.cache_strategy,
            local_url: self.local_url.deep_view(),
        }
    }
}

impl DeepView for IpxeOsArtifact {
    type V = IpxeOsArtifactView;

    open spec fn deep_view(&self) -> IpxeOsArtifactView {
        self@
    }
}

impl View for IpxeOs {
    type V = IpxeOsView;

    open spec fn view(&self) -> IpxeOsView {
        IpxeOsView {
            name: self.name@,
            description: self.description.deep_view(),
            hash: self.hash@,
            tenant_id: self.tenant_id.deep_view(),
            ipxe_template_name: self.ipxe_template_name@,
            parameters: self.parameters.deep_view(),
            artifacts: self.artifacts.deep_view(),
        }
    }
}

impl View for IpxeScriptTemplate {
    type V = IpxeScriptTemplateView;

    open spec fn view(&self) -> IpxeScriptTemplateView {
        IpxeScriptTemplateView {
            name: self.name@,
            description: self.description@,
            template: self.template@,
            reserved_params: self.reserved_params.deep_view(),
            required_params: self.required_params.deep_view(),
            required_artifacts: self.required_artifacts.deep_view(),
        }
    }
}

impl DeepView for IpxeScriptTemplate {
    type V = IpxeScriptTemplateView;

    open spec fn deep_view(&self) -> IpxeScriptTemplateView {
        self@
    }
}

impl Clone for IpxeOsParameter {
    fn clone(&self) -> (r: Self)
        ensures
            r@ == self@,
    {
        IpxeOsParameter { name: self.name.clone(), value: self.value.clone() }
    }
}

impl Clone for IpxeOsArtifact {
    fn clone(&self) -> (r: Self)
        ensures
            r@ == self@,
    {
        IpxeOsArtifact {
            name: self.name.clone(),
            url: self.url.clone(),
            sha: clone_text_option(&self.sha),
            auth_type: clone_text_option(&self.auth_type),
            auth_token: clone_text_option(&self.auth_token),
            cache_strategy: self.cache_strategy,
            local_url: clone_text_option(&self.local_url),
        }
    }
}

impl Clone for IpxeOs {
    fn clone(&self) -> (r: Self)
        ensures
            r@ == self@,
    {
        let n: usize = self.parameters.len();
        let mut parameters: Vec<IpxeOsParameter> = Vec::new();
        let mut i: usize = 0;
        while i < n
            invariant
                n == self.parameters@.len(),
                i <= n,
                parameters@.len() == i,
                forall|j: int| 0 <= j < i ==> parameters@[j]@ == self.parameters@[j]@,
            decreases n - i,
        {
            parameters.push(self.parameters[i].clone());
            i = i + 1;
        }
        let m: usize = self.artifacts.len();
        let mut artifacts: Vec<IpxeOsArtifact> = Vec::new();
        let mut i: usize = 0;
        while i < m
            invariant
                m == self.artifacts@.len(),
                i <= m,
                artifacts@.len() == i,
                forall|j: int| 0 <= j < i ==> artifacts@[j]@ == self.artifacts@[j]@,
            decreases m - i,
        {
            artifacts.push(self.artifacts[i].clone());
            i = i + 1;
        }
        proof {
            assert(parameters.deep_view() =~= self.parameters.deep_view());
            assert(artifacts.deep_view() =~= self.artifacts.deep_view());
        }
        IpxeOs {
            name: self.name.clone(),
            description: clone_text_option(&self.description),
            hash: self.hash.clone(),
            tenant_id: clone_text_option(&self.tenant_id),
            ipxe_template_name: self.ipxe_template_name.clone(),
            parameters,
            artifacts,
        }
    }
}

/// A copy of a list of strings.
pub fn clone_names(names: &Vec<String>) -> (r: Vec<String>)
    ensures
        r.deep_view() == names.deep_view(),
{
    let n: usize = names.len();
    let mut out: Vec<String> = Vec::new();
    let mut i: usize = 0;
    while i < n
        invariant
            n == names@.len(),
            i <= n,
            out@.len() == i,
            forall|j: int| 0 <= j < i ==> out@[j]@ == names@[j]@,
        decreases n - i,
    {
        out.push(names[i].clone());
        i = i + 1;
    }
    proof {
        assert(out.deep_view() =~= names.deep_view());
    }
    out
}

impl Clone for IpxeScriptTemplate {
    fn clone(&self) -> (r: Self)
        ensures
            r@ == self@,
    {
        IpxeScriptTemplate {
            name: self.name.clone(),
            description: self.description.clone(),
            template: self.template.clone(),
            reserved_params: clone_names(&self.reserved_params),
            required_params: clone_names(&self.required_params),
            required_artifacts: clone_names(&self.required_artifacts),
        }
    }
}

/// Why a definition was not rendered.
#[derive(Debug, PartialEq, Eq)]
pub enum IpxeOsError {
    TemplateNotFound(String),
    ReservedParameterFound(String),
    RequiredParameterMissing(String),
    ExtraParametersNotSupported,
    HashMismatch { expected: String, actual: String },
    ArtifactNotFound(String),
    MissingReservedParameter(String),
    UnexpectedReservedParameter(String),
    UnreplacedPlaceholders(String),
}

pub enum IpxeOsErrorView {
    TemplateNotFound(Seq<char>),
    ReservedParameterFound(Seq<char>),
    RequiredParameterMissing(Seq<char>),
    ExtraParametersNotSupported,
    HashMismatch { expected: Seq<char>, actual: Seq<char> },
    ArtifactNotFound(Seq<char>),
    MissingReservedParameter(Seq<char>),
    UnexpectedReservedParameter(Seq<char>),
    UnreplacedPlaceholders(Seq<char>),
}

impl View for IpxeOsError {
    type V = IpxeOsErrorView;

    open spec fn view(&self) -> IpxeOsErrorView {
        match self {
            IpxeOsError::TemplateNotFound(s) => IpxeOsErrorView::TemplateNotFound(s@),
            IpxeOsError::ReservedParameterFound(s) => IpxeOsErrorView::ReservedParameterFound(s@),
            IpxeOsError::RequiredParameterMissing(s) => IpxeOsErrorView::RequiredParameterMissing(
                s@,
            ),
            IpxeOsError::ExtraParametersNotSupported => IpxeOsErrorView::ExtraParametersNotSupported,
            IpxeOsError::HashMismatch { expected, actual } => IpxeOsErrorView::HashMismatch {
                expected: expected@,
                actual: actual@,
            },
            IpxeOsError::ArtifactNotFound(s) => IpxeOsErrorView::ArtifactNotFound(s@),
            IpxeOsError::MissingReservedParameter(s) => IpxeOsErrorView::MissingReservedParameter(
                s@,
            ),
            IpxeOsError::UnexpectedReservedParameter(s) => IpxeOsErrorView::UnexpectedReservedParameter(
                s@,
            ),
            IpxeOsError::UnreplacedPlaceholders(s) => IpxeOsErrorView::UnreplacedPlaceholders(s@),
        }
    }
}

/// What renders operating system definitions to iPXE scripts.
pub trait IpxeOsRenderer {
    /// The script of a definition. `reserved_params` must be the parameters
    /// that the definition's template reserves, no fewer and no more.
    fn render(&self, ipxeos: &IpxeOs, reserved_params: &[IpxeOsParameter]) -> Result<
        String,
        IpxeOsError,
    >;

    /// The script of a definition, with the addresses of its artifacts in
    /// the places of their names: the local address where an artifact has
    /// one.
    fn render_with_artifact_substitution(
        &self,
        ipxeos: &IpxeOs,
        reserved_params: &[IpxeOsParameter],
    ) -> Result<String, IpxeOsError>;

    /// The template under `name`.
    fn get_template(&self, name: &str) -> Option<&IpxeScriptTemplate>;

    /// The names of all templates.
    fn list_templates(&self) -> Vec<String>;

    /// Whether a definition can be rendered.
    fn validate(&self, ipxeos: &IpxeOs) -> Result<(), IpxeOsError>;

    /// The hash of a definition: of its template's name, its parameters and
    /// its artifacts, letter case of names aside; not of how artifacts are
    /// cached, of local addresses, or of the stored hash.
    fn hash(&self, ipxeos: &IpxeOs) -> String;

    /// A copy of a definition in which every artifact that can be cached has
    /// a local address.
    fn fabricate_local_urls(&self, ipxeos: &IpxeOs) -> IpxeOs;
}

/// The renderer that works from a set of templates held in memory.
#[derive(Debug)]
pub struct DefaultIpxeOsRenderer {
    templates: TextMap<IpxeScriptTemplate>,
}

impl View for DefaultIpxeOsRenderer {
    type V = Seq<(Seq<char>, IpxeScriptTemplateView)>;

    closed spec fn view(&self) -> Seq<(Seq<char>, IpxeScriptTemplateView)> {
        self.templates@
    }
}

/// What the checks say of a definition, with `computed_hash` as its hash:
/// its template must be among `templates`, and the definition must pass the
/// checks against it.
pub open spec fn validation(
    templates: Seq<(Seq<char>, IpxeScriptTemplateView)>,
    os: IpxeOsView,
    computed_hash: Seq<char>,
) -> Result<(), IpxeOsErrorView> {
    match value_of(templates, os.ipxe_template_name) {
        None => Err(IpxeOsErrorView::TemplateNotFound(os.ipxe_template_name)),
        Some(template) => definition_check(os, template, computed_hash),
    }
}

/// What rendering gives for a definition, with `computed_hash` as its hash:
/// the first error of the checks on the definition and on the reserved
/// parameters, or else the rendering of the template.
pub open spec fn checked_rendering(
    templates: Seq<(Seq<char>, IpxeScriptTemplateView)>,
    os: IpxeOsView,
    given: Seq<IpxeOsParameterView>,
    with_artifacts: bool,
    computed_hash: Seq<char>,
) -> Result<Seq<char>, IpxeOsErrorView> {
    match validation(templates, os, computed_hash) {
        Err(e) => Err(e),
        Ok(_) => match value_of(templates, os.ipxe_template_name) {
            None => Err(IpxeOsErrorView::TemplateNotFound(os.ipxe_template_name)),
            Some(template) => match reserved_check(given, template) {
                Err(e) => Err(e),
                Ok(_) => rendering(os, template, given, with_artifacts),
            },
        },
    }
}

/// A copy of the parameters of a slice.
fn parameters_of(parameters: &[IpxeOsParameter]) -> (r: Vec<IpxeOsParameter>)
    ensures
        r.deep_view() == parameters.deep_view(),
{
    let n: usize = parameters.len();
    let mut out: Vec<IpxeOsParameter> = Vec::new();
    let mut i: usize = 0;
    while i < n
        invariant
            n == parameters@.len(),
            i <= n,
            out@.len() == i,
            forall|j: int| 0 <= j < i ==> out@[j]@ == parameters@[j]@,
        decreases n - i,
    {
        out.push(
            IpxeOsParameter {
                name: parameters[i].name.clone(),
                value: parameters[i].value.clone(),
            },
        );
        i = i + 1;
    }
    proof {
        assert(out.deep_view() =~= parameters.deep_view());
    }
    out
}

impl DefaultIpxeOsRenderer {
    /// A renderer with the templates of `templates`, each under its key.
    pub fn with_templates(templates: TextMap<IpxeScriptTemplate>) -> (r: Self)
        ensures
            r@ == templates@,
    {
        DefaultIpxeOsRenderer { templates }
    }

    /// Checks a definition, with `computed_hash` taken as its hash.
    pub fn validate_with_hash(&self, ipxeos: &IpxeOs, computed_hash: String) -> (r: Result<
        (),
        IpxeOsError,
    >)
        ensures
            check_view(r) == validation(self@, ipxeos@, computed_hash@),
    {
        match self.templates.get(ipxeos.ipxe_template_name.as_str()) {
            None => Err(IpxeOsError::TemplateNotFound(ipxeos.ipxe_template_name.clone())),
            Some(template) => check_definition(ipxeos, template, computed_hash),
        }
    }

    /// Renders a definition, with `computed_hash` taken as its hash. With
    /// `with_artifacts`, the required artifacts give their addresses to the
    /// placeholders of their names.
    pub fn render_with_hash(
        &self,
        ipxeos: &IpxeOs,
        reserved_params: &[IpxeOsParameter],
        with_artifacts: bool,
        computed_hash: String,
    ) -> (r: Result<String, IpxeOsError>)
        ensures
            render_view(r) == checked_rendering(
                self@,
                ipxeos@,
                reserved_params.deep_view(),
                with_artifacts,
                computed_hash@,
            ),
    {
        match self.validate_with_hash(ipxeos, computed_hash) {
            Err(e) => {
                return Err(e);
            },
            Ok(_) => {},
        }
        let template = match self.templates.get(ipxeos.ipxe_template_name.as_str()) {
            None => {
                return Err(IpxeOsError::TemplateNotFound(ipxeos.ipxe_template_name.clone()));
            },
            Some(template) => template,
        };
        let given = parameters_of(reserved_params);
        match check_reserved(&given, template) {
            Err(e) => {
                return Err(e);
            },
            Ok(_) => {},
        }
        render_script(ipxeos, template, &given, with_artifacts)
    }
}

impl IpxeOsRenderer for DefaultIpxeOsRenderer {
    fn render(&self, ipxeos: &IpxeOs, reserved_params: &[IpxeOsParameter]) -> (r: Result<
        String,
        IpxeOsError,
    >)
        ensures
            render_view(r) == checked_rendering(
                self@,
                ipxeos@,
                reserved_params.deep_view(),
                false,
                definition_hash(ipxeos@),
            ),
    {
        let computed = definition_hash_of(ipxeos);
        self.render_with_hash(ipxeos, reserved_params, false, computed)
    }

    fn render_with_artifact_substitution(
        &self,
        ipxeos: &IpxeOs,
        reserved_params: &[IpxeOsParameter],
    ) -> (r: Result<String, IpxeOsError>)
        ensures
            render_view(r) == checked_rendering(
                self@,
                ipxeos@,
                reserved_params.deep_view(),
                true,
                definition_hash(ipxeos@),
            ),
    {
        let computed = definition_hash_of(ipxeos);
        self.render_with_hash(ipxeos, reserved_params, true, computed)
    }

    fn get_template(&self, name: &str) -> (r: Option<&IpxeScriptTemplate>)
        ensures
            r.deep_view() == value_of(self@, name@),
    {
        self.templates.get(name)
    }

    fn list_templates(&self) -> (r: Vec<String>)
        ensures
            r.deep_view() == Seq::new(self@.len(), |i: int| self@[i].0),
    {
        let n: usize = self.templates.len();
        let mut out: Vec<String> = Vec::new();
        let mut i: usize = 0;
        while i < n
            invariant
                n == self.templates@.len(),
                i <= n,
                out@.len() == i,
                forall|j: int| 0 <= j < i ==> out@[j]@ == self.templates@[j].0,
            decreases n - i,
        {
            out.push(self.templates.key_at(i).to_owned());
            i = i + 1;
        }
        proof {
            assert(out.deep_view() =~= Seq::new(self@.len(), |i: int| self@[i].0));
        }
        out
    }

    fn validate(&self, ipxeos: &IpxeOs) -> (r: Result<(), IpxeOsError>)
        ensures
            check_view(r) == validation(self@, ipxeos@, definition_hash(ipxeos@)),
    {
        let computed = definition_hash_of(ipxeos);
        self.validate_with_hash(ipxeos, computed)
    }

    fn hash(&self, ipxeos: &IpxeOs) -> (r: String)
        ensures
            r@ == definition_hash(ipxeos@),
    {
        definition_hash_of(ipxeos)
    }

    fn fabricate_local_urls(&self, ipxeos: &IpxeOs) -> (r: IpxeOs)
        ensures
            r@ == with_local_urls(ipxeos@),
    {
        with_local_urls_of(ipxeos)
    }
}

impl IpxeOsError {
    /// The text of this error.
    pub fn message(&self) -> (r: String)
        ensures
            r@ == match self@ {
                IpxeOsErrorView::TemplateNotFound(s) => "Template not found: "@ + s,
                IpxeOsErrorView::ReservedParameterFound(s) => "Reserved parameter found in OS definition: "@
                    + s,
                IpxeOsErrorView::RequiredParameterMissing(s) => "Required parameter missing or empty: "@
                    + s,
                IpxeOsErrorView::ExtraParametersNotSupported => "Optional parameters provided but {{extra}} not in template"@,
                IpxeOsErrorView::HashMismatch { expected, actual } => "Hash mismatch: expected "@
                    + expected + ", got "@ + actual,
                IpxeOsErrorView::ArtifactNotFound(s) => "Artifact not found: "@ + s,
                IpxeOsErrorView::MissingReservedParameter(s) => "Missing reserved parameter: "@ + s,
                IpxeOsErrorView::UnexpectedReservedParameter(s) => "Unexpected reserved parameter: "@
                    + s,
                IpxeOsErrorView::UnreplacedPlaceholders(s) => "Unreplaced placeholders found: "@
                    + s,
            },
    {
        match self {
            IpxeOsError::TemplateNotFound(s) => concat("Template not found: ", s.as_str()),
            IpxeOsError::ReservedParameterFound(s) => concat(
                "Reserved parameter found in OS definition: ",
                s.as_str(),
            ),
            IpxeOsError::RequiredParameterMissing(s) => concat(
                "Required parameter missing or empty: ",
                s.as_str(),
            ),
            IpxeOsError::ExtraParametersNotSupported => "Optional parameters provided but {{extra}} not in template".to_owned(),
            IpxeOsError::HashMismatch { expected, actual } => {
                let a = concat("Hash mismatch: expected ", expected.as_str());
                let b = concat(a.as_str(), ", got ");
                concat(b.as_str(), actual.as_str())
            },
            IpxeOsError::ArtifactNotFound(s) => concat("Artifact not found: ", s.as_str()),
            IpxeOsError::MissingReservedParameter(s) => concat(
                "Missing reserved parameter: ",
                s.as_str(),
            ),
            IpxeOsError::UnexpectedReservedParameter(s) => concat(
                "Unexpected reserved parameter: ",
                s.as_str(),
            ),
            IpxeOsError::UnreplacedPlaceholders(s) => concat(
                "Unreplaced placeholders found: ",
                s.as_str(),
            ),
        }
    }
}

} // verus!
