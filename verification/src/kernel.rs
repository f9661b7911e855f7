//! Kernels: which there are, which one a notebook asks for, and what state one is in.

use std::collections::HashMap;
use vstd::prelude::*;

use crate::json::{
    additional_member, integer_of, json_contents, json_from_value, member_text, text_member,
    JsonView,
};
use crate::message::{is_refusal, sent_request, ReplyStatus, RequestChannel, SentRequest};
use crate::notebook::{
    mode_json, KernelspecMetadata, KernelspecMetadataView, NotebookLanguage, NotebookLanguageView,
};
use crate::text::{
    copy_option, copy_strings, first_position, lowercase, opt_text, position_of, texts,
    to_lowercase,
};

verus! {

/// How a kernel is started and what it is called.
pub struct JupyterKernelspec {
    pub argv: Vec<String>,
    pub display_name: String,
    pub language: String,
    pub interrupt_mode: Option<String>,
    pub metadata: Option<HashMap<String, serde_json::Value>>,
    pub env: Option<HashMap<String, String>>,
}

/// What a [`JupyterKernelspec`] stands for.
#[verifier::ext_equal]
pub struct JupyterKernelspecView {
    pub argv: Seq<Seq<char>>,
    pub display_name: Seq<char>,
    pub language: Seq<char>,
    pub interrupt_mode: Option<Seq<char>>,
    pub metadata: Option<Map<String, serde_json::Value>>,
    pub env: Option<Map<String, String>>,
}

impl View for JupyterKernelspec {
    type V = JupyterKernelspecView;

    open spec fn view(&self) -> JupyterKernelspecView {
        JupyterKernelspecView {
            argv: texts(self.argv@),
            display_name: self.display_name@,
            language: self.language@,
            interrupt_mode: opt_text(self.interrupt_mode),
            metadata: match self.metadata {
                Some(metadata) => Some(metadata@),
                None => None,
            },
            env: match self.env {
                Some(env) => Some(env@),
                None => None,
            },
        }
    }
}

impl JupyterKernelspec {
    /// A copy.
    pub fn copy(&self) -> (copy: JupyterKernelspec)
        ensures
            copy@ == self@,
    {
        let metadata = match &self.metadata {
            Some(metadata) => Some(metadata.clone()),
            None => None,
        };
        let env = match &self.env {
            Some(env) => Some(env.clone()),
            None => None,
        };
        JupyterKernelspec {
            argv: copy_strings(&self.argv),
            display_name: self.display_name.clone(),
            language: self.language.clone(),
            interrupt_mode: copy_option(&self.interrupt_mode),
            metadata,
            env,
        }
    }
}

/// A kernel on this machine.
pub struct LocalKernelSpecification {
    pub name: String,
    pub path: String,
    pub kernelspec: JupyterKernelspec,
}

/// A kernel on a server.
pub struct RemoteKernelSpecification {
    pub name: String,
    pub url: String,
    pub token: String,
    pub kernelspec: JupyterKernelspec,
}

/// A kernel that can be started.
pub enum KernelSpecification {
    Jupyter(LocalKernelSpecification),
    PythonEnv(LocalKernelSpecification),
    Remote(RemoteKernelSpecification),
}

/// What a [`KernelSpecification`] stands for.
#[verifier::ext_equal]
pub enum KernelSpecificationView {
    Jupyter { name: Seq<char>, path: Seq<char>, kernelspec: JupyterKernelspecView },
    PythonEnv { name: Seq<char>, path: Seq<char>, kernelspec: JupyterKernelspecView },
    Remote {
        name: Seq<char>,
        url: Seq<char>,
        token: Seq<char>,
        kernelspec: JupyterKernelspecView,
    },
}

impl KernelSpecificationView {
    /// What the kernel is called.
    pub open spec fn kernel_name(self) -> Seq<char> {
        match self {
            KernelSpecificationView::Jupyter { name, .. } => name,
            KernelSpecificationView::PythonEnv { name, .. } => name,
            KernelSpecificationView::Remote { name, .. } => name,
        }
    }

    /// How it is started and described.
    pub open spec fn spec_file(self) -> JupyterKernelspecView {
        match self {
            KernelSpecificationView::Jupyter { kernelspec, .. } => kernelspec,
            KernelSpecificationView::PythonEnv { kernelspec, .. } => kernelspec,
            KernelSpecificationView::Remote { kernelspec, .. } => kernelspec,
        }
    }
}

impl View for KernelSpecification {
    type V = KernelSpecificationView;

    open spec fn view(&self) -> KernelSpecificationView {
        match self {
            KernelSpecification::Jupyter(local) => KernelSpecificationView::Jupyter {
                name: local.name@,
                path: local.path@,
                kernelspec: local.kernelspec@,
            },
            KernelSpecification::PythonEnv(local) => KernelSpecificationView::PythonEnv {
                name: local.name@,
                path: local.path@,
                kernelspec: local.kernelspec@,
            },
            KernelSpecification::Remote(remote) => KernelSpecificationView::Remote {
                name: remote.name@,
                url: remote.url@,
                token: remote.token@,
                kernelspec: remote.kernelspec@,
            },
        }
    }
}

impl LocalKernelSpecification {
    fn copy(&self) -> (copy: LocalKernelSpecification)
        ensures
            copy.name@ == self.name@,
            copy.path@ == self.path@,
            copy.kernelspec@ == self.kernelspec@,
    {
        LocalKernelSpecification {
            name: self.name.clone(),
            path: self.path.clone(),
            kernelspec: self.kernelspec.copy(),
        }
    }
}

impl KernelSpecification {
    /// A copy.
    pub fn copy(&self) -> (copy: KernelSpecification)
        ensures
            copy@ == self@,
    {
        match self {
            KernelSpecification::Jupyter(local) => KernelSpecification::Jupyter(local.copy()),
            KernelSpecification::PythonEnv(local) => KernelSpecification::PythonEnv(local.copy()),
            KernelSpecification::Remote(remote) => KernelSpecification::Remote(
                RemoteKernelSpecification {
                    name: remote.name.clone(),
                    url: remote.url.clone(),
                    token: remote.token.clone(),
                    kernelspec: remote.kernelspec.copy(),
                },
            ),
        }
    }

    /// What the kernel is called.
    pub fn name(&self) -> (name: &String)
        ensures
            name@ == self@.kernel_name(),
    {
        match self {
            KernelSpecification::Jupyter(local) => &local.name,
            KernelSpecification::PythonEnv(local) => &local.name,
            KernelSpecification::Remote(remote) => &remote.name,
        }
    }

    /// The language that it runs.
    pub fn language(&self) -> (language: &String)
        ensures
            language@ == self@.spec_file().language,
    {
        match self {
            KernelSpecification::Jupyter(local) => &local.kernelspec.language,
            KernelSpecification::PythonEnv(local) => &local.kernelspec.language,
            KernelSpecification::Remote(remote) => &remote.kernelspec.language,
        }
    }

    /// What it is called in front of people.
    pub fn display_name(&self) -> (display_name: &String)
        ensures
            display_name@ == self@.spec_file().display_name,
    {
        match self {
            KernelSpecification::Jupyter(local) => &local.kernelspec.display_name,
            KernelSpecification::PythonEnv(local) => &local.kernelspec.display_name,
            KernelSpecification::Remote(remote) => &remote.kernelspec.display_name,
        }
    }

    /// Whether it runs as a process on this machine.
    pub fn is_native(&self) -> (native: bool)
        ensures
            native == !(self@ is Remote),
    {
        match self {
            KernelSpecification::Remote(_) => false,
            _ => true,
        }
    }
}

/// The kernel to fall back on: Python 3 with `ipykernel`.
pub open spec fn default_python() -> KernelSpecificationView {
    KernelSpecificationView::Jupyter {
        name: "python3"@,
        path: "python3"@,
        kernelspec: JupyterKernelspecView {
            argv: seq![
                "python3"@,
                "-m"@,
                "ipykernel_launcher"@,
                "-f"@,
                "{connection_file}"@,
            ],
            display_name: "Python 3"@,
            language: "python"@,
            interrupt_mode: None,
            metadata: None,
            env: None,
        },
    }
}

/// The kernel to fall back on: Python 3 with `ipykernel`.
pub fn default_python_kernel_specification() -> (specification: KernelSpecification)
    ensures
        specification@ == default_python(),
{
    let mut argv: Vec<String> = Vec::new();
    argv.push("python3".to_string());
    argv.push("-m".to_string());
    argv.push("ipykernel_launcher".to_string());
    argv.push("-f".to_string());
    argv.push("{connection_file}".to_string());
    assert(texts(argv@) =~= seq![
        "python3"@,
        "-m"@,
        "ipykernel_launcher"@,
        "-f"@,
        "{connection_file}"@,
    ]);
    KernelSpecification::Jupyter(
        LocalKernelSpecification {
            name: "python3".to_string(),
            path: "python3".to_string(),
            kernelspec: JupyterKernelspec {
                argv,
                display_name: "Python 3".to_string(),
                language: "python".to_string(),
                interrupt_mode: None,
                metadata: None,
                env: None,
            },
        },
    )
}

/// What the JSON form of kernel metadata has in the field `key`.
pub open spec fn kernelspec_field(metadata: KernelspecMetadataView, key: Seq<char>) -> Option<
    JsonView,
> {
    if key == "name"@ {
        Some(JsonView::String(metadata.name))
    } else if key == "language"@ {
        Some(
            match metadata.language {
                Some(language) => JsonView::String(language),
                None => JsonView::Null,
            },
        )
    } else if key == "display_name"@ {
        Some(JsonView::String(metadata.display_name))
    } else {
        None
    }
}

/// What the JSON form of kernel metadata has under `key`. An additional member takes precedence
/// over a field.
pub open spec fn kernelspec_member(metadata: KernelspecMetadataView, key: Seq<char>) -> Option<
    JsonView,
> {
    match additional_member(metadata.additional, key) {
        Some(json) => Some(json),
        None => kernelspec_field(metadata, key),
    }
}

/// The JSON form of kernel metadata.
pub open spec fn kernelspec_json(metadata: KernelspecMetadataView) -> JsonView {
    JsonView::Object(
        Map::new(
            |key: Seq<char>| kernelspec_member(metadata, key) is Some,
            |key: Seq<char>| kernelspec_member(metadata, key)->0,
        ),
    )
}

/// Calls `serde_json::to_value` on an `nbformat::v4::KernelSpec`. It makes an object of it: the
/// fields come out as members of their names, the additional members on top of them.
#[verifier::external_body]
pub(crate) fn kernelspec_into_value(metadata: &KernelspecMetadata) -> (value: serde_json::Value)
    ensures
        json_contents(value) == kernelspec_json(metadata@),
{
    let spec = nbformat::v4::KernelSpec {
        display_name: metadata.display_name.clone(),
        name: metadata.name.clone(),
        language: metadata.language.clone(),
        additional: metadata.additional.clone(),
    };
    serde_json::to_value(spec).unwrap_or_default()
}

/// The kernel metadata that a notebook gets from a kernel with the given names.
pub open spec fn kernelspec_of(
    display_name: Seq<char>,
    name: Seq<char>,
    language: Seq<char>,
) -> KernelspecMetadataView {
    KernelspecMetadataView {
        display_name,
        name,
        language: Some(language),
        additional: Map::empty(),
    }
}

/// Calls `serde_json::from_value` for an `nbformat::v4::KernelSpec` on an object with the members
/// `display_name`, `name` and `language`. The three texts are all that the type asks for, and they
/// come out in the fields of their names.
#[verifier::external_body]
pub(crate) fn kernelspec_from_json(
    display_name: &str,
    name: &str,
    language: &str,
) -> (result: Option<KernelspecMetadata>)
    ensures
        result is Some,
        result->0@ == kernelspec_of(display_name@, name@, language@),
{
    let members = [("display_name", display_name), ("name", name), ("language", language)];
    let value: serde_json::Value = members.into_iter().collect();
    let spec: nbformat::v4::KernelSpec = serde_json::from_value(value).ok()?;
    Some(KernelspecMetadata {
        display_name: spec.display_name,
        name: spec.name,
        language: spec.language,
        additional: spec.additional,
    })
}

/// Which position `picked` a search for a kernel comes to. The first kernel of the preferred name
/// goes before the first of the preferred language.
pub open spec fn is_pick(
    names: Seq<Seq<char>>,
    languages: Seq<Seq<char>>,
    name: Option<Seq<char>>,
    language: Option<Seq<char>>,
    picked: Option<int>,
) -> bool {
    if name is Some && names.contains(name->0) {
        picked is Some && first_position(names, name->0, picked->0)
    } else if language is Some && languages.contains(language->0) {
        picked is Some && first_position(languages, language->0, picked->0)
    } else {
        picked is None
    }
}

/// A position as a number without bounds.
pub open spec fn opt_int(position: Option<usize>) -> Option<int> {
    match position {
        Some(position) => Some(position as int),
        None => None,
    }
}

/// Searches for a kernel by name and then by language, given what the kernels are called and which
/// languages they run.
pub fn pick_specification(
    names: &Vec<String>,
    languages: &Vec<String>,
    name: &Option<String>,
    language: &Option<String>,
) -> (picked: Option<usize>)
    ensures
        is_pick(
            texts(names@),
            texts(languages@),
            opt_text(*name),
            opt_text(*language),
            opt_int(picked),
        ),
{
    if let Some(name) = name {
        if let Some(i) = position_of(names, name) {
            assert(texts(names@)[i as int] == name@);
            return Some(i);
        }
    }
    if let Some(language) = language {
        if let Some(i) = position_of(languages, language) {
            assert(texts(languages@)[i as int] == language@);
            return Some(i);
        }
    }
    None
}

/// What each of the kernels stands for.
pub open spec fn specification_views(available: Seq<KernelSpecification>) -> Seq<
    KernelSpecificationView,
> {
    available.map_values(|specification: KernelSpecification| specification@)
}

/// What the kernels are called, in lower case.
pub open spec fn lower_names(available: Seq<KernelSpecificationView>) -> Seq<Seq<char>> {
    available.map_values(
        |specification: KernelSpecificationView| lowercase(specification.kernel_name()),
    )
}

/// Which languages the kernels run, in lower case.
pub open spec fn lower_languages(available: Seq<KernelSpecificationView>) -> Seq<Seq<char>> {
    available.map_values(
        |specification: KernelSpecificationView| lowercase(specification.spec_file().language),
    )
}

/// An optional text in lower case.
pub open spec fn opt_lowercase(text: Option<Seq<char>>) -> Option<Seq<char>> {
    match text {
        Some(text) => Some(lowercase(text)),
        None => None,
    }
}

/// The name of the kernel that the metadata of a notebook ask for, in lower case.
pub open spec fn preferred_name(metadata: Option<KernelspecMetadataView>) -> Option<Seq<char>> {
    match metadata {
        Some(metadata) => opt_lowercase(member_text(kernelspec_json(metadata), "name"@)),
        None => None,
    }
}

/// The language of the kernel that the metadata of a notebook ask for, in lower case.
pub open spec fn preferred_language(metadata: Option<KernelspecMetadataView>) -> Option<
    Seq<char>,
> {
    match metadata {
        Some(metadata) => opt_lowercase(member_text(kernelspec_json(metadata), "language"@)),
        None => None,
    }
}

/// `resolved` is the kernel that the metadata of a notebook ask for: the first of `available` that
/// has their name, or else the first that runs their language, whatever the case of the letters.
pub open spec fn is_resolved(
    metadata: Option<KernelspecMetadataView>,
    available: Seq<KernelSpecificationView>,
    resolved: Option<KernelSpecificationView>,
) -> bool {
    exists|picked: Option<int>|
        #[trigger] is_pick(
            lower_names(available),
            lower_languages(available),
            preferred_name(metadata),
            preferred_language(metadata),
            picked,
        ) && resolved == match picked {
            Some(i) => Some(available[i]),
            None => None,
        }
}

/// A text in lower case, where there is one.
fn lowered(text: &Option<String>) -> (lower: Option<String>)
    ensures
        opt_text(lower) == opt_lowercase(opt_text(*text)),
{
    match text {
        Some(text) => Some(to_lowercase(text.as_str())),
        None => None,
    }
}

/// Searches `available` for the kernel that the metadata of a notebook ask for.
pub fn resolve_specification(
    metadata: &Option<KernelspecMetadata>,
    available: &Vec<KernelSpecification>,
) -> (resolved: Option<KernelSpecification>)
    ensures
        is_resolved(
            match *metadata {
                Some(metadata) => Some(metadata@),
                None => None,
            },
            specification_views(available@),
            match resolved {
                Some(specification) => Some(specification@),
                None => None,
            },
        ),
{
    let (name, language) = match metadata {
        Some(metadata) => {
            let json = json_from_value(kernelspec_into_value(metadata));
            (text_member(&json, "name"), text_member(&json, "language"))
        },
        None => (None, None),
    };
    let name = lowered(&name);
    let language = lowered(&language);
    let mut names: Vec<String> = Vec::new();
    let mut languages: Vec<String> = Vec::new();
    let ghost views = specification_views(available@);
    let mut i: usize = 0;
    while i < available.len()
        invariant
            0 <= i <= available@.len(),
            views == specification_views(available@),
            names@.len() == i,
            languages@.len() == i,
            forall|j: int| 0 <= j < i ==> (#[trigger] names@[j])@ == lower_names(views)[j],
            forall|j: int| 0 <= j < i ==> (#[trigger] languages@[j])@ == lower_languages(views)[j],
        decreases available@.len() - i,
    {
        names.push(to_lowercase(available[i].name().as_str()));
        languages.push(to_lowercase(available[i].language().as_str()));
        i += 1;
    }
    assert(texts(names@) =~= lower_names(views));
    assert(texts(languages@) =~= lower_languages(views));
    let picked = pick_specification(&names, &languages, &name, &language);
    assert(is_pick(
        lower_names(views),
        lower_languages(views),
        opt_text(name),
        opt_text(language),
        opt_int(picked),
    ));
    match picked {
        Some(i) => {
            assert(views[i as int] == available@[i as int]@);
            Some(available[i].copy())
        },
        None => None,
    }
}

/// How a kernel tells the mode of the web editor for its language.
pub enum KernelEditorMode {
    Simple(String),
    Custom { name: String, version: usize },
}

/// What a kernel tells about its language.
pub struct KernelLanguage {
    pub name: String,
    pub version: String,
    pub mimetype: Option<String>,
    pub file_extension: Option<String>,
    pub pygments_lexer: Option<String>,
    pub codemirror_mode: Option<KernelEditorMode>,
    pub nbconvert_exporter: Option<String>,
}

/// What a [`KernelEditorMode`] stands for.
#[verifier::ext_equal]
pub enum KernelEditorModeView {
    Simple(Seq<char>),
    Custom { name: Seq<char>, version: usize },
}

/// What a [`KernelLanguage`] stands for.
#[verifier::ext_equal]
pub struct KernelLanguageView {
    pub name: Seq<char>,
    pub version: Seq<char>,
    pub mimetype: Option<Seq<char>>,
    pub file_extension: Option<Seq<char>>,
    pub pygments_lexer: Option<Seq<char>>,
    pub codemirror_mode: Option<KernelEditorModeView>,
    pub nbconvert_exporter: Option<Seq<char>>,
}

impl View for KernelLanguage {
    type V = KernelLanguageView;

    open spec fn view(&self) -> KernelLanguageView {
        KernelLanguageView {
            name: self.name@,
            version: self.version@,
            mimetype: opt_text(self.mimetype),
            file_extension: opt_text(self.file_extension),
            pygments_lexer: opt_text(self.pygments_lexer),
            codemirror_mode: match self.codemirror_mode {
                Some(KernelEditorMode::Simple(mode)) => Some(KernelEditorModeView::Simple(mode@)),
                Some(KernelEditorMode::Custom { name, version }) => Some(
                    KernelEditorModeView::Custom { name: name@, version },
                ),
                None => None,
            },
            nbconvert_exporter: opt_text(self.nbconvert_exporter),
        }
    }
}

impl KernelLanguage {
    /// A copy.
    pub fn copy(&self) -> (copy: KernelLanguage)
        ensures
            copy@ == self@,
    {
        let codemirror_mode = match &self.codemirror_mode {
            Some(KernelEditorMode::Simple(mode)) => Some(KernelEditorMode::Simple(mode.clone())),
            Some(KernelEditorMode::Custom { name, version }) => Some(
                KernelEditorMode::Custom { name: name.clone(), version: *version },
            ),
            None => None,
        };
        KernelLanguage {
            name: self.name.clone(),
            version: self.version.clone(),
            mimetype: copy_option(&self.mimetype),
            file_extension: copy_option(&self.file_extension),
            pygments_lexer: copy_option(&self.pygments_lexer),
            codemirror_mode,
            nbconvert_exporter: copy_option(&self.nbconvert_exporter),
        }
    }
}

/// Where the user finds help about a kernel.
pub struct HelpLink {
    pub text: String,
    pub url: String,
}

/// What a [`HelpLink`] stands for.
#[verifier::ext_equal]
pub struct HelpLinkView {
    pub text: Seq<char>,
    pub url: Seq<char>,
}

impl View for HelpLink {
    type V = HelpLinkView;

    open spec fn view(&self) -> HelpLinkView {
        HelpLinkView { text: self.text@, url: self.url@ }
    }
}

/// What each of `links` stands for.
pub open spec fn link_views(links: Seq<HelpLink>) -> Seq<HelpLinkView> {
    links.map_values(|link: HelpLink| link@)
}

/// A copy of `links`.
fn copy_links(links: &Vec<HelpLink>) -> (copy: Vec<HelpLink>)
    ensures
        link_views(copy@) == link_views(links@),
{
    let mut copy: Vec<HelpLink> = Vec::new();
    let mut i: usize = 0;
    while i < links.len()
        invariant
            0 <= i <= links@.len(),
            copy@.len() == i,
            forall|j: int| 0 <= j < i ==> (#[trigger] copy@[j])@ == links@[j]@,
        decreases links@.len() - i,
    {
        copy.push(HelpLink { text: links[i].text.clone(), url: links[i].url.clone() });
        i += 1;
    }
    assert(link_views(copy@) =~= link_views(links@));
    copy
}

/// What went wrong in a kernel.
pub struct ReplyError {
    pub ename: String,
    pub evalue: String,
    pub traceback: Vec<String>,
}

/// What a [`ReplyError`] stands for.
#[verifier::ext_equal]
pub struct ReplyErrorView {
    pub ename: Seq<char>,
    pub evalue: Seq<char>,
    pub traceback: Seq<Seq<char>>,
}

impl View for ReplyError {
    type V = ReplyErrorView;

    open spec fn view(&self) -> ReplyErrorView {
        ReplyErrorView {
            ename: self.ename@,
            evalue: self.evalue@,
            traceback: texts(self.traceback@),
        }
    }
}

/// What a kernel tells about itself.
pub struct KernelInfo {
    pub status: ReplyStatus,
    pub protocol_version: String,
    pub implementation: String,
    pub implementation_version: String,
    pub language_info: KernelLanguage,
    pub banner: String,
    pub help_links: Vec<HelpLink>,
    pub debugger: bool,
    pub error: Option<ReplyError>,
}

/// What a [`KernelInfo`] stands for.
#[verifier::ext_equal]
pub struct KernelInfoView {
    pub status: ReplyStatus,
    pub protocol_version: Seq<char>,
    pub implementation: Seq<char>,
    pub implementation_version: Seq<char>,
    pub language_info: KernelLanguageView,
    pub banner: Seq<char>,
    pub help_links: Seq<HelpLinkView>,
    pub debugger: bool,
    pub error: Option<ReplyErrorView>,
}

impl View for KernelInfo {
    type V = KernelInfoView;

    open spec fn view(&self) -> KernelInfoView {
        KernelInfoView {
            status: self.status,
            protocol_version: self.protocol_version@,
            implementation: self.implementation@,
            implementation_version: self.implementation_version@,
            language_info: self.language_info@,
            banner: self.banner@,
            help_links: link_views(self.help_links@),
            debugger: self.debugger,
            error: match self.error {
                Some(error) => Some(error@),
                None => None,
            },
        }
    }
}

impl KernelInfo {
    /// A copy.
    pub fn copy(&self) -> (copy: KernelInfo)
        ensures
            copy@ == self@,
    {
        let error = match &self.error {
            Some(error) => Some(
                ReplyError {
                    ename: error.ename.clone(),
                    evalue: error.evalue.clone(),
                    traceback: copy_strings(&error.traceback),
                },
            ),
            None => None,
        };
        KernelInfo {
            status: self.status,
            protocol_version: self.protocol_version.clone(),
            implementation: self.implementation.clone(),
            implementation_version: self.implementation_version.clone(),
            language_info: self.language_info.copy(),
            banner: self.banner.clone(),
            help_links: copy_links(&self.help_links),
            debugger: self.debugger,
            error,
        }
    }
}

/// What the notebook form of what a kernel tells about its language has under `key`, beside the
/// name, the version and the mode of the web editor.
pub open spec fn language_member(language: KernelLanguageView, key: Seq<char>) -> Option<
    JsonView,
> {
    let text = if key == "mimetype"@ {
        language.mimetype
    } else if key == "file_extension"@ {
        language.file_extension
    } else if key == "pygments_lexer"@ {
        language.pygments_lexer
    } else if key == "nbconvert_exporter"@ {
        language.nbconvert_exporter
    } else {
        None
    };
    match text {
        Some(text) => Some(JsonView::String(text)),
        None => None,
    }
}

/// `json` is the JSON form of the mode of the web editor, apart from which number the version is.
pub open spec fn is_mode_json(mode: KernelEditorModeView, json: JsonView) -> bool {
    match mode {
        KernelEditorModeView::Simple(text) => json == JsonView::String(text),
        KernelEditorModeView::Custom { name, .. } => {
            &&& json is Object
            &&& json->Object_0.dom() == set!["name"@, "version"@]
            &&& json->Object_0["name"@] == JsonView::String(name)
            &&& json->Object_0["version"@] is Number
        },
    }
}

/// The notebook form of what a kernel tells about its language.
pub uninterp spec fn notebook_language_of(language: KernelLanguageView) -> NotebookLanguageView;

/// Calls `serde_json::to_value` on a `jupyter_protocol::LanguageInfo`, and `serde_json::from_value`
/// for an `nbformat::v4::LanguageInfo` on what comes out. Nothing in the first type keeps the
/// second from being read. The name and the version are kept, the other texts become additional
/// members, and the mode of the web editor keeps its JSON form; what value that form is read as is
/// taken to depend on the language alone.
#[verifier::external_body]
pub(crate) fn notebook_language_from_kernel(language: KernelLanguage) -> (result: Option<
    NotebookLanguage,
>)
    ensures
        result is Some,
        result->0@ == notebook_language_of(language@),
        result->0@.name == language@.name,
        result->0@.version == Some(language@.version),
        forall|key: Seq<char>| #[trigger]
            additional_member(result->0@.additional, key) == language_member(language@, key),
        language@.codemirror_mode is None ==> result->0@.codemirror_mode is None,
        language@.codemirror_mode is Some ==> result->0@.codemirror_mode is Some && is_mode_json(
            language@.codemirror_mode->0,
            mode_json(result->0@.codemirror_mode->0),
        ),
        language@.codemirror_mode matches Some(KernelEditorModeView::Custom { version, .. })
            ==> integer_of(
            mode_json(result->0@.codemirror_mode->0)->Object_0["version"@]->Number_0,
        ) == Some(version as int),
{
    let KernelLanguage { name, version, mimetype, file_extension, pygments_lexer, codemirror_mode, nbconvert_exporter } = language;
    let codemirror_mode = codemirror_mode.map(|mode| match mode {
        KernelEditorMode::Simple(mode) => jupyter_protocol::CodeMirrorMode::Simple(mode),
        KernelEditorMode::Custom { name, version } => jupyter_protocol::CodeMirrorMode::CustomMode { name, version },
    });
    let info = jupyter_protocol::LanguageInfo {
        name, version, mimetype, file_extension, pygments_lexer, codemirror_mode, nbconvert_exporter,
    };
    let value = serde_json::to_value(&info).unwrap_or_default();
    let info: nbformat::v4::LanguageInfo = serde_json::from_value(value).ok()?;
    let nbformat::v4::LanguageInfo { name, version, codemirror_mode, additional } = info;
    Some(NotebookLanguage { name, version, codemirror_mode, additional })
}

/// What a kernel is doing, in its own words.
pub enum ExecutionState {
    Unknown,
    Starting,
    Busy,
    Idle,
    Restarting,
    Terminating,
    AutoRestarting,
    Dead,
    Other(String),
}

/// What an [`ExecutionState`] stands for.
#[verifier::ext_equal]
pub enum ExecutionStateView {
    Unknown,
    Starting,
    Busy,
    Idle,
    Restarting,
    Terminating,
    AutoRestarting,
    Dead,
    Other(Seq<char>),
}

impl View for ExecutionState {
    type V = ExecutionStateView;

    open spec fn view(&self) -> ExecutionStateView {
        match self {
            ExecutionState::Unknown => ExecutionStateView::Unknown,
            ExecutionState::Starting => ExecutionStateView::Starting,
            ExecutionState::Busy => ExecutionStateView::Busy,
            ExecutionState::Idle => ExecutionStateView::Idle,
            ExecutionState::Restarting => ExecutionStateView::Restarting,
            ExecutionState::Terminating => ExecutionStateView::Terminating,
            ExecutionState::AutoRestarting => ExecutionStateView::AutoRestarting,
            ExecutionState::Dead => ExecutionStateView::Dead,
            ExecutionState::Other(state) => ExecutionStateView::Other(state@),
        }
    }
}

impl ExecutionState {
    /// A copy.
    pub fn copy(&self) -> (copy: ExecutionState)
        ensures
            copy@ == self@,
    {
        match self {
            ExecutionState::Unknown => ExecutionState::Unknown,
            ExecutionState::Starting => ExecutionState::Starting,
            ExecutionState::Busy => ExecutionState::Busy,
            ExecutionState::Idle => ExecutionState::Idle,
            ExecutionState::Restarting => ExecutionState::Restarting,
            ExecutionState::Terminating => ExecutionState::Terminating,
            ExecutionState::AutoRestarting => ExecutionState::AutoRestarting,
            ExecutionState::Dead => ExecutionState::Dead,
            ExecutionState::Other(state) => ExecutionState::Other(state.clone()),
        }
    }
}

/// What the user is told about a kernel.
#[derive(Clone, Copy, PartialEq, Eq, Structural, Debug)]
pub enum KernelStatus {
    Idle,
    Busy,
    Starting,
    Error,
    ShuttingDown,
    Shutdown,
    Restarting,
}

/// A kernel that takes requests.
pub struct RunningKernel {
    pub execution_state: ExecutionState,
    /// What it has told about itself.
    pub kernel_info: Option<KernelInfo>,
    pub channel: RequestChannel,
}

/// What a [`RunningKernel`] stands for.
#[verifier::ext_equal]
pub struct RunningKernelView {
    pub execution_state: ExecutionStateView,
    pub kernel_info: Option<KernelInfoView>,
    /// The requests that it was sent.
    pub sent: Seq<SentRequest>,
    /// The requests that its channel did not take.
    pub refused: Seq<SentRequest>,
}

impl View for RunningKernel {
    type V = RunningKernelView;

    open spec fn view(&self) -> RunningKernelView {
        RunningKernelView {
            execution_state: self.execution_state@,
            kernel_info: match self.kernel_info {
                Some(info) => Some(info@),
                None => None,
            },
            sent: self.channel.log(),
            refused: self.channel.refused(),
        }
    }
}

/// The kernel of a notebook.
pub enum Kernel {
    Running(RunningKernel),
    Starting,
    ErroredLaunch(String),
    ShuttingDown,
    Shutdown,
    Restarting,
}

/// What a [`Kernel`] stands for.
#[verifier::ext_equal]
pub enum KernelView {
    Running(RunningKernelView),
    Starting,
    ErroredLaunch(Seq<char>),
    ShuttingDown,
    Shutdown,
    Restarting,
}

impl View for Kernel {
    type V = KernelView;

    open spec fn view(&self) -> KernelView {
        match self {
            Kernel::Running(kernel) => KernelView::Running(kernel@),
            Kernel::Starting => KernelView::Starting,
            Kernel::ErroredLaunch(error) => KernelView::ErroredLaunch(error@),
            Kernel::ShuttingDown => KernelView::ShuttingDown,
            Kernel::Shutdown => KernelView::Shutdown,
            Kernel::Restarting => KernelView::Restarting,
        }
    }
}

impl KernelView {
    /// What the user is told.
    pub open spec fn status(self) -> KernelStatus {
        match self {
            KernelView::Running(kernel) => match kernel.execution_state {
                ExecutionStateView::Idle => KernelStatus::Idle,
                ExecutionStateView::Busy => KernelStatus::Busy,
                ExecutionStateView::Starting => KernelStatus::Starting,
                ExecutionStateView::Restarting => KernelStatus::Restarting,
                ExecutionStateView::AutoRestarting => KernelStatus::Restarting,
                ExecutionStateView::Terminating => KernelStatus::ShuttingDown,
                _ => KernelStatus::Error,
            },
            KernelView::Starting => KernelStatus::Starting,
            KernelView::ErroredLaunch(_) => KernelStatus::Error,
            KernelView::ShuttingDown => KernelStatus::ShuttingDown,
            KernelView::Shutdown => KernelStatus::Shutdown,
            KernelView::Restarting => KernelStatus::Restarting,
        }
    }

    /// The kernel once it has told its state. One that is not running tells none.
    pub open spec fn with_execution_state(self, state: ExecutionStateView) -> KernelView {
        match self {
            KernelView::Running(kernel) => KernelView::Running(
                RunningKernelView { execution_state: state, ..kernel },
            ),
            _ => self,
        }
    }

    /// The kernel once it has told about itself. One that is not running tells nothing.
    pub open spec fn with_kernel_info(self, info: KernelInfoView) -> KernelView {
        match self {
            KernelView::Running(kernel) => KernelView::Running(
                RunningKernelView { kernel_info: Some(info), ..kernel },
            ),
            _ => self,
        }
    }

    /// The kernel once it has been sent a request.
    pub open spec fn with_request(self, request: SentRequest) -> KernelView {
        match self {
            KernelView::Running(kernel) => KernelView::Running(
                RunningKernelView { sent: kernel.sent.push(request), ..kernel },
            ),
            _ => self,
        }
    }

    /// The kernel once its channel has not taken a request.
    pub open spec fn with_refused(self, request: SentRequest) -> KernelView {
        match self {
            KernelView::Running(kernel) => KernelView::Running(
                RunningKernelView { refused: kernel.refused.push(request), ..kernel },
            ),
            _ => self,
        }
    }
}

impl Kernel {
    /// Whether it takes requests.
    pub fn is_running(&self) -> (running: bool)
        ensures
            running == (self@ is Running),
    {
        match self {
            Kernel::Running(_) => true,
            _ => false,
        }
    }

    /// What the user is told.
    pub fn status(&self) -> (status: KernelStatus)
        ensures
            status == self@.status(),
    {
        match self {
            Kernel::Running(kernel) => match kernel.execution_state {
                ExecutionState::Idle => KernelStatus::Idle,
                ExecutionState::Busy => KernelStatus::Busy,
                ExecutionState::Starting => KernelStatus::Starting,
                ExecutionState::Restarting => KernelStatus::Restarting,
                ExecutionState::AutoRestarting => KernelStatus::Restarting,
                ExecutionState::Terminating => KernelStatus::ShuttingDown,
                _ => KernelStatus::Error,
            },
            Kernel::Starting => KernelStatus::Starting,
            Kernel::ErroredLaunch(_) => KernelStatus::Error,
            Kernel::ShuttingDown => KernelStatus::ShuttingDown,
            Kernel::Shutdown => KernelStatus::Shutdown,
            Kernel::Restarting => KernelStatus::Restarting,
        }
    }

    /// Takes note of the state that the kernel told.
    pub fn set_execution_state(&mut self, state: &ExecutionState)
        ensures
            final(self)@ == old(self)@.with_execution_state(state@),
    {
        if let Kernel::Running(kernel) = self {
            kernel.execution_state = state.copy();
        }
    }

    /// Takes note of what the kernel told about itself.
    pub fn set_kernel_info(&mut self, info: &KernelInfo)
        ensures
            final(self)@ == old(self)@.with_kernel_info(info@),
    {
        if let Kernel::Running(kernel) = self {
            kernel.kernel_info = Some(info.copy());
        }
    }

    /// Sends a request, if the kernel runs and its channel takes it. Where the channel does not,
    /// the result says why.
    pub fn send(&mut self, message: jupyter_protocol::JupyterMessage) -> (result: Option<
        Result<(), String>,
    >)
        ensures
            match result {
                None => !(old(self)@ is Running) && final(self)@ == old(self)@,
                Some(Ok(())) => old(self)@ is Running && final(self)@ == old(self)@.with_request(
                    sent_request(message),
                ),
                Some(Err(text)) => old(self)@ is Running && final(self)@ == old(self)@.with_refused(
                    sent_request(message),
                ) && is_refusal(text@),
            },
    {
        match self {
            Kernel::Running(kernel) => Some(kernel.channel.send(message)),
            _ => None,
        }
    }
}

/// The directory in which a kernel is started: the one of the notebook, or else the first one of
/// the project, or else the one for temporary files.
pub open spec fn working_directory<P>(notebook: Option<P>, project: Option<P>, temporary: P) -> P {
    match notebook {
        Some(directory) => directory,
        None => match project {
            Some(directory) => directory,
            None => temporary,
        },
    }
}

/// The directories in which a kernel can be started.
pub struct Directories<P> {
    pub notebook: Option<P>,
    pub project: Option<P>,
    pub temporary: P,
}

impl<P> Directories<P> {
    /// The directory in which a kernel is started.
    pub fn choose_directory(self) -> (directory: P)
        ensures
            directory == working_directory(self.notebook, self.project, self.temporary),
    {
        match self.notebook {
            Some(directory) => directory,
            None => match self.project {
                Some(directory) => directory,
                None => self.temporary,
            },
        }
    }
}

} // verus!
