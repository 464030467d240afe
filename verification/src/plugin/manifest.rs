//! Manifests of plugins.

use crate::plugin::protocol::PLUGIN_PROTOCOL_VERSION;
use crate::text::{
    chars_of, concat, concat3, decimal, decimal_text, is_blank, is_blank_text, quoted, quoted_text,
    same_text,
};
use vstd::prelude::*;

verus! {

/// The version of manifests.
pub const PLUGIN_MANIFEST_VERSION: u32 = 1;

/// The most characters of an identifier.
pub const MAX_PLUGIN_ID_BYTES: usize = 128;

/// How a plugin is started.
#[derive(Debug, PartialEq, Eq)]
pub struct PluginEntrypoint {
    pub command: String,
    pub args: Vec<String>,
}

/// What a [`PluginEntrypoint`] holds.
#[verifier::ext_equal]
pub struct PluginEntrypointView {
    pub command: Seq<char>,
    pub args: Seq<Seq<char>>,
}

impl DeepView for PluginEntrypoint {
    type V = PluginEntrypointView;

    open spec fn deep_view(&self) -> PluginEntrypointView {
        PluginEntrypointView {
            command: self.command.deep_view(),
            args: self.args.deep_view(),
        }
    }
}

impl Clone for PluginEntrypoint {
    fn clone(&self) -> (res: Self)
        ensures
            res.deep_view() == self.deep_view(),
    {
        let res = PluginEntrypoint {
            command: self.command.clone(),
            args: self.args.clone(),
        };
        assert(res.deep_view() =~~= self.deep_view());
        res
    }
}

/// What a plugin says of itself.
#[derive(Debug, PartialEq, Eq)]
pub struct PluginManifest {
    pub manifest_version: u32,
    pub id: String,
    pub name: String,
    pub version: String,
    pub protocol_version: String,
    pub entrypoint: PluginEntrypoint,
}

/// What a [`PluginManifest`] holds.
#[verifier::ext_equal]
pub struct PluginManifestView {
    pub manifest_version: u32,
    pub id: Seq<char>,
    pub name: Seq<char>,
    pub version: Seq<char>,
    pub protocol_version: Seq<char>,
    pub entrypoint: PluginEntrypointView,
}

impl DeepView for PluginManifest {
    type V = PluginManifestView;

    open spec fn deep_view(&self) -> PluginManifestView {
        PluginManifestView {
            manifest_version: self.manifest_version,
            id: self.id.deep_view(),
            name: self.name.deep_view(),
            version: self.version.deep_view(),
            protocol_version: self.protocol_version.deep_view(),
            entrypoint: self.entrypoint.deep_view(),
        }
    }
}

impl Clone for PluginManifest {
    fn clone(&self) -> (res: Self)
        ensures
            res.deep_view() == self.deep_view(),
    {
        let res = PluginManifest {
            manifest_version: self.manifest_version,
            id: self.id.clone(),
            name: self.name.clone(),
            version: self.version.clone(),
            protocol_version: self.protocol_version.clone(),
            entrypoint: self.entrypoint.clone(),
        };
        assert(res.deep_view() =~~= self.deep_view());
        res
    }
}

/// A manifest, with where it stands.
#[derive(Debug, PartialEq, Eq)]
pub struct LoadedPluginManifest {
    pub manifest: PluginManifest,
    pub path: String,
    pub directory: String,
}

/// What a [`LoadedPluginManifest`] holds.
#[verifier::ext_equal]
pub struct LoadedPluginManifestView {
    pub manifest: PluginManifestView,
    pub path: Seq<char>,
    pub directory: Seq<char>,
}

impl DeepView for LoadedPluginManifest {
    type V = LoadedPluginManifestView;

    open spec fn deep_view(&self) -> LoadedPluginManifestView {
        LoadedPluginManifestView {
            manifest: self.manifest.deep_view(),
            path: self.path.deep_view(),
            directory: self.directory.deep_view(),
        }
    }
}

impl Clone for LoadedPluginManifest {
    fn clone(&self) -> (res: Self)
        ensures
            res.deep_view() == self.deep_view(),
    {
        let res = LoadedPluginManifest {
            manifest: self.manifest.clone(),
            path: self.path.clone(),
            directory: self.directory.clone(),
        };
        assert(res.deep_view() =~~= self.deep_view());
        res
    }
}

/// Why a manifest was not taken.
#[derive(Debug, PartialEq, Eq)]
pub enum PluginManifestError {
    /// It could not be read.
    Io { path: String, message: String, not_found: bool },
    /// It could not be parsed.
    Json { path: String, message: String },
    /// It is of another version.
    UnsupportedManifestVersion { path: String, value: u32 },
    /// The plugin speaks another protocol.
    UnsupportedProtocolVersion { path: String, value: String },
    /// It says something that cannot be.
    InvalidField { path: String, field: String, value: String },
}

/// What a [`PluginManifestError`] holds.
#[verifier::ext_equal]
pub enum PluginManifestErrorView {
    Io { path: Seq<char>, message: Seq<char>, not_found: bool },
    Json { path: Seq<char>, message: Seq<char> },
    UnsupportedManifestVersion { path: Seq<char>, value: u32 },
    UnsupportedProtocolVersion { path: Seq<char>, value: Seq<char> },
    InvalidField { path: Seq<char>, field: Seq<char>, value: Seq<char> },
}

impl DeepView for PluginManifestError {
    type V = PluginManifestErrorView;

    open spec fn deep_view(&self) -> PluginManifestErrorView {
        match self {
            PluginManifestError::Io { path, message, not_found } => PluginManifestErrorView::Io {
                path: path.deep_view(),
                message: message.deep_view(),
                not_found: *not_found,
            },
            PluginManifestError::Json { path, message } => PluginManifestErrorView::Json {
                path: path.deep_view(),
                message: message.deep_view(),
            },
            PluginManifestError::UnsupportedManifestVersion { path, value } => PluginManifestErrorView::UnsupportedManifestVersion {
                path: path.deep_view(),
                value: *value,
            },
            PluginManifestError::UnsupportedProtocolVersion { path, value } => PluginManifestErrorView::UnsupportedProtocolVersion {
                path: path.deep_view(),
                value: value.deep_view(),
            },
            PluginManifestError::InvalidField { path, field, value } => PluginManifestErrorView::InvalidField {
                path: path.deep_view(),
                field: field.deep_view(),
                value: value.deep_view(),
            },
        }
    }
}

impl Clone for PluginManifestError {
    fn clone(&self) -> (res: Self)
        ensures
            res.deep_view() == self.deep_view(),
    {
        let res = match self {
            PluginManifestError::Io { path, message, not_found } => PluginManifestError::Io {
                path: path.clone(),
                message: message.clone(),
                not_found: *not_found,
            },
            PluginManifestError::Json { path, message } => PluginManifestError::Json {
                path: path.clone(),
                message: message.clone(),
            },
            PluginManifestError::UnsupportedManifestVersion { path, value } => PluginManifestError::UnsupportedManifestVersion {
                path: path.clone(),
                value: *value,
            },
            PluginManifestError::UnsupportedProtocolVersion { path, value } => PluginManifestError::UnsupportedProtocolVersion {
                path: path.clone(),
                value: value.clone(),
            },
            PluginManifestError::InvalidField { path, field, value } => PluginManifestError::InvalidField {
                path: path.clone(),
                field: field.clone(),
                value: value.clone(),
            },
        };
        assert(res.deep_view() =~~= self.deep_view());
        res
    }
}

/// The message of an error.
pub open spec fn manifest_error_text(error: PluginManifestErrorView) -> Seq<char> {
    match error {
        PluginManifestErrorView::Io { path, message, .. } => "manifest "@ + path + (": "@
            + message),
        PluginManifestErrorView::Json { path, message } => "manifest JSON "@ + path + (": "@
            + message),
        PluginManifestErrorView::UnsupportedManifestVersion { path, value } => "manifest "@ + path
            + (": unsupported manifest version "@ + decimal_text(value as nat)),
        PluginManifestErrorView::UnsupportedProtocolVersion { path, value } => "manifest "@ + path
            + (": unsupported protocol version "@ + value),
        PluginManifestErrorView::InvalidField { path, field, value } => "manifest "@ + path + (
        ": invalid "@ + field + (": "@ + quoted_text(value))),
    }
}

impl PluginManifestError {
    /// The message of the error.
    pub fn to_text(&self) -> (res: String)
        ensures
            res@ == manifest_error_text(self.deep_view()),
    {
        match self {
            PluginManifestError::Io { path, message, .. } => concat3(
                "manifest ",
                path,
                &concat(": ", message),
            ),
            PluginManifestError::Json { path, message } => concat3(
                "manifest JSON ",
                path,
                &concat(": ", message),
            ),
            PluginManifestError::UnsupportedManifestVersion { path, value } => concat3(
                "manifest ",
                path,
                &concat(": unsupported manifest version ", &decimal(*value as u64)),
            ),
            PluginManifestError::UnsupportedProtocolVersion { path, value } => concat3(
                "manifest ",
                path,
                &concat(": unsupported protocol version ", value),
            ),
            PluginManifestError::InvalidField { path, field, value } => concat3(
                "manifest ",
                path,
                &concat3(": invalid ", field, &concat(": ", &quoted(value))),
            ),
        }
    }
}

/// A small letter or a digit of ASCII.
pub open spec fn is_id_start(c: char) -> bool {
    ('a' <= c <= 'z') || ('0' <= c <= '9')
}

/// What an identifier is made of.
pub open spec fn is_id_char(c: char) -> bool {
    is_id_start(c) || c == '.' || c == '-' || c == '_'
}

/// A text can be the identifier of a plugin.
pub open spec fn is_plugin_id(s: Seq<char>) -> bool {
    &&& 0 < s.len() <= MAX_PLUGIN_ID_BYTES
    &&& is_id_start(s[0])
    &&& forall|i: int| 0 <= i < s.len() ==> is_id_char(#[trigger] s[i])
}

/// An identifier names one entry of a directory: it holds no separator, and is no relative
/// reference.
pub proof fn lemma_identifiers_name_one_entry(s: Seq<char>)
    requires
        is_plugin_id(s),
    ensures
        !s.contains('/'),
        !s.contains('\\'),
        s != "."@,
        s != ".."@,
{
    reveal_strlit(".");
    reveal_strlit("..");
    if s.contains('/') {
        let i = choose|i: int| 0 <= i < s.len() && s[i] == '/';
        assert(is_id_char(s[i]));
    }
    if s.contains('\\') {
        let i = choose|i: int| 0 <= i < s.len() && s[i] == '\\';
        assert(is_id_char(s[i]));
    }
}

/// Whether a text can be the identifier of a plugin.
pub fn is_valid_plugin_id(id: &str) -> (res: bool)
    ensures
        res == is_plugin_id(id@),
{
    let chars = chars_of(id);
    if chars.len() == 0 || chars.len() > MAX_PLUGIN_ID_BYTES {
        return false;
    }
    let first = chars[0];
    if !(('a' <= first && first <= 'z') || ('0' <= first && first <= '9')) {
        return false;
    }
    let mut i: usize = 0;
    while i < chars.len()
        invariant
            i <= chars.len(),
            chars@ == id@,
            forall|j: int| 0 <= j < i ==> is_id_char(#[trigger] id@[j]),
        decreases chars.len() - i,
    {
        let c = chars[i];
        let valid = ('a' <= c && c <= 'z') || ('0' <= c && c <= '9') || c == '.' || c == '-' || c
            == '_';
        if !valid {
            assert(!is_id_char(id@[i as int]));
            return false;
        }
        i += 1;
    }
    true
}

/// What is said of a text that can be no identifier.
pub const INVALID_PLUGIN_ID_TEXT: &'static str = "must be 1 to 128 lowercase ASCII letters, digits, dots, hyphens or underscores, starting with a letter or digit";

/// Whether a text can be the identifier of a plugin, or what is wrong with it.
pub fn validate_plugin_id_value(id: &str) -> (res: Result<(), String>)
    ensures
        match res {
            Ok(_) => is_plugin_id(id@),
            Err(message) => !is_plugin_id(id@) && message@ == INVALID_PLUGIN_ID_TEXT@,
        },
{
    if is_valid_plugin_id(id) {
        Ok(())
    } else {
        Err(INVALID_PLUGIN_ID_TEXT.to_owned())
    }
}

/// What is wrong with a manifest, if anything.
pub open spec fn manifest_error(manifest: PluginManifestView, path: Seq<char>) -> Option<
    PluginManifestErrorView,
> {
    if manifest.manifest_version != PLUGIN_MANIFEST_VERSION {
        Some(
            PluginManifestErrorView::UnsupportedManifestVersion {
                path,
                value: manifest.manifest_version,
            },
        )
    } else if manifest.protocol_version != PLUGIN_PROTOCOL_VERSION@ {
        Some(
            PluginManifestErrorView::UnsupportedProtocolVersion {
                path,
                value: manifest.protocol_version,
            },
        )
    } else if !is_plugin_id(manifest.id) {
        Some(PluginManifestErrorView::InvalidField { path, field: "id"@, value: manifest.id })
    } else if is_blank_text(manifest.name) {
        Some(PluginManifestErrorView::InvalidField { path, field: "name"@, value: manifest.name })
    } else if is_blank_text(manifest.version) {
        Some(
            PluginManifestErrorView::InvalidField {
                path,
                field: "version"@,
                value: manifest.version,
            },
        )
    } else if is_blank_text(manifest.entrypoint.command) {
        Some(
            PluginManifestErrorView::InvalidField {
                path,
                field: "entrypoint.command"@,
                value: manifest.entrypoint.command,
            },
        )
    } else {
        None
    }
}

fn invalid_field(path: &str, field: &str, value: &str) -> (res: PluginManifestError)
    ensures
        res.deep_view() == (PluginManifestErrorView::InvalidField {
            path: path@,
            field: field@,
            value: value@,
        }),
{
    PluginManifestError::InvalidField {
        path: path.to_owned(),
        field: field.to_owned(),
        value: value.to_owned(),
    }
}

impl PluginManifest {
    /// Whether the manifest says only what can be; `path` is where it stands.
    pub fn validate(&self, path: &str) -> (res: Result<(), PluginManifestError>)
        ensures
            match (res, manifest_error(self.deep_view(), path@)) {
                (Ok(_), None) => true,
                (Err(error), Some(expected)) => error.deep_view() == expected,
                _ => false,
            },
    {
        if self.manifest_version != PLUGIN_MANIFEST_VERSION {
            return Err(
                PluginManifestError::UnsupportedManifestVersion {
                    path: path.to_owned(),
                    value: self.manifest_version,
                },
            );
        }
        if !same_text(&self.protocol_version, PLUGIN_PROTOCOL_VERSION) {
            return Err(
                PluginManifestError::UnsupportedProtocolVersion {
                    path: path.to_owned(),
                    value: self.protocol_version.clone(),
                },
            );
        }
        if !is_valid_plugin_id(&self.id) {
            return Err(invalid_field(path, "id", &self.id));
        }
        if is_blank(&self.name) {
            return Err(invalid_field(path, "name", &self.name));
        }
        if is_blank(&self.version) {
            return Err(invalid_field(path, "version", &self.version));
        }
        if is_blank(&self.entrypoint.command) {
            return Err(invalid_field(path, "entrypoint.command", &self.entrypoint.command));
        }
        Ok(())
    }
}

/// A manifest that was read and parsed, once it is found to say only what can be; `directory` is
/// where its file stands.
pub fn load_plugin_manifest(manifest: PluginManifest, path: String, directory: String) -> (res:
    Result<LoadedPluginManifest, PluginManifestError>)
    ensures
        match (res, manifest_error(manifest.deep_view(), path@)) {
            (Ok(loaded), None) => loaded.deep_view() == (LoadedPluginManifestView {
                manifest: manifest.deep_view(),
                path: path@,
                directory: directory@,
            }),
            (Err(error), Some(expected)) => error.deep_view() == expected,
            _ => false,
        },
{
    match manifest.validate(&path) {
        Ok(_) => Ok(LoadedPluginManifest { manifest, path, directory }),
        Err(error) => Err(error),
    }
}

} // verus!
