//! What the plugin tells the host about itself, and where it finds the formatter.

use crate::language::{text_view, LanguageVariant};
use crate::text::push_arg;
use vstd::prelude::*;

verus! {

/// What the host is told about the plugin.
#[derive(Debug, Clone, PartialEq, Eq)]
pub struct PluginDetails {
    /// The name of the plugin.
    pub name: String,
    /// The version of the plugin.
    pub version: String,
    /// The key of the plugin's section in the host's configuration.
    pub config_key: String,
    /// The extensions of the files that the plugin formats.
    pub file_extensions: Vec<String>,
    /// Where the plugin's options are explained.
    pub help_url: String,
    /// Where the schema of the plugin's configuration is; empty, as there is none.
    pub config_schema_url: String,
}

/// The key of the plugin's section in the host's configuration.
pub open spec fn config_key() -> Seq<char> {
    "shfmt"@
}

/// The extensions of the files that the plugin formats.
pub open spec fn file_extensions() -> Seq<Seq<char>> {
    seq!["sh"@]
}

/// Where the formatter's options are explained.
pub open spec fn help_url() -> Seq<char> {
    "https://github.com/mvdan/sh/blob/master/cmd/shfmt/shfmt.1.scd#examples"@
}

/// The file name of the formatter's executable.
pub open spec fn tool_name(windows: bool) -> Seq<char> {
    if windows {
        "shfmt.exe"@
    } else {
        "shfmt"@
    }
}

/// What the host is told about the plugin called `name`, in version `version`.
pub fn plugin_details(name: &str, version: &str) -> (details: PluginDetails)
    ensures
        details.name@ == name@,
        details.version@ == version@,
        details.config_key@ == config_key(),
        details.file_extensions.deep_view() == file_extensions(),
        details.help_url@ == help_url(),
        details.config_schema_url@ == Seq::<char>::empty(),
{
    let mut extensions: Vec<String> = Vec::new();
    assert(extensions.deep_view() =~= Seq::<Seq<char>>::empty());
    push_arg(&mut extensions, "sh");
    assert(extensions.deep_view() =~= file_extensions());
    PluginDetails {
        name: name.to_owned(),
        version: version.to_owned(),
        config_key: "shfmt".to_owned(),
        file_extensions: extensions,
        help_url: "https://github.com/mvdan/sh/blob/master/cmd/shfmt/shfmt.1.scd#examples".to_owned(),
        config_schema_url: String::new(),
    }
}

/// The file name of the formatter's executable, which stands beside the plugin's own.
pub fn tool_file_name(windows: bool) -> (name: &'static str)
    ensures
        name@ == tool_name(windows),
{
    if windows {
        "shfmt.exe"
    } else {
        "shfmt"
    }
}

/// The dialect to format a script in: the one that its path and content tell, and
/// the default dialect where they tell none.
pub fn language_of(extension: Option<&str>, content: Option<&str>) -> (language: LanguageVariant)
    ensures
        language == (match LanguageVariant::of_path(text_view(extension), text_view(content)) {
            Some(variant) => variant,
            None => LanguageVariant::Bash,
        }),
{
    match LanguageVariant::from_path(extension, content) {
        Some(variant) => variant,
        None => LanguageVariant::default(),
    }
}

} // verus!
